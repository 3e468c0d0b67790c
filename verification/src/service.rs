//! The services built on the store: scanning a walk into the catalog, and
//! looking up or relabelling a record by the text of its identifier.

use vstd::prelude::*;
use crate::crawl::{crawl_for_media, crawled_from, emitted_paths, WalkEntry};
use crate::ident::{canonical_id, read_id};
use crate::record::{opt_text, Media, MediaView};
use crate::store::{
    alias_updated, batch_applied, found_view, insertable, lemma_insert_then_lookup, lookup,
    Catalog, CatalogError,
};

verus! {

/// What reading an identifier gives, judged by what the parser found: the
/// canonical form, or `InvalidInput` where it found no identifier.
pub open spec fn id_outcome(parsed: Option<Seq<char>>) -> Result<Seq<char>, CatalogError> {
    match parsed {
        Some(id) => Ok(id),
        None => Err(CatalogError::InvalidInput),
    }
}

/// What a lookup by a parsed identifier gives: `InvalidInput` where no
/// identifier was read, else what the store holds under it.
pub open spec fn lookup_outcome(
    store: Map<Seq<char>, MediaView>,
    parsed: Option<Seq<char>>,
) -> Result<MediaView, CatalogError> {
    match parsed {
        Some(id) => lookup(store, id),
        None => Err(CatalogError::InvalidInput),
    }
}

/// What relabelling by a parsed identifier answers.
pub open spec fn relabel_outcome(
    store: Map<Seq<char>, MediaView>,
    parsed: Option<Seq<char>>,
) -> Result<(), CatalogError> {
    match parsed {
        Some(id) => if store.contains_key(id) {
            Ok(())
        } else {
            Err(CatalogError::NotFound)
        },
        None => Err(CatalogError::InvalidInput),
    }
}

/// What relabelling by a parsed identifier makes of the store.
pub open spec fn relabel_effect(
    store: Map<Seq<char>, MediaView>,
    parsed: Option<Seq<char>>,
    alias: Seq<char>,
) -> Map<Seq<char>, MediaView> {
    match parsed {
        Some(id) => alias_updated(store, id, alias),
        None => store,
    }
}

/// The view of a checked identifier.
pub open spec fn id_view(r: Result<String, CatalogError>) -> Result<Seq<char>, CatalogError> {
    match r {
        Ok(id) => Ok(id@),
        Err(e) => Err(e),
    }
}

/// Judges what parsing an identifier gave.
pub fn checked_id(parsed: Option<String>) -> (r: Result<String, CatalogError>)
    ensures
        id_view(r) == id_outcome(opt_text(parsed)),
{
    match parsed {
        Some(id) => Ok(id),
        None => Err(CatalogError::InvalidInput),
    }
}

/// Reads an identifier from `text` and gives its canonical form, the form
/// under which records are filed.
pub fn parse_file_id(text: &str) -> (r: Result<String, CatalogError>)
    ensures
        id_view(r) == id_outcome(canonical_id(text@)),
        r matches Ok(id) ==> canonical_id(id@) == Some(id@),
{
    checked_id(read_id(text))
}

/// Looks up the record filed under an identifier that was already parsed.
pub fn get_media(catalog: &Catalog, parsed: Option<String>) -> (r: Result<Media, CatalogError>)
    requires
        catalog.wf(),
    ensures
        found_view(r) == lookup_outcome(catalog@, opt_text(parsed)),
{
    match parsed {
        Some(id) => catalog.get_by_id(id.as_str()),
        None => Err(CatalogError::InvalidInput),
    }
}

/// Looks up the record whose identifier is written in `file_id`.
pub fn get_media_for_id(catalog: &Catalog, file_id: &str) -> (r: Result<Media, CatalogError>)
    requires
        catalog.wf(),
    ensures
        found_view(r) == lookup_outcome(catalog@, canonical_id(file_id@)),
{
    get_media(catalog, read_id(file_id))
}

/// Sets the label of the record filed under an identifier that was already
/// parsed.
pub fn set_alias(catalog: &mut Catalog, parsed: Option<String>, alias: String) -> (r: Result<
    (),
    CatalogError,
>)
    requires
        old(catalog).wf(),
    ensures
        final(catalog).wf(),
        final(catalog)@ == relabel_effect(old(catalog)@, opt_text(parsed), alias@),
        r == relabel_outcome(old(catalog)@, opt_text(parsed)),
{
    match parsed {
        Some(id) => catalog.update_alias(id.as_str(), alias),
        None => Err(CatalogError::InvalidInput),
    }
}

/// Sets the label of the record whose identifier is written in `file_id`.
pub fn set_alias_for_media(catalog: &mut Catalog, file_id: &str, alias: String) -> (r: Result<
    (),
    CatalogError,
>)
    requires
        old(catalog).wf(),
    ensures
        final(catalog).wf(),
        final(catalog)@ == relabel_effect(old(catalog)@, canonical_id(file_id@), alias@),
        r == relabel_outcome(old(catalog)@, canonical_id(file_id@)),
{
    set_alias(catalog, read_id(file_id), alias)
}

/// Persists the records of a finished crawl as one batch and reports how
/// many were discovered. Where the batch cannot be entered the store is
/// left unchanged and no count is reported.
pub fn persist_scan(catalog: &mut Catalog, found: &Vec<Media>) -> (r: Result<usize, CatalogError>)
    requires
        old(catalog).wf(),
    ensures
        final(catalog).wf(),
        final(catalog)@ == batch_applied(old(catalog)@, found@),
        r == (if insertable(old(catalog)@, found@) {
            Ok::<usize, CatalogError>(found@.len() as usize)
        } else {
            Err::<usize, CatalogError>(CatalogError::PersistenceFailure)
        }),
{
    match catalog.insert_media_collection(found) {
        Ok(()) => Ok(found.len()),
        Err(e) => Err(e),
    }
}

/// Scans the entries of a walk into the catalog: one crawl, then one batch
/// insert. On success the count of discovered files is returned and the
/// store holds, besides what it held, one new record per regular file, all
/// under identifiers that are new and pairwise distinct. On failure the
/// store is unchanged.
pub fn scan_dir_for_media(catalog: &mut Catalog, entries: &Vec<WalkEntry>) -> (r: Result<
    usize,
    CatalogError,
>)
    requires
        old(catalog).wf(),
    ensures
        final(catalog).wf(),
        r matches Ok(count) ==> count == emitted_paths(entries@).len() && exists|batch: Seq<Media>|
            {
                &&& crawled_from(batch, emitted_paths(entries@))
                &&& insertable(old(catalog)@, batch)
                &&& final(catalog)@ == #[trigger] batch_applied(old(catalog)@, batch)
            },
        r is Err ==> {
            &&& r == Err::<usize, CatalogError>(CatalogError::PersistenceFailure)
            &&& final(catalog)@ == old(catalog)@
        },
        emitted_paths(entries@).len() == 0 ==> {
            &&& r == Ok::<usize, CatalogError>(0)
            &&& final(catalog)@ == old(catalog)@
        },
{
    let found = crawl_for_media(entries);
    persist_scan(catalog, &found)
}

/// A record that a scan discovered and persisted is fetched by the text of
/// its own identifier, as it was discovered.
pub proof fn lemma_scanned_record_is_fetched(
    store: Map<Seq<char>, MediaView>,
    batch: Seq<Media>,
    paths: Seq<Seq<char>>,
    i: int,
)
    requires
        crawled_from(batch, paths),
        insertable(store, batch),
        0 <= i < batch.len(),
    ensures
        lookup_outcome(batch_applied(store, batch), canonical_id(batch[i].id@)) == Ok::<
            MediaView,
            CatalogError,
        >(batch[i]@),
        batch[i]@.alias == Some(Seq::<char>::empty()),
{
    lemma_insert_then_lookup(store, batch, i);
    assert(batch[i]@.id == batch[i].id@);
}

/// The answer to a relabelling request, judged by the number of rows that
/// the update touched: none means that no record has the identifier.
pub fn alias_update_outcome(rows_affected: u64) -> (r: Result<(), CatalogError>)
    ensures
        r == (if rows_affected == 0 {
            Err::<(), CatalogError>(CatalogError::NotFound)
        } else {
            Ok::<(), CatalogError>(())
        }),
{
    if rows_affected == 0 {
        Err(CatalogError::NotFound)
    } else {
        Ok(())
    }
}

/// The answer to a scan request: the count of discovered files where the
/// batch was persisted, and a persistence failure where it was not.
pub fn scan_outcome(discovered: usize, persisted: bool) -> (r: Result<usize, CatalogError>)
    ensures
        r == (if persisted {
            Ok::<usize, CatalogError>(discovered)
        } else {
            Err::<usize, CatalogError>(CatalogError::PersistenceFailure)
        }),
{
    if persisted {
        Ok(discovered)
    } else {
        Err(CatalogError::PersistenceFailure)
    }
}

/// The requests that the catalog answers.
#[derive(Clone, Copy, Debug, PartialEq, Eq, Structural)]
pub enum Request {
    /// Scan a directory into the catalog.
    Scan,
    /// Fetch one record.
    Fetch,
    /// Set the label of one record.
    Relabel,
}

/// The HTTP status for a request that succeeded: relabelling answers with
/// no content, the others with a body.
pub open spec fn success_status(request: Request) -> u16 {
    match request {
        Request::Relabel => 204,
        _ => 200,
    }
}

/// The HTTP status for a request that failed. A missing record is 404, and
/// so is an ill-formed identifier on a fetch; other bad input is 400, and a
/// failure of the store is 500.
pub open spec fn failure_status(request: Request, error: CatalogError) -> u16 {
    match error {
        CatalogError::NotFound => 404,
        CatalogError::InvalidInput => if request == Request::Fetch {
            404
        } else {
            400
        },
        CatalogError::PersistenceFailure => 500,
    }
}

/// The HTTP status with which `request` is answered, given how it ended.
pub fn status_code(request: Request, error: Option<CatalogError>) -> (code: u16)
    ensures
        code == (match error {
            None => success_status(request),
            Some(e) => failure_status(request, e),
        }),
{
    match error {
        None => match request {
            Request::Relabel => 204,
            Request::Scan => 200,
            Request::Fetch => 200,
        },
        Some(CatalogError::NotFound) => 404,
        Some(CatalogError::InvalidInput) => match request {
            Request::Fetch => 404,
            Request::Scan => 400,
            Request::Relabel => 400,
        },
        Some(CatalogError::PersistenceFailure) => 500,
    }
}

} // verus!
