//! The catalog store: media records keyed by identifier.

use vstd::prelude::*;
use crate::record::{relabelled, Media, MediaView};

verus! {

/// Why a catalog operation did not succeed.
#[derive(Clone, Copy, Debug, PartialEq, Eq, Structural)]
pub enum CatalogError {
    /// No record has the identifier that was asked for.
    NotFound,
    /// The text given for an identifier denotes none.
    InvalidInput,
    /// The store refused a write; nothing was changed.
    PersistenceFailure,
}

/// A batch can be inserted into `store` when none of its identifiers is
/// taken there and no two of its records share one.
pub open spec fn insertable(store: Map<Seq<char>, MediaView>, batch: Seq<Media>) -> bool {
    &&& forall|i: int| 0 <= i < batch.len() ==> !store.contains_key(#[trigger] batch[i].id@)
    &&& forall|i: int, j: int|
        0 <= i < j < batch.len() ==> #[trigger] batch[i].id@ != #[trigger] batch[j].id@
}

/// `store` after every record of `batch` has been entered under its
/// identifier, first to last.
pub open spec fn with_batch(store: Map<Seq<char>, MediaView>, batch: Seq<Media>) -> Map<
    Seq<char>,
    MediaView,
>
    decreases batch.len(),
{
    if batch.len() == 0 {
        store
    } else {
        with_batch(store, batch.drop_last()).insert(batch.last().id@, batch.last()@)
    }
}

/// What a batch insert makes of `store`: the batch is entered whole where
/// it can be, and otherwise nothing changes.
pub open spec fn batch_applied(store: Map<Seq<char>, MediaView>, batch: Seq<Media>) -> Map<
    Seq<char>,
    MediaView,
> {
    if insertable(store, batch) {
        with_batch(store, batch)
    } else {
        store
    }
}

/// What a lookup of `id` in `store` gives.
pub open spec fn lookup(store: Map<Seq<char>, MediaView>, id: Seq<char>) -> Result<
    MediaView,
    CatalogError,
> {
    if store.contains_key(id) {
        Ok(store[id])
    } else {
        Err(CatalogError::NotFound)
    }
}

/// What setting the label of `id` to `alias` makes of `store`: the record
/// filed under `id` gets the label, and a store without such a record stays
/// as it is.
pub open spec fn alias_updated(
    store: Map<Seq<char>, MediaView>,
    id: Seq<char>,
    alias: Seq<char>,
) -> Map<Seq<char>, MediaView> {
    if store.contains_key(id) {
        store.insert(id, relabelled(store[id], alias))
    } else {
        store
    }
}

/// The view of a lookup's result.
pub open spec fn found_view(r: Result<Media, CatalogError>) -> Result<MediaView, CatalogError> {
    match r {
        Ok(m) => Ok(m@),
        Err(e) => Err(e),
    }
}

/// A batch that can be inserted leaves every record that was there in
/// place, adds exactly its own identifiers, and files each of its records
/// under its identifier.
pub proof fn lemma_with_batch(store: Map<Seq<char>, MediaView>, batch: Seq<Media>)
    requires
        insertable(store, batch),
    ensures
        forall|id: Seq<char>|
            store.contains_key(id) ==> #[trigger] with_batch(store, batch).contains_key(id)
                && with_batch(store, batch)[id] == store[id],
        forall|i: int|
            0 <= i < batch.len() ==> with_batch(store, batch).contains_key(
                #[trigger] batch[i].id@,
            ) && with_batch(store, batch)[batch[i].id@] == batch[i]@,
        forall|id: Seq<char>| #[trigger]
            with_batch(store, batch).contains_key(id) ==> store.contains_key(id) || exists|i: int|
                keyed_at(batch, i, id),
    decreases batch.len(),
{
    if batch.len() > 0 {
        let front = batch.drop_last();
        let last = batch.last();
        assert forall|i: int| 0 <= i < front.len() implies !store.contains_key(
            #[trigger] front[i].id@,
        ) by {
            assert(front[i] == batch[i]);
        }
        assert forall|i: int, j: int| 0 <= i < j < front.len() implies #[trigger] front[i].id@
            != #[trigger] front[j].id@ by {
            assert(front[i] == batch[i] && front[j] == batch[j]);
        }
        lemma_with_batch(store, front);
        let whole = with_batch(store, batch);
        assert(whole == with_batch(store, front).insert(last.id@, last@));
        assert forall|id: Seq<char>| store.contains_key(id) implies #[trigger] whole.contains_key(
            id,
        ) && whole[id] == store[id] by {
            assert(last == batch[batch.len() - 1]);
            assert(id != last.id@);
        }
        assert forall|i: int| 0 <= i < batch.len() implies whole.contains_key(
            #[trigger] batch[i].id@,
        ) && whole[batch[i].id@] == batch[i]@ by {
            if i < front.len() {
                assert(front[i] == batch[i]);
                assert(last == batch[batch.len() - 1]);
                assert(batch[i].id@ != last.id@);
            }
        }
        assert forall|id: Seq<char>| #[trigger] whole.contains_key(id) implies store.contains_key(
            id,
        ) || exists|i: int| keyed_at(batch, i, id) by {
            if id == last.id@ {
                assert(keyed_at(batch, batch.len() - 1, id));
            } else if !store.contains_key(id) {
                let i = choose|i: int| keyed_at(front, i, id);
                assert(keyed_at(batch, i, id));
            }
        }
    }
}

/// The records of a batch that was inserted carry identifiers that are
/// pairwise distinct and that the store did not hold before.
pub proof fn lemma_inserted_ids_are_new_and_distinct(
    store: Map<Seq<char>, MediaView>,
    batch: Seq<Media>,
    i: int,
    j: int,
)
    requires
        insertable(store, batch),
        0 <= i < batch.len(),
        0 <= j < batch.len(),
        i != j,
    ensures
        batch[i].id@ != batch[j].id@,
        !store.contains_key(batch[i].id@),
{
    if i < j {
        assert(batch[i].id@ != batch[j].id@);
    } else {
        assert(batch[j].id@ != batch[i].id@);
    }
}

/// After a batch insert that succeeded, a lookup of each record of the
/// batch gives that record, as it stood in the batch.
pub proof fn lemma_insert_then_lookup(store: Map<Seq<char>, MediaView>, batch: Seq<Media>, i: int)
    requires
        insertable(store, batch),
        0 <= i < batch.len(),
    ensures
        lookup(batch_applied(store, batch), batch[i].id@) == Ok::<MediaView, CatalogError>(
            batch[i]@,
        ),
{
    lemma_with_batch(store, batch);
}

/// A batch with an identifier that the store already holds, or with one
/// identifier twice, is not applied: the store stays exactly as it was.
pub proof fn lemma_colliding_batch_is_refused(
    store: Map<Seq<char>, MediaView>,
    batch: Seq<Media>,
    i: int,
    j: int,
)
    requires
        0 <= i < batch.len(),
        store.contains_key(batch[i].id@) || (0 <= j < batch.len() && i != j && batch[i].id@
            == batch[j].id@),
    ensures
        !insertable(store, batch),
        batch_applied(store, batch) == store,
{
    if !store.contains_key(batch[i].id@) {
        if i < j {
            assert(batch[i].id@ == batch[j].id@);
        } else {
            assert(batch[j].id@ == batch[i].id@);
        }
    }
}

/// Two batches inserted one after the other, both with success, share no
/// identifier.
pub proof fn lemma_successive_batches_are_disjoint(
    store: Map<Seq<char>, MediaView>,
    first: Seq<Media>,
    second: Seq<Media>,
    i: int,
    j: int,
)
    requires
        insertable(store, first),
        insertable(batch_applied(store, first), second),
        0 <= i < first.len(),
        0 <= j < second.len(),
    ensures
        first[i].id@ != second[j].id@,
{
    lemma_with_batch(store, first);
}

/// After the label of a record was set, a lookup gives the record with that
/// label and everything else as before; every other record is untouched,
/// and setting the same label again changes nothing.
pub proof fn lemma_update_then_lookup(
    store: Map<Seq<char>, MediaView>,
    id: Seq<char>,
    alias: Seq<char>,
)
    requires
        store.contains_key(id),
    ensures
        lookup(alias_updated(store, id, alias), id) == Ok::<MediaView, CatalogError>(
            relabelled(store[id], alias),
        ),
        alias_updated(store, id, alias)[id].alias == Some(alias),
        alias_updated(store, id, alias).dom() == store.dom(),
        forall|other: Seq<char>|
            other != id && store.contains_key(other) ==> #[trigger] alias_updated(
                store,
                id,
                alias,
            )[other] == store[other],
        alias_updated(alias_updated(store, id, alias), id, alias) == alias_updated(
            store,
            id,
            alias,
        ),
{
    let once = alias_updated(store, id, alias);
    assert(once.dom() =~= store.dom());
    assert(alias_updated(once, id, alias) =~= once);
}

/// Setting a label under an identifier that the store does not hold finds
/// nothing and leaves the store unchanged.
pub proof fn lemma_update_of_missing_changes_nothing(
    store: Map<Seq<char>, MediaView>,
    id: Seq<char>,
    alias: Seq<char>,
)
    requires
        !store.contains_key(id),
    ensures
        alias_updated(store, id, alias) == store,
        lookup(store, id) == Err::<MediaView, CatalogError>(CatalogError::NotFound),
{
}

/// A record of `records` at index `i` has the identifier `id`.
pub open spec fn keyed_at(records: Seq<Media>, i: int, id: Seq<char>) -> bool {
    0 <= i < records.len() && records[i].id@ == id
}

/// A keyed collection of media records. Its view is the mapping from
/// identifier to record.
pub struct Catalog {
    records: Vec<Media>,
    model: Ghost<Map<Seq<char>, MediaView>>,
}

impl View for Catalog {
    type V = Map<Seq<char>, MediaView>;

    closed spec fn view(&self) -> Map<Seq<char>, MediaView> {
        self.model@
    }
}

impl Catalog {
    /// The store is coherent: every record is filed under its own
    /// identifier, and no identifier is used twice.
    pub closed spec fn wf(&self) -> bool {
        &&& forall|i: int|
            0 <= i < self.records@.len() ==> {
                &&& self.model@.contains_key(#[trigger] self.records@[i].id@)
                &&& self.model@[self.records@[i].id@] == self.records@[i]@
            }
        &&& forall|id: Seq<char>| #[trigger]
            self.model@.contains_key(id) ==> exists|i: int| keyed_at(self.records@, i, id)
        &&& forall|i: int, j: int|
            0 <= i < j < self.records@.len() ==> #[trigger] self.records@[i].id@
                != #[trigger] self.records@[j].id@
        &&& self.model@.dom().finite()
        &&& self.model@.len() == self.records@.len()
    }

    /// In a coherent store each record carries the identifier it is filed
    /// under.
    pub proof fn lemma_keyed_by_id(&self, id: Seq<char>)
        requires
            self.wf(),
            self@.contains_key(id),
        ensures
            self@[id].id == id,
    {
        let i = choose|i: int| keyed_at(self.records@, i, id);
        assert(keyed_at(self.records@, i, id));
    }

    /// An empty store.
    pub fn new() -> (c: Catalog)
        ensures
            c.wf(),
            c@ == Map::<Seq<char>, MediaView>::empty(),
    {
        Catalog { records: Vec::new(), model: Ghost(Map::empty()) }
    }

    /// The number of records in the store.
    pub fn len(&self) -> (n: usize)
        requires
            self.wf(),
        ensures
            n == self@.len(),
    {
        self.records.len()
    }

    /// Where the record with identifier `id` stands, if there is one.
    fn position(&self, id: &String) -> (r: Option<usize>)
        ensures
            r matches Some(i) ==> keyed_at(self.records@, i as int, id@),
            r is None ==> forall|i: int| !keyed_at(self.records@, i, id@),
    {
        let mut i: usize = 0;
        while i < self.records.len()
            invariant
                i <= self.records@.len(),
                forall|k: int| 0 <= k < i ==> !keyed_at(self.records@, k, id@),
            decreases self.records@.len() - i,
        {
            if self.records[i].id == *id {
                return Some(i);
            }
            i = i + 1;
        }
        None
    }

    /// Looks up the record with identifier `id`.
    pub fn get_by_id(&self, id: &str) -> (r: Result<Media, CatalogError>)
        requires
            self.wf(),
        ensures
            found_view(r) == lookup(self@, id@),
    {
        let key: String = id.to_owned();
        match self.position(&key) {
            Some(i) => Ok(self.records[i].duplicate()),
            None => Err(CatalogError::NotFound),
        }
    }

    /// Sets the label of the record with identifier `id`. Where there is no
    /// such record the store is left as it was.
    pub fn update_alias(&mut self, id: &str, alias: String) -> (r: Result<(), CatalogError>)
        requires
            old(self).wf(),
        ensures
            final(self).wf(),
            final(self)@ == alias_updated(old(self)@, id@, alias@),
            r == (if old(self)@.contains_key(id@) {
                Ok::<(), CatalogError>(())
            } else {
                Err::<(), CatalogError>(CatalogError::NotFound)
            }),
    {
        let key: String = id.to_owned();
        match self.position(&key) {
            Some(i) => {
                let changed = self.records[i].with_alias(alias);
                let ghost entry = changed@;
                self.records.set(i, changed);
                proof {
                    self.model@ = self.model@.insert(id@, entry);
                    assert forall|k: Seq<char>| #[trigger]
                        self.model@.contains_key(k) implies exists|j: int|
                        keyed_at(self.records@, j, k) by {
                        if k == id@ {
                            assert(keyed_at(self.records@, i as int, k));
                        } else {
                            let j = choose|j: int| keyed_at(old(self).records@, j, k);
                            assert(keyed_at(self.records@, j, k));
                        }
                    }
                }
                Ok(())
            },
            None => Err(CatalogError::NotFound),
        }
    }

    /// Enters all records of `media`, or none. The batch is applied where
    /// every identifier in it is new to the store and occurs once in the
    /// batch; otherwise the store is left exactly as it was.
    pub fn insert_media_collection(&mut self, media: &Vec<Media>) -> (r: Result<(), CatalogError>)
        requires
            old(self).wf(),
        ensures
            final(self).wf(),
            final(self)@ == batch_applied(old(self)@, media@),
            r == (if insertable(old(self)@, media@) {
                Ok::<(), CatalogError>(())
            } else {
                Err::<(), CatalogError>(CatalogError::PersistenceFailure)
            }),
    {
        let before: usize = self.records.len();
        let mut i: usize = 0;
        while i < media.len()
            invariant
                i <= media@.len(),
                before == old(self).records@.len(),
                old(self).wf(),
                self.wf(),
                self.records@.len() == before + i,
                forall|k: int| 0 <= k < before ==> self.records@[k] == old(self).records@[k],
                forall|k: int| 0 <= k < i ==> (#[trigger] self.records@[before + k]).id@ == media@[k].id@,
                forall|id: Seq<char>| old(self)@.contains_key(id) ==> self@.contains_key(id),
                insertable(old(self)@, media@.take(i as int)),
                self@ == with_batch(old(self)@, media@.take(i as int)),
            decreases media@.len() - i,
        {
            let item = &media[i];
            match self.position(&item.id) {
                Some(p) => {
                    proof {
                        if p < before {
                            assert(old(self).records@[p as int].id@ == media@[i as int].id@);
                            assert(old(self)@.contains_key(media@[i as int].id@));
                        } else {
                            assert(self.records@[before + (p - before)].id@ == media@[p - before].id@);
                            assert(media@[p - before].id@ == media@[i as int].id@);
                        }
                        assert(!insertable(old(self)@, media@));
                    }
                    self.records.truncate(before);
                    proof {
                        self.model@ = old(self).model@;
                        assert(self.records@ =~= old(self).records@);
                    }
                    return Err(CatalogError::PersistenceFailure);
                },
                None => {
                    let copy = item.duplicate();
                    let ghost shown = self.records@;
                    let ghost filed = self.model@;
                    proof {
                        assert(!filed.contains_key(item.id@)) by {
                            if filed.contains_key(item.id@) {
                                let j = choose|j: int| keyed_at(shown, j, item.id@);
                                assert(keyed_at(shown, j, item.id@));
                            }
                        }
                        self.model@ = filed.insert(copy.id@, copy@);
                        assert(media@.take(i as int + 1).drop_last() =~= media@.take(i as int));
                    }
                    self.records.push(copy);
                    proof {
                        let next = media@.take(i as int + 1);
                        assert forall|k: Seq<char>| #[trigger]
                            self.model@.contains_key(k) implies exists|j: int|
                            keyed_at(self.records@, j, k) by {
                            if k == item.id@ {
                                assert(keyed_at(self.records@, before + i, k));
                            } else {
                                let j = choose|j: int| keyed_at(shown, j, k);
                                assert(keyed_at(self.records@, j, k));
                            }
                        }
                        assert forall|a: int, b: int|
                            0 <= a < b < self.records@.len() implies #[trigger] self.records@[a].id@
                            != #[trigger] self.records@[b].id@ by {
                            if b == before + i {
                                assert(!keyed_at(shown, a, item.id@));
                            }
                        }
                        assert forall|a: int, b: int| 0 <= a < b < next.len() implies #[trigger] next[a].id@
                            != #[trigger] next[b].id@ by {
                            if b == i {
                                assert(!keyed_at(shown, before + a, item.id@));
                                assert(shown[before + a].id@ == media@[a].id@);
                            } else {
                                assert(media@.take(i as int)[a].id@ != media@.take(i as int)[b].id@);
                            }
                        }
                        assert forall|a: int| 0 <= a < next.len() implies !old(self)@.contains_key(
                            #[trigger] next[a].id@,
                        ) by {
                            if a < i {
                                assert(!old(self)@.contains_key(media@.take(i as int)[a].id@));
                            }
                        }
                    }
                },
            }
            i = i + 1;
        }
        proof {
            assert(media@.take(i as int) =~= media@);
        }
        Ok(())
    }
}

} // verus!
