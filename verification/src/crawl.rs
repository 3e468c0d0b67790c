//! The crawler: from the entries of a directory walk to media records.
//!
//! The walk itself touches the filesystem and is done by the caller, who
//! hands over one [`WalkEntry`] per entry met. Here each entry is judged,
//! and each regular file becomes a record.

use vstd::prelude::*;
use vstd::std_specs::iter::IteratorSpec;
use vstd::string::StrSliceExecFns;
use crate::ident::{canonical_id, fresh_id};
use crate::record::{discovered, Media};

verus! {

/// What the walk found out about an entry.
#[derive(Clone, Copy, Debug, PartialEq, Eq, Structural)]
pub enum EntryKind {
    /// A regular file, or a link that leads to one.
    RegularFile,
    /// A directory, or a link that leads to one.
    Directory,
    /// Anything else: a socket, a device, a dangling link.
    Other,
    /// An entry that could not be read or examined.
    Unreadable,
}

/// What the crawler does with an entry.
#[derive(Clone, Copy, Debug, PartialEq, Eq, Structural)]
pub enum Decision {
    /// The entry becomes a record.
    Emit,
    /// The entry is passed over; the crawl goes on.
    Skip,
}

/// One entry of a directory walk: its path and what it is.
#[derive(Clone, Debug, PartialEq, Eq)]
pub struct WalkEntry {
    pub path: String,
    pub kind: EntryKind,
}

/// Only regular files are emitted.
pub open spec fn emits(kind: EntryKind) -> bool {
    kind == EntryKind::RegularFile
}

/// The crawl's policy for one entry: regular files are emitted, everything
/// else, unreadable entries included, is skipped. No entry stops the crawl.
pub fn decide(kind: EntryKind) -> (d: Decision)
    ensures
        d == (if emits(kind) { Decision::Emit } else { Decision::Skip }),
{
    match kind {
        EntryKind::RegularFile => Decision::Emit,
        EntryKind::Directory => Decision::Skip,
        EntryKind::Other => Decision::Skip,
        EntryKind::Unreadable => Decision::Skip,
    }
}

/// Where the final component of `path` begins: just behind its last `/`,
/// or at 0 where it has none.
pub open spec fn component_start(path: Seq<char>) -> int
    decreases path.len(),
{
    if path.len() == 0 {
        0
    } else if path.last() == '/' {
        path.len() as int
    } else {
        component_start(path.drop_last())
    }
}

/// The final component of `path`: what stands behind its last `/`.
pub open spec fn final_component(path: Seq<char>) -> Seq<char> {
    path.subrange(component_start(path), path.len() as int)
}

/// The final component is the longest tail of the path that holds no `/`:
/// it is free of separators, and it is either the whole path or preceded
/// by one.
pub proof fn lemma_final_component(path: Seq<char>)
    ensures
        0 <= component_start(path) <= path.len(),
        forall|k: int| component_start(path) <= k < path.len() ==> path[k] != '/',
        component_start(path) > 0 ==> path[component_start(path) - 1] == '/',
        !final_component(path).contains('/'),
    decreases path.len(),
{
    let start = component_start(path);
    if path.len() > 0 && path.last() != '/' {
        let front = path.drop_last();
        lemma_final_component(front);
        assert(start == component_start(front));
        assert forall|k: int| start <= k < path.len() implies path[k] != '/' by {
            if k < front.len() {
                assert(front[k] == path[k]);
            }
        }
        if start > 0 {
            assert(front[start - 1] == path[start - 1]);
        }
    }
    let name = final_component(path);
    assert forall|k: int| 0 <= k < name.len() implies name[k] != '/' by {
        assert(name[k] == path[component_start(path) + k]);
    }
}

/// The base name of `path`: its final component.
pub fn base_name(path: &str) -> (name: String)
    ensures
        name@ == final_component(path@),
{
    let n: usize = path.unicode_len();
    let mut start: usize = 0;
    let mut seen: usize = 0;
    let mut rest = path.chars();
    loop
        invariant
            seen <= n,
            n == path@.len(),
            start <= seen,
            IteratorSpec::remaining(&rest) == path@.skip(seen as int),
            start == component_start(path@.take(seen as int)),
        ensures
            seen == n,
            start == component_start(path@.take(seen as int)),
        decreases n - seen,
    {
        let ghost before = IteratorSpec::remaining(&rest);
        match rest.next() {
            Some(c) => {
                proof {
                    assert(before.len() > 0);
                    assert(c == path@[seen as int]);
                    assert(path@.skip(seen as int).drop_first() =~= path@.skip(seen as int + 1));
                    assert(path@.take(seen as int + 1).drop_last() =~= path@.take(seen as int));
                    assert(path@.take(seen as int + 1).last() == c);
                }
                seen = seen + 1;
                if c == '/' {
                    start = seen;
                }
            },
            None => {
                proof {
                    assert(before.len() == 0);
                }
                break;
            },
        }
    }
    proof {
        assert(path@.take(n as int) =~= path@);
    }
    path.substring_char(start, n).to_owned()
}

/// The paths of the entries that the crawl emits, in the order of the walk.
pub open spec fn emitted_paths(entries: Seq<WalkEntry>) -> Seq<Seq<char>>
    decreases entries.len(),
{
    if entries.len() == 0 {
        Seq::empty()
    } else if emits(entries.last().kind) {
        emitted_paths(entries.drop_last()).push(entries.last().path@)
    } else {
        emitted_paths(entries.drop_last())
    }
}

/// `records` is what a crawl over files at `paths` may yield: one record
/// per path, in order, named by the path's final component, with an empty
/// label and a well-formed identifier.
pub open spec fn crawled_from(records: Seq<Media>, paths: Seq<Seq<char>>) -> bool {
    &&& records.len() == paths.len()
    &&& forall|i: int|
        0 <= i < records.len() ==> {
            &&& #[trigger] records[i]@ == discovered(
                records[i].id@,
                final_component(paths[i]),
                paths[i],
            )
            &&& canonical_id(records[i].id@) == Some(records[i].id@)
        }
}

/// The crawl emits one path per regular file among the entries.
pub proof fn lemma_emitted_count(entries: Seq<WalkEntry>)
    ensures
        emitted_paths(entries).len() == entries.filter(|e: WalkEntry| emits(e.kind)).len(),
    decreases entries.len(),
{
    reveal(Seq::filter);
    if entries.len() > 0 {
        lemma_emitted_count(entries.drop_last());
    }
}

/// A walk that met no regular file, an empty directory for one, emits
/// nothing.
pub proof fn lemma_no_regular_file_no_record(entries: Seq<WalkEntry>)
    requires
        forall|i: int| 0 <= i < entries.len() ==> !emits(#[trigger] entries[i].kind),
    ensures
        emitted_paths(entries).len() == 0,
    decreases entries.len(),
{
    if entries.len() > 0 {
        let front = entries.drop_last();
        assert forall|i: int| 0 <= i < front.len() implies !emits(#[trigger] front[i].kind) by {
            assert(front[i] == entries[i]);
        }
        lemma_no_regular_file_no_record(front);
        assert(!emits(entries[entries.len() - 1].kind));
    }
}

/// A walk that met regular files only emits the path of each, in order.
pub proof fn lemma_regular_files_are_all_emitted(entries: Seq<WalkEntry>)
    requires
        forall|i: int| 0 <= i < entries.len() ==> emits(#[trigger] entries[i].kind),
    ensures
        emitted_paths(entries).len() == entries.len(),
        forall|i: int| 0 <= i < entries.len() ==> #[trigger] emitted_paths(entries)[i] == entries[i].path@,
    decreases entries.len(),
{
    if entries.len() > 0 {
        let front = entries.drop_last();
        assert forall|i: int| 0 <= i < front.len() implies emits(#[trigger] front[i].kind) by {
            assert(front[i] == entries[i]);
        }
        lemma_regular_files_are_all_emitted(front);
        assert(emits(entries[entries.len() - 1].kind));
        assert forall|i: int| 0 <= i < entries.len() implies #[trigger] emitted_paths(entries)[i]
            == entries[i].path@ by {
            if i < front.len() {
                assert(emitted_paths(front)[i] == front[i].path@);
                assert(front[i] == entries[i]);
            }
        }
    }
}

/// Every record of a crawl is named by the final component of its own
/// path, and has an empty label.
pub proof fn lemma_crawled_names(records: Seq<Media>, paths: Seq<Seq<char>>)
    requires
        crawled_from(records, paths),
    ensures
        forall|i: int|
            0 <= i < records.len() ==> (#[trigger] records[i]@).name == final_component(
                records[i]@.path,
            ) && records[i]@.alias == Some(Seq::<char>::empty()),
{
}

/// The record of the regular file at `path`, keyed by `id`.
pub fn record_for(path: &str, id: String) -> (m: Media)
    ensures
        m@ == discovered(id@, final_component(path@), path@),
{
    Media::discovered(id, base_name(path), path.to_owned())
}

/// Turns the entries of a walk into records: one per regular file, in the
/// order of the walk, each with a fresh identifier. Every other entry is
/// skipped, so an empty or unreadable tree gives no records.
pub fn crawl_for_media(entries: &Vec<WalkEntry>) -> (media: Vec<Media>)
    ensures
        crawled_from(media@, emitted_paths(entries@)),
{
    let mut media: Vec<Media> = Vec::new();
    let mut i: usize = 0;
    while i < entries.len()
        invariant
            i <= entries.len(),
            crawled_from(media@, emitted_paths(entries@.take(i as int))),
        decreases entries.len() - i,
    {
        proof {
            assert(entries@.take(i as int + 1).drop_last() =~= entries@.take(i as int));
        }
        let entry = &entries[i];
        match decide(entry.kind) {
            Decision::Emit => {
                let record = record_for(entry.path.as_str(), fresh_id());
                media.push(record);
            },
            Decision::Skip => {},
        }
        i = i + 1;
    }
    proof {
        assert(entries@.take(i as int) =~= entries@);
    }
    media
}

} // verus!
