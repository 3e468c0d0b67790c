//! Schema migrations: telling which ones a run has newly applied.

use vstd::prelude::*;

verus! {

/// The migrations of `applied` whose version is not among `previous`, in
/// the order of `applied`, each as its version and description.
pub open spec fn newly_applied(previous: Seq<i64>, applied: Seq<(i64, String)>) -> Seq<
    (i64, Seq<char>),
>
    decreases applied.len(),
{
    if applied.len() == 0 {
        Seq::empty()
    } else if previous.contains(applied.last().0) {
        newly_applied(previous, applied.drop_last())
    } else {
        newly_applied(previous, applied.drop_last()).push((applied.last().0, applied.last().1@))
    }
}

/// A list of migrations as versions and descriptions.
pub open spec fn migration_views(list: Seq<(i64, String)>) -> Seq<(i64, Seq<char>)> {
    list.map_values(|m: (i64, String)| (m.0, m.1@))
}

/// Whether `version` is among `versions`.
pub fn has_version(versions: &Vec<i64>, version: i64) -> (found: bool)
    ensures
        found == versions@.contains(version),
{
    let mut i: usize = 0;
    while i < versions.len()
        invariant
            i <= versions@.len(),
            forall|k: int| 0 <= k < i ==> versions@[k] != version,
        decreases versions@.len() - i,
    {
        if versions[i] == version {
            return true;
        }
        i = i + 1;
    }
    false
}

/// The migrations that were applied since `previous` was read: those of
/// `applied` whose version `previous` does not list.
pub fn new_migrations(previous: &Vec<i64>, applied: &Vec<(i64, String)>) -> (fresh: Vec<
    (i64, String),
>)
    ensures
        migration_views(fresh@) == newly_applied(previous@, applied@),
{
    let mut fresh: Vec<(i64, String)> = Vec::new();
    let mut i: usize = 0;
    while i < applied.len()
        invariant
            i <= applied@.len(),
            migration_views(fresh@) == newly_applied(previous@, applied@.take(i as int)),
        decreases applied@.len() - i,
    {
        proof {
            assert(applied@.take(i as int + 1).drop_last() =~= applied@.take(i as int));
        }
        let version: i64 = applied[i].0;
        if !has_version(previous, version) {
            let ghost before = fresh@;
            let entry = (version, applied[i].1.clone());
            fresh.push(entry);
            proof {
                assert(migration_views(fresh@) =~= migration_views(before).push(
                    (version, applied@[i as int].1@),
                ));
            }
        }
        i = i + 1;
    }
    proof {
        assert(applied@.take(i as int) =~= applied@);
    }
    fresh
}

} // verus!
