use vstd::prelude::*;

verus! {

/// One direct child of the cache directory, as listed.
#[derive(Clone, Debug, PartialEq, Eq)]
pub struct CacheEntry {
    /// The entry's name, or `None` where the name is not valid UTF-8.
    pub name: Option<String>,
    /// Whether the entry is a directory.
    pub is_dir: bool,
}

/// Why a pass over the cache directory stopped.
#[derive(Clone, Copy, Debug, PartialEq, Eq, Structural)]
pub enum ReconcileError {
    /// An entry's name could not be decoded, so it cannot be classified.
    NonUtf8Name,
}

/// The deletions that one pass over the cache directory performs, in order,
/// and the error that ends the pass after them, if any.
#[derive(Clone, Debug, PartialEq, Eq)]
pub struct ReconcilePlan {
    pub to_delete: Vec<String>,
    pub error: Option<ReconcileError>,
}

/// `name` is one of the allowed directory names.
pub open spec fn is_known(known: Seq<String>, name: Seq<char>) -> bool {
    exists|j: int| 0 <= j < known.len() && #[trigger] known[j]@ == name
}

/// An entry survives reconciliation: it is a directory with an allowed name.
pub open spec fn keeps(e: CacheEntry, known: Seq<String>) -> bool {
    e.is_dir && match e.name {
        Some(n) => is_known(known, n@),
        None => false,
    }
}

/// Every entry's name could be decoded.
pub open spec fn all_named(entries: Seq<CacheEntry>) -> bool {
    forall|i: int| 0 <= i < entries.len() ==> (#[trigger] entries[i]).name is Some
}

/// No two entries share a name, as in a directory listing.
pub open spec fn unique_names(entries: Seq<CacheEntry>) -> bool {
    forall|i: int, j: int|
        0 <= i < j < entries.len() && (#[trigger] entries[i]).name is Some && (
        #[trigger] entries[j]).name is Some ==> entries[i].name->0@ != entries[j].name->0@
}

/// The entries that reconciliation keeps, in listing order.
pub open spec fn survivors(entries: Seq<CacheEntry>, known: Seq<String>) -> Seq<CacheEntry>
    decreases entries.len(),
{
    if entries.len() == 0 {
        seq![]
    } else {
        let rest = survivors(entries.drop_last(), known);
        if keeps(entries.last(), known) {
            rest.push(entries.last())
        } else {
            rest
        }
    }
}

/// The names of the named entries that reconciliation removes, in listing order.
pub open spec fn deleted_names(entries: Seq<CacheEntry>, known: Seq<String>) -> Seq<Seq<char>>
    decreases entries.len(),
{
    if entries.len() == 0 {
        seq![]
    } else {
        let rest = deleted_names(entries.drop_last(), known);
        let e = entries.last();
        if keeps(e, known) {
            rest
        } else {
            match e.name {
                Some(n) => rest.push(n@),
                None => rest,
            }
        }
    }
}

/// The listing after the entries named in `deleted` are removed recursively.
pub open spec fn remaining(entries: Seq<CacheEntry>, deleted: Seq<Seq<char>>) -> Seq<CacheEntry>
    decreases entries.len(),
{
    if entries.len() == 0 {
        seq![]
    } else {
        let rest = remaining(entries.drop_last(), deleted);
        let e = entries.last();
        if e.name is Some && deleted.contains(e.name->0@) {
            rest
        } else {
            rest.push(e)
        }
    }
}

/// The views of a list of names.
pub open spec fn name_views(names: Seq<String>) -> Seq<Seq<char>> {
    names.map_values(|s: String| s@)
}

/// Whether `name` is one of `known_dir_names`.
pub fn is_known_name(name: &String, known_dir_names: &Vec<String>) -> (r: bool)
    ensures
        r == is_known(known_dir_names@, name@),
{
    let mut j: usize = 0;
    while j < known_dir_names.len()
        invariant
            0 <= j <= known_dir_names.len(),
            forall|k: int| 0 <= k < j ==> known_dir_names@[k]@ != name@,
        decreases known_dir_names.len() - j,
    {
        if known_dir_names[j] == *name {
            return true;
        }
        j = j + 1;
    }
    false
}

/// Plans one pass of pruning over the cache directory's `entries`, in listing
/// order: every entry that is not a directory with a name in
/// `known_dir_names` is deleted. A name that is not UTF-8 ends the pass with
/// an error; the deletions planned before it still take place.
pub fn delete_unknown_disk_state(entries: &Vec<CacheEntry>, known_dir_names: &Vec<String>) -> (r:
    ReconcilePlan)
    ensures
        r.error is None <==> all_named(entries@),
        r.error is None ==> name_views(r.to_delete@) == deleted_names(entries@, known_dir_names@),
        r.error is Some ==> r.error == Some(ReconcileError::NonUtf8Name) && exists|k: int|
            0 <= k < entries@.len() && (#[trigger] entries@[k]).name is None && all_named(
                entries@.take(k),
            ) && name_views(r.to_delete@) == deleted_names(entries@.take(k), known_dir_names@),
{
    let mut to_delete: Vec<String> = Vec::new();
    let mut i: usize = 0;
    while i < entries.len()
        invariant
            0 <= i <= entries.len(),
            all_named(entries@.take(i as int)),
            name_views(to_delete@) == deleted_names(entries@.take(i as int), known_dir_names@),
        decreases entries.len() - i,
    {
        let e = &entries[i];
        proof {
            assert(entries@.take(i + 1).drop_last() =~= entries@.take(i as int));
            assert(entries@.take(i + 1).last() == entries@[i as int]);
        }
        match &e.name {
            None => {
                return ReconcilePlan { to_delete, error: Some(ReconcileError::NonUtf8Name) };
            },
            Some(name) => {
                if !e.is_dir || !is_known_name(name, known_dir_names) {
                    let ghost before = to_delete@;
                    to_delete.push(name.clone());
                    proof {
                        assert(name_views(to_delete@) =~= name_views(before).push(name@));
                    }
                }
            },
        }
        i = i + 1;
        proof {
            assert forall|k: int| 0 <= k < i implies (#[trigger] entries@.take(i as int)[k]).name is Some by {
                if k < i - 1 {
                    assert(entries@.take(i as int)[k] == entries@.take(i - 1)[k]);
                }
            }
        }
    }
    proof {
        assert(entries@.take(i as int) =~= entries@);
    }
    ReconcilePlan { to_delete, error: None }
}

proof fn lemma_survivors_are_kept(entries: Seq<CacheEntry>, known: Seq<String>)
    ensures
        forall|i: int|
            0 <= i < survivors(entries, known).len() ==> keeps(
                #[trigger] survivors(entries, known)[i],
                known,
            ),
        forall|i: int|
            0 <= i < entries.len() && keeps(#[trigger] entries[i], known) ==> survivors(
                entries,
                known,
            ).contains(entries[i]),
    decreases entries.len(),
{
    if entries.len() > 0 {
        let s = entries.drop_last();
        lemma_survivors_are_kept(s, known);
        assert forall|i: int|
            0 <= i < entries.len() && keeps(#[trigger] entries[i], known) implies survivors(
            entries,
            known,
        ).contains(entries[i]) by {
            if i < entries.len() - 1 {
                assert(s[i] == entries[i]);
                let j = choose|j: int| 0 <= j < survivors(s, known).len() && survivors(s, known)[j] == s[i];
                if keeps(entries.last(), known) {
                    assert(survivors(entries, known)[j] == s[i]);
                }
            } else {
                assert(survivors(entries, known).last() == entries[i]);
            }
        }
    }
}

proof fn lemma_deleted_names_come_from_entries(entries: Seq<CacheEntry>, known: Seq<String>, n: Seq<char>)
    requires
        deleted_names(entries, known).contains(n),
    ensures
        exists|i: int|
            0 <= i < entries.len() && (#[trigger] entries[i]).name is Some && entries[i].name->0@
                == n,
    decreases entries.len(),
{
    let s = entries.drop_last();
    let d = deleted_names(s, known);
    if d.contains(n) {
        lemma_deleted_names_come_from_entries(s, known, n);
        let i = choose|i: int| 0 <= i < s.len() && (#[trigger] s[i]).name is Some && s[i].name->0@ == n;
        assert(entries[i] == s[i]);
    } else {
        assert(deleted_names(entries, known) =~= d.push(entries.last().name->0@));
        assert(entries[entries.len() - 1] == entries.last());
    }
}

proof fn lemma_remaining_congruent(entries: Seq<CacheEntry>, d1: Seq<Seq<char>>, d2: Seq<Seq<char>>)
    requires
        forall|i: int|
            0 <= i < entries.len() && (#[trigger] entries[i]).name is Some ==> (d1.contains(
                entries[i].name->0@,
            ) <==> d2.contains(entries[i].name->0@)),
    ensures
        remaining(entries, d1) == remaining(entries, d2),
    decreases entries.len(),
{
    if entries.len() > 0 {
        let s = entries.drop_last();
        assert forall|i: int| 0 <= i < s.len() && (#[trigger] s[i]).name is Some implies (d1.contains(
            s[i].name->0@,
        ) <==> d2.contains(s[i].name->0@)) by {
            assert(s[i] == entries[i]);
        }
        lemma_remaining_congruent(s, d1, d2);
        assert(entries[entries.len() - 1] == entries.last());
    }
}

proof fn lemma_remaining_is_survivors(entries: Seq<CacheEntry>, known: Seq<String>)
    requires
        all_named(entries),
        unique_names(entries),
    ensures
        remaining(entries, deleted_names(entries, known)) == survivors(entries, known),
    decreases entries.len(),
{
    if entries.len() > 0 {
        let s = entries.drop_last();
        let e = entries.last();
        let last = entries.len() - 1;
        assert(entries[last] == e);
        assert forall|i: int| 0 <= i < s.len() implies (#[trigger] s[i]).name is Some by {
            assert(s[i] == entries[i]);
        }
        assert forall|i: int, j: int|
            0 <= i < j < s.len() && (#[trigger] s[i]).name is Some && (#[trigger] s[j]).name is Some
            implies s[i].name->0@ != s[j].name->0@ by {
            assert(s[i] == entries[i]);
            assert(s[j] == entries[j]);
        }
        lemma_remaining_is_survivors(s, known);
        let d = deleted_names(entries, known);
        let ds = deleted_names(s, known);
        let n = e.name->0@;
        assert forall|i: int| 0 <= i < s.len() && (#[trigger] s[i]).name is Some implies (d.contains(
            s[i].name->0@,
        ) <==> ds.contains(s[i].name->0@)) by {
            assert(s[i] == entries[i]);
            assert(entries[i].name->0@ != entries[last].name->0@);
            if !keeps(e, known) {
                assert(d == ds.push(n));
                if d.contains(s[i].name->0@) {
                    let k = choose|k: int| 0 <= k < d.len() && d[k] == s[i].name->0@;
                    if k < ds.len() {
                        assert(ds[k] == d[k]);
                    }
                }
                if ds.contains(s[i].name->0@) {
                    let k = choose|k: int| 0 <= k < ds.len() && ds[k] == s[i].name->0@;
                    assert(d[k] == ds[k]);
                }
            }
        }
        lemma_remaining_congruent(s, d, ds);
        if keeps(e, known) {
            if ds.contains(n) {
                lemma_deleted_names_come_from_entries(s, known, n);
                let i = choose|i: int| 0 <= i < s.len() && (#[trigger] s[i]).name is Some && s[i].name->0@ == n;
                assert(s[i] == entries[i]);
            }
        } else {
            assert(d == ds.push(n));
            assert(d[d.len() - 1] == n);
        }
    }
}

proof fn lemma_all_kept_deletes_nothing(entries: Seq<CacheEntry>, known: Seq<String>)
    requires
        forall|i: int| 0 <= i < entries.len() ==> keeps(#[trigger] entries[i], known),
    ensures
        deleted_names(entries, known) == Seq::<Seq<char>>::empty(),
        remaining(entries, Seq::<Seq<char>>::empty()) == entries,
    decreases entries.len(),
{
    if entries.len() > 0 {
        let s = entries.drop_last();
        assert forall|i: int| 0 <= i < s.len() implies keeps(#[trigger] s[i], known) by {
            assert(s[i] == entries[i]);
        }
        lemma_all_kept_deletes_nothing(s, known);
        assert(keeps(entries[entries.len() - 1], known));
        assert(s.push(entries.last()) =~= entries);
    }
}

proof fn lemma_deleted_names_cover(entries: Seq<CacheEntry>, known: Seq<String>)
    requires
        all_named(entries),
    ensures
        forall|i: int|
            0 <= i < entries.len() && !keeps(#[trigger] entries[i], known) ==> deleted_names(
                entries,
                known,
            ).contains(entries[i].name->0@),
    decreases entries.len(),
{
    if entries.len() > 0 {
        let s = entries.drop_last();
        assert forall|i: int| 0 <= i < s.len() implies (#[trigger] s[i]).name is Some by {
            assert(s[i] == entries[i]);
        }
        lemma_deleted_names_cover(s, known);
        let d = deleted_names(entries, known);
        let ds = deleted_names(s, known);
        let last = entries.len() - 1;
        assert(entries[last] == entries.last());
        assert(entries[last].name is Some);
        assert forall|i: int|
            0 <= i < entries.len() && !keeps(#[trigger] entries[i], known) implies d.contains(
            entries[i].name->0@,
        ) by {
            if i < last {
                assert(s[i] == entries[i]);
                let k = choose|k: int| 0 <= k < ds.len() && ds[k] == s[i].name->0@;
                if !keeps(entries.last(), known) {
                    assert(d == ds.push(entries.last().name->0@));
                    assert(d[k] == ds[k]);
                } else {
                    assert(d == ds);
                }
            } else {
                assert(d == ds.push(entries.last().name->0@));
                assert(d[d.len() - 1] == entries[i].name->0@);
            }
        }
    }
}

proof fn lemma_remaining_only_kept(entries: Seq<CacheEntry>, known: Seq<String>, d: Seq<Seq<char>>)
    requires
        all_named(entries),
        forall|i: int|
            0 <= i < entries.len() && !keeps(#[trigger] entries[i], known) ==> d.contains(
                entries[i].name->0@,
            ),
    ensures
        forall|i: int|
            0 <= i < remaining(entries, d).len() ==> keeps(#[trigger] remaining(entries, d)[i], known),
    decreases entries.len(),
{
    if entries.len() > 0 {
        let s = entries.drop_last();
        assert forall|i: int| 0 <= i < s.len() implies (#[trigger] s[i]).name is Some by {
            assert(s[i] == entries[i]);
        }
        assert forall|i: int| 0 <= i < s.len() && !keeps(#[trigger] s[i], known) implies d.contains(
            s[i].name->0@,
        ) by {
            assert(s[i] == entries[i]);
        }
        lemma_remaining_only_kept(s, known, d);
        let last = entries.len() - 1;
        let e = entries.last();
        assert(entries[last] == e);
        let r = remaining(entries, d);
        let rs = remaining(s, d);
        if !(e.name is Some && d.contains(e.name->0@)) {
            assert(keeps(entries[last], known));
            assert(r == rs.push(e));
            assert forall|i: int| 0 <= i < r.len() implies keeps(#[trigger] r[i], known) by {
                if i < rs.len() {
                    assert(r[i] == rs[i]);
                }
            }
        }
    }
}

proof fn lemma_nothing_kept_deletes_every_name(entries: Seq<CacheEntry>, known: Seq<String>)
    requires
        all_named(entries),
        forall|i: int| 0 <= i < entries.len() ==> !keeps(#[trigger] entries[i], known),
    ensures
        deleted_names(entries, known).len() == entries.len(),
    decreases entries.len(),
{
    if entries.len() > 0 {
        let s = entries.drop_last();
        assert forall|i: int| 0 <= i < s.len() implies (#[trigger] s[i]).name is Some by {
            assert(s[i] == entries[i]);
        }
        assert forall|i: int| 0 <= i < s.len() implies !keeps(#[trigger] s[i], known) by {
            assert(s[i] == entries[i]);
        }
        lemma_nothing_kept_deletes_every_name(s, known);
        let last = entries.len() - 1;
        assert(entries[last] == entries.last());
    }
}

/// After a pass that deletes the planned names from a fully decodable listing,
/// every remaining entry is a directory whose name is allowed, and every entry
/// that is not such a directory is gone.
pub proof fn reconcile_leaves_only_known_dirs(entries: Seq<CacheEntry>, known: Seq<String>)
    requires
        all_named(entries),
    ensures
        ({
            let after = remaining(entries, deleted_names(entries, known));
            &&& forall|i: int| 0 <= i < after.len() ==> keeps(#[trigger] after[i], known)
            &&& forall|i: int|
                0 <= i < entries.len() && !keeps(#[trigger] entries[i], known) ==> !after.contains(
                    entries[i],
                )
        }),
{
    lemma_deleted_names_cover(entries, known);
    lemma_remaining_only_kept(entries, known, deleted_names(entries, known));
}

/// In a listing whose names are distinct, as a directory's are, every
/// directory with an allowed name stays after the pass.
pub proof fn reconcile_keeps_known_dirs(entries: Seq<CacheEntry>, known: Seq<String>)
    requires
        all_named(entries),
        unique_names(entries),
    ensures
        forall|i: int|
            0 <= i < entries.len() && keeps(#[trigger] entries[i], known) ==> remaining(
                entries,
                deleted_names(entries, known),
            ).contains(entries[i]),
{
    lemma_remaining_is_survivors(entries, known);
    lemma_survivors_are_kept(entries, known);
}

/// With no allowed names, a pass over a fully decodable listing deletes every
/// entry and leaves the directory empty.
pub proof fn reconcile_with_no_known_names_deletes_all(entries: Seq<CacheEntry>, known: Seq<String>)
    requires
        known.len() == 0,
        all_named(entries),
    ensures
        deleted_names(entries, known).len() == entries.len(),
        remaining(entries, deleted_names(entries, known)).len() == 0,
{
    assert forall|i: int| 0 <= i < entries.len() implies !keeps(#[trigger] entries[i], known) by {
        if let Some(n) = entries[i].name {
            assert(!is_known(known, n@));
        }
    }
    lemma_nothing_kept_deletes_every_name(entries, known);
    reconcile_leaves_only_known_dirs(entries, known);
    let after = remaining(entries, deleted_names(entries, known));
    if after.len() > 0 {
        assert(keeps(after[0], known));
        if let Some(n) = after[0].name {
            assert(!is_known(known, n@));
        }
    }
}

/// A second pass with the same allowed names, over what the first pass left,
/// deletes nothing: running the pass twice leaves what running it once does.
pub proof fn reconcile_is_idempotent(entries: Seq<CacheEntry>, known: Seq<String>)
    requires
        all_named(entries),
    ensures
        ({
            let after = remaining(entries, deleted_names(entries, known));
            &&& deleted_names(after, known) == Seq::<Seq<char>>::empty()
            &&& remaining(after, deleted_names(after, known)) == after
        }),
{
    reconcile_leaves_only_known_dirs(entries, known);
    lemma_all_kept_deletes_nothing(remaining(entries, deleted_names(entries, known)), known);
}

} // verus!
