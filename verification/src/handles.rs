//! Operations on hash sets and hash maps that are keyed by window handles.

use std::collections::{HashMap, HashSet};
use vstd::prelude::*;
use vstd::std_specs::iter::IteratorSpec;

verus! {

broadcast use vstd::std_specs::hash::group_hash_axioms;

/// The elements of a set of handles, each once, in no particular order.
pub fn handles_of_set(set: &HashSet<isize>) -> (handles: Vec<isize>)
    ensures
        handles@.to_set() == set@,
        handles@.no_duplicates(),
        handles@.len() == set@.len(),
{
    let mut handles: Vec<isize> = Vec::new();
    for k in it: set.iter()
        invariant
            it.seq().unref().to_set() == set@,
            it.seq().no_duplicates(),
            it.seq().len() == set@.len(),
            handles@ == it.seq().unref().take(it.index()),
            it.seq().unref().take(it.seq().len() as int) == it.seq().unref(),
    {
        handles.push(*k);
    }
    handles
}

/// The keys of a map from handles, each once, in no particular order.
pub fn handles_of_map<V>(map: &HashMap<isize, V>) -> (handles: Vec<isize>)
    ensures
        handles@.to_set() == map@.dom(),
        handles@.no_duplicates(),
        handles@.len() == map@.dom().len(),
{
    let mut handles: Vec<isize> = Vec::new();
    for k in it: map.keys()
        invariant
            it.seq().unref().to_set() == map@.dom(),
            it.seq().no_duplicates(),
            it.seq().len() == map@.dom().len(),
            handles@ == it.seq().unref().take(it.index()),
            it.seq().unref().take(it.seq().len() as int) == it.seq().unref(),
    {
        handles.push(*k);
    }
    handles
}

/// Adds every handle of `handles` to `set`.
pub fn insert_handles(set: &mut HashSet<isize>, handles: &Vec<isize>)
    ensures
        final(set)@ == old(set)@.union(handles@.to_set()),
{
    let ghost before = set@;
    let mut i: usize = 0;
    while i < handles.len()
        invariant
            i <= handles.len(),
            forall|h: isize| #[trigger]
                set@.contains(h) <==> before.contains(h) || handles@.take(i as int).contains(h),
        decreases handles.len() - i,
    {
        let ghost earlier = set@;
        set.insert(handles[i]);
        assert forall|h: isize| #[trigger]
            set@.contains(h) <==> before.contains(h) || handles@.take(i + 1).contains(h) by {
            let shorter = handles@.take(i as int);
            let longer = handles@.take(i + 1);
            assert(longer[i as int] == handles@[i as int]);
            if shorter.contains(h) {
                let j = choose|j: int| 0 <= j < shorter.len() && shorter[j] == h;
                assert(longer[j] == h);
            }
            if longer.contains(h) {
                let j = choose|j: int| 0 <= j < longer.len() && longer[j] == h;
                if j < i {
                    assert(shorter[j] == h);
                }
            }
        }
        i += 1;
    }
    assert(handles@.take(handles.len() as int) == handles@);
    assert(set@ =~= before.union(handles@.to_set()));
}

/// A handle occurs in `s` from position `i` on exactly if it stands at `i`
/// or occurs after it; where nothing occurs twice, not both.
proof fn lemma_pending_step(s: Seq<isize>, i: int, h: isize)
    requires
        0 <= i < s.len(),
        s.no_duplicates(),
    ensures
        s.skip(i).contains(h) <==> (s[i] == h || s.skip(i + 1).contains(h)),
        s[i] == h ==> !s.skip(i + 1).contains(h),
{
    let from_here = s.skip(i);
    let after = s.skip(i + 1);
    if from_here.contains(h) {
        let j = choose|j: int| 0 <= j < from_here.len() && from_here[j] == h;
        if j > 0 {
            assert(after[j - 1] == h);
        }
    }
    if after.contains(h) {
        let j = choose|j: int| 0 <= j < after.len() && after[j] == h;
        assert(from_here[j + 1] == h);
        assert(s[i + 1 + j] == h);
    }
    if s[i] == h {
        assert(from_here[0] == h);
    }
}

/// Drops from `set` every handle that `keep` does not hold.
pub fn retain_handles(set: &mut HashSet<isize>, keep: &HashSet<isize>)
    ensures
        final(set)@ == old(set)@.intersect(keep@),
{
    let handles = handles_of_set(set);
    let ghost before = set@;
    let mut i: usize = 0;
    assert(handles@.skip(0) == handles@);
    while i < handles.len()
        invariant
            i <= handles.len(),
            handles@.to_set() == before,
            handles@.no_duplicates(),
            forall|h: isize| #[trigger]
                set@.contains(h) <==> before.contains(h) && (keep@.contains(h)
                    || handles@.skip(i as int).contains(h)),
        decreases handles.len() - i,
    {
        let h = handles[i];
        let ghost earlier = set@;
        if !keep.contains(&h) {
            set.remove(&h);
        }
        assert forall|k: isize| #[trigger]
            set@.contains(k) <==> before.contains(k) && (keep@.contains(k) || handles@.skip(
                i + 1,
            ).contains(k)) by {
            lemma_pending_step(handles@, i as int, k);
            assert(earlier.contains(k) <==> before.contains(k) && (keep@.contains(k)
                || handles@.skip(i as int).contains(k)));
        }
        i += 1;
    }
    assert(set@ =~= before.intersect(keep@));
}

/// Drops from `map` every entry whose key `keep` does not hold.
pub fn retain_keys<V>(map: &mut HashMap<isize, V>, keep: &HashSet<isize>)
    ensures
        final(map)@ == old(map)@.restrict(keep@),
{
    let handles = handles_of_map(map);
    let ghost before = map@;
    let mut i: usize = 0;
    assert(handles@.skip(0) == handles@);
    while i < handles.len()
        invariant
            i <= handles.len(),
            handles@.to_set() == before.dom(),
            handles@.no_duplicates(),
            forall|h: isize| #[trigger]
                map@.contains_key(h) <==> before.contains_key(h) && (keep@.contains(h)
                    || handles@.skip(i as int).contains(h)),
            forall|h: isize| #[trigger] map@.contains_key(h) ==> map@[h] == before[h],
        decreases handles.len() - i,
    {
        let h = handles[i];
        let ghost earlier = map@;
        if !keep.contains(&h) {
            map.remove(&h);
        }
        assert forall|k: isize| #[trigger]
            map@.contains_key(k) <==> before.contains_key(k) && (keep@.contains(k)
                || handles@.skip(i + 1).contains(k)) by {
            lemma_pending_step(handles@, i as int, k);
            assert(earlier.contains_key(k) <==> before.contains_key(k) && (keep@.contains(k)
                || handles@.skip(i as int).contains(k)));
        }
        i += 1;
    }
    assert(map@ =~= before.restrict(keep@));
}

} // verus!
