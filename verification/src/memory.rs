//! The selections that are remembered: for each directory that was left,
//! the index that its cursor was on. They are kept as a list of pairs of a
//! path and an index, in which no path occurs twice.

use vstd::prelude::*;

verus! {

/// The selections that a list of pairs remembers; of two pairs with one
/// path the later one counts.
pub open spec fn remembered(pairs: Seq<(String, usize)>) -> Map<Seq<char>, nat>
    decreases pairs.len(),
{
    if pairs.len() == 0 {
        Map::empty()
    } else {
        remembered(pairs.drop_last()).insert(pairs.last().0@, pairs.last().1 as nat)
    }
}

/// No path occurs twice in a list of pairs.
pub open spec fn distinct_paths(pairs: Seq<(String, usize)>) -> bool {
    forall|i: int, j: int|
        0 <= i < j < pairs.len() ==> (#[trigger] pairs[i]).0@ != (#[trigger] pairs[j]).0@
}

/// A path that none of the pairs holds is not remembered.
proof fn lemma_remembered_absent(pairs: Seq<(String, usize)>, path: Seq<char>)
    requires
        forall|j: int| 0 <= j < pairs.len() ==> (#[trigger] pairs[j]).0@ != path,
    ensures
        !remembered(pairs).contains_key(path),
    decreases pairs.len(),
{
    if pairs.len() > 0 {
        lemma_remembered_absent(pairs.drop_last(), path);
    }
}

/// The last pair that holds a path says what is remembered for it.
proof fn lemma_remembered_last(pairs: Seq<(String, usize)>, path: Seq<char>, i: int)
    requires
        0 <= i < pairs.len(),
        pairs[i].0@ == path,
        forall|j: int| i < j < pairs.len() ==> (#[trigger] pairs[j]).0@ != path,
    ensures
        remembered(pairs).contains_key(path),
        remembered(pairs)[path] == pairs[i].1 as nat,
    decreases pairs.len(),
{
    if i < pairs.len() - 1 {
        lemma_remembered_last(pairs.drop_last(), path, i);
    }
}

/// Replacing the last pair that holds a path changes what is remembered
/// for that path, and nothing else.
proof fn lemma_remembered_update(pairs: Seq<(String, usize)>, i: int, pair: (String, usize))
    requires
        0 <= i < pairs.len(),
        pairs[i].0@ == pair.0@,
        forall|j: int| i < j < pairs.len() ==> (#[trigger] pairs[j]).0@ != pair.0@,
    ensures
        remembered(pairs.update(i, pair)) == remembered(pairs).insert(pair.0@, pair.1 as nat),
    decreases pairs.len(),
{
    let after = pairs.update(i, pair);
    if i == pairs.len() - 1 {
        assert(after.drop_last() =~= pairs.drop_last());
    } else {
        let front = pairs.drop_last();
        lemma_remembered_update(front, i, pair);
        assert(after.drop_last() =~= front.update(i, pair));
    }
}

/// The index of the last pair that holds `path`.
fn last_index_of(prev_selections: &Vec<(String, usize)>, path: &String) -> (r: Option<usize>)
    ensures
        match r {
            Some(i) => {
                &&& i < prev_selections@.len()
                &&& prev_selections@[i as int].0@ == path@
                &&& forall|j: int|
                    i < j < prev_selections@.len() ==> (#[trigger] prev_selections@[j]).0@
                        != path@
            },
            None => forall|j: int|
                0 <= j < prev_selections@.len() ==> (#[trigger] prev_selections@[j]).0@ != path@,
        },
{
    let mut i: usize = prev_selections.len();
    while i > 0
        invariant
            i <= prev_selections@.len(),
            forall|j: int|
                i <= j < prev_selections@.len() ==> (#[trigger] prev_selections@[j]).0@ != path@,
        decreases i,
    {
        i = i - 1;
        if prev_selections[i].0 == *path {
            return Some(i);
        }
    }
    None
}

/// The selection that is remembered for `path`.
pub fn recall(prev_selections: &Vec<(String, usize)>, path: &String) -> (r: Option<usize>)
    ensures
        match r {
            Some(selection) => remembered(prev_selections@).contains_key(path@) && remembered(
                prev_selections@,
            )[path@] == selection,
            None => !remembered(prev_selections@).contains_key(path@),
        },
{
    match last_index_of(prev_selections, path) {
        Some(i) => {
            proof {
                lemma_remembered_last(prev_selections@, path@, i as int);
            }
            Some(prev_selections[i].1)
        },
        None => {
            proof {
                lemma_remembered_absent(prev_selections@, path@);
            }
            None
        },
    }
}

/// Remembers `selection` for `path`, in place of what was remembered for it.
pub fn remember(prev_selections: &mut Vec<(String, usize)>, path: String, selection: usize)
    ensures
        remembered(final(prev_selections)@) == remembered(old(prev_selections)@).insert(
            path@,
            selection as nat,
        ),
        distinct_paths(old(prev_selections)@) ==> distinct_paths(final(prev_selections)@),
{
    match last_index_of(prev_selections, &path) {
        Some(i) => {
            proof {
                lemma_remembered_update(prev_selections@, i as int, (path, selection));
            }
            prev_selections.set(i, (path, selection));
        },
        None => {
            proof {
                assert(prev_selections@.push((path, selection)).drop_last() =~= prev_selections@);
            }
            prev_selections.push((path, selection));
        },
    }
}

/// A copy of the selections that are remembered.
pub fn clone_selections(prev_selections: &Vec<(String, usize)>) -> (r: Vec<(String, usize)>)
    ensures
        r@ == prev_selections@,
{
    let mut r: Vec<(String, usize)> = Vec::new();
    let mut i: usize = 0;
    while i < prev_selections.len()
        invariant
            i <= prev_selections@.len(),
            r@ == prev_selections@.take(i as int),
        decreases prev_selections@.len() - i,
    {
        r.push((prev_selections[i].0.clone(), prev_selections[i].1));
        i = i + 1;
    }
    r
}

} // verus!
