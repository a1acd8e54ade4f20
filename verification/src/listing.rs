//! Turning what was read of a directory into a sorted listing, and finding
//! an entry in one.

use crate::dir_object::{
    classify, comes_before, entries, same_place_as, DirObject, IntoDirObject, RawEntry,
    RawEntryView,
};
use crate::error_code::{ErrorCode, COULD_NOT_LIST_DIR};
use crate::order::{
    entry_lt, insert_sorted, lemma_entry_le_transitive, lemma_entry_lt_le, lemma_entry_trichotomy,
    lemma_insert_sorted, lemma_insert_sorted_at, same_place, sort_entries, sorted, splits_at,
    Entry,
};
use vstd::prelude::*;

verus! {

/// What was read of a directory: `None` where it could not be read, else
/// its items in the order read, each `None` where the item could not be read.
pub type RawListing = Option<Vec<Option<RawEntry>>>;

/// The plain value of a `RawListing`.
pub type RawListingView = Option<Seq<Option<RawEntryView>>>;

/// The plain value of one item that was read, where it could be read.
pub open spec fn item_view(item: Option<RawEntry>) -> Option<RawEntryView> {
    match item {
        Some(raw) => Some(raw@),
        None => None,
    }
}

/// The plain values of the items that were read.
pub open spec fn items_view(items: Seq<Option<RawEntry>>) -> Seq<Option<RawEntryView>> {
    items.map_values(|item: Option<RawEntry>| item_view(item))
}

/// The plain value of what was read of a directory, where it could be read.
pub open spec fn listing_view(listing: RawListing) -> RawListingView {
    match listing {
        Some(items) => Some(items_view(items@)),
        None => None,
    }
}

/// The entry that an item stands for. An item that could not be read
/// stands for none, nor does one that cannot be classified.
pub open spec fn item_entry(item: Option<RawEntryView>) -> Result<Entry, ErrorCode> {
    match item {
        None => Err(COULD_NOT_LIST_DIR),
        Some(raw) => classify(raw),
    }
}

/// The entries that the items stand for, in the order of the items, or the
/// error of the first item that stands for none.
pub open spec fn collected(items: Seq<Option<RawEntryView>>) -> Result<Seq<Entry>, ErrorCode>
    decreases items.len(),
{
    if items.len() == 0 {
        Ok(Seq::empty())
    } else {
        match collected(items.drop_last()) {
            Err(e) => Err(e),
            Ok(front) => match item_entry(items.last()) {
                Err(e) => Err(e),
                Ok(entry) => Ok(front.push(entry)),
            },
        }
    }
}

/// The listing of a directory: its entries in order, unless the directory
/// or one of its items could not be read or classified.
pub open spec fn listed(listing: RawListingView) -> Result<Seq<Entry>, ErrorCode> {
    match listing {
        None => Err(COULD_NOT_LIST_DIR),
        Some(items) => match collected(items) {
            Err(e) => Err(e),
            Ok(found) => Ok(sort_entries(found)),
        },
    }
}

/// The plain value of the outcome of `read_dir`.
pub open spec fn listing_outcome(r: Result<Vec<DirObject>, ErrorCode>) -> Result<
    Seq<Entry>,
    ErrorCode,
> {
    match r {
        Ok(v) => Ok(entries(v@)),
        Err(e) => Err(e),
    }
}

/// The last index of `s` at which an entry stands in the place of `t`.
pub open spec fn position_of(s: Seq<Entry>, t: Entry) -> Option<int>
    decreases s.len(),
{
    if s.len() == 0 {
        None
    } else if same_place(s.last(), t) {
        Some(s.len() - 1)
    } else {
        position_of(s.drop_last(), t)
    }
}

/// An entry is found at an index of the listing, and stands in the place
/// of what was looked for.
pub proof fn lemma_position_in_range(s: Seq<Entry>, t: Entry)
    ensures
        position_of(s, t) matches Some(i) ==> 0 <= i < s.len() && same_place(s[i], t),
    decreases s.len(),
{
    if s.len() > 0 && !same_place(s.last(), t) {
        lemma_position_in_range(s.drop_last(), t);
    }
}

/// The first item that stands for no entry fails the listing with its
/// error, whatever comes behind it.
pub proof fn lemma_first_failure(items: Seq<Option<RawEntryView>>, k: int, e: ErrorCode)
    requires
        0 <= k < items.len(),
        forall|j: int| 0 <= j < k ==> item_entry(#[trigger] items[j]) is Ok,
        item_entry(items[k]) == Err::<Entry, ErrorCode>(e),
    ensures
        collected(items) == Err::<Seq<Entry>, ErrorCode>(e),
    decreases items.len(),
{
    let front = items.drop_last();
    if k < items.len() - 1 {
        lemma_first_failure(front, k, e);
    } else {
        lemma_no_failure(front);
    }
}

/// Items that all stand for an entry give a listing of as many entries,
/// each the entry of its item.
pub proof fn lemma_no_failure(items: Seq<Option<RawEntryView>>)
    requires
        forall|j: int| 0 <= j < items.len() ==> item_entry(#[trigger] items[j]) is Ok,
    ensures
        collected(items) matches Ok(found) && found.len() == items.len() && forall|j: int|
            0 <= j < items.len() ==> item_entry(items[j]) == Ok::<Entry, ErrorCode>(
                #[trigger] found[j],
            ),
    decreases items.len(),
{
    if items.len() > 0 {
        lemma_no_failure(items.drop_last());
    }
}

/// Once an item has failed, the items behind it change nothing.
proof fn lemma_collected_error(items: Seq<Option<RawEntryView>>, k: int)
    requires
        0 <= k <= items.len(),
        collected(items.take(k)) is Err,
    ensures
        collected(items) == collected(items.take(k)),
    decreases items.len() - k,
{
    if k == items.len() {
        assert(items.take(k) =~= items);
    } else {
        assert(items.drop_last().take(k) =~= items.take(k));
        lemma_collected_error(items.drop_last(), k);
    }
}

/// The index that parts a sorted listing for `target`: `target` comes
/// before no entry in front of it and before every entry from it on.
pub fn upper_bound(contents: &Vec<DirObject>, target: &DirObject) -> (p: usize)
    ensures
        p <= contents@.len(),
        sorted(entries(contents@)) ==> splits_at(entries(contents@), target@, p as int),
{
    let ghost s = entries(contents@);
    let mut lo: usize = 0;
    let mut hi: usize = contents.len();
    while lo < hi
        invariant
            lo <= hi <= contents@.len(),
            s == entries(contents@),
            sorted(s) ==> forall|i: int| 0 <= i < lo ==> !entry_lt(target@, #[trigger] s[i]),
            sorted(s) ==> forall|i: int| hi <= i < s.len() ==> entry_lt(target@, #[trigger] s[i]),
        decreases hi - lo,
    {
        let mid = lo + (hi - lo) / 2;
        if comes_before(target, &contents[mid]) {
            proof {
                if sorted(s) {
                    assert forall|i: int| mid <= i < s.len() implies entry_lt(
                        target@,
                        #[trigger] s[i],
                    ) by {
                        if i > mid {
                            lemma_entry_lt_le(target@, s[mid as int], s[i]);
                        }
                    }
                }
            }
            hi = mid;
        } else {
            proof {
                if sorted(s) {
                    assert forall|i: int| 0 <= i < mid + 1 implies !entry_lt(
                        target@,
                        #[trigger] s[i],
                    ) by {
                        if i < mid {
                            lemma_entry_le_transitive(s[i], s[mid as int], target@);
                        }
                    }
                }
            }
            lo = mid + 1;
        }
    }
    lo
}

/// In a sorted listing, the entry in front of the parting index is the
/// last one that can stand in the place of `t`.
proof fn lemma_position_of(s: Seq<Entry>, t: Entry, p: int)
    requires
        sorted(s),
        splits_at(s, t, p),
    ensures
        position_of(s, t) == if p > 0 && same_place(s[p - 1], t) {
            Some(p - 1)
        } else {
            None
        },
    decreases s.len(),
{
    if s.len() > 0 {
        lemma_entry_trichotomy(s.last(), t);
        if p < s.len() {
            lemma_position_of(s.drop_last(), t, p);
        } else if !same_place(s.last(), t) {
            // the last entry comes before `t`, and so does every entry
            lemma_position_none(s.drop_last(), t);
        }
    }
}

/// Where no entry stands in the place of `t`, none is found.
pub proof fn lemma_position_none(s: Seq<Entry>, t: Entry)
    requires
        forall|i: int| 0 <= i < s.len() ==> !same_place(#[trigger] s[i], t),
    ensures
        position_of(s, t) is None,
    decreases s.len(),
{
    if s.len() > 0 {
        lemma_position_none(s.drop_last(), t);
    }
}

/// Looks for the entry that stands in the place of `target`.
pub fn find_entry(contents: &Vec<DirObject>, target: &DirObject) -> (r: Option<usize>)
    ensures
        r matches Some(i) ==> i < contents@.len() && same_place(contents@[i as int]@, target@),
        sorted(entries(contents@)) ==> position_of(entries(contents@), target@) == match r {
            Some(i) => Some(i as int),
            None => None,
        },
{
    let p = upper_bound(contents, target);
    proof {
        if sorted(entries(contents@)) {
            lemma_position_of(entries(contents@), target@, p as int);
        }
    }
    if p > 0 && same_place_as(&contents[p - 1], target) {
        Some(p - 1)
    } else {
        None
    }
}

/// Puts `object` into a sorted listing, behind the entries that it does
/// not come before.
fn insert_entry(contents: &mut Vec<DirObject>, object: DirObject)
    requires
        sorted(entries(old(contents)@)),
    ensures
        entries(final(contents)@) == insert_sorted(entries(old(contents)@), object@),
        sorted(entries(final(contents)@)),
{
    let p = upper_bound(contents, &object);
    proof {
        lemma_insert_sorted_at(entries(contents@), object@, p as int);
        lemma_insert_sorted(entries(contents@), object@);
    }
    contents.insert(p, object);
}

/// Makes the listing of a directory from what was read of it: `None` where
/// the directory could not be read, else its items, each `None` where the
/// item could not be read. The entries come out in the order of a listing.
pub fn read_dir(listing: RawListing) -> (r: Result<Vec<DirObject>, ErrorCode>)
    ensures
        listing_outcome(r) == listed(listing_view(listing)),
        r matches Ok(v) ==> sorted(entries(v@)),
{
    let items = match listing {
        Some(items) => items,
        None => return Err(COULD_NOT_LIST_DIR),
    };
    let ghost raw = items_view(items@);
    let ghost mut found: Seq<Entry> = Seq::empty();
    let mut vec: Vec<DirObject> = Vec::new();
    let mut i: usize = 0;
    while i < items.len()
        invariant
            i <= items@.len(),
            raw == items_view(items@),
            listing_view(listing) == Some(raw),
            collected(raw.take(i as int)) == Ok::<Seq<Entry>, ErrorCode>(found),
            entries(vec@) == sort_entries(found),
            sorted(entries(vec@)),
        decreases items@.len() - i,
    {
        proof {
            assert(raw.take(i + 1).drop_last() =~= raw.take(i as int));
        }
        match &items[i] {
            None => {
                proof {
                    lemma_collected_error(raw, i + 1);
                }
                return Err(COULD_NOT_LIST_DIR);
            },
            Some(item) => {
                match item.new_dir_object() {
                    Err(e) => {
                        proof {
                            lemma_collected_error(raw, i + 1);
                        }
                        return Err(e);
                    },
                    Ok(object) => {
                        proof {
                            assert(found.push(object@).drop_last() =~= found);
                            found = found.push(object@);
                        }
                        insert_entry(&mut vec, object);
                    },
                }
            },
        }
        i = i + 1;
    }
    proof {
        assert(raw.take(i as int) =~= raw);
    }
    Ok(vec)
}

} // verus!
