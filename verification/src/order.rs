//! The order of a listing, stated over plain values, and the laws it obeys.
//!
//! Directories come before everything else. Within directories, and within
//! the rest, a name without a leading dot comes before a name with one, and
//! two names of the same sort are ordered by their characters: the first
//! character in which they differ decides, and a name comes before every
//! longer name that it begins.

use vstd::prelude::*;
use vstd::utf8::char_u32_cast;

verus! {

/// What a directory entry is.
pub enum Kind {
    Dir,
    File,
    Unknown,
}

/// The plain value of one directory entry.
#[verifier::ext_equal]
pub struct Entry {
    pub kind: Kind,
    pub name: Seq<char>,
    pub path: Seq<char>,
}

/// The lexicographic order of names by their characters, a character being
/// the smaller the sooner it comes in Unicode.
pub open spec fn chars_lt(a: Seq<char>, b: Seq<char>) -> bool
    decreases a.len(),
{
    if b.len() == 0 {
        false
    } else if a.len() == 0 {
        true
    } else if a[0] != b[0] {
        (a[0] as u32) < (b[0] as u32)
    } else {
        chars_lt(a.drop_first(), b.drop_first())
    }
}

/// Whether a name begins with a dot.
pub open spec fn dotted(name: Seq<char>) -> bool {
    name.len() > 0 && name[0] == '.'
}

/// The order of names: a name without a leading dot comes before one
/// with it; two names of the same sort go by their characters.
pub open spec fn name_lt(a: Seq<char>, b: Seq<char>) -> bool {
    if dotted(a) != dotted(b) {
        dotted(b)
    } else {
        chars_lt(a, b)
    }
}

/// The order of entries: a directory comes before anything that is none;
/// two directories, or two of the rest, go by their names.
pub open spec fn entry_lt(a: Entry, b: Entry) -> bool {
    if (a.kind is Dir) != (b.kind is Dir) {
        a.kind is Dir
    } else {
        name_lt(a.name, b.name)
    }
}

/// Two entries that the order cannot tell apart: both are directories or
/// neither is, and they bear the same name.
pub open spec fn same_place(a: Entry, b: Entry) -> bool {
    (a.kind is Dir) == (b.kind is Dir) && a.name == b.name
}

/// A listing in which no entry comes before an earlier one.
pub open spec fn sorted(s: Seq<Entry>) -> bool {
    forall|i: int, j: int| 0 <= i < j < s.len() ==> !entry_lt(#[trigger] s[j], #[trigger] s[i])
}

/// Of two names at most one comes before the other by its characters.
proof fn lemma_chars_asymmetric(a: Seq<char>, b: Seq<char>)
    ensures
        !(chars_lt(a, b) && chars_lt(b, a)),
    decreases a.len(),
{
    if a.len() > 0 && b.len() > 0 && a[0] == b[0] {
        lemma_chars_asymmetric(a.drop_first(), b.drop_first());
    }
}

/// The order of names by their characters is transitive.
proof fn lemma_chars_transitive(a: Seq<char>, b: Seq<char>, c: Seq<char>)
    requires
        chars_lt(a, b),
        chars_lt(b, c),
    ensures
        chars_lt(a, c),
    decreases a.len(),
{
    if a.len() > 0 && b.len() > 0 && c.len() > 0 {
        char_u32_cast(a[0], a[0] as u32);
        char_u32_cast(b[0], b[0] as u32);
        char_u32_cast(c[0], c[0] as u32);
        if a[0] == b[0] && b[0] == c[0] {
            lemma_chars_transitive(a.drop_first(), b.drop_first(), c.drop_first());
        }
    }
}

/// Two names of which neither comes before the other by its characters
/// are the same name.
proof fn lemma_chars_connected(a: Seq<char>, b: Seq<char>)
    requires
        !chars_lt(a, b),
        !chars_lt(b, a),
    ensures
        a == b,
    decreases a.len(),
{
    if a.len() > 0 && b.len() > 0 {
        char_u32_cast(a[0], a[0] as u32);
        char_u32_cast(b[0], b[0] as u32);
        lemma_chars_connected(a.drop_first(), b.drop_first());
        assert(b =~= seq![b[0]] + b.drop_first());
    }
}

/// Of two names exactly one holds: the first comes before the second, the
/// second before the first, or they are the same name.
pub proof fn lemma_name_trichotomy(a: Seq<char>, b: Seq<char>)
    ensures
        name_lt(a, b) || name_lt(b, a) || a == b,
        !(name_lt(a, b) && name_lt(b, a)),
        a == b ==> !name_lt(a, b) && !name_lt(b, a),
{
    lemma_chars_asymmetric(a, b);
    if !chars_lt(a, b) && !chars_lt(b, a) {
        lemma_chars_connected(a, b);
    }
}

/// The order of names is transitive.
pub proof fn lemma_name_transitive(a: Seq<char>, b: Seq<char>, c: Seq<char>)
    requires
        name_lt(a, b),
        name_lt(b, c),
    ensures
        name_lt(a, c),
{
    if dotted(a) == dotted(b) && dotted(b) == dotted(c) {
        lemma_chars_transitive(a, b, c);
    }
}

/// The order of entries is total: of two entries exactly one holds, the
/// first comes before the second, the second before the first, or the two
/// are of the same class and bear the same name.
pub proof fn lemma_entry_trichotomy(a: Entry, b: Entry)
    ensures
        entry_lt(a, b) || entry_lt(b, a) || same_place(a, b),
        !(entry_lt(a, b) && entry_lt(b, a)),
        !(entry_lt(a, b) && same_place(a, b)),
        !(entry_lt(b, a) && same_place(a, b)),
{
    lemma_name_trichotomy(a.name, b.name);
}

/// The order of entries is transitive.
pub proof fn lemma_entry_transitive(a: Entry, b: Entry, c: Entry)
    requires
        entry_lt(a, b),
        entry_lt(b, c),
    ensures
        entry_lt(a, c),
{
    if (a.kind is Dir) == (b.kind is Dir) && (b.kind is Dir) == (c.kind is Dir) {
        lemma_name_transitive(a.name, b.name, c.name);
    }
}

/// What decides the order of two entries, in turn: every directory comes
/// before every entry that is none; within a class a name without a leading
/// dot comes before a name with one; otherwise the characters of the names
/// decide.
pub proof fn lemma_entry_order_rule(a: Entry, b: Entry)
    ensures
        a.kind is Dir && !(b.kind is Dir) ==> entry_lt(a, b) && !entry_lt(b, a),
        (a.kind is Dir) == (b.kind is Dir) && !dotted(a.name) && dotted(b.name) ==> entry_lt(a, b)
            && !entry_lt(b, a),
        (a.kind is Dir) == (b.kind is Dir) && dotted(a.name) == dotted(b.name) ==> entry_lt(a, b)
            == chars_lt(a.name, b.name),
{
}

/// If `b` does not come before `a`, and `c` does not come before `b`, then
/// `c` does not come before `a`.
pub proof fn lemma_entry_le_transitive(a: Entry, b: Entry, c: Entry)
    requires
        !entry_lt(b, a),
        !entry_lt(c, b),
    ensures
        !entry_lt(c, a),
{
    lemma_entry_trichotomy(a, b);
    if entry_lt(c, a) && entry_lt(a, b) {
        lemma_entry_transitive(c, a, b);
    }
}

/// If `a` comes before `b`, and `c` does not come before `b`, then `a`
/// comes before `c`.
pub proof fn lemma_entry_lt_le(a: Entry, b: Entry, c: Entry)
    requires
        entry_lt(a, b),
        !entry_lt(c, b),
    ensures
        entry_lt(a, c),
{
    lemma_entry_trichotomy(b, c);
    if entry_lt(b, c) {
        lemma_entry_transitive(a, b, c);
    }
}

/// `s` with `e` put in behind the last entry that `e` does not come before.
pub open spec fn insert_sorted(s: Seq<Entry>, e: Entry) -> Seq<Entry>
    decreases s.len(),
{
    if s.len() == 0 || !entry_lt(e, s.last()) {
        s.push(e)
    } else {
        insert_sorted(s.drop_last(), e).push(s.last())
    }
}

/// The entries of `s` in the order of a listing. Entries that the order
/// cannot tell apart stay in the order in which `s` holds them.
pub open spec fn sort_entries(s: Seq<Entry>) -> Seq<Entry>
    decreases s.len(),
{
    if s.len() == 0 {
        s
    } else {
        insert_sorted(sort_entries(s.drop_last()), s.last())
    }
}

/// The index `p` parts `s` in two: `t` comes before no entry in front of
/// `p`, and before every entry from `p` on.
pub open spec fn splits_at(s: Seq<Entry>, t: Entry, p: int) -> bool {
    &&& 0 <= p <= s.len()
    &&& forall|i: int| 0 <= i < p ==> !entry_lt(t, #[trigger] s[i])
    &&& forall|i: int| p <= i < s.len() ==> entry_lt(t, #[trigger] s[i])
}

/// Where `insert_sorted` puts an entry: at the index that parts the
/// listing.
pub proof fn lemma_insert_sorted_at(s: Seq<Entry>, e: Entry, p: int)
    requires
        splits_at(s, e, p),
    ensures
        insert_sorted(s, e) == s.insert(p, e),
    decreases s.len(),
{
    if p < s.len() {
        lemma_insert_sorted_at(s.drop_last(), e, p);
    }
}

/// Putting an entry into a sorted listing gives a sorted listing that holds
/// the entry and what the listing held, nothing else.
pub proof fn lemma_insert_sorted(s: Seq<Entry>, e: Entry)
    requires
        sorted(s),
    ensures
        sorted(insert_sorted(s, e)),
        insert_sorted(s, e).len() == s.len() + 1,
        insert_sorted(s, e).to_multiset() == s.to_multiset().insert(e),
        forall|k: int|
            0 <= k < insert_sorted(s, e).len() ==> #[trigger] insert_sorted(s, e)[k] == e
                || s.contains(insert_sorted(s, e)[k]),
    decreases s.len(),
{
    broadcast use vstd::seq_lib::to_multiset_build;

    let r = insert_sorted(s, e);
    if s.len() == 0 || !entry_lt(e, s.last()) {
        assert forall|i: int, j: int| 0 <= i < j < r.len() implies !entry_lt(
            #[trigger] r[j],
            #[trigger] r[i],
        ) by {
            if j == s.len() && i < s.len() - 1 {
                lemma_entry_le_transitive(s[i], s.last(), e);
            }
        }
    } else {
        let front = s.drop_last();
        let mid = insert_sorted(front, e);
        lemma_insert_sorted(front, e);
        assert(s =~= front.push(s.last()));
        assert forall|i: int, j: int| 0 <= i < j < r.len() implies !entry_lt(
            #[trigger] r[j],
            #[trigger] r[i],
        ) by {
            if j == mid.len() && mid[i] == e {
                lemma_entry_trichotomy(e, s.last());
            }
        }
    }
}

/// Sorting gives a sorted listing that holds what the given one held,
/// each entry as often.
pub proof fn lemma_sort_entries(s: Seq<Entry>)
    ensures
        sorted(sort_entries(s)),
        sort_entries(s).len() == s.len(),
        sort_entries(s).to_multiset() == s.to_multiset(),
    decreases s.len(),
{
    broadcast use vstd::seq_lib::to_multiset_build;

    if s.len() > 0 {
        lemma_sort_entries(s.drop_last());
        lemma_insert_sorted(sort_entries(s.drop_last()), s.last());
        assert(s =~= s.drop_last().push(s.last()));
    }
}

/// No two entries of a listing stand in the same place: none bears the name
/// of another of its class.
pub open spec fn distinct_places(listing: Seq<Entry>) -> bool {
    forall|i: int, j: int|
        0 <= i < j < listing.len() ==> !same_place(#[trigger] listing[i], #[trigger] listing[j])
}

/// There is one sorted listing of given entries, if no two of them stand
/// in the same place.
pub proof fn lemma_sorted_is_unique(a: Seq<Entry>, b: Seq<Entry>)
    requires
        sorted(a),
        sorted(b),
        distinct_places(a),
        a.to_multiset() == b.to_multiset(),
    ensures
        a == b,
    decreases a.len(),
{
    broadcast use vstd::seq_lib::group_to_multiset_ensures;

    vstd::seq_lib::to_multiset_len(a);
    vstd::seq_lib::to_multiset_len(b);
    if a.len() > 0 {
        let n = a.len() - 1;
        // the last entry of each listing occurs in the other one, which
        // holds no entry that comes behind its own last entry
        assert(a.to_multiset().count(b[n]) > 0);
        assert(b.to_multiset().count(a[n]) > 0);
        lemma_entry_trichotomy(a[n], b[n]);
        assert(a[n] == b[n]);
        assert(a.remove(n) =~= a.drop_last());
        assert(b.remove(n) =~= b.drop_last());
        lemma_sorted_is_unique(a.drop_last(), b.drop_last());
        assert(b =~= b.drop_last().push(b[n]));
    }
}

/// Two listings of the same entries hold two entries in one place together
/// or not at all.
proof fn lemma_distinct_places_kept(a: Seq<Entry>, b: Seq<Entry>)
    requires
        a.to_multiset() == b.to_multiset(),
        distinct_places(a),
    ensures
        distinct_places(b),
{
    broadcast use vstd::seq_lib::group_to_multiset_ensures;

    assert forall|i: int, j: int| 0 <= i < j < b.len() implies !same_place(
        #[trigger] b[i],
        #[trigger] b[j],
    ) by {
        assert(a.to_multiset().count(b[i]) > 0);
        assert(a.to_multiset().count(b[j]) > 0);
        let x = choose|x: int| 0 <= x < a.len() && a[x] == b[i];
        let y = choose|y: int| 0 <= y < a.len() && a[y] == b[j];
        if x == y {
            // the entry occurs twice in `b`, and once in `a`
            lemma_two_occurrences(b, i, j);
            lemma_one_occurrence(a, x);
        }
    }
}

/// An entry that stands at two indices of a listing occurs in it twice at
/// least.
proof fn lemma_two_occurrences(s: Seq<Entry>, i: int, j: int)
    requires
        0 <= i < j < s.len(),
        s[i] == s[j],
    ensures
        s.to_multiset().count(s[i]) >= 2,
{
    broadcast use vstd::seq_lib::group_to_multiset_ensures;

    let t = s.remove(j);
    assert(t[i] == s[i]);
    assert(t.to_multiset().count(s[i]) > 0);
}

/// An entry of a listing without two entries in one place occurs in it
/// once.
proof fn lemma_one_occurrence(s: Seq<Entry>, i: int)
    requires
        distinct_places(s),
        0 <= i < s.len(),
    ensures
        s.to_multiset().count(s[i]) == 1,
{
    broadcast use vstd::seq_lib::group_to_multiset_ensures;

    let t = s.remove(i);
    if t.to_multiset().count(s[i]) > 0 {
        // then the entry stands at another index too
        let k = choose|k: int| 0 <= k < t.len() && t[k] == s[i];
        assert(t[k] == if k < i {
            s[k]
        } else {
            s[k + 1]
        });
    }
}

/// The order in which the entries of a directory are read does not show in
/// its listing, if no two of them stand in the same place.
pub proof fn lemma_sort_forgets_order(a: Seq<Entry>, b: Seq<Entry>)
    requires
        a.to_multiset() == b.to_multiset(),
        distinct_places(a),
    ensures
        sort_entries(a) == sort_entries(b),
{
    lemma_sort_entries(a);
    lemma_sort_entries(b);
    lemma_distinct_places_kept(a, sort_entries(a));
    lemma_sorted_is_unique(sort_entries(a), sort_entries(b));
}

} // verus!
