//! What holds of the transitions taken together.

use crate::error_code::ErrorCode;
use crate::listing::{
    collected, lemma_position_in_range, lemma_position_none, listed, position_of, RawListingView,
};
use crate::navigation::{
    changes_state, enter_parent_outcome, is_descend_key, left_entry, next_state, parent_or_same,
    Key, StateView,
};
use crate::order::{distinct_places, lemma_sort_entries, same_place, sorted, Entry};
use crate::path::{path_file_name, path_parent};
use crate::session::{chosen_path, session_step, StepView};
use vstd::prelude::*;

verus! {

/// In a listing without two entries in one place, an entry is found where
/// it stands.
pub proof fn lemma_position_of_entry(listing: Seq<Entry>, t: Entry, i: int)
    requires
        distinct_places(listing),
        0 <= i < listing.len(),
        same_place(listing[i], t),
    ensures
        position_of(listing, t) == Some(i),
    decreases listing.len(),
{
    if i < listing.len() - 1 {
        lemma_position_of_entry(listing.drop_last(), t, i);
    }
}

/// Going into the selected directory and up again gives back the directory
/// that was on view, with its listing and its selection, and the
/// directories below it. No file is picked then.
pub proof fn lemma_descend_then_ascend(
    s: StateView,
    key: Key,
    listing: RawListingView,
    any: RawListingView,
)
    requires
        is_descend_key(key),
        s.dir.selected() matches Some(entry) && entry.kind is Dir,
        next_state(s, key, listing) is Ok,
    ensures
        next_state(next_state(s, key, listing)->Ok_0, Key::Left, any) matches Ok(back) && back.dir
            == s.dir && back.parents == s.parents && back.file_selection.file_selected is None,
{
}

/// Going up from a directory that was not descended into puts the
/// selection on that directory, where the listing of the parent holds it:
/// if the directory stands at index `i` of that listing, and no two entries
/// of it stand in one place, the selection is `i`.
pub proof fn lemma_ascend_selects_left_directory(
    s: StateView,
    listing: RawListingView,
    i: int,
)
    requires
        s.parents.len() == 0,
        listed(listing) matches Ok(contents) && distinct_places(contents) && 0 <= i
            < contents.len() && contents[i].kind is Dir && path_file_name(s.dir.path) == Some(
            contents[i].name,
        ),
    ensures
        next_state(s, Key::Left, listing) matches Ok(up) && up.dir.content_selection == i
            && up.dir.contents == listed(listing)->Ok_0 && up.dir.path == parent_or_same(
            s.dir.path,
            path_parent(s.dir.path),
        ),
{
    let contents = listed(listing)->Ok_0;
    lemma_position_of_entry(contents, left_entry(contents[i].name, s.dir.path), i);
}

/// Going up from a directory that the listing of the parent does not hold
/// as a directory puts the selection on the first entry.
pub proof fn lemma_ascend_without_left_directory(
    s: StateView,
    listing: RawListingView,
)
    requires
        s.parents.len() == 0,
        listed(listing) matches Ok(contents) && forall|i: int|
            0 <= i < contents.len() ==> !((#[trigger] contents[i]).kind is Dir && Some(
                contents[i].name,
            ) == path_file_name(s.dir.path)),
    ensures
        next_state(s, Key::Left, listing) matches Ok(up) && up.dir.content_selection == 0,
{
    if let Some(name) = path_file_name(s.dir.path) {
        lemma_position_none(listed(listing)->Ok_0, left_entry(name, s.dir.path));
    }
}

/// A directory that is left and gone into again has the selection with
/// which it was left, if its listing still holds an entry at that index;
/// where it has become shorter, its last entry is selected, and where it
/// has become empty, the selection is 0.
pub proof fn lemma_selection_remembered(
    s: StateView,
    parent_listing: RawListingView,
    key: Key,
    listing: RawListingView,
)
    requires
        next_state(s, Key::Left, parent_listing) matches Ok(up) && up.dir.selected() matches Some(
            entry,
        ) && entry.kind is Dir && entry.path == s.dir.path && next_state(up, key, listing) is Ok,
        is_descend_key(key),
    ensures
        next_state(next_state(s, Key::Left, parent_listing)->Ok_0, key, listing) matches Ok(down)
            && down.dir.path == s.dir.path && down.dir.content_selection == (if s.dir.content_selection
            < down.dir.contents.len() {
            s.dir.content_selection
        } else if down.dir.contents.len() > 0 {
            (down.dir.contents.len() - 1) as nat
        } else {
            0
        }),
{
}

/// Going up drops the picked file, and leaves it as it was whether files
/// may be picked. So does going into a directory.
pub proof fn lemma_navigation_drops_picked_file(s: StateView, key: Key, listing: RawListingView)
    ensures
        next_state(s, key, listing) matches Ok(next) ==> {
            &&& key == Key::Left ==> next.file_selection.file_selected is None
            &&& next.dir.path != s.dir.path ==> next.file_selection.file_selected is None
            &&& next.parents != s.parents ==> next.file_selection.file_selected is None
            &&& next.file_selection.files_selectable == s.file_selection.files_selectable
        },
{
}

/// Whether the listing holds a directory of the given name.
pub open spec fn holds_directory(listing: Seq<Entry>, name: Seq<char>) -> bool {
    exists|i: int|
        0 <= i < listing.len() && (#[trigger] listing[i]).kind is Dir && listing[i].name == name
}

/// Going up to a directory that is read anew, from the directory named
/// `left` at `s.dir.path`, whose path without that name is `parent`: it
/// fails as the listing fails; else the state that follows is on `parent`,
/// or on the same path where there is no parent, with the listing that was
/// read; the directories below stay; the selection that the directory left
/// had is remembered for its path; no file is picked; and the selection is
/// on the directory named `left` if the listing holds one, else on the
/// first entry.
pub proof fn lemma_enter_parent(
    s: StateView,
    parent: Option<Seq<char>>,
    left: Option<Seq<char>>,
    listing: RawListingView,
)
    ensures
        listed(listing) matches Err(e) ==> enter_parent_outcome(s, parent, left, listing) == Err::<
            StateView,
            ErrorCode,
        >(e),
        listed(listing) matches Ok(contents) ==> enter_parent_outcome(
            s,
            parent,
            left,
            listing,
        ) matches Ok(up) && {
            &&& up.dir.path == parent_or_same(s.dir.path, parent)
            &&& up.dir.contents == contents
            &&& sorted(contents)
            &&& up.parents == s.parents
            &&& up.prev_selections == s.prev_selections.insert(s.dir.path, s.dir.content_selection)
            &&& up.file_selection.file_selected is None
            &&& up.file_selection.files_selectable == s.file_selection.files_selectable
            &&& if left matches Some(name) && holds_directory(contents, name) {
                &&& up.dir.content_selection < contents.len()
                &&& contents[up.dir.content_selection as int].kind is Dir
                &&& contents[up.dir.content_selection as int].name == left->0
            } else {
                up.dir.content_selection == 0
            }
        },
{
    if let Some(items) = listing {
        if let Ok(found) = collected(items) {
            lemma_sort_entries(found);
        }
    }
    if let Ok(contents) = listed(listing) {
        if let Some(name) = left {
            let target = left_entry(name, s.dir.path);
            lemma_position_in_range(contents, target);
            if !holds_directory(contents, name) {
                lemma_position_none(contents, target);
            } else if position_of(contents, target) is None {
                let i = choose|i: int|
                    0 <= i < contents.len() && (#[trigger] contents[i]).kind is Dir
                        && contents[i].name == name;
                lemma_position_found(contents, target, i);
            }
        }
    }
}

/// An entry that stands in the listing is found.
proof fn lemma_position_found(listing: Seq<Entry>, t: Entry, i: int)
    requires
        0 <= i < listing.len(),
        same_place(listing[i], t),
    ensures
        position_of(listing, t) is Some,
    decreases listing.len(),
{
    if i < listing.len() - 1 && !same_place(listing.last(), t) {
        lemma_position_found(listing.drop_last(), t, i);
    }
}

/// On the key that goes up from a directory that was not descended into,
/// the directory above is read: what `lemma_enter_parent` says holds of
/// the state that follows, with what `std::path` gives for the path of the
/// directory on view as `parent` and `left`.
pub proof fn lemma_ascend_reads_parent(s: StateView, listing: RawListingView)
    requires
        s.parents.len() == 0,
    ensures
        next_state(s, Key::Left, listing) == enter_parent_outcome(
            s,
            path_parent(s.dir.path),
            path_file_name(s.dir.path),
            listing,
        ),
        next_state(s, Key::Left, listing) is Ok <==> listed(listing) is Ok,
        next_state(s, Key::Left, listing) matches Ok(up) ==> up.parents.len() == 0,
{
    lemma_enter_parent(s, path_parent(s.dir.path), path_file_name(s.dir.path), listing);
}

/// Where files may not be picked and none is picked, no key picks one, and
/// a session that ends with a path ends with the path of the directory on
/// view.
pub proof fn lemma_files_not_selectable(
    s: StateView,
    key: Key,
    listing: RawListingView,
)
    requires
        !s.file_selection.files_selectable,
        s.file_selection.file_selected is None,
    ensures
        next_state(s, key, listing) matches Ok(next) ==> {
            &&& !next.file_selection.files_selectable
            &&& next.file_selection.file_selected is None
            &&& chosen_path(next) == next.dir.path
            &&& session_step(s, key, listing) matches Ok(StepView::Done { path }) ==> path
                == next.dir.path
        },
{
}

/// No key changes whether files may be picked, and where they may not, a
/// key that goes into the selected entry picks no file.
pub proof fn lemma_files_selectable_kept(
    s: StateView,
    key: Key,
    listing: RawListingView,
)
    ensures
        next_state(s, key, listing) matches Ok(next) ==> {
            &&& next.file_selection.files_selectable == s.file_selection.files_selectable
            &&& is_descend_key(key) && !s.file_selection.files_selectable && (
            s.dir.selected() matches Some(entry) && entry.kind is File) ==> next == s
        },
{
}

/// A key changes the state where `changes_state` says so, and there only,
/// but for the key that goes up, which counts as changing it in any case.
pub proof fn lemma_changes_state(s: StateView, key: Key, listing: RawListingView)
    ensures
        next_state(s, key, listing) matches Ok(next) ==> changes_state(s, key) == (next != s
            || key == Key::Left),
{
    if let Ok(next) = next_state(s, key, listing) {
        if is_descend_key(key) && next.parents == s.parents.push(s.dir) {
            assert(next.parents.len() == s.parents.len() + 1);
        }
    }
}

/// The directories below the one on view change in two ways only: a key
/// that goes into a directory puts the directory that was on view on top of
/// them, and the key that goes up takes the top one off.
pub proof fn lemma_parents_step(
    s: StateView,
    key: Key,
    listing: RawListingView,
)
    ensures
        next_state(s, key, listing) matches Ok(next) ==> {
            ||| next.parents == s.parents
            ||| is_descend_key(key) && next.parents == s.parents.push(s.dir)
            ||| key == Key::Left && next.parents == s.parents.drop_last() && next.dir
                == s.parents.last()
        },
{
}

/// A file that a key picks is the selected entry of the directory on view.
pub proof fn lemma_picked_file_is_selected(
    s: StateView,
    key: Key,
    listing: RawListingView,
)
    ensures
        next_state(s, key, listing) matches Ok(next) ==> {
            ||| next.file_selection.file_selected == s.file_selection.file_selected
            ||| next.file_selection.file_selected is None
            ||| s.dir.selected() matches Some(entry) && entry.kind is File
                && next.file_selection.file_selected == Some(entry.path) && next.dir == s.dir
        },
{
}

} // verus!
