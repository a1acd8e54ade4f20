//! The browsing state and how each key changes it.
//!
//! A state holds the directory on view, the directories that were descended
//! through to reach it, the selection that each directory had when it was
//! last left, and the file that was picked, if any. Every key gives a new
//! state. To go into a directory, or up from the one in which the session
//! began, the directory must be read first: `needs_listing` says which one,
//! and `new_state` takes what was read.
//!
//! The keys: `Up` moves the selection to the next entry and `Down` to the
//! one before; `Right` and Enter go into the selected directory, or pick the
//! selected file where files may be picked; `.` drops the picked file; `Left`
//! goes up. Going into a directory and going up both drop the picked file.
//! No other key changes the state.
//!
//! A directory that was left is entered again with the selection that it
//! had, or with its last entry selected where it has lost the entry that
//! was.

use crate::dir_object::{entries, DirObject};
use crate::error_code::ErrorCode;
use crate::listing::{
    collected, find_entry, lemma_position_in_range, listed, listing_view, position_of, read_dir,
    RawListing, RawListingView,
};
use crate::memory::{clone_selections, distinct_paths, recall, remember, remembered};
use crate::order::{lemma_sort_entries, sorted, Entry, Kind};
use crate::path::{file_name_of, parent_of, path_file_name, path_parent, text_view};
use vstd::prelude::*;

verus! {

/// A directory on view: its path, its listing, and the index of the entry
/// that the cursor is on.
pub struct Dir {
    pub path: String,
    pub contents: Vec<DirObject>,
    pub content_selection: usize,
}

/// Whether files may be picked, and the path of the file that was.
pub struct FileSelection {
    pub files_selectable: bool,
    pub file_selected: Option<String>,
}

/// The state of a browsing session.
pub struct State {
    pub dir: Dir,
    pub parents: Vec<Dir>,
    pub prev_selections: Vec<(String, usize)>,
    pub file_selection: FileSelection,
}

/// The plain value of a `Dir`.
#[verifier::ext_equal]
pub struct DirView {
    pub path: Seq<char>,
    pub contents: Seq<Entry>,
    pub content_selection: nat,
}

/// The plain value of a `FileSelection`.
#[verifier::ext_equal]
pub struct FileSelectionView {
    pub files_selectable: bool,
    pub file_selected: Option<Seq<char>>,
}

/// The plain value of a `State`. `parents` holds the directories descended
/// through, the one that the session began in first; `prev_selections` maps
/// the path of each directory that was left to the selection it then had.
#[verifier::ext_equal]
pub struct StateView {
    pub dir: DirView,
    pub parents: Seq<DirView>,
    pub prev_selections: Map<Seq<char>, nat>,
    pub file_selection: FileSelectionView,
}

/// The plain values of a stack of directories.
pub open spec fn dirs_view(dirs: Seq<Dir>) -> Seq<DirView> {
    dirs.map_values(|dir: Dir| dir@)
}

impl View for Dir {
    type V = DirView;

    open spec fn view(&self) -> DirView {
        DirView {
            path: self.path@,
            contents: entries(self.contents@),
            content_selection: self.content_selection as nat,
        }
    }
}

impl View for FileSelection {
    type V = FileSelectionView;

    open spec fn view(&self) -> FileSelectionView {
        FileSelectionView {
            files_selectable: self.files_selectable,
            file_selected: text_view(self.file_selected),
        }
    }
}

impl View for State {
    type V = StateView;

    open spec fn view(&self) -> StateView {
        StateView {
            dir: self.dir@,
            parents: dirs_view(self.parents@),
            prev_selections: remembered(self.prev_selections@),
            file_selection: self.file_selection@,
        }
    }
}

impl Clone for Dir {
    fn clone(&self) -> (r: Self)
        ensures
            r@ == self@,
    {
        let contents = self.contents.clone();
        Dir { path: self.path.clone(), contents, content_selection: self.content_selection }
    }
}

impl Clone for FileSelection {
    fn clone(&self) -> (r: Self)
        ensures
            r@ == self@,
    {
        FileSelection {
            files_selectable: self.files_selectable,
            file_selected: match &self.file_selected {
                Some(path) => Some(path.clone()),
                None => None,
            },
        }
    }
}

impl Clone for State {
    fn clone(&self) -> (r: Self)
        ensures
            r@ == self@,
            self.wf() ==> r.wf(),
    {
        let parents = self.parents.clone();
        let prev_selections = clone_selections(&self.prev_selections);
        assert(dirs_view(parents@) =~= dirs_view(self.parents@));
        State {
            dir: self.dir.clone(),
            parents,
            prev_selections,
            file_selection: self.file_selection.clone(),
        }
    }
}

impl DirView {
    /// The selection is on an entry of the listing, or is 0 where the
    /// listing is empty.
    pub open spec fn in_range(self) -> bool {
        self.content_selection < self.contents.len() || self.content_selection == 0
    }

    /// The listing is in order, and the selection is in range.
    pub open spec fn wf(self) -> bool {
        &&& sorted(self.contents)
        &&& self.in_range()
    }

    /// The entry that the cursor is on.
    pub open spec fn selected(self) -> Option<Entry> {
        if self.content_selection < self.contents.len() {
            Some(self.contents[self.content_selection as int])
        } else {
            None
        }
    }
}

impl StateView {
    /// The selection of the directory on view is in range, and so is that
    /// of every directory below it.
    pub open spec fn in_range(self) -> bool {
        &&& self.dir.in_range()
        &&& forall|i: int| 0 <= i < self.parents.len() ==> (#[trigger] self.parents[i]).in_range()
    }

    /// The directory on view and every directory below it are well formed.
    pub open spec fn wf(self) -> bool {
        &&& self.dir.wf()
        &&& forall|i: int| 0 <= i < self.parents.len() ==> (#[trigger] self.parents[i]).wf()
    }
}

impl State {
    /// The state is well formed, and remembers one selection for a path.
    pub open spec fn wf(&self) -> bool {
        &&& self@.wf()
        &&& distinct_paths(self.prev_selections@)
    }
}

/// A key of the terminal.
#[derive(Clone, Copy, Debug, PartialEq, Eq, Structural)]
pub enum Key {
    Backspace,
    Left,
    Right,
    Up,
    Down,
    Home,
    End,
    PageUp,
    PageDown,
    BackTab,
    Delete,
    Insert,
    F(u8),
    Char(char),
    Alt(char),
    Ctrl(char),
    Null,
    Esc,
}

/// The plain value of the outcome of a transition.
pub open spec fn state_outcome(r: Result<State, ErrorCode>) -> Result<StateView, ErrorCode> {
    match r {
        Ok(state) => Ok(state@),
        Err(e) => Err(e),
    }
}

/// The directory with the selection one entry further on, unless it is on
/// the last entry already. A directory without entries stays as it is.
pub open spec fn moved_back(dir: DirView) -> DirView {
    if dir.contents.len() == 0 {
        dir
    } else {
        DirView {
            content_selection: vstd::math::min(
                dir.contents.len() - 1,
                dir.content_selection as int + 1,
            ) as nat,
            ..dir
        }
    }
}

/// The directory with the selection one entry back, unless it is on the
/// first entry already.
pub open spec fn moved_forward(dir: DirView) -> DirView {
    DirView { content_selection: vstd::math::max(0, dir.content_selection - 1) as nat, ..dir }
}

/// The state with `picked` as the file that was picked.
pub open spec fn with_file_selected(s: StateView, picked: Option<Seq<char>>) -> StateView {
    StateView {
        file_selection: FileSelectionView {
            files_selectable: s.file_selection.files_selectable,
            file_selected: picked,
        },
        ..s
    }
}

/// The selection with which a directory of `len` entries is entered: the
/// one remembered for its path, or the last entry where that one is beyond
/// the listing; and 0 where none is remembered or the directory is empty.
pub open spec fn restored_selection(
    memory: Map<Seq<char>, nat>,
    path: Seq<char>,
    len: nat,
) -> nat {
    if memory.contains_key(path) && len > 0 {
        vstd::math::min(memory[path] as int, len - 1) as nat
    } else {
        0
    }
}

/// The selection of files with no file picked.
pub open spec fn nothing_picked(selection: FileSelectionView) -> FileSelectionView {
    FileSelectionView { files_selectable: selection.files_selectable, file_selected: None }
}

/// The state after going into the directory `child`, whose listing is
/// `listing`: the directory that was on view is the last of `parents`, the
/// selection is the one remembered for `child` as far as the listing goes,
/// and no file is picked.
pub open spec fn descended(s: StateView, child: Seq<char>, listing: Seq<Entry>) -> StateView {
    StateView {
        dir: DirView {
            path: child,
            contents: listing,
            content_selection: restored_selection(s.prev_selections, child, listing.len()),
        },
        parents: s.parents.push(s.dir),
        prev_selections: s.prev_selections,
        file_selection: nothing_picked(s.file_selection),
    }
}

/// What is remembered once the directory on view has been left.
pub open spec fn memory_after_leaving(s: StateView) -> Map<Seq<char>, nat> {
    s.prev_selections.insert(s.dir.path, s.dir.content_selection)
}

/// The state after going up to the directory that was descended from: it
/// comes back as it was left, and no file is picked.
pub open spec fn ascended_to_kept(s: StateView) -> StateView {
    StateView {
        dir: s.parents.last(),
        parents: s.parents.drop_last(),
        prev_selections: memory_after_leaving(s),
        file_selection: nothing_picked(s.file_selection),
    }
}

/// The entry that the directory just left has in the listing of its parent.
pub open spec fn left_entry(name: Seq<char>, path: Seq<char>) -> Entry {
    Entry { kind: Kind::Dir, name, path }
}

/// The selection in a parent that was read anew: the place of the directory
/// that was left, or 0 where the listing does not hold it or it has no name.
pub open spec fn selection_in_parent(
    listing: Seq<Entry>,
    left: Option<Seq<char>>,
    path: Seq<char>,
) -> nat {
    match left {
        Some(name) => match position_of(listing, left_entry(name, path)) {
            Some(i) => i as nat,
            None => 0,
        },
        None => 0,
    }
}

/// A path without its last component, or the path itself where it has none.
pub open spec fn parent_or_same(path: Seq<char>, parent: Option<Seq<char>>) -> Seq<char> {
    match parent {
        Some(parent) => parent,
        None => path,
    }
}

/// The state after going up from a directory that was not descended into,
/// in which no file is picked:
/// `parent` is what `path_parent` gave for its path and `left` what
/// `path_file_name` gave, `listing` is the listing of the parent.
pub open spec fn ascended_to_listed(
    s: StateView,
    parent: Option<Seq<char>>,
    left: Option<Seq<char>>,
    listing: Seq<Entry>,
) -> StateView {
    StateView {
        dir: DirView {
            path: parent_or_same(s.dir.path, parent),
            contents: listing,
            content_selection: selection_in_parent(listing, left, s.dir.path),
        },
        parents: s.parents,
        prev_selections: memory_after_leaving(s),
        file_selection: nothing_picked(s.file_selection),
    }
}

/// The state after going into the directory `child`, or the error with
/// which its listing failed.
pub open spec fn enter_dir_outcome(
    s: StateView,
    child: Seq<char>,
    listing: RawListingView,
) -> Result<StateView, ErrorCode> {
    match listed(listing) {
        Err(e) => Err(e),
        Ok(contents) => Ok(descended(s, child, contents)),
    }
}

/// The state after going up to a parent that was read anew, or the error
/// with which its listing failed.
pub open spec fn enter_parent_outcome(
    s: StateView,
    parent: Option<Seq<char>>,
    left: Option<Seq<char>>,
    listing: RawListingView,
) -> Result<StateView, ErrorCode> {
    match listed(listing) {
        Err(e) => Err(e),
        Ok(contents) => Ok(ascended_to_listed(s, parent, left, contents)),
    }
}

/// Whether the key asks to go into the selected entry.
pub open spec fn is_descend_key(key: Key) -> bool {
    key == Key::Right || key == Key::Char('\n')
}

/// The state that follows `s` on a key that asks to go into the selected
/// entry. A directory is gone into, unless it cannot be listed; a file is
/// picked where files may be picked; anything else leaves the state as it is.
pub open spec fn after_descend_key(
    s: StateView,
    listing: RawListingView,
) -> Result<StateView, ErrorCode> {
    match s.dir.selected() {
        None => Ok(s),
        Some(entry) => match entry.kind {
            Kind::Unknown => Ok(s),
            Kind::File => if s.file_selection.files_selectable {
                Ok(with_file_selected(s, Some(entry.path)))
            } else {
                Ok(s)
            },
            Kind::Dir => enter_dir_outcome(s, entry.path, listing),
        },
    }
}

/// The state that follows `s` on the key that asks to go up.
pub open spec fn after_ascend_key(
    s: StateView,
    listing: RawListingView,
) -> Result<StateView, ErrorCode> {
    if s.parents.len() > 0 {
        Ok(ascended_to_kept(s))
    } else {
        enter_parent_outcome(s, path_parent(s.dir.path), path_file_name(s.dir.path), listing)
    }
}

/// The state that follows `s` on `key`, where `listing` is what was read of
/// the directory that `listing_request` names. It is an error where that
/// directory is needed and could not be listed.
pub open spec fn next_state(
    s: StateView,
    key: Key,
    listing: RawListingView,
) -> Result<StateView, ErrorCode> {
    if key == Key::Up {
        Ok(StateView { dir: moved_back(s.dir), ..s })
    } else if key == Key::Down {
        Ok(StateView { dir: moved_forward(s.dir), ..s })
    } else if is_descend_key(key) {
        after_descend_key(s, listing)
    } else if key == Key::Char('.') {
        Ok(with_file_selected(s, None))
    } else if key == Key::Left {
        after_ascend_key(s, listing)
    } else {
        Ok(s)
    }
}

/// The directory that has to be read before `key` can be answered, if any:
/// the selected directory on a key that goes into it, the parent on the key
/// that goes up from a directory that was not descended into.
pub open spec fn listing_request(s: StateView, key: Key) -> Option<Seq<char>> {
    if is_descend_key(key) {
        match s.dir.selected() {
            Some(entry) => if entry.kind is Dir {
                Some(entry.path)
            } else {
                None
            },
            None => None,
        }
    } else if key == Key::Left && s.parents.len() == 0 {
        Some(parent_or_same(s.dir.path, path_parent(s.dir.path)))
    } else {
        None
    }
}

/// Whether `key` is answered by another state than `s`, where it can be
/// answered at all. The key that goes up counts as changing the state in
/// any case: the directory above is read anew.
pub open spec fn changes_state(s: StateView, key: Key) -> bool {
    if key == Key::Up {
        moved_back(s.dir) != s.dir
    } else if key == Key::Down {
        moved_forward(s.dir) != s.dir
    } else if is_descend_key(key) {
        match s.dir.selected() {
            None => false,
            Some(entry) => match entry.kind {
                Kind::Unknown => false,
                Kind::File => s.file_selection.files_selectable
                    && s.file_selection.file_selected != Some(entry.path),
                Kind::Dir => true,
            },
        }
    } else if key == Key::Char('.') {
        s.file_selection.file_selected is Some
    } else {
        key == Key::Left
    }
}

impl State {
    /// The state in which a session begins: the directory `path` with the
    /// listing `contents`, the first entry selected.
    pub fn new(path: String, contents: Vec<DirObject>, files_selectable: bool) -> (r: State)
        ensures
            r@ == (StateView {
                dir: DirView { path: path@, contents: entries(contents@), content_selection: 0 },
                parents: Seq::empty(),
                prev_selections: Map::empty(),
                file_selection: FileSelectionView { files_selectable, file_selected: None },
            }),
            sorted(entries(contents@)) ==> r.wf(),
    {
        State {
            dir: Dir { path, contents, content_selection: 0 },
            parents: Vec::new(),
            prev_selections: Vec::new(),
            file_selection: FileSelection { files_selectable, file_selected: None },
        }
    }
}

/// Moves the selection one entry further on.
fn move_back(dir: Dir) -> (r: Dir)
    ensures
        r@ == moved_back(dir@),
{
    let len = dir.contents.len();
    if len == 0 {
        dir
    } else {
        let content_selection = if dir.content_selection < len - 1 {
            dir.content_selection + 1
        } else {
            len - 1
        };
        Dir { path: dir.path, contents: dir.contents, content_selection }
    }
}

/// Moves the selection one entry back.
fn move_forward(dir: Dir) -> (r: Dir)
    ensures
        r@ == moved_forward(dir@),
{
    let content_selection = if dir.content_selection >= 1 {
        dir.content_selection - 1
    } else {
        dir.content_selection
    };
    Dir { path: dir.path, contents: dir.contents, content_selection }
}

/// The path of the directory above the one at `path`: `parent`, which is
/// `path` without its last component, or `path` itself where there is no
/// parent.
pub fn parent_path(path: String, parent: Option<String>) -> (r: String)
    ensures
        r@ == parent_or_same(path@, text_view(parent)),
{
    match parent {
        Some(parent) => parent,
        None => path,
    }
}

/// Goes into the directory `child`, of which `listing` was read.
pub fn enter_dir(
    current_state: State,
    child: String,
    listing: RawListing,
) -> (r: Result<State, ErrorCode>)
    ensures
        state_outcome(r) == enter_dir_outcome(current_state@, child@, listing_view(listing)),
        r matches Ok(next) ==> (distinct_paths(current_state.prev_selections@) ==> distinct_paths(
            next.prev_selections@,
        )),
{
    let contents = match read_dir(listing) {
        Ok(contents) => contents,
        Err(e) => return Err(e),
    };
    let State { dir, parents, prev_selections, file_selection } = current_state;
    let mut parents = parents;
    let len = contents.len();
    let content_selection = match recall(&prev_selections, &child) {
        Some(selection) => if len == 0 {
            0
        } else if selection < len {
            selection
        } else {
            len - 1
        },
        None => 0,
    };
    proof {
        assert(dirs_view(parents@.push(dir)) =~= dirs_view(parents@).push(dir@));
    }
    parents.push(dir);
    Ok(
        State {
            dir: Dir { path: child, contents, content_selection },
            parents,
            prev_selections,
            file_selection: FileSelection {
                files_selectable: file_selection.files_selectable,
                file_selected: None,
            },
        },
    )
}

/// Goes up from a directory that was not descended into. `parent` is its
/// path without the last component, where there is one, `left` that
/// component, and `listing` what was read of the parent.
pub fn enter_parent(
    current_state: State,
    parent: Option<String>,
    left: Option<String>,
    listing: RawListing,
) -> (r: Result<State, ErrorCode>)
    ensures
        state_outcome(r) == enter_parent_outcome(
            current_state@,
            text_view(parent),
            text_view(left),
            listing_view(listing),
        ),
        r matches Ok(next) ==> (distinct_paths(current_state.prev_selections@) ==> distinct_paths(
            next.prev_selections@,
        )),
{
    let contents = match read_dir(listing) {
        Ok(contents) => contents,
        Err(e) => return Err(e),
    };
    let State { dir, parents, prev_selections, file_selection } = current_state;
    let mut prev_selections = prev_selections;
    remember(&mut prev_selections, dir.path.clone(), dir.content_selection);
    let found = match left {
        Some(name) => {
            find_entry(&contents, &DirObject::Dir { name, path: dir.path.clone() })
        },
        None => None,
    };
    let content_selection = match found {
        Some(i) => i,
        None => 0,
    };
    let path = parent_path(dir.path, parent);
    Ok(
        State {
            dir: Dir { path, contents, content_selection },
            parents,
            prev_selections,
            file_selection: FileSelection {
                files_selectable: file_selection.files_selectable,
                file_selected: None,
            },
        },
    )
}

/// Answers a key that asks to go into the selected entry.
fn descend(current_state: State, listing: RawListing) -> (r: Result<State, ErrorCode>)
    ensures
        state_outcome(r) == after_descend_key(current_state@, listing_view(listing)),
        r matches Ok(next) ==> (distinct_paths(current_state.prev_selections@) ==> distinct_paths(
            next.prev_selections@,
        )),
{
    let selection = current_state.dir.content_selection;
    if selection >= current_state.dir.contents.len() {
        return Ok(current_state);
    }
    match &current_state.dir.contents[selection] {
        DirObject::Unknown { .. } => Ok(current_state),
        DirObject::File { path, .. } => {
            if current_state.file_selection.files_selectable {
                let picked = path.clone();
                let State { dir, parents, prev_selections, file_selection } = current_state;
                Ok(
                    State {
                        dir,
                        parents,
                        prev_selections,
                        file_selection: FileSelection {
                            files_selectable: file_selection.files_selectable,
                            file_selected: Some(picked),
                        },
                    },
                )
            } else {
                Ok(current_state)
            }
        },
        DirObject::Dir { path, .. } => {
            let child = path.clone();
            enter_dir(current_state, child, listing)
        },
    }
}

/// Answers the key that asks to go up.
fn ascend(current_state: State, listing: RawListing) -> (r: Result<State, ErrorCode>)
    ensures
        state_outcome(r) == after_ascend_key(current_state@, listing_view(listing)),
        r matches Ok(next) ==> (distinct_paths(current_state.prev_selections@) ==> distinct_paths(
            next.prev_selections@,
        )),
{
    if current_state.parents.len() > 0 {
        let State { dir, parents, prev_selections, file_selection } = current_state;
        let mut parents = parents;
        let mut prev_selections = prev_selections;
        remember(&mut prev_selections, dir.path, dir.content_selection);
        let ghost before = parents@;
        let parent = parents.pop().unwrap();
        proof {
            assert(dirs_view(before.drop_last()) =~= dirs_view(before).drop_last());
        }
        Ok(
            State {
                dir: parent,
                parents,
                prev_selections,
                file_selection: FileSelection {
                    files_selectable: file_selection.files_selectable,
                    file_selected: None,
                },
            },
        )
    } else {
        let left = file_name_of(current_state.dir.path.as_str());
        let parent = parent_of(current_state.dir.path.as_str());
        enter_parent(current_state, parent, left, listing)
    }
}

/// The state that follows `current_state` on `key`. `listing` is what was
/// read of the directory that `needs_listing` names for this state and key:
/// `None` where it could not be read, else its items, each `None` where the
/// item could not be read. Where no directory is needed it is not looked at.
pub fn new_state(
    current_state: State,
    key: Key,
    listing: RawListing,
) -> (r: Result<State, ErrorCode>)
    ensures
        state_outcome(r) == next_state(current_state@, key, listing_view(listing)),
        r matches Ok(next) ==> (current_state@.in_range() ==> next@.in_range()),
        r matches Ok(next) ==> (current_state.wf() ==> next.wf()),
{
    proof {
        lemma_next_state_in_range(current_state@, key, listing_view(listing));
        if current_state.wf() {
            lemma_next_state_wf(current_state@, key, listing_view(listing));
        }
    }
    match key {
        Key::Up => {
            let State { dir, parents, prev_selections, file_selection } = current_state;
            Ok(State { dir: move_back(dir), parents, prev_selections, file_selection })
        },
        Key::Down => {
            let State { dir, parents, prev_selections, file_selection } = current_state;
            Ok(State { dir: move_forward(dir), parents, prev_selections, file_selection })
        },
        Key::Right => descend(current_state, listing),
        Key::Char(c) => {
            if c == '\n' {
                descend(current_state, listing)
            } else if c == '.' {
                let State { dir, parents, prev_selections, file_selection } = current_state;
                Ok(
                    State {
                        dir,
                        parents,
                        prev_selections,
                        file_selection: FileSelection {
                            files_selectable: file_selection.files_selectable,
                            file_selected: None,
                        },
                    },
                )
            } else {
                Ok(current_state)
            }
        },
        Key::Left => ascend(current_state, listing),
        _ => Ok(current_state),
    }
}

/// Whether `key` is answered by another state than `state`.
pub fn changes(state: &State, key: Key) -> (r: bool)
    ensures
        r == changes_state(state@, key),
{
    let selection = state.dir.content_selection;
    let len = state.dir.contents.len();
    let descends = match key {
        Key::Right => true,
        Key::Char(c) => c == '\n',
        _ => false,
    };
    if descends {
        if selection >= len {
            return false;
        }
        match &state.dir.contents[selection] {
            DirObject::Unknown { .. } => false,
            DirObject::File { path, .. } => {
                state.file_selection.files_selectable && match &state.file_selection.file_selected {
                    Some(picked) => !(*picked == *path),
                    None => true,
                }
            },
            DirObject::Dir { .. } => true,
        }
    } else {
        match key {
            Key::Up => len > 0 && selection != len - 1,
            Key::Down => selection >= 1,
            Key::Char(c) => c == '.' && state.file_selection.file_selected.is_some(),
            Key::Left => true,
            _ => false,
        }
    }
}

/// The directory that has to be read before `new_state` is called with
/// `key`, if any.
pub fn needs_listing(state: &State, key: Key) -> (r: Option<String>)
    ensures
        text_view(r) == listing_request(state@, key),
{
    let descends = match key {
        Key::Right => true,
        Key::Char(c) => c == '\n',
        _ => false,
    };
    if descends {
        let selection = state.dir.content_selection;
        if selection < state.dir.contents.len() {
            match &state.dir.contents[selection] {
                DirObject::Dir { path, .. } => Some(path.clone()),
                _ => None,
            }
        } else {
            None
        }
    } else {
        match key {
            Key::Left => {
                if state.parents.len() == 0 {
                    let parent = parent_of(state.dir.path.as_str());
                    Some(parent_path(state.dir.path.clone(), parent))
                } else {
                    None
                }
            },
            _ => None,
        }
    }
}

/// After every key each selection is in range, if each was before: it is
/// on an entry of its listing, or is 0 where the listing is empty. A
/// directory that was read to be entered has its selection in range in any
/// case.
pub proof fn lemma_next_state_in_range(s: StateView, key: Key, listing: RawListingView)
    ensures
        next_state(s, key, listing) matches Ok(next) ==> {
            &&& s.in_range() ==> next.in_range()
            &&& next.parents.len() > s.parents.len() || (key == Key::Left && s.parents.len() == 0)
                ==> next.dir.in_range()
        },
{
    if let Ok(next) = next_state(s, key, listing) {
        if key == Key::Left && s.parents.len() == 0 {
            if let Some(name) = path_file_name(s.dir.path) {
                lemma_position_in_range(next.dir.contents, left_entry(name, s.dir.path));
            }
        }
        if s.in_range() {
            assert forall|i: int| 0 <= i < next.parents.len() implies (
            #[trigger] next.parents[i]).in_range() by {
                if i < s.parents.len() {
                    assert(s.parents[i].in_range());
                }
            }
        }
    }
}

/// Every key leads from a well-formed state to a well-formed state: each
/// listing is in order, and each selection is on an entry of its listing,
/// or is 0 where the listing is empty.
pub proof fn lemma_next_state_wf(
    s: StateView,
    key: Key,
    listing: RawListingView,
)
    requires
        s.wf(),
    ensures
        next_state(s, key, listing) matches Ok(next) ==> next.wf(),
{
    if let Some(items) = listing {
        if let Ok(found) = collected(items) {
            lemma_sort_entries(found);
        }
    }
    if let Ok(next) = next_state(s, key, listing) {
        if key == Key::Left && s.parents.len() == 0 {
            if let Some(name) = path_file_name(s.dir.path) {
                lemma_position_in_range(next.dir.contents, left_entry(name, s.dir.path));
            }
        }
    }
}

} // verus!
