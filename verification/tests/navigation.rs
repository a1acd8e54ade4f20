use sidle::dir_object::{DirObject, RawEntry, RawMetadata};
use sidle::error_code::{ABORT, COULD_NOT_LIST_DIR, COULD_NOT_READ_METADATA};
use sidle::memory::{recall, remember};
use sidle::navigation::{
    changes, enter_dir, enter_parent, needs_listing, new_state, parent_path,
};
use sidle::session::{choose_path, handle_key, output_line, Step};
use sidle::{Dir, Either, FileSelection, Key, State};

fn child(kind: char, dir: &str, name: &str) -> DirObject {
    let name_text = name.to_string();
    let path = format!("{}/{}", dir, name);
    match kind {
        'd' => DirObject::Dir { name: name_text, path },
        'f' => DirObject::File { name: name_text, path },
        _ => DirObject::Unknown { name: name_text, path },
    }
}

fn item(kind: char, dir: &str, name: &str) -> Option<RawEntry> {
    Some(RawEntry {
        metadata: Some(RawMetadata { is_dir: kind == 'd', is_file: kind == 'f' }),
        name: Some(name.to_string()),
        path: format!("{}/{}", dir, name),
    })
}

/// The directory `/home` with the entries `docs`, `src` (directories),
/// `a.txt`, `b.txt` (files) and `dev` (unknown).
fn home(selection: usize, files_selectable: bool) -> State {
    State {
        dir: Dir {
            path: "/home".to_string(),
            contents: vec![
                child('d', "/home", "docs"),
                child('d', "/home", "src"),
                child('f', "/home", "a.txt"),
                child('f', "/home", "b.txt"),
                child('u', "/home", "dev"),
            ],
            content_selection: selection,
        },
        parents: vec![],
        prev_selections: vec![],
        file_selection: FileSelection { files_selectable, file_selected: None },
    }
}

fn src_items() -> Option<Vec<Option<RawEntry>>> {
    Some(vec![
        item('f', "/home/src", "main.rs"),
        item('d', "/home/src", "bin"),
        item('f', "/home/src", "lib.rs"),
    ])
}

fn names(dir: &Dir) -> Vec<String> {
    dir.contents.iter().map(|object| object.filename().to_string()).collect()
}

fn in_range(dir: &Dir) -> bool {
    dir.content_selection < std::cmp::max(1, dir.contents.len())
}

#[test]
fn a_new_state_selects_the_first_entry() {
    let state = State::new("/home".to_string(), vec![child('d', "/home", "docs")], true);
    assert_eq!(state.dir.path, "/home");
    assert_eq!(state.dir.contents.len(), 1);
    assert_eq!(state.dir.content_selection, 0);
    assert!(state.parents.is_empty());
    assert!(state.prev_selections.is_empty());
    assert!(state.file_selection.files_selectable);
    assert_eq!(state.file_selection.file_selected, None);
}

#[test]
fn up_moves_the_selection_on_and_stops_at_the_last_entry() {
    let mut state = home(0, false);
    for expected in [1, 2, 3, 4, 4, 4] {
        state = new_state(state, Key::Up, None).unwrap();
        assert_eq!(state.dir.content_selection, expected);
    }
    assert_eq!(state.dir.path, "/home");
    assert_eq!(state.dir.contents.len(), 5);
}

#[test]
fn down_moves_the_selection_back_and_stops_at_the_first_entry() {
    let mut state = home(3, false);
    for expected in [2, 1, 0, 0] {
        state = new_state(state, Key::Down, None).unwrap();
        assert_eq!(state.dir.content_selection, expected);
    }
}

#[test]
fn moving_in_an_empty_listing_changes_nothing() {
    let empty = || State::new("/empty".to_string(), vec![], false);
    assert_eq!(new_state(empty(), Key::Up, None).unwrap().dir.content_selection, 0);
    assert_eq!(new_state(empty(), Key::Down, None).unwrap().dir.content_selection, 0);
    let state = new_state(empty(), Key::Right, None).unwrap();
    assert_eq!(state.dir.path, "/empty");
    assert!(state.parents.is_empty());
}

#[test]
fn up_brings_a_selection_beyond_the_listing_back_to_the_last_entry() {
    let state = new_state(home(17, false), Key::Up, None).unwrap();
    assert_eq!(state.dir.content_selection, 4);
    let state = new_state(home(usize::MAX, false), Key::Up, None).unwrap();
    assert_eq!(state.dir.content_selection, 4);
}

#[test]
fn right_goes_into_the_selected_directory() {
    let state = home(1, false);
    assert_eq!(needs_listing(&state, Key::Right), Some("/home/src".to_string()));
    let state = new_state(state, Key::Right, src_items()).unwrap();
    assert_eq!(state.dir.path, "/home/src");
    assert_eq!(names(&state.dir), vec!["bin", "lib.rs", "main.rs"]);
    assert_eq!(state.dir.content_selection, 0);
    assert_eq!(state.parents.len(), 1);
    assert_eq!(state.parents[0].path, "/home");
    assert_eq!(state.parents[0].content_selection, 1);
    assert_eq!(state.parents[0].contents.len(), 5);
    assert_eq!(state.file_selection.file_selected, None);
}

#[test]
fn enter_goes_into_the_selected_directory() {
    let state = home(0, false);
    assert_eq!(needs_listing(&state, Key::Char('\n')), Some("/home/docs".to_string()));
    let state = new_state(state, Key::Char('\n'), Some(vec![])).unwrap();
    assert_eq!(state.dir.path, "/home/docs");
    assert!(state.dir.contents.is_empty());
    assert_eq!(state.dir.content_selection, 0);
    assert_eq!(state.parents.len(), 1);
}

#[test]
fn going_into_a_directory_drops_the_picked_file() {
    let mut state = home(1, true);
    state.file_selection.file_selected = Some("/home/a.txt".to_string());
    let state = new_state(state, Key::Right, src_items()).unwrap();
    assert_eq!(state.file_selection.file_selected, None);
    assert!(state.file_selection.files_selectable);
}

#[test]
fn right_on_a_file_picks_it_where_files_may_be_picked() {
    let state = home(3, true);
    assert_eq!(needs_listing(&state, Key::Right), None);
    let state = new_state(state, Key::Right, None).unwrap();
    assert_eq!(state.file_selection.file_selected, Some("/home/b.txt".to_string()));
    assert_eq!(state.dir.path, "/home");
    assert_eq!(state.dir.content_selection, 3);
    assert!(state.parents.is_empty());
}

#[test]
fn right_on_a_file_does_nothing_where_files_may_not_be_picked() {
    let state = new_state(home(2, false), Key::Right, None).unwrap();
    assert_eq!(state.file_selection.file_selected, None);
    assert_eq!(state.dir.path, "/home");
    assert_eq!(state.dir.content_selection, 2);
    let state = new_state(home(2, false), Key::Char('\n'), None).unwrap();
    assert_eq!(state.file_selection.file_selected, None);
}

#[test]
fn right_on_an_unknown_entry_does_nothing() {
    for selectable in [false, true] {
        let state = home(4, selectable);
        assert_eq!(needs_listing(&state, Key::Right), None);
        let state = new_state(state, Key::Right, None).unwrap();
        assert_eq!(state.file_selection.file_selected, None);
        assert_eq!(state.dir.path, "/home");
        assert_eq!(state.dir.content_selection, 4);
        assert!(state.parents.is_empty());
    }
}

#[test]
fn right_with_the_selection_beyond_the_listing_does_nothing() {
    let state = home(5, true);
    assert_eq!(needs_listing(&state, Key::Right), None);
    let state = new_state(state, Key::Right, src_items()).unwrap();
    assert_eq!(state.dir.path, "/home");
    assert_eq!(state.dir.content_selection, 5);
}

#[test]
fn dot_drops_the_picked_file() {
    let state = new_state(home(3, true), Key::Right, None).unwrap();
    assert!(state.file_selection.file_selected.is_some());
    let state = new_state(state, Key::Char('.'), None).unwrap();
    assert_eq!(state.file_selection.file_selected, None);
    assert!(state.file_selection.files_selectable);
    assert_eq!(state.dir.content_selection, 3);
}

#[test]
fn other_keys_leave_the_state_as_it_is() {
    let keys = [
        Key::Backspace,
        Key::Home,
        Key::End,
        Key::PageUp,
        Key::PageDown,
        Key::BackTab,
        Key::Delete,
        Key::Insert,
        Key::F(1),
        Key::Char('x'),
        Key::Char('q'),
        Key::Alt('\n'),
        Key::Ctrl('.'),
        Key::Null,
        Key::Esc,
    ];
    for key in keys {
        let state = home(2, true);
        assert_eq!(needs_listing(&state, key), None);
        let state = new_state(state, key, None).unwrap();
        assert_eq!(state.dir.path, "/home");
        assert_eq!(state.dir.content_selection, 2);
        assert_eq!(state.dir.contents.len(), 5);
        assert!(state.parents.is_empty());
        assert!(state.prev_selections.is_empty());
        assert_eq!(state.file_selection.file_selected, None);
    }
}

#[test]
fn left_goes_back_to_the_directory_descended_from() {
    let state = new_state(home(1, false), Key::Right, src_items()).unwrap();
    let state = new_state(state, Key::Up, None).unwrap();
    assert_eq!(state.dir.content_selection, 1);
    assert_eq!(needs_listing(&state, Key::Left), None);
    let state = new_state(state, Key::Left, None).unwrap();
    assert_eq!(state.dir.path, "/home");
    assert_eq!(state.dir.content_selection, 1);
    assert_eq!(names(&state.dir), vec!["docs", "src", "a.txt", "b.txt", "dev"]);
    assert!(state.parents.is_empty());
    assert_eq!(recall(&state.prev_selections, &"/home/src".to_string()), Some(1));
}

#[test]
fn left_drops_the_picked_file() {
    let mut state = new_state(home(1, true), Key::Right, src_items()).unwrap();
    state.dir.content_selection = 2;
    let state = new_state(state, Key::Right, None).unwrap();
    assert_eq!(state.file_selection.file_selected, Some("/home/src/main.rs".to_string()));
    let state = new_state(state, Key::Left, None).unwrap();
    assert_eq!(state.dir.path, "/home");
    assert_eq!(state.file_selection.file_selected, None);
    assert!(state.file_selection.files_selectable);
}

#[test]
fn left_from_the_starting_directory_drops_the_picked_file() {
    let state = new_state(home(2, true), Key::Right, None).unwrap();
    assert_eq!(state.file_selection.file_selected, Some("/home/a.txt".to_string()));
    let state = new_state(state, Key::Left, Some(vec![item('d', "", "home")])).unwrap();
    assert_eq!(state.dir.path, "/");
    assert_eq!(state.file_selection.file_selected, None);
    assert!(state.file_selection.files_selectable);
    let mut picked = home(2, true);
    picked.file_selection.file_selected = Some("/home/a.txt".to_string());
    let state = enter_parent(picked, None, None, Some(vec![])).unwrap();
    assert_eq!(state.file_selection.file_selected, None);
    assert!(state.file_selection.files_selectable);
}

#[test]
fn ascend_from_the_starting_directory_selects_the_directory_left() {
    let start = || State::new("/a/b/c".to_string(), vec![child('f', "/a/b/c", "x")], false);
    assert_eq!(needs_listing(&start(), Key::Left), Some("/a/b".to_string()));
    let listing = Some(vec![
        item('f', "/a/b", "c.txt"),
        item('d', "/a/b", "d"),
        item('d', "/a/b", "c"),
        item('d', "/a/b", "a"),
    ]);
    let state = new_state(start(), Key::Left, listing).unwrap();
    assert_eq!(state.dir.path, "/a/b");
    assert_eq!(names(&state.dir), vec!["a", "c", "d", "c.txt"]);
    assert_eq!(state.dir.content_selection, 1);
    assert!(state.parents.is_empty());
    assert_eq!(recall(&state.prev_selections, &"/a/b/c".to_string()), Some(0));
}

#[test]
fn ascend_from_the_starting_directory_selects_the_first_entry_where_it_is_gone() {
    let start = || State::new("/a/b/c".to_string(), vec![], false);
    let listing = Some(vec![item('d', "/a/b", "a"), item('d', "/a/b", "d")]);
    let state = new_state(start(), Key::Left, listing).unwrap();
    assert_eq!(state.dir.path, "/a/b");
    assert_eq!(state.dir.content_selection, 0);
    // a file of that name is not the directory that was left
    let listing = Some(vec![item('d', "/a/b", "a"), item('f', "/a/b", "c")]);
    let state = new_state(start(), Key::Left, listing).unwrap();
    assert_eq!(names(&state.dir), vec!["a", "c"]);
    assert_eq!(state.dir.content_selection, 0);
    let state = new_state(start(), Key::Left, Some(vec![])).unwrap();
    assert_eq!(state.dir.content_selection, 0);
    assert!(state.dir.contents.is_empty());
}

#[test]
fn ascend_walks_up_to_the_root_and_stays_there() {
    let mut state = State::new("/a/b".to_string(), vec![], false);
    assert_eq!(needs_listing(&state, Key::Left), Some("/a".to_string()));
    state = new_state(state, Key::Left, Some(vec![item('d', "/a", "b")])).unwrap();
    assert_eq!(state.dir.path, "/a");
    assert_eq!(state.dir.content_selection, 0);
    assert_eq!(needs_listing(&state, Key::Left), Some("/".to_string()));
    let root = || Some(vec![item('d', "", "a"), item('d', "", "0")]);
    state = new_state(state, Key::Left, root()).unwrap();
    assert_eq!(state.dir.path, "/");
    assert_eq!(names(&state.dir), vec!["0", "a"]);
    assert_eq!(state.dir.content_selection, 1);
    assert_eq!(needs_listing(&state, Key::Left), Some("/".to_string()));
    state = new_state(state, Key::Left, root()).unwrap();
    assert_eq!(state.dir.path, "/");
    assert_eq!(state.dir.content_selection, 0);
    assert!(state.parents.is_empty());
}

#[test]
fn ascend_takes_a_path_with_a_trailing_separator() {
    let state = State::new("/a/b/c/".to_string(), vec![], false);
    assert_eq!(needs_listing(&state, Key::Left), Some("/a/b".to_string()));
    let listing = Some(vec![item('d', "/a/b", "a"), item('d', "/a/b", "c")]);
    let state = new_state(state, Key::Left, listing).unwrap();
    assert_eq!(state.dir.path, "/a/b");
    assert_eq!(state.dir.content_selection, 1);
}

#[test]
fn enter_parent_takes_the_parent_and_the_name_as_given() {
    let start = || State::new("/x/y".to_string(), vec![], true);
    let listing = || Some(vec![item('d', "/p", "n"), item('d', "/p", "m")]);
    let state =
        enter_parent(start(), Some("/p".to_string()), Some("n".to_string()), listing()).unwrap();
    assert_eq!(state.dir.path, "/p");
    assert_eq!(names(&state.dir), vec!["m", "n"]);
    assert_eq!(state.dir.content_selection, 1);
    assert_eq!(recall(&state.prev_selections, &"/x/y".to_string()), Some(0));
    let state = enter_parent(start(), None, None, listing()).unwrap();
    assert_eq!(state.dir.path, "/x/y");
    assert_eq!(state.dir.content_selection, 0);
    assert!(state.file_selection.files_selectable);
    let state = enter_parent(start(), None, Some("m".to_string()), None);
    assert_eq!(state.err(), Some(COULD_NOT_LIST_DIR));
}

#[test]
fn a_path_without_parent_is_its_own_parent() {
    assert_eq!(parent_path("/a/b".to_string(), Some("/a".to_string())), "/a");
    assert_eq!(parent_path("/a".to_string(), Some("".to_string())), "");
    assert_eq!(parent_path("/".to_string(), None), "/");
}

#[test]
fn enter_dir_takes_the_child_as_given() {
    let state = enter_dir(home(0, true), "/elsewhere".to_string(), src_items()).unwrap();
    assert_eq!(state.dir.path, "/elsewhere");
    assert_eq!(names(&state.dir), vec!["bin", "lib.rs", "main.rs"]);
    assert_eq!(state.parents.len(), 1);
    assert_eq!(state.parents[0].path, "/home");
    let state = enter_dir(home(0, true), "/elsewhere".to_string(), None);
    assert_eq!(state.err(), Some(COULD_NOT_LIST_DIR));
}

#[test]
fn descend_then_ascend_restores_the_view() {
    for selection in [0, 1] {
        let state = new_state(home(selection, false), Key::Right, src_items()).unwrap();
        let state = new_state(state, Key::Left, None).unwrap();
        assert_eq!(state.dir.path, "/home");
        assert_eq!(state.dir.content_selection, selection);
        assert_eq!(names(&state.dir), vec!["docs", "src", "a.txt", "b.txt", "dev"]);
        assert!(state.parents.is_empty());
    }
}

#[test]
fn selection_is_restored_on_coming_back() {
    let mut state = new_state(home(1, false), Key::Right, src_items()).unwrap();
    state = new_state(state, Key::Up, None).unwrap();
    state = new_state(state, Key::Up, None).unwrap();
    assert_eq!(state.dir.content_selection, 2);
    state = new_state(state, Key::Left, None).unwrap();
    assert_eq!(state.dir.content_selection, 1);
    state = new_state(state, Key::Right, src_items()).unwrap();
    assert_eq!(state.dir.path, "/home/src");
    assert_eq!(state.dir.content_selection, 2);
}

#[test]
fn selection_is_remembered_for_each_directory() {
    let mut state = new_state(home(1, false), Key::Right, src_items()).unwrap();
    state = new_state(state, Key::Up, None).unwrap();
    state = new_state(state, Key::Left, None).unwrap();
    state = new_state(state, Key::Down, None).unwrap();
    let docs = || Some(vec![item('f', "/home/docs", "a"), item('f', "/home/docs", "b")]);
    state = new_state(state, Key::Right, docs()).unwrap();
    assert_eq!(state.dir.path, "/home/docs");
    assert_eq!(state.dir.content_selection, 0);
    state = new_state(state, Key::Up, None).unwrap();
    state = new_state(state, Key::Left, None).unwrap();
    state = new_state(state, Key::Right, docs()).unwrap();
    assert_eq!(state.dir.content_selection, 1);
    state = new_state(state, Key::Left, None).unwrap();
    state = new_state(state, Key::Up, None).unwrap();
    state = new_state(state, Key::Right, src_items()).unwrap();
    assert_eq!(state.dir.path, "/home/src");
    assert_eq!(state.dir.content_selection, 1);
    assert_eq!(state.prev_selections.len(), 2);
}

#[test]
fn remember_keeps_one_selection_for_a_path() {
    let mut memory: Vec<(String, usize)> = Vec::new();
    assert_eq!(recall(&memory, &"/a".to_string()), None);
    remember(&mut memory, "/a".to_string(), 3);
    remember(&mut memory, "/b".to_string(), 5);
    assert_eq!(recall(&memory, &"/a".to_string()), Some(3));
    assert_eq!(recall(&memory, &"/b".to_string()), Some(5));
    remember(&mut memory, "/a".to_string(), 7);
    assert_eq!(recall(&memory, &"/a".to_string()), Some(7));
    assert_eq!(recall(&memory, &"/b".to_string()), Some(5));
    assert_eq!(recall(&memory, &"/c".to_string()), None);
    assert_eq!(memory.len(), 2);
}

#[test]
fn a_remembered_selection_beyond_the_listing_gives_the_last_entry() {
    let mut state = home(1, false);
    remember(&mut state.prev_selections, "/home/src".to_string(), 7);
    let state = new_state(state, Key::Right, src_items()).unwrap();
    assert_eq!(state.dir.contents.len(), 3);
    assert_eq!(state.dir.content_selection, 2);
    assert!(in_range(&state.dir));
    // the index itself stays remembered
    assert_eq!(recall(&state.prev_selections, &"/home/src".to_string()), Some(7));
}

#[test]
fn a_remembered_selection_within_the_listing_is_restored() {
    for remembered in [0, 1, 2] {
        let mut state = home(1, false);
        remember(&mut state.prev_selections, "/home/src".to_string(), remembered);
        let state = new_state(state, Key::Right, src_items()).unwrap();
        assert_eq!(state.dir.content_selection, remembered);
    }
    let mut state = home(1, false);
    remember(&mut state.prev_selections, "/home/src".to_string(), 3);
    let state = new_state(state, Key::Right, src_items()).unwrap();
    assert_eq!(state.dir.content_selection, 2);
}

#[test]
fn a_remembered_selection_in_an_empty_directory_gives_0() {
    let mut state = home(0, false);
    remember(&mut state.prev_selections, "/home/docs".to_string(), 4);
    let state = new_state(state, Key::Right, Some(vec![])).unwrap();
    assert_eq!(state.dir.path, "/home/docs");
    assert!(state.dir.contents.is_empty());
    assert_eq!(state.dir.content_selection, 0);
    let state = enter_dir(home(0, false), "/other".to_string(), Some(vec![])).unwrap();
    assert_eq!(state.dir.content_selection, 0);
}

#[test]
fn selection_stays_in_range_along_a_walk() {
    let keys = [
        Key::Up,
        Key::Up,
        Key::Down,
        Key::Right,
        Key::Up,
        Key::Up,
        Key::Up,
        Key::Up,
        Key::Char('\n'),
        Key::Left,
        Key::Left,
        Key::Down,
        Key::Char('.'),
        Key::Right,
        Key::Esc,
        Key::Left,
    ];
    let mut state = home(0, true);
    for key in keys {
        let listing = match needs_listing(&state, key) {
            Some(path) if path == "/home/src" => src_items(),
            Some(path) if path == "/" => Some(vec![item('d', "", "home"), item('d', "", "etc")]),
            Some(_) => Some(vec![]),
            None => None,
        };
        state = new_state(state, key, listing).unwrap();
        assert!(in_range(&state.dir), "after {:?}", key);
        for parent in state.parents.iter() {
            assert!(in_range(parent));
        }
    }
    assert_eq!(state.dir.path, "/");
    assert_eq!(state.dir.content_selection, 0);
    assert!(state.parents.is_empty());
}

#[test]
fn a_failed_listing_fails_the_transition() {
    assert_eq!(new_state(home(1, false), Key::Right, None).err(), Some(COULD_NOT_LIST_DIR));
    let bad = RawEntry { metadata: None, name: Some("x".to_string()), path: "/x".to_string() };
    assert_eq!(
        new_state(home(1, false), Key::Char('\n'), Some(vec![Some(bad)])).err(),
        Some(COULD_NOT_READ_METADATA)
    );
    assert_eq!(new_state(home(1, false), Key::Left, None).err(), Some(COULD_NOT_LIST_DIR));
    assert_eq!(
        new_state(home(1, false), Key::Left, Some(vec![None])).err(),
        Some(COULD_NOT_LIST_DIR)
    );
}

#[test]
fn a_listing_that_is_not_needed_is_not_looked_at() {
    let state = new_state(home(2, false), Key::Up, Some(vec![None])).unwrap();
    assert_eq!(state.dir.content_selection, 3);
    let state = new_state(home(2, true), Key::Right, Some(vec![None])).unwrap();
    assert_eq!(state.file_selection.file_selected, Some("/home/a.txt".to_string()));
}

#[test]
fn q_leaves_the_session() {
    assert!(matches!(handle_key(home(0, true), Key::Char('q'), None), Err(ABORT)));
    assert_eq!(ABORT, 1);
}

#[test]
fn enter_on_a_directory_chooses_it() {
    match handle_key(home(1, false), Key::Char('\n'), src_items()) {
        Ok(Step::Done { path }) => assert_eq!(path, "/home/src"),
        _ => panic!("the session should have ended"),
    }
}

#[test]
fn enter_on_a_file_chooses_it_where_files_may_be_picked() {
    match handle_key(home(2, true), Key::Char('\n'), None) {
        Ok(Step::Done { path }) => assert_eq!(path, "/home/a.txt"),
        _ => panic!("the session should have ended"),
    }
}

#[test]
fn confirm_gives_the_directory_where_files_may_not_be_picked() {
    for key in [Key::Char('\n'), Key::Char('.')] {
        for selection in [2, 3] {
            match handle_key(home(selection, false), key, None) {
                Ok(Step::Done { path }) => assert_eq!(path, "/home"),
                _ => panic!("the session should have ended"),
            }
        }
    }
}

#[test]
fn dot_chooses_the_directory_on_view() {
    let state = new_state(home(2, true), Key::Right, None).unwrap();
    assert_eq!(state.file_selection.file_selected, Some("/home/a.txt".to_string()));
    match handle_key(state, Key::Char('.'), None) {
        Ok(Step::Done { path }) => assert_eq!(path, "/home"),
        _ => panic!("the session should have ended"),
    }
}

#[test]
fn choose_path_prefers_the_picked_file() {
    let mut state = home(0, true);
    assert_eq!(choose_path(home(0, true)), "/home");
    state.file_selection.file_selected = Some("/home/b.txt".to_string());
    assert_eq!(choose_path(state), "/home/b.txt");
}

#[test]
fn the_screen_is_cleared_after_left_and_right_only() {
    let clears = |key: Key, state: State, listing| match handle_key(state, key, listing) {
        Ok(Step::Continue { clear_screen, .. }) => clear_screen,
        _ => panic!("the session should go on"),
    };
    assert!(clears(Key::Right, home(1, false), src_items()));
    assert!(clears(Key::Right, home(2, false), None));
    assert!(clears(Key::Left, home(0, false), Some(vec![])));
    assert!(!clears(Key::Up, home(0, false), None));
    assert!(!clears(Key::Down, home(0, false), None));
    assert!(!clears(Key::Char('x'), home(0, false), None));
    assert!(!clears(Key::Esc, home(0, false), None));
}

#[test]
fn the_screen_is_drawn_again_where_the_state_changed() {
    let renders = |key: Key, state: State, listing| match handle_key(state, key, listing) {
        Ok(Step::Continue { render, .. }) => render,
        _ => panic!("the session should go on"),
    };
    assert!(renders(Key::Up, home(0, false), None));
    assert!(!renders(Key::Up, home(4, false), None));
    assert!(renders(Key::Up, home(9, false), None));
    assert!(renders(Key::Down, home(1, false), None));
    assert!(!renders(Key::Down, home(0, false), None));
    assert!(renders(Key::Right, home(1, false), src_items()));
    assert!(renders(Key::Right, home(2, true), None));
    assert!(!renders(Key::Right, home(2, false), None));
    assert!(!renders(Key::Right, home(4, true), None));
    assert!(!renders(Key::Right, home(5, true), None));
    assert!(renders(Key::Left, home(0, false), Some(vec![])));
    assert!(!renders(Key::Char('x'), home(0, false), None));
    assert!(!renders(Key::Esc, home(0, false), None));
    assert!(!renders(Key::Up, State::new("/e".to_string(), vec![], false), None));
    let picked = new_state(home(2, true), Key::Right, None).unwrap();
    assert!(!renders(Key::Right, picked, None));
}

#[test]
fn changes_tells_whether_a_key_changes_the_state() {
    assert!(changes(&home(0, false), Key::Up));
    assert!(!changes(&home(4, false), Key::Up));
    assert!(!changes(&home(0, false), Key::Char('.')));
    let picked = new_state(home(2, true), Key::Right, None).unwrap();
    assert!(changes(&picked, Key::Char('.')));
    assert!(!changes(&picked, Key::Char('\n')));
    assert!(changes(&picked, Key::Left));
    assert!(!changes(&picked, Key::Char('q')));
}

#[test]
fn the_session_goes_on_in_the_next_state() {
    match handle_key(home(0, false), Key::Up, None) {
        Ok(Step::Continue { state, render, clear_screen }) => {
            assert_eq!(state.dir.content_selection, 1);
            assert!(render);
            assert!(!clear_screen);
        }
        _ => panic!("the session should go on"),
    }
}

#[test]
fn a_failed_listing_ends_the_session_with_its_error() {
    assert!(matches!(handle_key(home(1, false), Key::Right, None), Err(COULD_NOT_LIST_DIR)));
    assert!(matches!(
        handle_key(home(1, false), Key::Char('\n'), None),
        Err(COULD_NOT_LIST_DIR)
    ));
}

#[test]
fn the_output_is_the_path_and_a_line_feed() {
    assert_eq!(output_line("/home/src"), "/home/src\n");
    assert_eq!(output_line(""), "\n");
}

#[test]
fn a_clone_of_a_state_is_the_state() {
    let mut state = new_state(home(1, true), Key::Right, src_items()).unwrap();
    state = new_state(state, Key::Up, None).unwrap();
    state = new_state(state, Key::Right, None).unwrap();
    remember(&mut state.prev_selections, "/x".to_string(), 4);
    let copy = state.clone();
    assert_eq!(copy.dir.path, "/home/src");
    assert_eq!(names(&copy.dir), names(&state.dir));
    assert_eq!(copy.dir.content_selection, 1);
    assert_eq!(copy.parents.len(), 1);
    assert_eq!(copy.parents[0].path, "/home");
    assert_eq!(copy.parents[0].content_selection, 1);
    assert_eq!(copy.prev_selections, state.prev_selections);
    assert_eq!(copy.file_selection.file_selected, Some("/home/src/lib.rs".to_string()));
    assert!(copy.file_selection.files_selectable);
}

#[test]
fn either_holds_one_of_two() {
    let left: Either<u8, bool> = Either::Left(3);
    let right: Either<u8, bool> = Either::Right(true);
    assert!(matches!(left, Either::Left(3)));
    assert!(matches!(right, Either::Right(true)));
}
