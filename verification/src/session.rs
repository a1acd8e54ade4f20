//! One turn of a session: a key is answered by the next state, and the
//! session goes on, ends with the chosen path, or is left.
//!
//! `q` leaves the session. Enter and `.` end it with the chosen path: the
//! file that is picked, or else the directory on view. Both are answered as
//! keys first, so that Enter on a directory chooses that directory, and `.`
//! always chooses the directory on view. After any other key that changed
//! the state the screen is drawn again, cleared first where the key was
//! `Left` or `Right`.

use crate::error_code::{ErrorCode, ABORT};
use crate::listing::{listing_view, RawListing, RawListingView};
use crate::navigation::{changes, changes_state, new_state, next_state, Key, State, StateView};
use vstd::prelude::*;
use vstd::string::StringExecFns;

verus! {

/// How a session goes on after a key.
pub enum Step {
    /// The session goes on in `state`. With `render` the screen is drawn
    /// again, and with `clear_screen` it is cleared first.
    Continue { state: State, render: bool, clear_screen: bool },
    /// The session ends, and `path` is its result.
    Done { path: String },
}

/// The plain value of a `Step`.
#[verifier::ext_equal]
pub enum StepView {
    Continue { state: StateView, render: bool, clear_screen: bool },
    Done { path: Seq<char> },
}

impl View for Step {
    type V = StepView;

    open spec fn view(&self) -> StepView {
        match self {
            Step::Continue { state, render, clear_screen } => StepView::Continue {
                state: state@,
                render: *render,
                clear_screen: *clear_screen,
            },
            Step::Done { path } => StepView::Done { path: path@ },
        }
    }
}

/// The plain value of the outcome of a turn.
pub open spec fn step_outcome(r: Result<Step, ErrorCode>) -> Result<StepView, ErrorCode> {
    match r {
        Ok(step) => Ok(step@),
        Err(e) => Err(e),
    }
}

/// The path that a session ends with: the file that is picked, or else the
/// directory on view.
pub open spec fn chosen_path(s: StateView) -> Seq<char> {
    match s.file_selection.file_selected {
        Some(path) => path,
        None => s.dir.path,
    }
}

/// Whether the key ends the session with the chosen path.
pub open spec fn is_confirm_key(key: Key) -> bool {
    key == Key::Char('\n') || key == Key::Char('.')
}

/// Whether the screen is cleared before it is drawn after the key.
pub open spec fn clears_screen(key: Key) -> bool {
    key == Key::Left || key == Key::Right
}

/// How the session goes on after `key` in the state `s`: the key is
/// answered as `next_state` says, and then looked at once more. The screen
/// is drawn again unless the key left the state as it was.
pub open spec fn session_step(
    s: StateView,
    key: Key,
    listing: RawListingView,
) -> Result<StepView, ErrorCode> {
    match next_state(s, key, listing) {
        Err(e) => Err(e),
        Ok(next) => if key == Key::Char('q') {
            Err(ABORT)
        } else if is_confirm_key(key) {
            Ok(StepView::Done { path: chosen_path(next) })
        } else {
            Ok(
                StepView::Continue {
                    state: next,
                    render: changes_state(s, key),
                    clear_screen: clears_screen(key),
                },
            )
        },
    }
}

/// The line that is written out for the chosen path: the path and a line
/// feed.
pub open spec fn output_text(path: Seq<char>) -> Seq<char> {
    path.push('\n')
}

/// The path that the session ends with in `state`.
pub fn choose_path(state: State) -> (path: String)
    ensures
        path@ == chosen_path(state@),
{
    match state.file_selection.file_selected {
        Some(path) => path,
        None => state.dir.path,
    }
}

/// Answers `key` in `current_state` and says how the session goes on.
/// `listing` is what was read of the directory that `needs_listing` names
/// for this state and key.
pub fn handle_key(
    current_state: State,
    key: Key,
    listing: RawListing,
) -> (r: Result<Step, ErrorCode>)
    ensures
        step_outcome(r) == session_step(current_state@, key, listing_view(listing)),
{
    let render = changes(&current_state, key);
    let state = match new_state(current_state, key, listing) {
        Ok(state) => state,
        Err(e) => return Err(e),
    };
    match key {
        Key::Char(c) => {
            if c == 'q' {
                Err(ABORT)
            } else if c == '\n' || c == '.' {
                Ok(Step::Done { path: choose_path(state) })
            } else {
                Ok(Step::Continue { state, render, clear_screen: false })
            }
        },
        Key::Left => Ok(Step::Continue { state, render, clear_screen: true }),
        Key::Right => Ok(Step::Continue { state, render, clear_screen: true }),
        _ => Ok(Step::Continue { state, render, clear_screen: false }),
    }
}

/// The line that is written out for the chosen path.
pub fn output_line(path: &str) -> (line: String)
    ensures
        line@ == output_text(path@),
{
    proof {
        reveal_strlit("\n");
    }
    let mut line = String::from_str(path);
    line.append("\n");
    line
}

} // verus!
