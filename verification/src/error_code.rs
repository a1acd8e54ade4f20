//! Exit codes of a browsing session.

use vstd::prelude::*;

verus! {

/// The status with which a session ends when it does not end well.
pub type ErrorCode = u8;

/// The user left the session without choosing a path.
pub const ABORT: u8 = 1;

/// The next key could not be read.
pub const KEY_INPUT_ERROR: u8 = 100;

/// A directory, or one of its items, could not be read.
pub const COULD_NOT_LIST_DIR: u8 = 101;

/// The kind or the name of a directory entry could not be read.
pub const COULD_NOT_READ_METADATA: u8 = 102;

/// The chosen path could not be written out.
pub const ERROR_WRITING_TO_OUTPUT: u8 = 103;

/// The screen could not be flushed.
pub const FAILED_TO_FLUSH_UI_SCREEN: u8 = 201;

/// The screen could not be written to.
pub const FAILED_TO_WRITE_TO_UI_SCREEN: u8 = 202;

/// The screen could not be set up.
pub const FAILED_TO_CREATE_UI_SCREEN: u8 = 203;

/// The height of the terminal is not known.
pub const COULD_NOT_DETERMINE_TERMINAL_SIZE: u8 = 204;

} // verus!
