//! The core of a terminal directory browser: how the entries of a directory
//! are ordered, how the browsing state answers each key, and what is drawn
//! of it. Reading directories and keys, and writing to the terminal, is
//! left to the program around it.

pub mod dir_object;
pub mod error_code;
pub mod laws;
pub mod listing;
pub mod memory;
pub mod navigation;
pub mod order;
pub mod path;
pub mod session;
pub mod term;
pub mod ui;
pub mod utf8_order;

pub use navigation::{Dir, FileSelection, Key, State};

use vstd::prelude::*;

verus! {

/// One of two.
pub enum Either<A, B> {
    Left(A),
    Right(B),
}

} // verus!
