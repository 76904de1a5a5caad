//! The two interactive parts of the launcher: the search bar and the selection list.
pub mod search;
pub mod select;
