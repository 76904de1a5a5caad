//! A keyboard-driven application launcher: a catalog of desktop entries, a search bar,
//! and a filtered, paged selection list.
pub mod application_launcher;
pub mod catalog;
pub mod input;
pub mod launch;
pub mod text;
pub mod widgets;
