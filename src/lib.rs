//! Reads the events of a line-oriented calendar export and renders them as an
//! outline document.
//!
//! Every parsing step is stated over `Seq<char>` models and proved.

pub mod text;
pub mod datetime;
pub mod organizer;
pub mod event;
pub mod render;
