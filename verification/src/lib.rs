//! Renders a directory walk as an annotated text tree.
//!
//! A walk is a sequence of entries in depth-first pre-order. The tree shape of
//! every output row is derived from the depths alone: whether an entry closes
//! its branch is read off the entry that follows it, and the guide columns in
//! front of it are read off the flags recorded for the shallower levels.
//!
//! The library does no input or output. Whoever walks the directory hands it
//! the entries, and gets the rows back as strings.

pub mod collect;
pub mod collect_laws;
pub mod entry;
pub mod layout;
pub mod layout_laws;
pub mod line;
pub mod options;
pub mod render;
pub mod render_laws;
pub mod stamp;
pub mod style;
