//! The text-buffer and cursor/viewport engine of a small terminal text
//! editor: a grapheme-indexed row type, a document of rows with search and
//! line-oriented mutation, and a cursor/viewport controller, all with
//! verified contracts. Terminal I/O and the file system live outside this
//! crate; callers hand in file contents, key events and the viewport size
//! as plain values.

pub mod document;
pub mod editor;
pub mod grapheme;
pub mod row;
pub mod textfmt;
