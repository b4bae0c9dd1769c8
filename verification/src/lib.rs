//! Parser for LRC lyric lines: metadata tags, comments and timed lyrics.
//!
//! [`parse_single`] reads one line, [`parse`] the lines of a document. What
//! they return is stated over the characters of the lines: see
//! [`line::line_outcome`] and [`document::document_outcome`]. The module
//! [`laws`] holds what follows from those definitions for every line and
//! every document.

pub mod decimal;
pub mod document;
pub mod integer;
pub mod laws;
pub mod line;
pub mod scan;
pub mod text;
pub mod timestamp;
pub mod types;

pub use document::parse;
pub use line::parse_single;
pub use types::{LrcItem, LrcMetadata, LrcParseError};
