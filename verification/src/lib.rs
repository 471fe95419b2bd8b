//! Core of a single-document text editor: a grapheme-aware line buffer
//! with cursor and selection, dirty tracking, syntax-highlight span
//! computation, and the state machine that applies the outcomes of
//! asynchronous open/save workflows.

pub mod text;
pub mod errors;
pub mod highlight;
pub mod document;
pub mod buffer;
pub mod flow;
