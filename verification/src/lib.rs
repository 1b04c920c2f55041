//! Session core of a terminal coding assistant: conversation compaction and
//! the composer, transcript and queue state behind the text interface.

pub mod compaction;
pub mod error_laws;
pub mod errors;
pub mod json;
pub mod json_laws;
pub mod models;
pub mod path_laws;
pub mod paths;
pub mod text;
pub mod text_laws;
pub mod tui;
