//! Search results of the arXiv API, persisted locally: a metadata file with one
//! JSON object per paper, one PDF per paper and one text file per summary.
//!
//! The library decides what to write and where; the program around it performs
//! the network requests and the file writes.

mod text;

pub mod plan;
pub mod query;
pub mod record;

pub mod sanitize;

pub use sanitize::sanitize_filename;
