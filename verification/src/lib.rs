//! Typed access to exiftool's JSON output: a tag reader that turns one
//! file's record into typed values, and a combiner that merges many
//! per-file records into one grouped record of distinct values. Both
//! are specified against mathematical models and verified; the external
//! tool itself, and all I/O around it, stay outside this crate.

pub mod assoc;
pub mod binary;
pub mod combine;
pub mod error;
pub mod reader;
pub mod value;
