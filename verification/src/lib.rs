//! Locating a repository root and enumerating the
//! `project:target:configuration` triples of the project files below it.
//!
//! Paths are sequences of component names counted from the filesystem root.
//! The library touches no file: the caller reads directories and files and
//! hands over what it found. JSON is parsed by `serde_json`; what the
//! library makes of the parsed value is its own.

pub mod decode;
pub mod descriptor;
pub mod json;
pub mod paths;
pub mod report;
pub mod simple;
