//! A pattern-based byte and text search engine over file trees.
//!
//! The crate compiles a user-supplied pattern (a simplified hex-pair syntax
//! or a text regular expression) into a byte matcher, enumerates candidate
//! files, scans raw bytes for non-overlapping matches up to a per-file cap,
//! and reports structured findings together with progress counters.

pub mod controller;
pub mod export;
pub mod hex;
pub mod matcher;
pub mod pattern;
pub mod scanner;
pub mod walk;
