//! A binary search-and-dump engine.
//!
//! A buffer of bytes is loaded, a signed cursor is moved over it, byte
//! ranges are cut out of it with clamping at both edges, and byte patterns
//! are searched for from the cursor onwards.

pub mod arguments;
pub mod bin_dumper;
pub mod command;
pub mod engine;
pub mod error;
pub mod number;
