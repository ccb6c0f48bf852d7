//! Parsers for fixed-layout binary structures.
pub mod common;
pub mod cpio;
