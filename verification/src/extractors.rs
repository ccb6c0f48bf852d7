//! The format handlers and the contract they share.
pub mod bzip2;
pub mod common;
pub mod cpio;
