//! Extraction engine for embedded binary formats: a streaming multi-member
//! bzip2 decompressor and a CPIO (newc) archive parser/extractor, with the
//! filesystem side kept behind a sandboxed path model.
use vstd::prelude::*;

pub mod common;
pub mod extractors;
pub mod hexnum;
pub mod sandbox;
pub mod structures;

