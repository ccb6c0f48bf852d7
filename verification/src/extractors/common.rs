//! The extractor contract shared by every format handler.
use vstd::prelude::*;

verus! {

/// Result of one extractor invocation. `size`, when present, is the number
/// of *input* bytes consumed (never output bytes produced), so a caller can
/// advance its own scan cursor past consumed data. `success` is false
/// whenever no payload was recovered; `size` is `None` only when zero bytes
/// were consumed.
#[derive(Debug, Clone, Copy, PartialEq, Eq)]
pub struct ExtractionResult {
    pub success: bool,
    pub size: Option<usize>,
}

impl Default for ExtractionResult {
    /// The empty result: nothing recovered, nothing consumed.
    fn default() -> (r: Self)
        ensures
            r.success == false,
            r.size is None,
    {
        ExtractionResult { success: false, size: None }
    }
}

/// Closed set of the in-process extractor functions; the invoking engine
/// dispatches on this tag rather than through a function value.
#[derive(Debug, Clone, Copy, PartialEq, Eq, Structural)]
pub enum InternalExtractor {
    Bzip2,
    Cpio,
}

/// How a format handler is executed: an in-process function, an external
/// command to be run as a subprocess by the surrounding system, or no
/// handler at all.
#[derive(Debug, Clone, PartialEq, Eq)]
pub enum ExtractorType {
    Internal(InternalExtractor),
    External(String),
    Missing,
}

/// Descriptor of one format handler, selected and invoked by the scanning
/// engine.
#[derive(Debug, Clone, PartialEq, Eq)]
pub struct Extractor {
    pub utility: ExtractorType,
}

impl Default for Extractor {
    /// A descriptor with no handler.
    fn default() -> (r: Self)
        ensures
            r.utility == ExtractorType::Missing,
    {
        Extractor { utility: ExtractorType::Missing }
    }
}

} // verus!
