//! Parser log-ids.
use vstd::prelude::*;

verus! {

/// Parser error log-ids.
#[derive(Debug, Clone, Copy, PartialEq, Eq, Structural)]
pub enum ParserError {
    /// No Unimarkup element was detected.
    NoUnimarkupDetected,
}

/// Parser warning log-ids.
#[derive(Debug, Clone, Copy, PartialEq, Eq, Structural)]
pub enum ParserWarning {
    /// An unsupported Unimarkup block.
    UnsupportedBlock,
}

} // verus!
