//! The error values the library itself produces.  Per-target failures
//! (resolution errors, probe failures) are not errors of the library: the
//! controller converts them into unreachable outcomes and the run goes on.

use vstd::prelude::*;

verus! {

/// A target or port specification that could not be parsed.  The payload is
/// the offending input: the whole specification for an address that does
/// not parse, or the single malformed token of a port list.
#[derive(Debug)]
pub enum ScanError {
    InvalidSpec(String),
}

impl ScanError {
    /// The offending input carried by this error.
    pub fn offending(&self) -> (r: &String)
        ensures
            self matches ScanError::InvalidSpec(t) && r == t,
    {
        match self {
            ScanError::InvalidSpec(t) => t,
        }
    }
}

} // verus!
