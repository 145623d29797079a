//! Errors of the HWPX reader and writer (parse and write failures).
use vstd::prelude::*;

verus! {

#[derive(Debug, Clone, PartialEq)]
pub enum HwpxError {
    /// The input could not be read as HWPX.
    HwpxParse(String),
    /// The output could not be produced.
    HwpxWrite(String),
}

} // verus!
