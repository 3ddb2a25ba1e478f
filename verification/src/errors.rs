//! The library's error type.
use vstd::prelude::*;

verus! {

/// The error of the fallible conversions of this library.
#[derive(Debug, Clone, Copy, PartialEq, Eq, Structural)]
pub enum Error {
    Dummy,
}

impl Error {
    /// The human-readable description of the error.
    pub fn message(&self) -> (r: String)
        ensures
            r@ == "dummy error"@,
    {
        String::from_str("dummy error")
    }
}

} // verus!
