//! Application settings carried to the request handlers.
use vstd::prelude::*;

verus! {

/// The public base address of the application.
pub struct ApplicationBaseUrl(pub String);

} // verus!
