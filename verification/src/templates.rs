//! The data that the HTML pages render.
use vstd::prelude::*;
use crate::aion::response::SimpleDisplay;

verus! {

/// The page listing all news items.
pub struct AllNewsTemplate {
    pub items: Vec<SimpleDisplay>,
}

/// The landing page.
pub struct IndexTemplate {}

/// The page listing the latest news items.
pub struct LatestNewsTemplate {
    pub items: Vec<SimpleDisplay>,
}

} // verus!
