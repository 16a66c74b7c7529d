//! Quick slots: ten pinned pages per workspace, on keys 1–9 and 0. Saving and
//! loading them is left to the caller.

use vstd::prelude::*;

verus! {

/// One pinned page.
#[derive(Debug)]
pub struct QuickSlot {
    pub url: String,
    pub title: String,
    /// Favicon as a base64 data URI, when one is cached.
    pub favicon: Option<String>,
}

} // verus!
