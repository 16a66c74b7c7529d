//! What the library reads of the browser's tabs and history entries.

use vstd::prelude::*;

verus! {

/// An open tab.
#[derive(Debug, Clone)]
pub struct Tab {
    pub id: usize,
    pub title: String,
    pub url: String,
    pub is_playing_audio: bool,
}

/// One visited page in the browsing history.
#[derive(Debug, Clone)]
pub struct HistoryEntry {
    pub title: String,
    pub url: String,
    /// Unix timestamp (seconds) of the visit.
    pub visited_at: u64,
}

} // verus!
