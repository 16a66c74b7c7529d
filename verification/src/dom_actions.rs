//! Timing constants of the injected DOM action harness.

use vstd::prelude::*;

verus! {

/// How long an interaction retries until its target is present, stable and
/// unobstructed (~2.5 s).
pub const RETRY_MS: u64 = 2500;

/// How long an action waits for an `expect`ed outcome (up to 6 s).
pub const SETTLE_MS: u64 = 6000;

} // verus!
