//! Live branch-diff reconciliation: keeps the diff between a repository's
//! head and a reference branch current as the head moves, discarding the
//! results of superseded recomputations.

use vstd::prelude::*;

pub mod base_cache;
pub mod controller;
pub mod diff_entry;
pub mod guarantees;
pub mod inlays;

verus! {

} // verus!
