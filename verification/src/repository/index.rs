//! Figures the repository index reports.

use vstd::prelude::*;

verus! {

/// How many snapshots the index holds and how many blocks they hold in all.
pub struct IndexStatistics {
    pub total_snapshots: u64,
    pub total_blocks: u64,
}

} // verus!
