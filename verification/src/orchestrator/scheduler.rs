use vstd::prelude::*;
use crate::sm_tile::region_table::RegionTable;

verus! {

/// Semantic scheduler: decides which regions and overlays are updated, collapsed or routed.
pub struct SemanticScheduler;

impl SemanticScheduler {
    pub fn new() -> (s: Self) {
        SemanticScheduler
    }

    /// The scheduler's pass over the tile's region table. It takes no action yet: the
    /// table (its master list, pending changes and fetch snapshot) is left as it was, so a
    /// later fetch still reports every region it has not seen.
    pub fn apply_to_regions(&self, regions: &mut RegionTable)
        ensures
            final(regions).snapshot() == old(regions).snapshot(),
            final(regions).master() == old(regions).master(),
            final(regions).pending() == old(regions).pending(),
    {
    }
}

} // verus!
