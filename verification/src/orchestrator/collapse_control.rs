use vstd::prelude::*;

verus! {

/// Collapse control: multi-pass collapse, reversible rules and chain compaction.
pub struct CollapseControl;

impl CollapseControl {
    pub fn new() -> (c: Self) {
        CollapseControl
    }
}

} // verus!
