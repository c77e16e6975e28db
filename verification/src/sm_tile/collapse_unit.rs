use vstd::prelude::*;
use super::overlay_chain::{fused_overlays, OverlayChain};
use super::overlay_sram::OverlaySram;

verus! {

/// Collapse unit: turns SRAM state into an overlay on the chain and fuses tiny overlays.
pub struct CollapseUnit {
    tiny_threshold: usize,
    min_to_fuse: usize,
}

impl CollapseUnit {
    pub closed spec fn tiny_threshold(&self) -> usize {
        self.tiny_threshold
    }

    pub closed spec fn min_to_fuse(&self) -> usize {
        self.min_to_fuse
    }

    /// Overlays of at most 32 samples are fused in runs of four.
    pub fn new() -> (c: Self)
        ensures
            c.tiny_threshold() == 32,
            c.min_to_fuse() == 4,
    {
        CollapseUnit { tiny_threshold: 32, min_to_fuse: 4 }
    }

    /// The chain side of a collapse: unless the buffer is empty, its (already normalized)
    /// samples are pushed as a new overlay and tiny overlays are fused.
    pub fn push_and_fuse(&self, sram: &OverlaySram, chain: &mut OverlayChain)
        ensures
            sram.data@.len() == 0 ==> final(chain).overlays() == old(chain).overlays(),
            sram.data@.len() > 0 ==> final(chain).overlays() == fused_overlays(
                old(chain).overlays().push(sram.data@),
                self.tiny_threshold(),
                self.min_to_fuse(),
            ),
    {
        if sram.data.len() == 0 {
            return;
        }
        chain.push_overlay(sram.data.clone());
        chain.fuse_tiny_overlays(self.tiny_threshold, self.min_to_fuse);
    }
}

} // verus!
