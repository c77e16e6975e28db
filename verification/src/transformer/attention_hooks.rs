use vstd::prelude::*;
use crate::sm_tile::overlay_sram::OverlaySram;

verus! {

/// Overlay applied to attention scores; deltas are f32 bit patterns.
#[derive(Clone, Debug)]
pub struct AttentionOverlay {
    pub layer_id: usize,
    pub head_id: usize,
    pub scores_delta: Vec<u32>,
}

pub struct AttentionHook;

impl AttentionHook {
    pub fn new() -> (h: Self) {
        AttentionHook
    }

    /// The attention overlay for a layer and head: the SRAM's unified samples.
    pub fn sram_to_attention_overlay(
        &self,
        layer_id: usize,
        head_id: usize,
        sram: &OverlaySram,
    ) -> (o: AttentionOverlay)
        ensures
            o.layer_id == layer_id,
            o.head_id == head_id,
            o.scores_delta@ == sram.data@,
    {
        AttentionOverlay { layer_id, head_id, scores_delta: sram.data.clone() }
    }
}

} // verus!
