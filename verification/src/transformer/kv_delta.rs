use vstd::prelude::*;
use crate::sm_tile::overlay_chain::OverlayChain;

verus! {

/// One KV-cache delta for a head and layer; deltas are f32 bit patterns.
#[derive(Clone, Debug)]
pub struct KvDeltaUpdate {
    pub layer_id: usize,
    pub head_id: usize,
    pub key_delta: Vec<u32>,
    pub value_delta: Vec<u32>,
}

pub struct KvDeltaEngine;

impl KvDeltaEngine {
    pub fn new() -> (e: Self) {
        KvDeltaEngine
    }

    /// One update per overlay of the chain, in order: overlay `k` goes to layer `k`,
    /// head 0, with its samples as both key and value delta.
    pub fn overlays_to_kv_deltas(&self, chain: &OverlayChain) -> (out: Vec<KvDeltaUpdate>)
        ensures
            out@.len() == chain.overlays().len(),
            forall|k: int|
                0 <= k < out@.len() ==> {
                    &&& (#[trigger] out@[k]).layer_id == k
                    &&& out@[k].head_id == 0
                    &&& out@[k].key_delta@ == chain.overlays()[k]
                    &&& out@[k].value_delta@ == chain.overlays()[k]
                },
    {
        let overlays = chain.fetch_overlays();
        let mut out: Vec<KvDeltaUpdate> = Vec::new();
        let mut idx: usize = 0;
        while idx < overlays.len()
            invariant
                idx <= overlays@.len(),
                overlays@.len() == chain.overlays().len(),
                forall|k: int| 0 <= k < overlays@.len() ==> #[trigger] overlays@[k].values@ == chain.overlays()[k],
                out@.len() == idx,
                forall|k: int|
                    0 <= k < idx ==> {
                        &&& (#[trigger] out@[k]).layer_id == k
                        &&& out@[k].head_id == 0
                        &&& out@[k].key_delta@ == chain.overlays()[k]
                        &&& out@[k].value_delta@ == chain.overlays()[k]
                    },
            decreases overlays@.len() - idx,
        {
            let ov = &overlays[idx];
            out.push(
                KvDeltaUpdate {
                    layer_id: idx,
                    head_id: 0,
                    key_delta: ov.values.clone(),
                    value_delta: ov.values.clone(),
                },
            );
            idx = idx + 1;
        }
        out
    }
}

} // verus!
