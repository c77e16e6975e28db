use syntheticmind_dax::fabric::{HbmInterface, L2Overlay, RegionOverlayTable};
use syntheticmind_dax::sm_tile::{
    AsyncDmaEngine, CollapseUnit, DmaRequest, DriftMonitor, Overlay, OverlayChain, OverlaySram,
    Region, RoundaboutFabric, SpeculativeEngine, WarpScratchpad,
};
use syntheticmind_dax::transformer::{AttentionHook, KvDeltaEngine};

fn bits(v: &[f32]) -> Vec<u32> {
    v.iter().map(|x| x.to_bits()).collect()
}

#[test]
fn sram_starts_zeroed_with_active_chunks() {
    let s = OverlaySram::new(200);
    assert_eq!(s.len(), 200);
    assert!(s.data.iter().all(|&b| b == 0));
    assert_eq!(s.active_chunks, vec![true, true]);
    assert_eq!(s.chunk_size, 128);
    assert_eq!(s.chunk_bounds(1), (128, 200));
    assert_eq!(s.chunk_bounds(0), (0, 128));
    assert_eq!(OverlaySram::new(0).active_chunks.len(), 0);
}

#[test]
fn sram_write_commit_read() {
    let mut s = OverlaySram::new(4);
    s.write(2, 1.5f32.to_bits());
    s.write(9, 3.0f32.to_bits());
    assert_eq!(s.read_outgoing(2), 1.5f32.to_bits());
    assert_eq!(s.read(2), 0);
    s.commit_outgoing();
    assert_eq!(s.read(2), 1.5f32.to_bits());
    assert_eq!(s.data[2], 1.5f32.to_bits());
    assert_eq!(s.read_incoming(9), 0);
    s.rollback_outgoing();
    assert!(s.outgoing.iter().all(|&b| b == 0));
    assert_eq!(s.read(2), 1.5f32.to_bits());
}

#[test]
fn overlay_chain_fuses_tiny_overlays() {
    let mut c = OverlayChain::new();
    for k in 0..5u32 {
        c.push_overlay(vec![k, k + 100]);
    }
    c.push_overlay(vec![7; 40]);
    c.fuse_tiny_overlays(32, 4);
    let got: Vec<Vec<u32>> = c.fetch_overlays().into_iter().map(|o| o.values).collect();
    assert_eq!(got.len(), 3);
    assert_eq!(got[0], vec![0, 100, 1, 101, 2, 102, 3, 103]);
    assert_eq!(got[1], vec![7; 40]);
    assert_eq!(got[2], vec![4, 104]);
}

#[test]
fn overlay_fusion_leaves_large_overlays() {
    let mut c = OverlayChain::new();
    c.push_overlay(vec![1; 50]);
    c.push_overlay(vec![2; 60]);
    c.fuse_tiny_overlays(32, 4);
    let got: Vec<usize> = c.fetch_overlays().iter().map(|o| o.len()).collect();
    assert_eq!(got, vec![50, 60]);
    let o = Overlay::new(vec![]);
    assert!(o.is_empty());
}

#[test]
fn collapse_pushes_sram_and_fuses() {
    let cu = CollapseUnit::new();
    let mut chain = OverlayChain::new();
    cu.push_and_fuse(&OverlaySram::new(0), &mut chain);
    assert!(chain.fetch_overlays().is_empty());
    let mut s = OverlaySram::new(3);
    s.data = bits(&[0.5, 0.25, 0.25]);
    for _ in 0..4 {
        cu.push_and_fuse(&s, &mut chain);
    }
    let got = chain.fetch_overlays();
    assert_eq!(got.len(), 1);
    assert_eq!(got[0].values.len(), 12);
}

#[test]
fn scratchpad_load_store_clear() {
    let mut sp = WarpScratchpad::new(4);
    sp.load_from(&[1, 2]);
    assert_eq!(sp.as_slice(), &[1, 2, 0, 0]);
    sp.load_from(&[5, 6, 7, 8, 9]);
    assert_eq!(sp.as_slice(), &[5, 6, 7, 8]);
    let mut out = [0u32; 2];
    sp.store_into(&mut out);
    assert_eq!(out, [5, 6]);
    let mut data = vec![1u32; 8];
    sp.store_into_range(&mut data, 3, 5);
    assert_eq!(data, vec![1, 1, 1, 5, 6, 1, 1, 1]);
    sp.clear();
    assert_eq!(sp.as_slice(), &[0, 0, 0, 0]);
}

#[test]
fn dma_copies_like_memmove() {
    let mut s = OverlaySram::new(6);
    s.data = vec![0, 1, 2, 3, 4, 5];
    let mut dma = AsyncDmaEngine::new();
    dma.enqueue(DmaRequest { src_start: 0, dst_start: 2, len: 3 });
    dma.enqueue(DmaRequest { src_start: 5, dst_start: 0, len: 9 });
    dma.process_all(&mut s);
    assert_eq!(s.data, vec![5, 1, 0, 1, 2, 5]);
    assert!(dma.queue.is_empty());
}

#[test]
fn rollback_restores_snapshot() {
    let mut s = OverlaySram::new(6);
    s.data = vec![10, 11, 12, 13, 14, 15];
    let mut spec = SpeculativeEngine::new();
    spec.snapshot_region(&s, 2, 3);
    spec.snapshot_region(&s, 9, 3);
    assert_eq!(spec.snapshots.len(), 1);
    s.data = vec![0; 6];
    spec.rollback_all(&mut s);
    assert_eq!(s.data, vec![0, 0, 12, 13, 14, 0]);
    assert!(spec.snapshots.is_empty());
}

#[test]
fn hbm_store_then_load_wraps() {
    let mut hbm = HbmInterface::new(5);
    let mut s = OverlaySram::new(3);
    s.data = vec![7, 8, 9];
    hbm.store_region(3, &s);
    assert_eq!(hbm.hbm, vec![9, 0, 0, 7, 8]);
    let mut t = OverlaySram::new(4);
    hbm.load_region(3, &mut t);
    assert_eq!(t.data, vec![7, 8, 9, 0]);
}

#[test]
fn fabric_round_trip() {
    let mut f = RoundaboutFabric::new(3);
    let mut s = OverlaySram::new(5);
    s.data = vec![1, 2, 3, 4, 5];
    f.store_slices(&[], &s);
    let mut t = OverlaySram::new(5);
    f.load_slices(&[Region { id: 0 }], &mut t);
    assert_eq!(t.data, vec![1, 2, 3, 0, 0]);
}

#[test]
fn l2_evicts_oldest() {
    let mut l2 = L2Overlay::new(2);
    assert!(l2.get_recent().is_none());
    l2.push(Overlay::new(vec![1]));
    l2.push(Overlay::new(vec![2]));
    l2.push(Overlay::new(vec![3]));
    let all: Vec<Vec<u32>> = l2.all().iter().map(|o| o.values.clone()).collect();
    assert_eq!(all, vec![vec![2], vec![3]]);
    assert_eq!(l2.get_recent().unwrap().values, vec![3]);
}

#[test]
fn region_overlays_found_by_first_add() {
    let mut t = RegionOverlayTable::new();
    t.add(Region { id: 1 }, Overlay::new(vec![10]));
    t.add(Region { id: 2 }, Overlay::new(vec![20]));
    t.add(Region { id: 1 }, Overlay::new(vec![30]));
    assert_eq!(t.get_by_region(1).unwrap().overlay.values, vec![10]);
    assert_eq!(t.get_by_region(2).unwrap().overlay.values, vec![20]);
    assert!(t.get_by_region(3).is_none());
    assert_eq!(t.all().len(), 3);
}

#[test]
fn drift_history_is_bounded() {
    let mut d = DriftMonitor::new();
    assert_eq!(d.drift_threshold_bits(), 0.05f32.to_bits());
    assert!(d.recent_window().is_empty());
    for k in 0..70u32 {
        d.record_drift(k);
    }
    let w = d.recent_window();
    assert_eq!(w, (54..70).collect::<Vec<u32>>());
    let mut e = DriftMonitor::new();
    e.record_drift(5);
    assert_eq!(e.recent_window(), vec![5]);
}

#[test]
fn kv_deltas_follow_overlays() {
    let mut c = OverlayChain::new();
    c.push_overlay(vec![1, 2]);
    c.push_overlay(vec![3]);
    let ups = KvDeltaEngine::new().overlays_to_kv_deltas(&c);
    assert_eq!(ups.len(), 2);
    assert_eq!((ups[1].layer_id, ups[1].head_id), (1, 0));
    assert_eq!(ups[0].key_delta, vec![1, 2]);
    assert_eq!(ups[1].value_delta, vec![3]);
}

#[test]
fn attention_overlay_copies_sram() {
    let mut s = OverlaySram::new(2);
    s.data = vec![4, 5];
    let o = AttentionHook::new().sram_to_attention_overlay(3, 1, &s);
    assert_eq!((o.layer_id, o.head_id), (3, 1));
    assert_eq!(o.scores_delta, vec![4, 5]);
}

#[test]
fn overlay_delta_span_cuts_to_the_overlay() {
    let mut c = OverlayChain::new();
    c.push_overlay(bits(&[1.0, 2.0, 3.0, 4.0]));
    c.push_overlay(Vec::new());
    assert_eq!(c.len(), 2);
    let one = 1.0f32.to_bits();
    assert_eq!(c.delta_span(0, 1, 2, one), Some((1, 3)));
    assert_eq!(c.delta_span(0, 2, 10, one), Some((2, 4)));
    assert_eq!(c.delta_span(0, 4, 1, one), None);
    assert_eq!(c.delta_span(0, 0, 4, 0), None);
    assert_eq!(c.delta_span(0, 0, 4, 0x8000_0000), None);
    assert_eq!(c.delta_span(1, 0, 4, one), None);
    assert_eq!(c.delta_span(2, 0, 4, one), None);
}

#[test]
fn set_overlay_replaces_one_overlay() {
    let mut c = OverlayChain::new();
    c.push_overlay(vec![1, 2]);
    c.push_overlay(vec![3]);
    c.set_overlay(1, vec![7, 8, 9]);
    c.set_overlay(5, vec![0]);
    let ovs = c.fetch_overlays();
    assert_eq!(ovs.len(), 2);
    assert_eq!(ovs[0].values, vec![1, 2]);
    assert_eq!(ovs[1].values, vec![7, 8, 9]);
}

#[test]
fn l2_reports_its_capacity() {
    assert_eq!(L2Overlay::new(3).max_overlays(), 3);
    assert_eq!(L2Overlay::new(0).max_overlays(), 0);
}
