use vstd::prelude::*;
use crate::sm_tile::overlay_sram::{filled, zeroed, OverlaySram};

verus! {

/// Number of samples a region transfer moves: the shorter of SRAM and HBM.
pub open spec fn transfer_len(sram_len: nat, hbm_len: nat) -> nat {
    if sram_len <= hbm_len {
        sram_len
    } else {
        hbm_len
    }
}

/// SRAM after loading region `r` from HBM: sample `i` of the transfer comes from HBM
/// position `(r + i) mod |hbm|`.
pub open spec fn loaded(data: Seq<u32>, hbm: Seq<u32>, r: usize) -> Seq<u32> {
    let n = transfer_len(data.len(), hbm.len());
    Seq::new(
        data.len(),
        |i: int| if i < n { hbm[(r + i) % (hbm.len() as int)] } else { data[i] },
    )
}

/// HBM after storing SRAM as region `r`: position `j` takes SRAM sample
/// `(j - r) mod |hbm|` when that falls inside the transfer.
pub open spec fn stored(hbm: Seq<u32>, data: Seq<u32>, r: usize) -> Seq<u32> {
    let n = transfer_len(data.len(), hbm.len());
    Seq::new(
        hbm.len(),
        |j: int|
            if (j - r) % (hbm.len() as int) < n {
                data[(j - r) % (hbm.len() as int)]
            } else {
                hbm[j]
            },
    )
}

/// Region transfers stay within `usize` arithmetic.
pub open spec fn transfer_fits(r: usize, sram_len: nat, hbm_len: nat) -> bool {
    r + transfer_len(sram_len, hbm_len) <= usize::MAX + 1
}

proof fn lemma_wrap_offset(r: int, i: int, h: int)
    requires
        h > 0,
        0 <= i < h,
        r >= 0,
    ensures
        0 <= (r + i) % h < h,
        ((r + i) % h - r) % h == i,
{
    let p = (r + i) % h;
    let q = (r + i) / h;
    assert(r + i == q * h + p && 0 <= p < h) by (nonlinear_arith)
        requires
            h > 0,
            p == (r + i) % h,
            q == (r + i) / h,
    ;
    assert((p - r) % h == i) by (nonlinear_arith)
        requires
            p - r == i - q * h,
            0 <= i < h,
            h > 0,
    ;
}

/// HBM behind the tiles: one sample buffer (f32 bits), read and written by region with
/// wrap-around.
pub struct HbmInterface {
    pub hbm: Vec<u32>,
}

impl HbmInterface {
    pub fn new(size: usize) -> (h: Self)
        ensures
            h.hbm@ == filled(size as nat, 0),
    {
        HbmInterface { hbm: zeroed(size) }
    }

    /// Reads region `region_id` into the start of SRAM's unified buffer.
    pub fn load_region(&self, region_id: usize, sram: &mut OverlaySram)
        requires
            transfer_fits(region_id, old(sram).data@.len(), self.hbm@.len()),
        ensures
            final(sram).data@ == loaded(old(sram).data@, self.hbm@, region_id),
            final(sram).incoming@ == old(sram).incoming@,
            final(sram).outgoing@ == old(sram).outgoing@,
            final(sram).heatmap_short@ == old(sram).heatmap_short@,
            final(sram).heatmap_mid@ == old(sram).heatmap_mid@,
            final(sram).heatmap_long@ == old(sram).heatmap_long@,
            final(sram).active_chunks@ == old(sram).active_chunks@,
            final(sram).chunk_size == old(sram).chunk_size,
    {
        let hbm_len = self.hbm.len();
        let len = if sram.data.len() <= hbm_len {
            sram.data.len()
        } else {
            hbm_len
        };
        let ghost d0 = sram.data@;
        let mut i: usize = 0;
        while i < len
            invariant
                len == transfer_len(d0.len(), self.hbm@.len()),
                hbm_len == self.hbm@.len(),
                transfer_fits(region_id, d0.len(), self.hbm@.len()),
                i <= len,
                sram.data@.len() == d0.len(),
                forall|k: int|
                    0 <= k < d0.len() ==> #[trigger] sram.data@[k] == if k < i {
                        self.hbm@[(region_id + k) % (hbm_len as int)]
                    } else {
                        d0[k]
                    },
                sram.incoming@ == old(sram).incoming@,
                sram.outgoing@ == old(sram).outgoing@,
                sram.heatmap_short@ == old(sram).heatmap_short@,
                sram.heatmap_mid@ == old(sram).heatmap_mid@,
                sram.heatmap_long@ == old(sram).heatmap_long@,
                sram.active_chunks@ == old(sram).active_chunks@,
                sram.chunk_size == old(sram).chunk_size,
            decreases len - i,
        {
            let idx = (region_id + i) % hbm_len;
            sram.data.set(i, self.hbm[idx]);
            i = i + 1;
        }
        assert(sram.data@ =~= loaded(d0, self.hbm@, region_id));
    }

    /// Writes the start of SRAM's unified buffer into HBM as region `region_id`.
    pub fn store_region(&mut self, region_id: usize, sram: &OverlaySram)
        requires
            transfer_fits(region_id, sram.data@.len(), old(self).hbm@.len()),
        ensures
            final(self).hbm@ == stored(old(self).hbm@, sram.data@, region_id),
    {
        let hbm_len = self.hbm.len();
        let len = if sram.data.len() <= hbm_len {
            sram.data.len()
        } else {
            hbm_len
        };
        let ghost h0 = self.hbm@;
        let mut i: usize = 0;
        while i < len
            invariant
                len == transfer_len(sram.data@.len(), h0.len()),
                hbm_len == h0.len(),
                transfer_fits(region_id, sram.data@.len(), h0.len()),
                i <= len,
                self.hbm@.len() == h0.len(),
                forall|j: int|
                    0 <= j < h0.len() ==> #[trigger] self.hbm@[j] == if (j - region_id) % (
                    hbm_len as int) < i {
                        sram.data@[(j - region_id) % (hbm_len as int)]
                    } else {
                        h0[j]
                    },
            decreases len - i,
        {
            let idx = (region_id + i) % hbm_len;
            proof {
                lemma_wrap_offset(region_id as int, i as int, hbm_len as int);
            }
            let ghost before = self.hbm@;
            self.hbm.set(idx, sram.data[i]);
            proof {
                let h = hbm_len as int;
                let r = region_id as int;
                assert forall|j: int| 0 <= j < h0.len() implies #[trigger] self.hbm@[j] == if (j
                    - region_id) % h < i + 1 {
                    sram.data@[(j - region_id) % h]
                } else {
                    h0[j]
                } by {
                    if j != idx {
                        if (j - r) % h == i {
                            assert(j == idx) by (nonlinear_arith)
                                requires
                                    (j - r) % h == i,
                                    ((idx - r) % h) == i,
                                    0 <= j < h,
                                    0 <= idx < h,
                                    h > 0,
                            ;
                        }
                        assert(self.hbm@[j] == before[j]);
                    }
                }
            }
            i = i + 1;
        }
        assert(self.hbm@ =~= stored(h0, sram.data@, region_id));
    }
}

/// Storing SRAM as a region and loading that region back gives back the transferred
/// samples.
pub proof fn law_hbm_round_trip(hbm: Seq<u32>, data: Seq<u32>, other: Seq<u32>, r: usize, i: int)
    requires
        other.len() == data.len(),
        0 <= i < transfer_len(data.len(), hbm.len()),
    ensures
        loaded(other, stored(hbm, data, r), r)[i] == data[i],
{
    lemma_wrap_offset(r as int, i, hbm.len() as int);
}

} // verus!
