use vstd::prelude::*;
use super::region_table::Region;
use super::overlay_sram::{filled, zeroed, OverlaySram};
use super::delta_core::copy_prefix;

verus! {

/// Skimming unit: decides which regions are worth touching this step (all of them).
pub struct SkimUnit;

impl SkimUnit {
    pub fn new() -> (s: Self) {
        SkimUnit
    }

    /// Every region, in order.
    pub fn skim(&self, regions: &[Region]) -> (out: Vec<Region>)
        ensures
            out@ == regions@,
    {
        let mut out: Vec<Region> = Vec::new();
        let mut i: usize = 0;
        while i < regions.len()
            invariant
                i <= regions@.len(),
                out@ == regions@.take(i as int),
            decreases regions@.len() - i,
        {
            out.push(regions[i]);
            i = i + 1;
            assert(out@ =~= regions@.take(i as int));
        }
        assert(regions@.take(i as int) =~= regions@);
        out
    }
}

/// A logical execution block over regions, by index.
pub struct Group {
    pub region_indices: Vec<usize>,
}

/// Groups processed together.
pub struct Cluster {
    pub groups: Vec<Group>,
}

/// Group `k` of `n` regions taken in pairs: `[2k, 2k+1]`, or `[2k]` for a last odd one.
pub open spec fn pair_group(k: int, n: int) -> Seq<usize> {
    if 2 * k + 1 < n {
        seq![(2 * k) as usize, (2 * k + 1) as usize]
    } else {
        seq![(2 * k) as usize]
    }
}

pub struct GroupUnit;

impl GroupUnit {
    pub fn new() -> (g: Self) {
        GroupUnit
    }

    /// Pairs consecutive region indices into groups; an odd last one stands alone.
    pub fn form_groups(&self, regions: &[Region]) -> (groups: Vec<Group>)
        ensures
            groups@.len() == (regions@.len() + 1) / 2,
            forall|k: int|
                0 <= k < groups@.len() ==> (#[trigger] groups@[k]).region_indices@ == pair_group(
                    k,
                    regions@.len() as int,
                ),
    {
        let n = regions.len();
        let mut groups: Vec<Group> = Vec::new();
        let mut current: Vec<usize> = Vec::new();
        let mut idx: usize = 0;
        while idx < n
            invariant
                n == regions@.len(),
                idx <= n,
                groups@.len() == idx / 2,
                current@.len() == idx % 2,
                idx % 2 == 1 ==> current@ == seq![(idx - 1) as usize],
                forall|k: int|
                    0 <= k < groups@.len() ==> (#[trigger] groups@[k]).region_indices@ == pair_group(
                        k,
                        n as int,
                    ),
            decreases n - idx,
        {
            current.push(idx);
            if current.len() == 2 {
                let mut done: Vec<usize> = Vec::new();
                done.push(current[0]);
                done.push(current[1]);
                assert(done@ =~= pair_group((idx / 2) as int, n as int));
                groups.push(Group { region_indices: done });
                current = Vec::new();
            }
            idx = idx + 1;
        }
        if current.len() > 0 {
            assert(current@ =~= pair_group((n / 2) as int, n as int));
            groups.push(Group { region_indices: current });
        }
        groups
    }
}

pub struct ClusterUnit;

impl ClusterUnit {
    pub fn new() -> (c: Self) {
        ClusterUnit
    }

    /// One cluster holding every group.
    pub fn assign_clusters(&self, groups: Vec<Group>) -> (clusters: Vec<Cluster>)
        ensures
            clusters@.len() == 1,
            clusters@[0].groups@ == groups@,
    {
        let mut clusters: Vec<Cluster> = Vec::new();
        clusters.push(Cluster { groups });
        clusters
    }
}

/// Ring-style memory fabric: a sample buffer (f32 bits) that tiles load from and store to.
pub struct RoundaboutFabric {
    hbm: Vec<u32>,
}

impl RoundaboutFabric {
    pub closed spec fn contents(&self) -> Seq<u32> {
        self.hbm@
    }

    pub fn new(size: usize) -> (f: Self)
        ensures
            f.contents() == filled(size as nat, 0),
    {
        RoundaboutFabric { hbm: zeroed(size) }
    }

    /// Copies the fabric's first samples into the unified buffer, over the shorter length.
    pub fn load_slices(&self, regions: &[Region], sram: &mut OverlaySram)
        ensures
            final(sram).data@ == copy_prefix(old(sram).data@, self.contents()),
            final(sram).incoming@ == old(sram).incoming@,
            final(sram).outgoing@ == old(sram).outgoing@,
            final(sram).heatmap_short@ == old(sram).heatmap_short@,
            final(sram).heatmap_mid@ == old(sram).heatmap_mid@,
            final(sram).heatmap_long@ == old(sram).heatmap_long@,
            final(sram).active_chunks@ == old(sram).active_chunks@,
            final(sram).chunk_size == old(sram).chunk_size,
    {
        let n = if sram.data.len() <= self.hbm.len() {
            sram.data.len()
        } else {
            self.hbm.len()
        };
        let mut i: usize = 0;
        while i < n
            invariant
                n <= old(sram).data@.len(),
                n <= self.hbm@.len(),
                i <= n,
                sram.data@ == self.hbm@.take(i as int) + old(sram).data@.skip(i as int),
                sram.incoming@ == old(sram).incoming@,
                sram.outgoing@ == old(sram).outgoing@,
                sram.heatmap_short@ == old(sram).heatmap_short@,
                sram.heatmap_mid@ == old(sram).heatmap_mid@,
                sram.heatmap_long@ == old(sram).heatmap_long@,
                sram.active_chunks@ == old(sram).active_chunks@,
                sram.chunk_size == old(sram).chunk_size,
            decreases n - i,
        {
            sram.data.set(i, self.hbm[i]);
            i = i + 1;
            assert(sram.data@ =~= self.hbm@.take(i as int) + old(sram).data@.skip(i as int));
        }
    }

    /// Copies the unified buffer's first samples into the fabric, over the shorter length.
    pub fn store_slices(&mut self, regions: &[Region], sram: &OverlaySram)
        ensures
            final(self).contents() == copy_prefix(old(self).contents(), sram.data@),
    {
        let n = if sram.data.len() <= self.hbm.len() {
            sram.data.len()
        } else {
            self.hbm.len()
        };
        let mut i: usize = 0;
        while i < n
            invariant
                n <= sram.data@.len(),
                n <= old(self).hbm@.len(),
                i <= n,
                self.hbm@ == sram.data@.take(i as int) + old(self).hbm@.skip(i as int),
            decreases n - i,
        {
            self.hbm.set(i, sram.data[i]);
            i = i + 1;
            assert(self.hbm@ =~= sram.data@.take(i as int) + old(self).hbm@.skip(i as int));
        }
    }
}

/// Storing a buffer to the fabric and loading it back gives back its samples over the
/// shorter of the two lengths.
pub proof fn law_fabric_round_trip(fabric: Seq<u32>, data: Seq<u32>, other: Seq<u32>, i: int)
    requires
        other.len() == data.len(),
        0 <= i < data.len(),
        i < fabric.len(),
    ensures
        copy_prefix(other, copy_prefix(fabric, data))[i] == data[i],
{
}

} // verus!
