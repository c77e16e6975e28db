use vstd::prelude::*;
use super::region_table::Region;

verus! {

/// Regions split into active and cold, by id.
#[derive(Clone, Debug)]
pub struct RoundaboutRouting {
    pub active_regions: Vec<usize>,
    pub cold_regions: Vec<usize>,
}

impl Default for RoundaboutRouting {
    fn default() -> (r: Self)
        ensures
            r.active_regions@ == Seq::<usize>::empty(),
            r.cold_regions@ == Seq::<usize>::empty(),
    {
        RoundaboutRouting { active_regions: Vec::new(), cold_regions: Vec::new() }
    }
}

/// The ids of the regions whose flag is `want`, in order.
pub open spec fn ids_with_flag(regions: Seq<Region>, flags: Seq<bool>, want: bool) -> Seq<usize>
    decreases regions.len(),
{
    if regions.len() == 0 {
        Seq::empty()
    } else {
        let n = (regions.len() - 1) as int;
        let p = ids_with_flag(regions.drop_last(), flags, want);
        if flags[n] == want {
            p.push(regions[n].id)
        } else {
            p
        }
    }
}

/// Tile router: incoming (stable importance) and outgoing (recent activity) routing over
/// regions of `chunk_size` samples.
pub struct TileRouter {
    pub incoming_rt: RoundaboutRouting,
    pub outgoing_rt: RoundaboutRouting,
    pub chunk_size: usize,
}

impl TileRouter {
    pub fn new(chunk_size: usize) -> (t: Self)
        ensures
            t.chunk_size == chunk_size,
            t.incoming_rt.active_regions@ == Seq::<usize>::empty(),
            t.incoming_rt.cold_regions@ == Seq::<usize>::empty(),
            t.outgoing_rt.active_regions@ == Seq::<usize>::empty(),
            t.outgoing_rt.cold_regions@ == Seq::<usize>::empty(),
    {
        TileRouter {
            incoming_rt: RoundaboutRouting::default(),
            outgoing_rt: RoundaboutRouting::default(),
            chunk_size,
        }
    }

    /// The samples `[start, end)` of a region: `chunk_size` samples from
    /// `region_id * chunk_size`, cut at `total_len` (empty past it).
    pub fn region_bounds(&self, region_id: usize, total_len: usize) -> (r: (usize, usize))
        requires
            region_id * self.chunk_size + self.chunk_size <= usize::MAX,
        ensures
            r.0 == region_id * self.chunk_size,
            r.1 == if r.0 + self.chunk_size <= total_len {
                r.0 + self.chunk_size
            } else {
                total_len as int
            },
    {
        let start = region_id * self.chunk_size;
        let end = if start + self.chunk_size <= total_len {
            start + self.chunk_size
        } else {
            total_len
        };
        (start, end)
    }

    /// Rebuilds both routings: region `k` goes to the active list of the incoming routing
    /// when `incoming_active[k]`, else to its cold list, and likewise for the outgoing one.
    pub fn route_regions(
        &mut self,
        regions: &[Region],
        incoming_active: &[bool],
        outgoing_active: &[bool],
    )
        requires
            incoming_active@.len() == regions@.len(),
            outgoing_active@.len() == regions@.len(),
        ensures
            final(self).incoming_rt.active_regions@ == ids_with_flag(regions@, incoming_active@, true),
            final(self).incoming_rt.cold_regions@ == ids_with_flag(regions@, incoming_active@, false),
            final(self).outgoing_rt.active_regions@ == ids_with_flag(regions@, outgoing_active@, true),
            final(self).outgoing_rt.cold_regions@ == ids_with_flag(regions@, outgoing_active@, false),
            final(self).chunk_size == old(self).chunk_size,
    {
        self.incoming_rt.active_regions.clear();
        self.incoming_rt.cold_regions.clear();
        self.outgoing_rt.active_regions.clear();
        self.outgoing_rt.cold_regions.clear();
        let mut i: usize = 0;
        while i < regions.len()
            invariant
                i <= regions@.len(),
                incoming_active@.len() == regions@.len(),
                outgoing_active@.len() == regions@.len(),
                self.incoming_rt.active_regions@ == ids_with_flag(regions@.take(i as int), incoming_active@, true),
                self.incoming_rt.cold_regions@ == ids_with_flag(regions@.take(i as int), incoming_active@, false),
                self.outgoing_rt.active_regions@ == ids_with_flag(regions@.take(i as int), outgoing_active@, true),
                self.outgoing_rt.cold_regions@ == ids_with_flag(regions@.take(i as int), outgoing_active@, false),
                self.chunk_size == old(self).chunk_size,
            decreases regions@.len() - i,
        {
            assert(regions@.take(i as int + 1).drop_last() =~= regions@.take(i as int));
            let id = regions[i].id;
            if incoming_active[i] {
                self.incoming_rt.active_regions.push(id);
            } else {
                self.incoming_rt.cold_regions.push(id);
            }
            if outgoing_active[i] {
                self.outgoing_rt.active_regions.push(id);
            } else {
                self.outgoing_rt.cold_regions.push(id);
            }
            i = i + 1;
        }
        assert(regions@.take(i as int) =~= regions@);
    }
}

/// Routing puts every region in exactly one of the active and cold lists.
pub proof fn law_routing_partitions(regions: Seq<Region>, flags: Seq<bool>)
    requires
        flags.len() == regions.len(),
    ensures
        ids_with_flag(regions, flags, true).len() + ids_with_flag(regions, flags, false).len()
            == regions.len(),
    decreases regions.len(),
{
    if regions.len() > 0 {
        law_routing_partitions(regions.drop_last(), flags.drop_last());
        lemma_ids_with_flag_prefix(regions.drop_last(), flags, flags.drop_last(), true);
        lemma_ids_with_flag_prefix(regions.drop_last(), flags, flags.drop_last(), false);
    }
}

proof fn lemma_ids_with_flag_prefix(regions: Seq<Region>, f1: Seq<bool>, f2: Seq<bool>, want: bool)
    requires
        regions.len() <= f1.len(),
        regions.len() <= f2.len(),
        forall|k: int| 0 <= k < regions.len() ==> f1[k] == f2[k],
    ensures
        ids_with_flag(regions, f1, want) == ids_with_flag(regions, f2, want),
    decreases regions.len(),
{
    if regions.len() > 0 {
        lemma_ids_with_flag_prefix(regions.drop_last(), f1, f2, want);
    }
}

} // verus!
