use vstd::prelude::*;
use crate::sm_tile::overlay_chain::Overlay;
use crate::sm_tile::region_table::Region;

verus! {

/// An overlay attached to a region.
#[derive(Clone, Debug)]
pub struct RegionOverlay {
    pub region: Region,
    pub overlay: Overlay,
}

/// An entry as plain values: (region id, samples).
pub open spec fn entry_view(e: RegionOverlay) -> (usize, Seq<u32>) {
    (e.region.id, e.overlay.values@)
}

/// Position of the first entry for region `id`, if any.
pub open spec fn first_for(s: Seq<(usize, Seq<u32>)>, id: usize) -> Option<int>
    decreases s.len(),
{
    if s.len() == 0 {
        None
    } else {
        match first_for(s.drop_last(), id) {
            Some(k) => Some(k),
            None => if s.last().0 == id {
                Some(s.len() - 1)
            } else {
                None
            },
        }
    }
}

/// Region overlays in the order they were added.
pub struct RegionOverlayTable {
    entries: Vec<RegionOverlay>,
}

impl RegionOverlayTable {
    pub closed spec fn entries(&self) -> Seq<(usize, Seq<u32>)> {
        self.entries@.map_values(|e: RegionOverlay| entry_view(e))
    }

    pub fn new() -> (t: Self)
        ensures
            t.entries() == Seq::<(usize, Seq<u32>)>::empty(),
    {
        let t = RegionOverlayTable { entries: Vec::new() };
        assert(t.entries() =~= Seq::<(usize, Seq<u32>)>::empty());
        t
    }

    pub fn add(&mut self, region: Region, overlay: Overlay)
        ensures
            final(self).entries() == old(self).entries().push((region.id, overlay.values@)),
    {
        let ghost v = overlay.values@;
        self.entries.push(RegionOverlay { region, overlay });
        assert(self.entries() =~= old(self).entries().push((region.id, v)));
    }

    /// The first entry added for region `region_id`.
    pub fn get_by_region(&self, region_id: usize) -> (r: Option<&RegionOverlay>)
        ensures
            first_for(self.entries(), region_id) is None ==> r is None,
            first_for(self.entries(), region_id) matches Some(k) ==> (r matches Some(e)
                && entry_view(*e) == self.entries()[k]),
    {
        let ghost es = self.entries();
        let mut i: usize = 0;
        while i < self.entries.len()
            invariant
                i <= self.entries@.len(),
                es == self.entries(),
                first_for(es.take(i as int), region_id) is None,
            decreases self.entries@.len() - i,
        {
            assert(es.take(i as int + 1).drop_last() =~= es.take(i as int));
            if self.entries[i].region.id == region_id {
                proof {
                    lemma_first_for_prefix(es, i as int + 1, region_id);
                }
                return Some(&self.entries[i]);
            }
            i = i + 1;
        }
        assert(es.take(i as int) =~= es);
        None
    }

    /// Every entry, in the order added.
    pub fn all(&self) -> (r: &[RegionOverlay])
        ensures
            r@.map_values(|e: RegionOverlay| entry_view(e)) == self.entries(),
    {
        self.entries.as_slice()
    }
}

proof fn lemma_first_for_prefix(s: Seq<(usize, Seq<u32>)>, k: int, id: usize)
    requires
        0 <= k <= s.len(),
        first_for(s.take(k), id) is Some,
    ensures
        first_for(s, id) == first_for(s.take(k), id),
    decreases s.len() - k,
{
    if k < s.len() {
        assert(s.take(k + 1).drop_last() =~= s.take(k));
        lemma_first_for_prefix(s, k + 1, id);
    } else {
        assert(s.take(k) =~= s);
    }
}

/// The first overlay added for a region is the one found for it, whatever is added later.
pub proof fn law_lookup_finds_first_add(
    s: Seq<(usize, Seq<u32>)>,
    id: usize,
    ov: Seq<u32>,
    later: Seq<(usize, Seq<u32>)>,
)
    requires
        first_for(s, id) is None,
    ensures
        first_for(s.push((id, ov)) + later, id) == Some(s.len() as int),
        (s.push((id, ov)) + later)[s.len() as int] == (id, ov),
{
    let t = s.push((id, ov));
    assert(t.drop_last() =~= s);
    assert(first_for(t, id) == Some(s.len() as int));
    assert((t + later).take(t.len() as int) =~= t);
    lemma_first_for_prefix(t + later, t.len() as int, id);
}

} // verus!
