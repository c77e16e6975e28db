use vstd::prelude::*;
use crate::sm_tile::overlay_chain::{overlay_values, Overlay};

verus! {

/// The cache after one more overlay: the oldest goes when the cache is full.
pub open spec fn cached(c: Seq<Seq<u32>>, capacity: usize, ov: Seq<u32>) -> Seq<Seq<u32>> {
    if c.len() >= capacity {
        c.drop_first().push(ov)
    } else {
        c.push(ov)
    }
}

/// L2 cache of the most recent overlays, oldest evicted first.
pub struct L2Overlay {
    cache: Vec<Overlay>,
    capacity: usize,
}

impl L2Overlay {
    pub closed spec fn overlays(&self) -> Seq<Seq<u32>> {
        overlay_values(self.cache@)
    }

    pub closed spec fn capacity(&self) -> usize {
        self.capacity
    }

    /// The cache never holds more than its capacity.
    pub closed spec fn wf(&self) -> bool {
        self.cache@.len() <= self.capacity
    }

    pub fn new(capacity: usize) -> (l: Self)
        ensures
            l.wf(),
            l.overlays().len() <= l.capacity(),
            l.overlays() == Seq::<Seq<u32>>::empty(),
            l.capacity() == capacity,
    {
        let l = L2Overlay { cache: Vec::new(), capacity };
        assert(overlay_values(l.cache@) =~= Seq::<Seq<u32>>::empty());
        l
    }

    /// How many overlays the cache holds at most.
    pub fn max_overlays(&self) -> (c: usize)
        ensures
            c == self.capacity(),
    {
        self.capacity
    }

    /// Caches an overlay, evicting the oldest when full. A zero-capacity cache cannot
    /// take one.
    pub fn push(&mut self, overlay: Overlay)
        requires
            old(self).wf(),
            old(self).capacity() > 0,
        ensures
            final(self).wf(),
            final(self).overlays().len() <= final(self).capacity(),
            final(self).overlays() == cached(old(self).overlays(), old(self).capacity(), overlay.values@),
            final(self).capacity() == old(self).capacity(),
    {
        let ghost v = overlay.values@;
        if self.cache.len() >= self.capacity {
            let ghost c0 = self.cache@;
            self.cache.remove(0);
            assert(overlay_values(self.cache@) =~= overlay_values(c0).drop_first());
        }
        let ghost c1 = self.cache@;
        self.cache.push(overlay);
        assert(overlay_values(self.cache@) =~= overlay_values(c1).push(v));
    }

    /// The most recently cached overlay.
    pub fn get_recent(&self) -> (r: Option<&Overlay>)
        ensures
            self.overlays().len() == 0 ==> r is None,
            self.overlays().len() > 0 ==> (r matches Some(o) && o.values@ == self.overlays().last()),
    {
        if self.cache.len() == 0 {
            None
        } else {
            Some(&self.cache[self.cache.len() - 1])
        }
    }

    /// Every cached overlay, oldest first.
    pub fn all(&self) -> (r: &[Overlay])
        ensures
            overlay_values(r@) == self.overlays(),
    {
        self.cache.as_slice()
    }
}

/// The cache stays within capacity, and the overlay pushed last is the recent one.
pub proof fn law_l2_recent_is_last_push(c: Seq<Seq<u32>>, capacity: usize, ov: Seq<u32>)
    requires
        c.len() <= capacity,
        capacity > 0,
    ensures
        cached(c, capacity, ov).len() <= capacity,
        cached(c, capacity, ov).last() == ov,
{
}

} // verus!
