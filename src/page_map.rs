use std::collections::BTreeMap;
use vstd::laws_cmp::obeys_cmp;
use vstd::prelude::*;

verus! {

broadcast use {vstd::std_specs::btree::group_btree_axioms, vstd::laws_cmp::group_laws_cmp};

/// Logical handle of a page. Two handles are equal when their counter values are.
#[derive(Clone, Copy, Debug, PartialEq, Eq, Structural, PartialOrd, Ord, Hash)]
pub struct PageId {
    id: usize,
}

impl View for PageId {
    type V = usize;

    closed spec fn view(&self) -> usize {
        self.id
    }
}

impl PageId {
    /// The handle with counter value `id`.
    pub fn new(id: usize) -> (r: PageId)
        ensures
            r@ == id,
    {
        PageId { id }
    }

    /// A copy of this handle.
    pub fn clone(&self) -> (r: PageId)
        ensures
            r == *self,
    {
        PageId { id: self.id }
    }
}

/// Hands out page handles from a counter that only goes up, starting at 0.
pub struct PageIdGenerator {
    next: usize,
}

impl View for PageIdGenerator {
    type V = nat;

    /// The counter value of the next handle.
    closed spec fn view(&self) -> nat {
        self.next as nat
    }
}

impl PageIdGenerator {
    /// A generator whose first handle has counter value 0.
    pub fn new() -> (r: PageIdGenerator)
        ensures
            r@ == 0,
    {
        PageIdGenerator { next: 0 }
    }

    /// Whether the counter has no handle left to give.
    pub fn is_exhausted(&self) -> (r: bool)
        ensures
            r == (self@ >= usize::MAX),
    {
        self.next == usize::MAX
    }

    /// The next handle, and the counter moves past it; `None` once the counter is exhausted.
    pub fn next_id(&mut self) -> (r: Option<PageId>)
        ensures
            old(self)@ < usize::MAX ==> r is Some && r->Some_0@ == old(self)@ && final(self)@
                == old(self)@ + 1,
            old(self)@ >= usize::MAX ==> r is None && final(self)@ == old(self)@,
    {
        if self.next == usize::MAX {
            None
        } else {
            let id = PageId { id: self.next };
            self.next = self.next + 1;
            Some(id)
        }
    }
}

/// No two handles of `m` map to the same offset.
pub open spec fn offsets_distinct(m: Map<usize, u64>) -> bool {
    forall|a: usize, b: usize|
        #![trigger m[a], m[b]]
        m.contains_key(a) && m.contains_key(b) && a != b ==> m[a] != m[b]
}

/// Every offset of `m` lies on a page boundary.
pub open spec fn offsets_aligned(m: Map<usize, u64>) -> bool {
    forall|a: usize| #[trigger] m.contains_key(a) ==> m[a] % 4096 == 0
}

/// No handle of `m` maps to `offset`.
pub open spec fn offset_free(m: Map<usize, u64>, offset: u64) -> bool {
    forall|a: usize| #[trigger] m.contains_key(a) ==> m[a] != offset
}

/// Where each allocated page lies in the backing file, by handle.
pub struct PageMap {
    mappings: BTreeMap<usize, u64>,
}

impl View for PageMap {
    type V = Map<usize, u64>;

    closed spec fn view(&self) -> Map<usize, u64> {
        self.mappings@
    }
}

impl PageMap {
    /// The table's offsets are aligned and pairwise distinct.
    pub open spec fn wf(&self) -> bool {
        offsets_distinct(self@) && offsets_aligned(self@)
    }

    /// An empty table.
    pub fn new() -> (r: PageMap)
        ensures
            r@ == Map::<usize, u64>::empty(),
            r.wf(),
    {
        PageMap { mappings: BTreeMap::new() }
    }

    /// Records that `page_id` lies at `location`, replacing an earlier record of it.
    pub fn map_page(&mut self, page_id: PageId, location: u64)
        requires
            old(self).wf(),
            location % 4096 == 0,
            offset_free(old(self)@.remove(page_id@), location),
        ensures
            final(self)@ == old(self)@.insert(page_id@, location),
            final(self).wf(),
    {
        proof {
            assert(obeys_cmp::<usize>());
        }
        self.mappings.insert(page_id.id, location);
        proof {
            let m = self@;
            assert forall|a: usize, b: usize|
                m.contains_key(a) && m.contains_key(b) && a != b implies #[trigger] m[a]
                != #[trigger] m[b] by {
                if a != page_id@ && b != page_id@ {
                    assert(old(self)@.contains_key(a) && old(self)@.contains_key(b));
                } else if a == page_id@ {
                    assert(old(self)@.remove(page_id@).contains_key(b));
                } else {
                    assert(old(self)@.remove(page_id@).contains_key(a));
                }
            }
        }
    }

    /// The offset recorded for `page_id`, or `None` if it was never recorded.
    pub fn get_location(&self, page_id: &PageId) -> (r: Option<u64>)
        ensures
            self@.contains_key(page_id@) ==> r == Some(self@[page_id@]),
            !self@.contains_key(page_id@) ==> r is None,
    {
        proof {
            assert(obeys_cmp::<usize>());
        }
        match self.mappings.get(&page_id.id) {
            Some(v) => Some(*v),
            None => None,
        }
    }
}

} // verus!
