//! Virtqueue model: available descriptor chains in guest order, and the used
//! ring the device fills as it consumes them.
//!
//! A descriptor chain is the ordered sequence of guest-memory segments its
//! `next` links visit; segment identifiers need not be sequential, which is
//! why each segment carries its own identifier.

use vstd::prelude::*;

verus! {

/// One guest-memory segment of a descriptor chain.
#[derive(Clone, Copy, Debug, PartialEq, Eq, Structural)]
pub struct Descriptor {
    /// Identifier of this descriptor in the guest's descriptor table.
    pub id: u16,
    /// Guest physical address of the segment.
    pub addr: u64,
    /// Length of the segment in bytes.
    pub len: u32,
    /// True when the guest grants the device write access to the segment.
    pub write_only: bool,
}

/// A descriptor chain: the segments in link order, head first.
pub struct DescriptorChain {
    pub segs: Vec<Descriptor>,
}

impl DescriptorChain {
    /// A chain is well formed when it has a head segment; it can never link
    /// more segments than a descriptor table can hold.
    pub open spec fn wf(&self) -> bool {
        1 <= self.segs@.len() <= 0x1_0000
    }

    /// Identifier of the head descriptor; the whole chain is marked used
    /// under this identifier.
    pub open spec fn spec_head_id(&self) -> u16 {
        self.segs@[0].id
    }

    /// Identifier of the head descriptor.
    pub fn head_id(&self) -> (r: u16)
        requires
            self.wf(),
        ensures
            r == self.spec_head_id(),
    {
        self.segs[0].id
    }
}

/// One entry of the used ring: a chain identifier and the byte count the
/// device reports for it.
#[derive(Clone, Copy, Debug, PartialEq, Eq, Structural)]
pub struct UsedElem {
    pub id: u16,
    pub len: u32,
}

/// A virtqueue: the chains the guest has made available, front first, and the
/// used entries the device has returned.
pub struct Queue {
    /// Number of descriptor table entries the queue was created with.
    pub size: u16,
    /// Available chains not yet consumed by the device, front first.
    pub avail: Vec<DescriptorChain>,
    /// Used entries, in the order the device returned them.
    pub used: Vec<UsedElem>,
}

impl Queue {
    /// A queue never holds more pending chains than it has table entries,
    /// and every pending chain has a head.
    pub open spec fn wf(&self) -> bool {
        &&& self.avail@.len() <= self.size
        &&& forall|i: int| 0 <= i < self.avail@.len() ==> (#[trigger] self.avail@[i]).wf()
    }

    /// An empty queue of `size` entries.
    pub fn new(size: u16) -> (r: Queue)
        ensures
            r.wf(),
            r.size == size,
            r.avail@.len() == 0,
            r.used@.len() == 0,
    {
        Queue { size, avail: Vec::new(), used: Vec::new() }
    }

    /// Number of descriptor table entries.
    pub fn actual_size(&self) -> (r: u16)
        ensures
            r == self.size,
    {
        self.size
    }

    /// Whether the guest has no chain waiting.
    pub fn is_empty(&self) -> (r: bool)
        ensures
            r <==> self.avail@.len() == 0,
    {
        self.avail.len() == 0
    }

    /// Makes a chain available to the device, behind all earlier ones.
    pub fn add_avail(&mut self, chain: DescriptorChain)
        requires
            old(self).wf(),
            chain.wf(),
            old(self).avail@.len() < old(self).size,
        ensures
            final(self).wf(),
            final(self).avail@ == old(self).avail@.push(chain),
            final(self).used@ == old(self).used@,
            final(self).size == old(self).size,
    {
        self.avail.push(chain);
    }

    /// Takes the front available chain, if any.
    pub fn pop(&mut self) -> (r: Option<DescriptorChain>)
        requires
            old(self).wf(),
        ensures
            final(self).wf(),
            final(self).size == old(self).size,
            final(self).used@ == old(self).used@,
            old(self).avail@.len() == 0 ==> r is None && *final(self) == *old(self),
            old(self).avail@.len() > 0 ==> (r matches Some(c) && c == old(self).avail@[0]
                && final(self).avail@ == old(self).avail@.skip(1) && c.wf()),
    {
        if self.avail.len() == 0 {
            None
        } else {
            Some(self.avail.remove(0))
        }
    }

    /// Puts a popped chain back at the front, undoing the last `pop`.
    pub fn undo_pop(&mut self, chain: DescriptorChain)
        requires
            old(self).wf(),
            chain.wf(),
            old(self).avail@.len() < old(self).size,
        ensures
            final(self).wf(),
            final(self).size == old(self).size,
            final(self).used@ == old(self).used@,
            final(self).avail@ == seq![chain] + old(self).avail@,
    {
        self.avail.insert(0, chain);
        assert(self.avail@ =~= seq![chain] + old(self).avail@);
    }

    /// Marks the chain with head identifier `id` used, reporting `len` bytes.
    pub fn add_used(&mut self, id: u16, len: u32)
        requires
            old(self).wf(),
        ensures
            final(self).wf(),
            final(self).size == old(self).size,
            final(self).avail@ == old(self).avail@,
            final(self).used@ == old(self).used@.push(UsedElem { id, len }),
    {
        self.used.push(UsedElem { id, len });
    }
}

} // verus!
