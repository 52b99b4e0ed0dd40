//! The pool of Packet Identifiers (MQTT v5.0 §2.2.1).
//!
//! Packet Identifiers range over 1 to 65535 and are used by QoS 1 and QoS 2
//! PUBLISH, SUBSCRIBE and UNSUBSCRIBE. The pool is sans-I/O: the caller asks
//! for identifiers and gives them back explicitly.

use std::collections::BTreeSet;
use vstd::prelude::*;

verus! {

broadcast use {vstd::std_specs::btree::group_btree_axioms, vstd::laws_cmp::group_laws_cmp};

/// The largest Packet Identifier.
pub const MAX_PACKET_ID: u32 = 65535;

/// Calls `BTreeSet::first` on a set of identifiers.
///
/// Trusted: std documents that `first` returns the minimum element of the set,
/// and `None` exactly when the set is empty.
#[verifier::external_body]
fn smallest_id(set: &BTreeSet<u16>) -> (r: Option<u16>)
    ensures
        r is None <==> set@.is_empty(),
        r matches Some(v) ==> set@.contains(v) && forall|x: u16| #[trigger]
            set@.contains(x) ==> v <= x,
{
    set.first().copied()
}

/// A pool of Packet Identifiers.
///
/// Hands out identifiers that are not in use and takes released ones back for
/// reuse.
#[derive(Debug, Clone)]
pub struct PacketIdManager {
    /// The next never-used identifier, handed out when no released one is waiting.
    /// Held as a `u32`; a value above 65535 means that the fresh range is used up.
    pub next_id: u32,
    /// Identifiers that were released and can be handed out again.
    pub free_list: BTreeSet<u16>,
    /// Identifiers currently in use.
    pub in_use: BTreeSet<u16>,
}

/// The abstract state of a [`PacketIdManager`].
pub struct PacketIdView {
    /// The next never-used identifier.
    pub next_id: u32,
    /// Released identifiers.
    pub free_list: Set<u16>,
    /// Identifiers in use.
    pub in_use: Set<u16>,
}

impl View for PacketIdManager {
    type V = PacketIdView;

    open spec fn view(&self) -> PacketIdView {
        PacketIdView { next_id: self.next_id, free_list: self.free_list@, in_use: self.in_use@ }
    }
}

/// The state of an empty pool.
pub open spec fn spec_packet_ids_initial() -> PacketIdView {
    PacketIdView { next_id: 1, free_list: Set::empty(), in_use: Set::empty() }
}

impl PacketIdManager {
    /// The pool's invariant: the identifiers below `next_id` (and at least 1) are
    /// each either in use or released, never both, and no other identifier is in
    /// either set.
    pub open spec fn wf(&self) -> bool {
        &&& 1 <= self.next_id <= 65536
        &&& forall|id: u16| #[trigger]
            self.in_use@.contains(id) ==> 1 <= id < self.next_id && !self.free_list@.contains(id)
        &&& forall|id: u16| #[trigger] self.free_list@.contains(id) ==> 1 <= id < self.next_id
        &&& forall|id: u16|
            1 <= id < self.next_id ==> #[trigger] self.in_use@.contains(id)
                || self.free_list@.contains(id)
        &&& self.in_use@.finite()
        &&& self.free_list@.finite()
    }

    /// Whether every identifier 1 to 65535 is in use.
    pub open spec fn spec_exhausted(&self) -> bool {
        forall|id: u16| id != 0 ==> #[trigger] self.in_use@.contains(id)
    }

    /// How [`allocate`](Self::allocate) changes the pool from `before` to `after`
    /// and what it returns: the smallest released identifier when one is
    /// waiting, else the next never-used one, which then counts as in use; and
    /// `None`, with nothing changed, exactly when every identifier is in use.
    pub open spec fn spec_allocated(before: PacketIdView, after: PacketIdView, r: Option<u16>) -> bool {
        &&& (r is None <==> forall|id: u16| id != 0 ==> #[trigger] before.in_use.contains(id))
        &&& (r is None ==> after == before)
        &&& (r is Some ==> Self::spec_allocated_id(before, after, r->0))
    }

    /// Handing out `id` took the pool from `before` to `after`.
    pub open spec fn spec_allocated_id(before: PacketIdView, after: PacketIdView, id: u16) -> bool {
        &&& id != 0
        &&& !before.in_use.contains(id)
        &&& after.in_use == before.in_use.insert(id)
        &&& after.in_use.len() == before.in_use.len() + 1
        &&& (!before.free_list.is_empty() ==> before.free_list.contains(id)
            && (forall|x: u16| #[trigger] before.free_list.contains(x) ==> id <= x)
            && after.free_list == before.free_list.remove(id)
            && after.next_id == before.next_id)
        &&& (before.free_list.is_empty() ==> id == before.next_id
            && after.free_list == before.free_list
            && after.next_id == before.next_id + 1)
    }

    /// Creates an empty pool.
    pub fn new() -> (r: Self)
        ensures
            r.wf(),
            r.next_id == 1,
            r.in_use@ == Set::<u16>::empty(),
            r.free_list@ == Set::<u16>::empty(),
    {
        Self { next_id: 1, free_list: BTreeSet::new(), in_use: BTreeSet::new() }
    }

    /// Hands out an identifier that is not in use.
    ///
    /// The smallest released identifier is reused first; when none is waiting, the
    /// next never-used one is taken. Returns `None` exactly when all identifiers
    /// 1 to 65535 are in use.
    pub fn allocate(&mut self) -> (r: Option<u16>)
        requires
            old(self).wf(),
        ensures
            final(self).wf(),
            r is None <==> old(self).spec_exhausted(),
            Self::spec_allocated(old(self)@, final(self)@, r),
    {
        if let Some(id) = smallest_id(&self.free_list) {
            self.free_list.remove(&id);
            self.in_use.insert(id);
            assert(!old(self).in_use@.contains(id));
            assert(self.in_use@.len() == old(self).in_use@.len() + 1);
            assert(Self::spec_allocated_id(old(self)@, self@, id));
            return Some(id);
        }
        let ghost start = *self;
        while self.next_id <= MAX_PACKET_ID
            invariant
                self.wf(),
                start.wf(),
                start == *old(self),
                start.free_list@.is_empty(),
                self.free_list@ == start.free_list@,
                self.in_use@ == start.in_use@,
                self.next_id == start.next_id,
            decreases 65536 - self.next_id,
        {
            let id = self.next_id as u16;
            self.next_id = self.next_id + 1;
            if !self.in_use.contains(&id) {
                self.in_use.insert(id);
                assert(!start.in_use@.contains(id));
                assert(self.in_use@.len() == start.in_use@.len() + 1);
                assert(Self::spec_allocated_id(start@, self@, id));
                return Some(id);
            }
            assert(self.in_use@.contains(id));
            assert(false);
        }
        proof {
            assert forall|id: u16| id != 0 implies #[trigger] start.in_use@.contains(id) by {
                assert(1 <= id < start.next_id);
                assert(!start.free_list@.contains(id));
            }
        }
        None
    }

    /// Releases an identifier so that a later [`allocate`](Self::allocate) can
    /// reuse it.
    ///
    /// Releasing 0, or an identifier that is not in use, does nothing.
    pub fn release(&mut self, id: u16)
        requires
            old(self).wf(),
        ensures
            final(self).wf(),
            final(self).next_id == old(self).next_id,
            old(self).in_use@.contains(id) ==> final(self).in_use@ == old(self).in_use@.remove(id)
                && final(self).free_list@ == old(self).free_list@.insert(id)
                && final(self).in_use@.len() == old(self).in_use@.len() - 1,
            !old(self).in_use@.contains(id) ==> final(self).in_use@ == old(self).in_use@
                && final(self).free_list@ == old(self).free_list@,
    {
        if id == 0 {
            return;
        }
        if self.in_use.remove(&id) {
            self.free_list.insert(id);
        }
    }

    /// Returns the number of identifiers in use.
    pub fn in_use_count(&self) -> (r: usize)
        ensures
            r == self.in_use@.len(),
    {
        self.in_use.len()
    }

    /// Returns whether an identifier can be handed out.
    pub fn is_available(&self) -> (r: bool)
        requires
            self.wf(),
        ensures
            r == (!self.free_list@.is_empty() || self.next_id <= MAX_PACKET_ID),
            r <==> !self.spec_exhausted(),
    {
        proof {
            if self.next_id <= MAX_PACKET_ID {
                let n = self.next_id as u16;
                assert(!self.in_use@.contains(n));
            }
            if !self.free_list@.is_empty() {
                let x = self.free_list@.choose();
                assert(self.free_list@.contains(x));
                assert(!self.in_use@.contains(x));
            }
            if self.free_list@.is_empty() && self.next_id > MAX_PACKET_ID {
                assert forall|id: u16| id != 0 implies #[trigger] self.in_use@.contains(id) by {
                    assert(1 <= id < self.next_id);
                }
            }
        }
        !self.free_list.is_empty() || self.next_id <= MAX_PACKET_ID
    }

    /// Returns the pool to its initial, empty state.
    pub fn reset(&mut self)
        ensures
            final(self).wf(),
            final(self).next_id == 1,
            final(self).in_use@ == Set::<u16>::empty(),
            final(self).free_list@ == Set::<u16>::empty(),
    {
        self.next_id = 1;
        self.free_list.clear();
        self.in_use.clear();
    }
}

impl Default for PacketIdManager {
    fn default() -> (r: Self)
        ensures
            r.wf(),
            r.next_id == 1,
            r.in_use@ == Set::<u16>::empty(),
            r.free_list@ == Set::<u16>::empty(),
    {
        Self::new()
    }
}

/// Releasing an identifier right after it was handed out restores the
/// identifiers in use; and when no smaller released identifier is waiting, the
/// next allocation, which takes the smallest released identifier, hands out the
/// same identifier again.
pub proof fn lemma_release_after_allocate(in_use: Set<u16>, free: Set<u16>, id: u16, next: u16)
    requires
        !in_use.contains(id),
        forall|x: u16| #[trigger] free.contains(x) ==> id <= x,
        free.insert(id).contains(next),
        forall|x: u16| #[trigger] free.insert(id).contains(x) ==> next <= x,
    ensures
        in_use.insert(id).remove(id) == in_use,
        next == id,
{
    assert(in_use.insert(id).remove(id) =~= in_use);
    assert(free.insert(id).contains(id));
}

} // verus!
