use vstd::prelude::*;
use vstd::relations::injective_on;
use vstd::set_lib::{lemma_int_range, lemma_len_subset, lemma_map_size, set_int_range};

use crate::error::EcsError;

verus! {

/// A weak, copyable handle to an entity: the slot it occupies and the
/// generation of that occupancy. Two handles are equal when both fields are.
#[derive(Clone, Copy, Debug, PartialEq, Eq, Structural, Hash)]
pub struct EntityId {
    pub index: usize,
    pub generation: u64,
}

/// The state of one slot of the allocator: the generation of its latest
/// occupancy, and whether that occupancy is still live.
#[derive(Clone, Copy, Debug)]
pub struct AllocatorEntry {
    pub generation: u64,
    pub live: bool,
}

/// The mathematical state of an [`EntityAllocator`].
///
/// `slots` has one entry for every index ever issued, `free` is the stack of
/// indices waiting for reuse (its last element is reused first), and
/// `max_size` bounds the number of indices that may ever be issued.
pub struct AllocatorModel {
    pub slots: Seq<AllocatorEntry>,
    pub free: Seq<usize>,
    pub max_size: nat,
}

impl AllocatorModel {
    /// A slot that is dead but may be occupied again.
    pub open spec fn is_free_slot(self, i: int) -> bool {
        &&& 0 <= i < self.slots.len()
        &&& !self.slots[i].live
        &&& self.slots[i].generation < u64::MAX
    }

    /// A dead slot whose generation counter is exhausted: it is never reused,
    /// so no identifier is ever issued twice.
    pub open spec fn is_retired_slot(self, i: int) -> bool {
        &&& 0 <= i < self.slots.len()
        &&& !self.slots[i].live
        &&& self.slots[i].generation == u64::MAX
    }

    pub open spec fn wf(self) -> bool {
        &&& self.slots.len() <= self.max_size <= usize::MAX
        &&& self.free.no_duplicates()
        &&& forall|k: int| 0 <= k < self.free.len() ==> self.is_free_slot(#[trigger] self.free[k] as int)
        &&& forall|i: int| #[trigger] self.is_free_slot(i) ==> self.free.contains(i as usize)
    }

    pub open spec fn is_live(self, id: EntityId) -> bool {
        &&& id.index < self.slots.len()
        &&& self.slots[id.index as int].live
        &&& self.slots[id.index as int].generation == id.generation
    }

    pub open spec fn live_ids(self) -> Set<EntityId> {
        Set::new(|id: EntityId| self.is_live(id))
    }

    /// The indices whose slot is currently live.
    pub open spec fn live_indices(self) -> Set<int> {
        Set::new(|i: int| 0 <= i < self.slots.len() && self.slots[i].live)
    }

    pub open spec fn can_allocate(self) -> bool {
        self.free.len() > 0 || self.slots.len() < self.max_size
    }

    /// The identifier that the next successful allocation issues: the most
    /// recently freed index with its generation advanced, or else a new index
    /// with generation 0.
    pub open spec fn next_id(self) -> EntityId {
        if self.free.len() > 0 {
            let i = self.free.last();
            EntityId { index: i, generation: (self.slots[i as int].generation + 1) as u64 }
        } else {
            EntityId { index: self.slots.len() as usize, generation: 0 }
        }
    }

    /// The state after a successful allocation.
    pub open spec fn allocated(self) -> AllocatorModel {
        let id = self.next_id();
        if self.free.len() > 0 {
            AllocatorModel {
                slots: self.slots.update(
                    id.index as int,
                    AllocatorEntry { generation: id.generation, live: true },
                ),
                free: self.free.drop_last(),
                max_size: self.max_size,
            }
        } else {
            AllocatorModel {
                slots: self.slots.push(AllocatorEntry { generation: 0, live: true }),
                free: self.free,
                max_size: self.max_size,
            }
        }
    }

    /// The state after deallocating the live identifier `id`: its slot dies
    /// and its index is pushed for reuse unless its generation is exhausted.
    pub open spec fn deallocated(self, id: EntityId) -> AllocatorModel {
        let slot = self.slots[id.index as int];
        AllocatorModel {
            slots: self.slots.update(
                id.index as int,
                AllocatorEntry { generation: slot.generation, live: false },
            ),
            free: if slot.generation < u64::MAX {
                self.free.push(id.index)
            } else {
                self.free
            },
            max_size: self.max_size,
        }
    }

    /// The state after `n` successful allocations in a row.
    pub open spec fn allocated_times(self, n: nat) -> AllocatorModel
        decreases n,
    {
        if n == 0 {
            self
        } else {
            self.allocated_times((n - 1) as nat).allocated()
        }
    }

    /// The identifiers that `n` successful allocations in a row issue.
    pub open spec fn issued_ids(self, n: nat) -> Seq<EntityId> {
        Seq::new(n, |k: int| self.allocated_times(k as nat).next_id())
    }

    /// The state after deallocating each of `ids` in turn.
    pub open spec fn deallocated_all(self, ids: Seq<EntityId>) -> AllocatorModel
        decreases ids.len(),
    {
        if ids.len() == 0 {
            self
        } else {
            self.deallocated_all(ids.drop_last()).deallocated(ids.last())
        }
    }

    /// The number of further allocations that succeed when nothing is
    /// deallocated in between.
    pub open spec fn capacity(self) -> nat {
        (self.free.len() + (self.max_size - self.slots.len())) as nat
    }
}

/// Issues and reclaims entity identifiers, tagging each reuse of an index
/// with a fresh generation so that stale handles can be recognised.
pub struct EntityAllocator {
    entries: Vec<AllocatorEntry>,
    free: Vec<usize>,
    max_size: usize,
}

impl View for EntityAllocator {
    type V = AllocatorModel;

    closed spec fn view(&self) -> AllocatorModel {
        AllocatorModel { slots: self.entries@, free: self.free@, max_size: self.max_size as nat }
    }
}

impl EntityAllocator {
    pub open spec fn wf(&self) -> bool {
        self@.wf()
    }

    /// An allocator that may issue the indices `0..max_size`.
    pub fn new(max_size: usize) -> (r: Self)
        ensures
            r.wf(),
            r@.slots.len() == 0,
            r@.free.len() == 0,
            r@.max_size == max_size,
    {
        EntityAllocator { entries: Vec::new(), free: Vec::new(), max_size }
    }

    pub fn max_size(&self) -> (r: usize)
        ensures
            r == self@.max_size,
    {
        self.max_size
    }

    /// Whether `id` is currently live.
    pub fn is_live(&self, id: &EntityId) -> (r: bool)
        requires
            self.wf(),
        ensures
            r == self@.is_live(*id),
    {
        id.index < self.entries.len() && self.entries[id.index].live
            && self.entries[id.index].generation == id.generation
    }

    /// Issues a fresh identifier: the most recently freed index with its
    /// generation advanced, else a new index with generation 0, else fails
    /// with [`EcsError::CapacityExceeded`] and changes nothing.
    pub fn allocate(&mut self) -> (r: Result<EntityId, EcsError>)
        requires
            old(self).wf(),
        ensures
            final(self).wf(),
            final(self)@.max_size == old(self)@.max_size,
            r is Ok <==> old(self)@.can_allocate(),
            r matches Ok(id) ==> {
                &&& id == old(self)@.next_id()
                &&& final(self)@ == old(self)@.allocated()
                &&& !old(self)@.is_live(id)
                &&& forall|x: EntityId| old(self)@.is_live(x) ==> x.index != id.index
                &&& final(self)@.live_ids() == old(self)@.live_ids().insert(id)
                &&& id.index < old(self)@.slots.len() ==> id.generation
                    > old(self)@.slots[id.index as int].generation
            },
            r matches Err(e) ==> e == EcsError::CapacityExceeded && final(self)@ == old(self)@,
    {
        proof {
            if old(self)@.can_allocate() {
                lemma_allocated(old(self)@);
            }
        }
        if self.free.len() == 0 {
            self.add_new_entry()
        } else {
            Ok(self.reuse_entry())
        }
    }

    /// Retires the live identifier `id`: it stops being live and its index
    /// becomes available for reuse. Fails with [`EcsError::NotLive`], changing
    /// nothing, when `id` is not live (a double free or a stale handle).
    pub fn deallocate(&mut self, id: &EntityId) -> (r: Result<(), EcsError>)
        requires
            old(self).wf(),
        ensures
            final(self).wf(),
            final(self)@.max_size == old(self)@.max_size,
            r is Ok <==> old(self)@.is_live(*id),
            r is Ok ==> {
                &&& final(self)@ == old(self)@.deallocated(*id)
                &&& final(self)@.live_ids() == old(self)@.live_ids().remove(*id)
            },
            r matches Err(e) ==> e == EcsError::NotLive && final(self)@ == old(self)@,
    {
        if id.index >= self.entries.len() {
            return Err(EcsError::NotLive);
        }
        let entry = self.entries[id.index];
        if !entry.live || entry.generation != id.generation {
            return Err(EcsError::NotLive);
        }
        proof {
            lemma_deallocated(self@, *id);
        }
        self.entries[id.index] = AllocatorEntry { generation: entry.generation, live: false };
        if entry.generation < u64::MAX {
            self.free.push(id.index);
        }
        Ok(())
    }

    fn add_new_entry(&mut self) -> (r: Result<EntityId, EcsError>)
        requires
            old(self).wf(),
            old(self)@.free.len() == 0,
        ensures
            r is Ok <==> old(self)@.can_allocate(),
            r matches Ok(id) ==> id == old(self)@.next_id() && final(self)@ == old(self)@.allocated(),
            r matches Err(e) ==> e == EcsError::CapacityExceeded && final(self)@ == old(self)@,
    {
        if self.entries.len() >= self.max_size {
            return Err(EcsError::CapacityExceeded);
        }
        let id = EntityId { index: self.entries.len(), generation: 0 };
        self.entries.push(AllocatorEntry { generation: 0, live: true });
        Ok(id)
    }

    fn reuse_entry(&mut self) -> (r: EntityId)
        requires
            old(self).wf(),
            old(self)@.free.len() > 0,
        ensures
            r == old(self)@.next_id(),
            final(self)@ == old(self)@.allocated(),
    {
        let free_index = self.free.pop().unwrap();
        let generation = self.entries[free_index].generation + 1;
        self.entries[free_index] = AllocatorEntry { generation, live: true };
        EntityId { index: free_index, generation }
    }
}

/// No two simultaneously live identifiers share an index. Every allocator
/// state that `new`, `allocate` and `deallocate` produce is well formed, so
/// this holds after any sequence of those calls.
pub proof fn lemma_live_ids_unique(m: AllocatorModel, a: EntityId, b: EntityId)
    requires
        m.wf(),
        m.is_live(a),
        m.is_live(b),
        a != b,
    ensures
        a.index != b.index,
{
}

/// Each reuse of an index issues a generation strictly greater than that of
/// every earlier occupancy of the index (an identifier issued at the index
/// carries at most the generation that its slot records), and neither
/// allocation nor deallocation ever lowers a recorded generation.
pub proof fn lemma_reuse_generation_increases(m: AllocatorModel, earlier: EntityId, freed: EntityId)
    requires
        m.wf(),
        earlier.index < m.slots.len(),
        earlier.generation <= m.slots[earlier.index as int].generation,
    ensures
        m.can_allocate() && m.next_id().index == earlier.index ==> m.next_id().generation
            > earlier.generation,
        m.can_allocate() ==> forall|i: int|
            0 <= i < m.slots.len() ==> #[trigger] m.allocated().slots[i].generation
                >= m.slots[i].generation,
        m.is_live(freed) ==> forall|i: int|
            0 <= i < m.slots.len() ==> #[trigger] m.deallocated(freed).slots[i].generation
                == m.slots[i].generation,
{
    if m.can_allocate() && m.free.len() > 0 {
        assert(m.is_free_slot(m.free[m.free.len() - 1] as int));
    }
}

/// The live identifiers are as many as the live slots.
proof fn lemma_live_count(m: AllocatorModel)
    requires
        m.wf(),
    ensures
        m.live_indices().finite(),
        m.live_ids().finite(),
        m.live_ids().len() == m.live_indices().len(),
        m.live_indices().len() <= m.slots.len(),
{
    let f = |i: int| EntityId { index: i as usize, generation: m.slots[i].generation };
    lemma_int_range(0, m.slots.len() as int);
    assert(m.live_indices().subset_of(set_int_range(0, m.slots.len() as int)));
    lemma_len_subset(m.live_indices(), set_int_range(0, m.slots.len() as int));
    assert(m.live_indices().map(f) =~= m.live_ids()) by {
        assert forall|id: EntityId| #[trigger] m.live_ids().contains(id) implies m.live_indices().map(
            f,
        ).contains(id) by {
            assert(m.live_indices().contains(id.index as int));
            assert(f(id.index as int) == id);
        }
    }
    assert(injective_on(f, m.live_indices())) by {
        assert forall|i: int, j: int|
            m.live_indices().contains(i) && m.live_indices().contains(j) && #[trigger] f(i) == #[trigger] f(j)
                implies i == j by {
            assert(f(i).index == i as usize);
            assert(f(j).index == j as usize);
        }
    }
    lemma_map_size(m.live_indices(), m.live_ids(), f);
}

/// Allocation fails once as many identifiers are live as `max_size` allows,
/// and succeeds while fewer are live (unless the only dead slots left have
/// exhausted their generations and are retired).
pub proof fn lemma_capacity_boundary(m: AllocatorModel)
    requires
        m.wf(),
    ensures
        m.live_ids().finite(),
        m.live_ids().len() <= m.max_size,
        m.live_ids().len() == m.max_size ==> !m.can_allocate(),
        m.live_ids().len() < m.max_size && (forall|i: int| !#[trigger] m.is_retired_slot(i))
            ==> m.can_allocate(),
{
    lemma_live_count(m);
    let range = set_int_range(0, m.slots.len() as int);
    lemma_int_range(0, m.slots.len() as int);
    if m.free.len() > 0 {
        let i0 = m.free[m.free.len() - 1] as int;
        assert(m.is_free_slot(i0));
        assert(m.live_indices().subset_of(range.remove(i0)));
        lemma_len_subset(m.live_indices(), range.remove(i0));
    }
    if m.live_ids().len() < m.max_size && (forall|i: int| !#[trigger] m.is_retired_slot(i))
        && m.slots.len() == m.max_size && m.free.len() == 0 {
        assert forall|i: int| #[trigger] range.contains(i) implies m.live_indices().contains(i) by {
            assert(!m.is_retired_slot(i));
            if !m.slots[i].live {
                assert(m.is_free_slot(i));
                assert(m.free.contains(i as usize));
            }
        }
        assert(range.subset_of(m.live_indices()));
        lemma_len_subset(range, m.live_indices());
    }
}

/// Allocation succeeds exactly while capacity is left, and uses up one unit.
pub proof fn lemma_capacity_step(m: AllocatorModel)
    requires
        m.wf(),
    ensures
        m.can_allocate() <==> m.capacity() > 0,
        m.can_allocate() ==> m.allocated().capacity() + 1 == m.capacity(),
{
}

/// What a successful allocation guarantees: the issued identifier is not
/// live, shares its index with no live identifier, becomes the only new live
/// identifier, and advances the generation of a reused index.
proof fn lemma_allocated(m: AllocatorModel)
    requires
        m.wf(),
        m.can_allocate(),
    ensures
        m.allocated().wf(),
        m.allocated().max_size == m.max_size,
        !m.is_live(m.next_id()),
        forall|x: EntityId| m.is_live(x) ==> x.index != m.next_id().index,
        m.allocated().live_ids() == m.live_ids().insert(m.next_id()),
        m.next_id().index < m.slots.len() ==> m.next_id().generation
            > m.slots[m.next_id().index as int].generation,
{
    let id = m.next_id();
    let a = m.allocated();
    if m.free.len() > 0 {
        let last = m.free.len() - 1;
        assert(m.is_free_slot(m.free[last] as int));
        assert forall|k: int| 0 <= k < a.free.len() implies a.is_free_slot(
            #[trigger] a.free[k] as int,
        ) by {
            assert(m.free[k] == a.free[k]);
            assert(m.is_free_slot(m.free[k] as int));
            assert(m.free[k] != m.free[last]);
        }
        assert forall|i: int| #[trigger] a.is_free_slot(i) implies a.free.contains(i as usize) by {
            assert(i != id.index);
            assert(m.is_free_slot(i));
            let k = choose|k: int| 0 <= k < m.free.len() && m.free[k] == i as usize;
            assert(k != last);
            assert(a.free[k] == i as usize);
        }
    } else {
        assert forall|i: int| #[trigger] a.is_free_slot(i) implies a.free.contains(i as usize) by {
            assert(m.is_free_slot(i));
        }
    }
    assert(a.live_ids() =~= m.live_ids().insert(id));
}

/// What a deallocation of a live identifier guarantees.
pub(crate) proof fn lemma_deallocated(m: AllocatorModel, id: EntityId)
    requires
        m.wf(),
        m.is_live(id),
    ensures
        m.deallocated(id).wf(),
        m.deallocated(id).live_ids() == m.live_ids().remove(id),
{
    let d = m.deallocated(id);
    assert(!m.free.contains(id.index)) by {
        if m.free.contains(id.index) {
            let k = choose|k: int| 0 <= k < m.free.len() && m.free[k] == id.index;
            assert(m.is_free_slot(m.free[k] as int));
        }
    }
    assert forall|k: int| 0 <= k < d.free.len() implies d.is_free_slot(#[trigger] d.free[k] as int) by {
        if k < m.free.len() {
            assert(m.is_free_slot(m.free[k] as int));
        }
    }
    assert forall|i: int| #[trigger] d.is_free_slot(i) implies d.free.contains(i as usize) by {
        if i == id.index {
            assert(d.free[d.free.len() - 1] == id.index);
        } else {
            assert(m.is_free_slot(i));
            let k = choose|k: int| 0 <= k < m.free.len() && m.free[k] == i as usize;
            assert(d.free[k] == i as usize);
        }
    }
    assert(d.live_ids() =~= m.live_ids().remove(id));
}

} // verus!
