use vstd::prelude::*;

use crate::entity::{lemma_deallocated, AllocatorModel, EntityId};

verus! {

/// The entries after writing `value` for `id` when there is one, and after
/// emptying the slot of `id` otherwise.
pub open spec fn entries_put<T>(entries: Seq<Option<ArrayEntry<T>>>, id: EntityId, value: Option<T>) -> Seq<
    Option<ArrayEntry<T>>,
> {
    match value {
        Some(v) => entries_set(entries, id, v),
        None => entries_cleared(entries, id),
    }
}

/// A stored component value, tagged with the generation of the entity that
/// owns it.
pub struct ArrayEntry<T> {
    pub value: T,
    pub generation: u64,
}

/// The value that `entries` holds for `id`: the entry at `id.index`, when
/// there is one and its generation is `id.generation`.
pub open spec fn entry_value<T>(entries: Seq<Option<ArrayEntry<T>>>, id: EntityId) -> Option<T> {
    if id.index < entries.len() {
        match entries[id.index as int] {
            Some(entry) => if entry.generation == id.generation {
                Some(entry.value)
            } else {
                None
            },
            None => None,
        }
    } else {
        None
    }
}

/// The entries after writing `value` for `id`.
pub open spec fn entries_set<T>(entries: Seq<Option<ArrayEntry<T>>>, id: EntityId, value: T) -> Seq<
    Option<ArrayEntry<T>>,
> {
    entries.update(id.index as int, Some(ArrayEntry { value, generation: id.generation }))
}

/// The entries after emptying the slot of `id`.
pub open spec fn entries_cleared<T>(entries: Seq<Option<ArrayEntry<T>>>, id: EntityId) -> Seq<
    Option<ArrayEntry<T>>,
> {
    entries.update(id.index as int, None)
}

/// The store of one component kind: one optional, generation-tagged value
/// per slot index. Entries are never moved, so indices stay stable.
pub struct ComponentSet<T> {
    entries: Vec<Option<ArrayEntry<T>>>,
}

impl<T> View for ComponentSet<T> {
    type V = Seq<Option<ArrayEntry<T>>>;

    closed spec fn view(&self) -> Seq<Option<ArrayEntry<T>>> {
        self.entries@
    }
}

impl<T> ComponentSet<T> {
    /// The value held for `id`, if any.
    pub open spec fn value_of(&self, id: EntityId) -> Option<T> {
        entry_value(self@, id)
    }

    /// A store with `max_size` empty slots.
    pub fn new(max_size: usize) -> (r: Self)
        ensures
            r@.len() == max_size,
            forall|i: int| 0 <= i < max_size ==> r@[i] is None,
    {
        let mut entries: Vec<Option<ArrayEntry<T>>> = Vec::new();
        let mut i: usize = 0;
        while i < max_size
            invariant
                i <= max_size,
                entries@.len() == i,
                forall|j: int| 0 <= j < i ==> entries@[j] is None,
            decreases max_size - i,
        {
            entries.push(None);
            i = i + 1;
        }
        ComponentSet { entries }
    }

    pub fn len(&self) -> (r: usize)
        ensures
            r == self@.len(),
    {
        self.entries.len()
    }

    /// Writes `value` for `id`, replacing whatever the slot held, whatever
    /// its generation.
    pub fn set(&mut self, id: &EntityId, value: T)
        requires
            id.index < old(self)@.len(),
        ensures
            final(self)@ == entries_set(old(self)@, *id, value),
    {
        self.entries[id.index] = Some(ArrayEntry { value, generation: id.generation });
    }

    /// Empties the slot of `id`, whatever generation it held.
    pub fn clear(&mut self, id: &EntityId)
        requires
            id.index < old(self)@.len(),
        ensures
            final(self)@ == entries_cleared(old(self)@, *id),
    {
        self.entries[id.index] = None;
    }

    /// The value held for `id`; absent when the slot is empty or holds a
    /// value of another generation.
    pub fn get(&self, id: &EntityId) -> (r: Option<&T>)
        requires
            id.index < self@.len(),
        ensures
            r is Some <==> self.value_of(*id) is Some,
            r matches Some(v) ==> *v == self.value_of(*id)->Some_0,
    {
        match &self.entries[id.index] {
            None => None,
            Some(entry) => if entry.generation != id.generation {
                None
            } else {
                Some(&entry.value)
            },
        }
    }

    /// Exclusive access to the value held for `id`, under the same matching
    /// rule as [`ComponentSet::get`]. What is written through the reference
    /// becomes the value held for `id`; nothing else changes.
    pub fn get_mut(&mut self, id: &EntityId) -> (r: Option<&mut T>)
        requires
            id.index < old(self)@.len(),
        ensures
            r is Some <==> old(self).value_of(*id) is Some,
            r matches Some(v) ==> {
                &&& *v == old(self).value_of(*id)->Some_0
                &&& final(self)@ == entries_set(old(self)@, *id, *final(v))
            },
            r is None ==> final(self)@ == old(self)@,
    {
        match &mut self.entries[id.index] {
            None => None,
            Some(entry) => if entry.generation != id.generation {
                None
            } else {
                Some(&mut entry.value)
            },
        }
    }
}

/// Stale reads miss: once the live identifier `stale` is deallocated and the
/// next allocation reuses its index, a store in which a value was written for
/// the new identifier holds nothing for `stale`, and that value for the new
/// identifier.
pub proof fn lemma_stale_read<T>(
    m: AllocatorModel,
    stale: EntityId,
    entries: Seq<Option<ArrayEntry<T>>>,
    value: T,
)
    requires
        m.wf(),
        m.is_live(stale),
        stale.index < entries.len(),
        m.deallocated(stale).can_allocate(),
        m.deallocated(stale).next_id().index == stale.index,
    ensures
        entry_value(entries_set(entries, m.deallocated(stale).next_id(), value), stale) is None,
        entry_value(entries_set(entries, m.deallocated(stale).next_id(), value), m.deallocated(stale).next_id())
            == Some(value),
{
    let d = m.deallocated(stale);
    lemma_deallocated(m, stale);
    assert(d.free.len() > 0);
    assert(d.is_free_slot(d.free[d.free.len() - 1] as int));
}

} // verus!
