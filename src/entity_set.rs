use vstd::prelude::*;

use crate::entity::EntityId;

verus! {

/// A finite set of entity identifiers, kept as a vector without duplicates.
pub struct EntitySet {
    ids: Vec<EntityId>,
}

impl View for EntitySet {
    type V = Set<EntityId>;

    closed spec fn view(&self) -> Set<EntityId> {
        self.ids@.to_set()
    }
}

impl EntitySet {
    pub closed spec fn wf(&self) -> bool {
        self.ids@.no_duplicates()
    }

    pub fn new() -> (r: Self)
        ensures
            r.wf(),
            r@ == Set::<EntityId>::empty(),
    {
        let r = EntitySet { ids: Vec::new() };
        assert(r@ =~= Set::<EntityId>::empty());
        r
    }

    pub fn len(&self) -> (r: usize)
        requires
            self.wf(),
        ensures
            r == self@.len(),
    {
        proof {
            self.ids@.unique_seq_to_set();
        }
        self.ids.len()
    }

    /// The members as a vector, one entry for each member.
    pub fn ids(&self) -> (r: &Vec<EntityId>)
        requires
            self.wf(),
        ensures
            r@.no_duplicates(),
            r@.to_set() == self@,
    {
        &self.ids
    }

    fn position(&self, id: &EntityId) -> (r: Option<usize>)
        ensures
            r matches Some(i) ==> i < self.ids@.len() && self.ids@[i as int] == *id,
            r is None ==> !self.ids@.contains(*id),
    {
        let mut i: usize = 0;
        while i < self.ids.len()
            invariant
                i <= self.ids@.len(),
                forall|j: int| 0 <= j < i ==> self.ids@[j] != *id,
            decreases self.ids@.len() - i,
        {
            if self.ids[i] == *id {
                return Some(i);
            }
            i = i + 1;
        }
        None
    }

    pub fn contains(&self, id: &EntityId) -> (r: bool)
        requires
            self.wf(),
        ensures
            r == self@.contains(*id),
    {
        self.position(id).is_some()
    }

    /// Adds `id`; a member already present stays once.
    pub fn insert(&mut self, id: EntityId)
        requires
            old(self).wf(),
        ensures
            final(self).wf(),
            final(self)@ == old(self)@.insert(id),
    {
        if self.position(&id).is_none() {
            self.ids.push(id);
            assert(self.ids@.to_set() =~= old(self).ids@.to_set().insert(id)) by {
                assert(self.ids@.last() == id);
                assert forall|x: EntityId| old(self).ids@.contains(x) implies self.ids@.contains(
                    x,
                ) by {
                    let k = choose|k: int| 0 <= k < old(self).ids@.len() && old(self).ids@[k] == x;
                    assert(self.ids@[k] == x);
                }
            }
        } else {
            assert(old(self)@.insert(id) =~= old(self)@);
        }
    }

    /// Removes `id`, if it is a member.
    pub fn remove(&mut self, id: &EntityId)
        requires
            old(self).wf(),
        ensures
            final(self).wf(),
            final(self)@ == old(self)@.remove(*id),
    {
        match self.position(id) {
            Some(i) => {
                let ghost before = self.ids@;
                self.ids.remove(i);
                assert(self.ids@ == before.remove(i as int));
                assert(self.ids@.to_set() =~= before.to_set().remove(*id)) by {
                    assert forall|x: EntityId| #[trigger] before.contains(x) && x != *id implies self.ids@.contains(
                        x,
                    ) by {
                        let k = choose|k: int| 0 <= k < before.len() && before[k] == x;
                        if k < i {
                            assert(self.ids@[k] == x);
                        } else {
                            assert(k != i);
                            assert(self.ids@[k - 1] == x);
                        }
                    }
                    assert forall|x: EntityId| #[trigger] self.ids@.contains(x) implies x != *id
                        && before.contains(x) by {
                        let k = choose|k: int| 0 <= k < self.ids@.len() && self.ids@[k] == x;
                        if k < i {
                            assert(before[k] == x);
                        } else {
                            assert(before[k + 1] == x);
                        }
                    }
                }
                assert(self.ids@.no_duplicates()) by {
                    assert forall|a: int, b: int|
                        0 <= a < self.ids@.len() && 0 <= b < self.ids@.len() && a != b implies self.ids@[a]
                        != self.ids@[b] by {
                        let a2 = if a < i {
                            a
                        } else {
                            a + 1
                        };
                        let b2 = if b < i {
                            b
                        } else {
                            b + 1
                        };
                        assert(self.ids@[a] == before[a2]);
                        assert(self.ids@[b] == before[b2]);
                    }
                }
            },
            None => {
                assert(old(self)@.remove(*id) =~= old(self)@);
            },
        }
    }
}

} // verus!
