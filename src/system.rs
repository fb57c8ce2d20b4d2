use vstd::prelude::*;

use crate::ecs::{ComponentKind, EntityComponentSystem, Prefab};
use crate::entity::EntityId;
use crate::entity_set::EntitySet;
use crate::error::EcsError;

verus! {

/// The component kinds that a system requires of its entities.
#[derive(Clone, Copy, Debug, PartialEq, Eq, Structural)]
pub struct Signature {
    pub transform: bool,
    pub camera: bool,
    pub controller: bool,
    pub mesh: bool,
}

impl Signature {
    /// `id` has a component of every kind that the signature requires.
    pub open spec fn matched_by<Tr, Ca, Co, Me>(
        self,
        world: &EntityComponentSystem<Tr, Ca, Co, Me>,
        id: EntityId,
    ) -> bool {
        &&& self.transform ==> world.has(ComponentKind::Transform, id)
        &&& self.camera ==> world.has(ComponentKind::Camera, id)
        &&& self.controller ==> world.has(ComponentKind::Controller, id)
        &&& self.mesh ==> world.has(ComponentKind::Mesh, id)
    }

    pub fn matches<Tr, Ca, Co, Me>(
        &self,
        world: &EntityComponentSystem<Tr, Ca, Co, Me>,
        id: &EntityId,
    ) -> (r: bool)
        requires
            world.wf(),
        ensures
            r == self.matched_by(world, *id),
    {
        (!self.transform || world.has_component(ComponentKind::Transform, id)) && (!self.camera
            || world.has_component(ComponentKind::Camera, id)) && (!self.controller
            || world.has_component(ComponentKind::Controller, id)) && (!self.mesh
            || world.has_component(ComponentKind::Mesh, id))
    }
}

/// Moves entities that carry a transform and a controller.
pub struct ControlSystem {}

impl ControlSystem {
    pub fn signature(&self) -> (r: Signature)
        ensures
            r == (Signature { transform: true, camera: false, controller: true, mesh: false }),
    {
        Signature { transform: true, camera: false, controller: true, mesh: false }
    }

    /// Whether `entity` has both a transform and a controller.
    pub fn is_system_entity<Tr, Ca, Co, Me>(
        &self,
        entity: &EntityId,
        ecs: &EntityComponentSystem<Tr, Ca, Co, Me>,
    ) -> (r: bool)
        requires
            ecs.wf(),
        ensures
            r == (ecs.has(ComponentKind::Transform, *entity) && ecs.has(
                ComponentKind::Controller,
                *entity,
            )),
    {
        ecs.has_component(ComponentKind::Transform, entity) && ecs.has_component(
            ComponentKind::Controller,
            entity,
        )
    }
}

/// Draws entities that carry a transform and a mesh.
pub struct RenderSystem {}

impl RenderSystem {
    pub fn signature(&self) -> (r: Signature)
        ensures
            r == (Signature { transform: true, camera: false, controller: false, mesh: true }),
    {
        Signature { transform: true, camera: false, controller: false, mesh: true }
    }

    /// Whether `entity` has both a transform and a mesh.
    pub fn is_system_entity<Tr, Ca, Co, Me>(
        &self,
        entity: &EntityId,
        ecs: &EntityComponentSystem<Tr, Ca, Co, Me>,
    ) -> (r: bool)
        requires
            ecs.wf(),
        ensures
            r == (ecs.has(ComponentKind::Transform, *entity) && ecs.has(
                ComponentKind::Mesh,
                *entity,
            )),
    {
        ecs.has_component(ComponentKind::Transform, entity) && ecs.has_component(
            ComponentKind::Mesh,
            entity,
        )
    }
}

/// The registered systems, in execution order, each with the set of
/// entities that currently match its signature.
pub struct SystemManager {
    systems: Vec<(Signature, EntitySet)>,
}

impl SystemManager {
    pub closed spec fn signatures(&self) -> Seq<Signature> {
        self.systems@.map_values(|s: (Signature, EntitySet)| s.0)
    }

    /// The matching set of the system at position `i`.
    pub closed spec fn matching(&self, i: int) -> Set<EntityId> {
        self.systems@[i].1@
    }

    pub closed spec fn wf(&self) -> bool {
        forall|i: int| 0 <= i < self.systems@.len() ==> (#[trigger] self.systems@[i]).1.wf()
    }

    /// A scheduler with no system.
    pub fn empty() -> (r: Self)
        ensures
            r.wf(),
            r.signatures().len() == 0,
    {
        let r = SystemManager { systems: Vec::new() };
        assert(r.signatures() =~= Seq::<Signature>::empty());
        r
    }

    /// The scheduler of this application: the control system, then the
    /// render system, so that motion is integrated before it is drawn.
    pub fn new() -> (r: Self)
        ensures
            r.wf(),
            r.signatures() == seq![
                Signature { transform: true, camera: false, controller: true, mesh: false },
                Signature { transform: true, camera: false, controller: false, mesh: true },
            ],
            r.matching(0) == Set::<EntityId>::empty(),
            r.matching(1) == Set::<EntityId>::empty(),
    {
        let mut r = SystemManager::empty();
        let control = ControlSystem {};
        let render = RenderSystem {};
        r.add_system(control.signature());
        r.add_system(render.signature());
        assert(r.signatures() =~= seq![
            Signature { transform: true, camera: false, controller: true, mesh: false },
            Signature { transform: true, camera: false, controller: false, mesh: true },
        ]);
        r
    }

    /// Registers a system with the given signature after those already
    /// registered, with an empty matching set. Returns its position.
    pub fn add_system(&mut self, signature: Signature) -> (r: usize)
        requires
            old(self).wf(),
        ensures
            final(self).wf(),
            r == old(self).signatures().len(),
            final(self).signatures() == old(self).signatures().push(signature),
            final(self).matching(r as int) == Set::<EntityId>::empty(),
            forall|i: int| 0 <= i < r ==> #[trigger] final(self).matching(i) == old(self).matching(i),
    {
        let r = self.systems.len();
        self.systems.push((signature, EntitySet::new()));
        assert(self.signatures() =~= old(self).signatures().push(signature));
        r
    }

    /// The number of registered systems.
    pub fn len(&self) -> (r: usize)
        ensures
            r == self.signatures().len(),
    {
        self.systems.len()
    }

    pub fn signature(&self, i: usize) -> (r: Signature)
        requires
            i < self.signatures().len(),
        ensures
            r == self.signatures()[i as int],
    {
        self.systems[i].0
    }

    /// The matching set of the system at position `i`.
    pub fn entities(&self, i: usize) -> (r: &EntitySet)
        requires
            self.wf(),
            i < self.signatures().len(),
        ensures
            r.wf(),
            r@ == self.matching(i as int),
    {
        &self.systems[i].1
    }

    /// The positions of the systems whose signature `entity` matches, in
    /// ascending order.
    fn compatible_systems_indexes<Tr, Ca, Co, Me>(
        &self,
        entity: &EntityId,
        ecs: &EntityComponentSystem<Tr, Ca, Co, Me>,
    ) -> (r: Vec<usize>)
        requires
            ecs.wf(),
        ensures
            forall|k: int| 0 <= k < r@.len() ==> #[trigger] r@[k] < self.signatures().len()
                && self.signatures()[r@[k] as int].matched_by(ecs, *entity),
            forall|i: int| 0 <= i < self.signatures().len() && self.signatures()[i].matched_by(ecs, *entity)
                ==> r@.contains(i as usize),
    {
        let mut r: Vec<usize> = Vec::new();
        let mut i: usize = 0;
        while i < self.systems.len()
            invariant
                ecs.wf(),
                i <= self.systems@.len(),
                forall|k: int| 0 <= k < r@.len() ==> #[trigger] r@[k] < i
                    && self.signatures()[r@[k] as int].matched_by(ecs, *entity),
                forall|j: int| 0 <= j < i && self.signatures()[j].matched_by(ecs, *entity)
                    ==> r@.contains(j as usize),
            decreases self.systems@.len() - i,
        {
            if self.systems[i].0.matches(ecs, entity) {
                let ghost prev = r@;
                r.push(i);
                proof {
                    assert forall|j: int| 0 <= j < i + 1 && self.signatures()[j].matched_by(ecs, *entity)
                        implies r@.contains(j as usize) by {
                        if j < i {
                            let k = choose|k: int| 0 <= k < prev.len() && prev[k] == j as usize;
                            assert(r@[k] == j as usize);
                        } else {
                            assert(r@[r@.len() - 1] == j as usize);
                        }
                    }
                }
            }
            i = i + 1;
        }
        r
    }

    /// Adds each of `entities` to the matching set of every system whose
    /// signature it matches.
    fn add_entities_to_systems<Tr, Ca, Co, Me>(
        &mut self,
        entities: &Vec<EntityId>,
        ecs: &EntityComponentSystem<Tr, Ca, Co, Me>,
    )
        requires
            old(self).wf(),
            ecs.wf(),
        ensures
            final(self).wf(),
            final(self).signatures() == old(self).signatures(),
            forall|i: int| 0 <= i < old(self).signatures().len() ==> #[trigger] final(self).matching(i)
                == old(self).matching(i) + Set::new(
                |id: EntityId| entities@.contains(id) && old(self).signatures()[i].matched_by(ecs, id),
            ),
    {
        let mut k: usize = 0;
        while k < entities.len()
            invariant
                self.wf(),
                ecs.wf(),
                k <= entities@.len(),
                self.signatures() == old(self).signatures(),
                forall|i: int| 0 <= i < old(self).signatures().len() ==> #[trigger] self.matching(i)
                    == old(self).matching(i) + Set::new(
                    |id: EntityId| entities@.take(k as int).to_set().contains(id) && old(self).signatures()[i].matched_by(ecs, id),
                ),
            decreases entities@.len() - k,
        {
            let entity = entities[k];
            let indexes = self.compatible_systems_indexes(&entity, ecs);
            let ghost before = *self;
            let count = self.systems.len();
            let mut m: usize = 0;
            while m < indexes.len()
                invariant
                    self.wf(),
                    ecs.wf(),
                    m <= indexes@.len(),
                    self.signatures() == before.signatures(),
                    self.systems@.len() == before.systems@.len(),
                    count == before.systems@.len(),
                    forall|k2: int| 0 <= k2 < indexes@.len() ==> #[trigger] indexes@[k2] < self.signatures().len(),
                    forall|i: int| 0 <= i < before.signatures().len() ==> #[trigger] self.matching(i)
                        == if indexes@.take(m as int).to_set().contains(i as usize) {
                        before.matching(i).insert(entity)
                    } else {
                        before.matching(i)
                    },
                decreases indexes@.len() - m,
            {
                let index = indexes[m];
                let ghost inner = *self;
                self.systems[index].1.insert(entity);
                proof {
                    assert forall|i: int| 0 <= i < self.systems@.len() implies (#[trigger] self.systems@[i]).1.wf() by {
                        if i != index {
                            assert(self.systems@[i] == inner.systems@[i]);
                        }
                    }
                    assert(self.signatures() =~= inner.signatures()) by {
                        assert forall|i: int| 0 <= i < self.systems@.len() implies self.signatures()[i] == inner.signatures()[i] by {
                            if i != index {
                                assert(self.systems@[i] == inner.systems@[i]);
                            }
                        }
                    }
                    let t0 = indexes@.take(m as int);
                    assert(indexes@.take(m + 1 as int) == t0.push(index));
                    t0.lemma_push_to_set_commute(index);
                    assert forall|i: int| 0 <= i < before.signatures().len() implies #[trigger] self.matching(i)
                        == if indexes@.take(m + 1 as int).to_set().contains(i as usize) {
                        before.matching(i).insert(entity)
                    } else {
                        before.matching(i)
                    } by {
                        assert(i < count);
                        if i != index {
                            assert(self.systems@[i] == inner.systems@[i]);
                            assert(self.matching(i) == inner.matching(i));
                            assert((i as usize) != index);
                            assert(indexes@.take(m + 1 as int).to_set().contains(i as usize) == t0.to_set().contains(i as usize));
                        } else {
                            assert(self.matching(i) == inner.matching(i).insert(entity));
                            assert(indexes@.take(m + 1 as int).to_set().contains(i as usize));
                            if t0.to_set().contains(i as usize) {
                                assert(inner.matching(i) == before.matching(i).insert(entity));
                                assert(before.matching(i).insert(entity).insert(entity) =~= before.matching(i).insert(entity));
                            } else {
                                assert(inner.matching(i) == before.matching(i));
                            }
                        }
                    }
                }
                m = m + 1;
            }
            proof {
                assert(indexes@.take(indexes@.len() as int) == indexes@);
                assert(entities@.take(k + 1 as int) == entities@.take(k as int).push(entity));
                entities@.take(k as int).lemma_push_to_set_commute(entity);
                assert forall|i: int| 0 <= i < old(self).signatures().len() implies #[trigger] self.matching(i)
                    == old(self).matching(i) + Set::new(
                    |id: EntityId| entities@.take(k + 1 as int).to_set().contains(id) && old(self).signatures()[i].matched_by(ecs, id),
                ) by {
                    let sig = old(self).signatures()[i];
                    assert(i < count);
                    assert(indexes@.to_set().contains(i as usize) == sig.matched_by(ecs, entity)) by {
                        if indexes@.to_set().contains(i as usize) {
                            let k2 = choose|k2: int| 0 <= k2 < indexes@.len() && indexes@[k2] == i as usize;
                            assert(self.signatures()[indexes@[k2] as int].matched_by(ecs, entity));
                        }
                    }
                    assert(before.matching(i) == old(self).matching(i) + Set::new(
                        |id: EntityId| entities@.take(k as int).to_set().contains(id) && sig.matched_by(ecs, id),
                    ));
                    assert(self.matching(i) =~= old(self).matching(i) + Set::new(
                        |id: EntityId| entities@.take(k + 1 as int).to_set().contains(id) && sig.matched_by(ecs, id),
                    ));
                }
            }
            k = k + 1;
        }
        proof {
            assert(entities@.take(entities@.len() as int) == entities@);
        }
    }

    /// Removes each of `entities` from the matching set of every system.
    fn remove_entities_from_systems(&mut self, entities: &Vec<EntityId>)
        requires
            old(self).wf(),
        ensures
            final(self).wf(),
            final(self).signatures() == old(self).signatures(),
            forall|i: int| 0 <= i < old(self).signatures().len() ==> #[trigger] final(self).matching(i)
                == old(self).matching(i) - entities@.to_set(),
    {
        let mut k: usize = 0;
        while k < entities.len()
            invariant
                self.wf(),
                k <= entities@.len(),
                self.signatures() == old(self).signatures(),
                forall|i: int| 0 <= i < old(self).signatures().len() ==> #[trigger] self.matching(i)
                    == old(self).matching(i) - entities@.take(k as int).to_set(),
            decreases entities@.len() - k,
        {
            let entity = entities[k];
            let ghost before = *self;
            let mut index: usize = 0;
            while index < self.systems.len()
                invariant
                    self.wf(),
                    index <= self.systems@.len(),
                    self.systems@.len() == before.systems@.len(),
                    self.signatures() == before.signatures(),
                    forall|i: int| 0 <= i < before.signatures().len() ==> #[trigger] self.matching(i)
                        == if i < index {
                        before.matching(i).remove(entity)
                    } else {
                        before.matching(i)
                    },
                decreases self.systems@.len() - index,
            {
                let ghost inner = *self;
                self.systems[index].1.remove(&entity);
                proof {
                    assert forall|i: int| 0 <= i < self.systems@.len() implies (#[trigger] self.systems@[i]).1.wf() by {
                        if i != index {
                            assert(self.systems@[i] == inner.systems@[i]);
                        }
                    }
                    assert(self.signatures() =~= inner.signatures()) by {
                        assert forall|i: int| 0 <= i < self.systems@.len() implies self.signatures()[i] == inner.signatures()[i] by {
                            if i != index {
                                assert(self.systems@[i] == inner.systems@[i]);
                            }
                        }
                    }
                    assert forall|i: int| 0 <= i < before.signatures().len() implies #[trigger] self.matching(i)
                        == if i < index + 1 {
                        before.matching(i).remove(entity)
                    } else {
                        before.matching(i)
                    } by {
                        if i != index {
                            assert(self.systems@[i] == inner.systems@[i]);
                            assert(self.matching(i) == inner.matching(i));
                        } else {
                            assert(inner.matching(i) == before.matching(i));
                            assert(self.matching(i) == inner.matching(i).remove(entity));
                        }
                    }
                }
                index = index + 1;
            }
            proof {
                let taken = entities@.take(k as int);
                assert(entities@.take(k + 1 as int) == taken.push(entity));
                taken.lemma_push_to_set_commute(entity);
                assert forall|i: int| 0 <= i < old(self).signatures().len() implies #[trigger] self.matching(i)
                    == old(self).matching(i) - entities@.take(k + 1 as int).to_set() by {
                    assert(self.matching(i) =~= old(self).matching(i) - entities@.take(k + 1 as int).to_set());
                }
            }
            k = k + 1;
        }
        proof {
            assert(entities@.take(entities@.len() as int) == entities@);
        }
    }

    /// The structural part of a tick, applied between ticks only: drains the
    /// world's destruction queue and removes every destroyed entity from
    /// every matching set, then drains the creation queue (`prefabs` holds
    /// the resolved components of each queued prefab, in queue order) and
    /// adds every new entity to the matching set of each system whose
    /// signature it matches. The caller then runs the systems in order, each
    /// over its matching set.
    ///
    /// Succeeds exactly when every queued destruction names a distinct live
    /// entity and the allocator, once those are freed, can supply one
    /// identifier per queued prefab.
    pub fn run<Tr, Ca, Co, Me>(
        &mut self,
        ecs: &mut EntityComponentSystem<Tr, Ca, Co, Me>,
        prefabs: Vec<Prefab<Tr, Ca, Co, Me>>,
    ) -> (r: Result<(), EcsError>)
        requires
            old(self).wf(),
            old(ecs).wf(),
            prefabs@.len() == old(ecs).pending_creations().len(),
        ensures
            final(self).wf(),
            final(ecs).wf(),
            final(self).signatures() == old(self).signatures(),
            r is Ok <==> {
                &&& old(ecs).pending_destructions().no_duplicates()
                &&& forall|k: int| 0 <= k < old(ecs).pending_destructions().len()
                    ==> old(ecs).allocator().is_live(#[trigger] old(ecs).pending_destructions()[k])
                &&& prefabs@.len() <= old(ecs).allocator().deallocated_all(
                    old(ecs).pending_destructions(),
                ).capacity()
            },
            r is Ok ==> {
                let destroyed = old(ecs).pending_destructions();
                let created = old(ecs).allocator().deallocated_all(destroyed).issued_ids(prefabs@.len());
                &&& final(ecs).pending_destructions().len() == 0
                &&& final(ecs).pending_creations().len() == 0
                &&& final(ecs).allocator().live_ids() == old(ecs).allocator().live_ids() - destroyed.to_set()
                    + created.to_set()
                &&& forall|k: int| 0 <= k < created.len() ==> final(ecs).holds_prefab(#[trigger] created[k], prefabs@[k])
                &&& forall|i: int| 0 <= i < old(self).signatures().len() ==> #[trigger] final(self).matching(i)
                    == old(self).matching(i) - destroyed.to_set() + Set::new(
                    |id: EntityId| created.contains(id) && old(self).signatures()[i].matched_by(&*final(ecs), id),
                )
            },
    {
        let destroyed = match ecs.destroy_entities() {
            Ok(ids) => ids,
            Err(e) => return Err(e),
        };
        self.remove_entities_from_systems(&destroyed);
        let created = match ecs.create_entities(prefabs) {
            Ok(ids) => ids,
            Err(e) => return Err(e),
        };
        self.add_entities_to_systems(&created, ecs);
        Ok(())
    }
}

/// Queued structural changes are deferred. Queuing a destruction and then a
/// creation (`remove_entity`, `add_entity`, whose contracts give the two
/// steps below) changes nothing but the world's queues: the live entities
/// stay the same and every signature is matched by the same entities, so no
/// matching set a scheduler keeps, nor any it could compute, changes before
/// the queues are drained by `SystemManager::run`.
pub proof fn lemma_queued_changes_are_deferred<Tr, Ca, Co, Me>(
    before: EntityComponentSystem<Tr, Ca, Co, Me>,
    destroy_queued: EntityComponentSystem<Tr, Ca, Co, Me>,
    queued: EntityComponentSystem<Tr, Ca, Co, Me>,
    signature: Signature,
    id: EntityId,
)
    requires
        destroy_queued.same_entities(&before),
        queued.same_entities(&destroy_queued),
    ensures
        queued.allocator().is_live(id) == before.allocator().is_live(id),
        signature.matched_by(&queued, id) == signature.matched_by(&before, id),
        queued.camera_set()@ == before.camera_set()@,
{
}

} // verus!
