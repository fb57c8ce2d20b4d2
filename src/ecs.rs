use std::collections::VecDeque;

use vstd::prelude::*;

use crate::component::{entries_cleared, entries_put, ComponentSet};
use crate::entity::{lemma_capacity_step, AllocatorModel, EntityAllocator, EntityId};
use crate::entity_set::EntitySet;
use crate::error::EcsError;

verus! {

/// The closed set of component kinds that the world stores.
#[derive(Clone, Copy, Debug, PartialEq, Eq, Structural)]
pub enum ComponentKind {
    Transform,
    Camera,
    Controller,
    Mesh,
}

/// The component kind that a prefab field of the given name declares.
pub open spec fn kind_named(name: Seq<char>) -> Option<ComponentKind> {
    if name == "Transform"@ {
        Some(ComponentKind::Transform)
    } else if name == "Camera"@ {
        Some(ComponentKind::Camera)
    } else if name == "Controller"@ {
        Some(ComponentKind::Controller)
    } else if name == "Mesh"@ {
        Some(ComponentKind::Mesh)
    } else {
        None
    }
}

impl ComponentKind {
    /// The kind that a prefab field named `name` declares; `None` for a field
    /// that names no kind, which a prefab loader ignores.
    pub fn from_name(name: &String) -> (r: Option<ComponentKind>)
        ensures
            r == kind_named(name@),
    {
        proof {
            reveal_strlit("Transform");
            reveal_strlit("Camera");
            reveal_strlit("Controller");
            reveal_strlit("Mesh");
        }
        if *name == "Transform".to_owned() {
            Some(ComponentKind::Transform)
        } else if *name == "Camera".to_owned() {
            Some(ComponentKind::Camera)
        } else if *name == "Controller".to_owned() {
            Some(ComponentKind::Controller)
        } else if *name == "Mesh".to_owned() {
            Some(ComponentKind::Mesh)
        } else {
            None
        }
    }
}

/// The component values that a prefab declares, one optional value per kind.
pub struct Prefab<Tr, Ca, Co, Me> {
    pub transform: Option<Tr>,
    pub camera: Option<Ca>,
    pub controller: Option<Co>,
    pub mesh: Option<Me>,
}

impl<Tr, Ca, Co, Me> Prefab<Tr, Ca, Co, Me> {
    /// A prefab that declares no component.
    pub fn new() -> (r: Self)
        ensures
            r.transform is None,
            r.camera is None,
            r.controller is None,
            r.mesh is None,
    {
        Prefab { transform: None, camera: None, controller: None, mesh: None }
    }
}

/// The world: the allocator, one store per component kind, the set of
/// entities that carry a camera, and the queues of deferred creations
/// (prefab names) and destructions.
pub struct EntityComponentSystem<Tr, Ca, Co, Me> {
    entity_allocator: EntityAllocator,
    transforms: ComponentSet<Tr>,
    camera_components: ComponentSet<Ca>,
    controllers: ComponentSet<Co>,
    meshes: ComponentSet<Me>,
    cameras: EntitySet,
    entities_to_create: VecDeque<String>,
    entities_to_destroy: VecDeque<EntityId>,
}

impl<Tr, Ca, Co, Me> EntityComponentSystem<Tr, Ca, Co, Me> {
    pub closed spec fn allocator(&self) -> AllocatorModel {
        self.entity_allocator@
    }

    pub closed spec fn transform_store(&self) -> ComponentSet<Tr> {
        self.transforms
    }

    pub closed spec fn camera_store(&self) -> ComponentSet<Ca> {
        self.camera_components
    }

    pub closed spec fn controller_store(&self) -> ComponentSet<Co> {
        self.controllers
    }

    pub closed spec fn mesh_store(&self) -> ComponentSet<Me> {
        self.meshes
    }

    pub closed spec fn camera_set(&self) -> EntitySet {
        self.cameras
    }

    pub closed spec fn pending_creations(&self) -> Seq<String> {
        self.entities_to_create@
    }

    pub closed spec fn pending_destructions(&self) -> Seq<EntityId> {
        self.entities_to_destroy@
    }

    pub open spec fn max_size(&self) -> nat {
        self.allocator().max_size
    }

    pub open spec fn wf(&self) -> bool {
        &&& self.allocator().wf()
        &&& self.transform_store()@.len() == self.max_size()
        &&& self.camera_store()@.len() == self.max_size()
        &&& self.controller_store()@.len() == self.max_size()
        &&& self.mesh_store()@.len() == self.max_size()
        &&& self.camera_set().wf()
    }

    /// Whether the store of `kind` holds a value for `id`.
    pub open spec fn has(&self, kind: ComponentKind, id: EntityId) -> bool {
        match kind {
            ComponentKind::Transform => self.transform_store().value_of(id) is Some,
            ComponentKind::Camera => self.camera_store().value_of(id) is Some,
            ComponentKind::Controller => self.controller_store().value_of(id) is Some,
            ComponentKind::Mesh => self.mesh_store().value_of(id) is Some,
        }
    }

    /// The two worlds agree on everything but their queues: the same live
    /// entities, the same stored components and the same cameras.
    pub open spec fn same_entities(&self, other: &Self) -> bool {
        &&& self.allocator() == other.allocator()
        &&& self.transform_store()@ == other.transform_store()@
        &&& self.camera_store()@ == other.camera_store()@
        &&& self.controller_store()@ == other.controller_store()@
        &&& self.mesh_store()@ == other.mesh_store()@
        &&& self.camera_set()@ == other.camera_set()@
    }

    /// The stores hold the same value for `id` in both worlds.
    pub open spec fn same_components_of(&self, other: &Self, id: EntityId) -> bool {
        &&& self.transform_store().value_of(id) == other.transform_store().value_of(id)
        &&& self.camera_store().value_of(id) == other.camera_store().value_of(id)
        &&& self.controller_store().value_of(id) == other.controller_store().value_of(id)
        &&& self.mesh_store().value_of(id) == other.mesh_store().value_of(id)
    }

    /// The stores hold for `id` exactly what `prefab` declares.
    pub open spec fn holds_prefab(&self, id: EntityId, prefab: Prefab<Tr, Ca, Co, Me>) -> bool {
        &&& self.transform_store().value_of(id) == prefab.transform
        &&& self.camera_store().value_of(id) == prefab.camera
        &&& self.controller_store().value_of(id) == prefab.controller
        &&& self.mesh_store().value_of(id) == prefab.mesh
    }

    /// A world with room for `max_entities` entities, none of them live.
    pub fn new(max_entities: usize) -> (r: Self)
        ensures
            r.wf(),
            r.allocator().slots.len() == 0,
            r.allocator().free.len() == 0,
            r.max_size() == max_entities,
            r.camera_set()@ == Set::<EntityId>::empty(),
            r.pending_creations().len() == 0,
            r.pending_destructions().len() == 0,
            forall|kind: ComponentKind, id: EntityId| !r.has(kind, id),
    {
        EntityComponentSystem {
            entity_allocator: EntityAllocator::new(max_entities),
            transforms: ComponentSet::new(max_entities),
            camera_components: ComponentSet::new(max_entities),
            controllers: ComponentSet::new(max_entities),
            meshes: ComponentSet::new(max_entities),
            cameras: EntitySet::new(),
            entities_to_create: VecDeque::new(),
            entities_to_destroy: VecDeque::new(),
        }
    }

    /// Queues the creation of an entity from the prefab named `prefab`.
    /// Nothing else changes until the queue is drained.
    pub fn add_entity(&mut self, prefab: String)
        ensures
            final(self).same_entities(old(self)),
            final(self).pending_creations() == old(self).pending_creations().push(prefab),
            final(self).pending_destructions() == old(self).pending_destructions(),
            final(self).wf() == old(self).wf(),
    {
        self.entities_to_create.push_back(prefab);
    }

    /// Queues the destruction of `entity`. Nothing else changes until the
    /// queue is drained.
    pub fn remove_entity(&mut self, entity: EntityId)
        ensures
            final(self).same_entities(old(self)),
            final(self).pending_creations() == old(self).pending_creations(),
            final(self).pending_destructions() == old(self).pending_destructions().push(entity),
            final(self).wf() == old(self).wf(),
    {
        self.entities_to_destroy.push_back(entity);
    }

    /// The prefab names queued for creation, oldest first.
    pub fn pending_prefabs(&self) -> (r: &VecDeque<String>)
        ensures
            r@ == self.pending_creations(),
    {
        &self.entities_to_create
    }

    /// The identifiers queued for destruction, oldest first.
    pub fn pending_removals(&self) -> (r: &VecDeque<EntityId>)
        ensures
            r@ == self.pending_destructions(),
    {
        &self.entities_to_destroy
    }

    pub fn entity_allocator(&self) -> (r: &EntityAllocator)
        ensures
            r@ == self.allocator(),
    {
        &self.entity_allocator
    }

    /// Whether `entity` is currently live.
    pub fn is_live(&self, entity: &EntityId) -> (r: bool)
        requires
            self.wf(),
        ensures
            r == self.allocator().is_live(*entity),
    {
        self.entity_allocator.is_live(entity)
    }

    /// Whether the store of `kind` holds a value for `entity`.
    pub fn has_component(&self, kind: ComponentKind, entity: &EntityId) -> (r: bool)
        requires
            self.wf(),
        ensures
            r == self.has(kind, *entity),
    {
        if entity.index >= self.entity_allocator.max_size() {
            return false;
        }
        match kind {
            ComponentKind::Transform => self.transforms.get(entity).is_some(),
            ComponentKind::Camera => self.camera_components.get(entity).is_some(),
            ComponentKind::Controller => self.controllers.get(entity).is_some(),
            ComponentKind::Mesh => self.meshes.get(entity).is_some(),
        }
    }

    /// The entities created with a camera and not destroyed since.
    pub fn cameras(&self) -> (r: &EntitySet)
        ensures
            *r == self.camera_set(),
    {
        &self.cameras
    }

    pub fn transforms(&self) -> (r: &ComponentSet<Tr>)
        ensures
            *r == self.transform_store(),
    {
        &self.transforms
    }

    pub fn camera_components(&self) -> (r: &ComponentSet<Ca>)
        ensures
            *r == self.camera_store(),
    {
        &self.camera_components
    }

    pub fn controllers(&self) -> (r: &ComponentSet<Co>)
        ensures
            *r == self.controller_store(),
    {
        &self.controllers
    }

    pub fn meshes(&self) -> (r: &ComponentSet<Me>)
        ensures
            *r == self.mesh_store(),
    {
        &self.meshes
    }

    /// Exclusive access to the four stores at once, so that a system can
    /// update components of several kinds together. Everything else stays.
    pub fn component_sets_mut(&mut self) -> (r: (
        &mut ComponentSet<Tr>,
        &mut ComponentSet<Ca>,
        &mut ComponentSet<Co>,
        &mut ComponentSet<Me>,
    ))
        ensures
            *r.0 == old(self).transform_store(),
            *r.1 == old(self).camera_store(),
            *r.2 == old(self).controller_store(),
            *r.3 == old(self).mesh_store(),
            final(self).transform_store() == *final(r.0),
            final(self).camera_store() == *final(r.1),
            final(self).controller_store() == *final(r.2),
            final(self).mesh_store() == *final(r.3),
            final(self).allocator() == old(self).allocator(),
            final(self).camera_set() == old(self).camera_set(),
            final(self).pending_creations() == old(self).pending_creations(),
            final(self).pending_destructions() == old(self).pending_destructions(),
    {
        (&mut self.transforms, &mut self.camera_components, &mut self.controllers, &mut self.meshes)
    }

    /// Allocates an identifier and stores for it what `prefab` declares,
    /// emptying the slot of every kind it does not declare.
    fn create_entity(&mut self, prefab: Prefab<Tr, Ca, Co, Me>) -> (r: Result<EntityId, EcsError>)
        requires
            old(self).wf(),
        ensures
            final(self).wf(),
            final(self).pending_creations() == old(self).pending_creations(),
            final(self).pending_destructions() == old(self).pending_destructions(),
            r is Ok <==> old(self).allocator().can_allocate(),
            r matches Ok(id) ==> {
                &&& id == old(self).allocator().next_id()
                &&& final(self).allocator() == old(self).allocator().allocated()
                &&& forall|x: EntityId| old(self).allocator().is_live(x) ==> x.index != id.index
                &&& final(self).allocator().live_ids() == old(self).allocator().live_ids().insert(id)
                &&& final(self).transform_store()@ == entries_put(old(self).transform_store()@, id, prefab.transform)
                &&& final(self).camera_store()@ == entries_put(old(self).camera_store()@, id, prefab.camera)
                &&& final(self).controller_store()@ == entries_put(old(self).controller_store()@, id, prefab.controller)
                &&& final(self).mesh_store()@ == entries_put(old(self).mesh_store()@, id, prefab.mesh)
                &&& final(self).camera_set()@ == if prefab.camera is Some {
                    old(self).camera_set()@.insert(id)
                } else {
                    old(self).camera_set()@
                }
            },
            r matches Err(e) ==> e == EcsError::CapacityExceeded && final(self).same_entities(old(self)),
    {
        let id = match self.entity_allocator.allocate() {
            Ok(id) => id,
            Err(e) => return Err(e),
        };
        let Prefab { transform, camera, controller, mesh } = prefab;
        match transform {
            Some(v) => self.transforms.set(&id, v),
            None => self.transforms.clear(&id),
        }
        let with_camera = camera.is_some();
        match camera {
            Some(v) => self.camera_components.set(&id, v),
            None => self.camera_components.clear(&id),
        }
        match controller {
            Some(v) => self.controllers.set(&id, v),
            None => self.controllers.clear(&id),
        }
        match mesh {
            Some(v) => self.meshes.set(&id, v),
            None => self.meshes.clear(&id),
        }
        if with_camera {
            self.cameras.insert(id);
        }
        Ok(id)
    }

    /// Deallocates `entity` and empties its slot in every store.
    fn destroy_entity(&mut self, entity: &EntityId) -> (r: Result<(), EcsError>)
        requires
            old(self).wf(),
        ensures
            final(self).wf(),
            final(self).pending_creations() == old(self).pending_creations(),
            final(self).pending_destructions() == old(self).pending_destructions(),
            r is Ok <==> old(self).allocator().is_live(*entity),
            r is Ok ==> {
                &&& final(self).allocator() == old(self).allocator().deallocated(*entity)
                &&& final(self).allocator().live_ids() == old(self).allocator().live_ids().remove(*entity)
                &&& final(self).transform_store()@ == entries_cleared(old(self).transform_store()@, *entity)
                &&& final(self).camera_store()@ == entries_cleared(old(self).camera_store()@, *entity)
                &&& final(self).controller_store()@ == entries_cleared(old(self).controller_store()@, *entity)
                &&& final(self).mesh_store()@ == entries_cleared(old(self).mesh_store()@, *entity)
                &&& final(self).camera_set()@ == old(self).camera_set()@.remove(*entity)
            },
            r matches Err(e) ==> e == EcsError::NotLive && final(self).same_entities(old(self)),
    {
        match self.entity_allocator.deallocate(entity) {
            Ok(()) => {},
            Err(e) => return Err(e),
        }
        self.transforms.clear(entity);
        self.camera_components.clear(entity);
        self.controllers.clear(entity);
        self.meshes.clear(entity);
        self.cameras.remove(entity);
        Ok(())
    }

    /// Drains the creation queue: for each queued prefab name, oldest first,
    /// allocates an identifier and stores the components that the matching
    /// element of `prefabs` declares. Returns the new identifiers in the order
    /// of issue. Fails with [`EcsError::CapacityExceeded`] exactly when the
    /// allocator cannot supply one identifier per queued prefab.
    pub fn create_entities(&mut self, prefabs: Vec<Prefab<Tr, Ca, Co, Me>>) -> (r: Result<
        Vec<EntityId>,
        EcsError,
    >)
        requires
            old(self).wf(),
            prefabs@.len() == old(self).pending_creations().len(),
        ensures
            final(self).wf(),
            final(self).pending_destructions() == old(self).pending_destructions(),
            r is Ok <==> prefabs@.len() <= old(self).allocator().capacity(),
            r matches Ok(ids) ==> {
                &&& ids@ == old(self).allocator().issued_ids(prefabs@.len())
                &&& final(self).allocator() == old(self).allocator().allocated_times(prefabs@.len())
                &&& final(self).allocator().live_ids() == old(self).allocator().live_ids() + ids@.to_set()
                &&& final(self).pending_creations().len() == 0
                &&& forall|k: int| 0 <= k < ids@.len() ==> final(self).holds_prefab(#[trigger] ids@[k], prefabs@[k])
                &&& forall|x: EntityId| #[trigger] old(self).allocator().is_live(x) ==> final(self).same_components_of(old(self), x)
                &&& final(self).camera_set()@ == old(self).camera_set()@ + Set::new(
                    |id: EntityId| exists|k: int| 0 <= k < ids@.len() && ids@[k] == id && prefabs@[k].camera is Some,
                )
            },
            r matches Err(e) ==> e == EcsError::CapacityExceeded,
    {
        let ghost all = prefabs@;
        let ghost start = self.allocator();
        let mut remaining = prefabs;
        let mut created: Vec<EntityId> = Vec::new();
        while remaining.len() > 0
            invariant
                self.wf(),
                self.pending_destructions() == old(self).pending_destructions(),
                all == prefabs@,
                all.len() == old(self).pending_creations().len(),
                created@.len() + remaining@.len() == all.len(),
                remaining@ == all.skip(created@.len() as int),
                self.pending_creations() == old(self).pending_creations().skip(created@.len() as int),
                created@.len() <= start.capacity(),
                start == old(self).allocator(),
                self.allocator() == start.allocated_times(created@.len() as nat),
                self.allocator().capacity() + created@.len() == start.capacity(),
                created@ == start.issued_ids(created@.len() as nat),
                self.allocator().live_ids() == start.live_ids() + created@.to_set(),
                forall|k: int| 0 <= k < created@.len() ==> self.allocator().is_live(#[trigger] created@[k]),
                forall|k: int| 0 <= k < created@.len() ==> self.holds_prefab(#[trigger] created@[k], all[k]),
                forall|x: EntityId| #[trigger] start.is_live(x) ==> self.same_components_of(old(self), x),
                self.camera_set()@ == old(self).camera_set()@ + Set::new(
                    |id: EntityId| exists|k: int| 0 <= k < created@.len() && created@[k] == id && all[k].camera is Some,
                ),
            decreases remaining@.len(),
        {
            let ghost before = *self;
            let ghost n = created@.len();
            proof {
                lemma_capacity_step(self.allocator());
            }
            let prefab = remaining.remove(0);
            let _ = self.entities_to_create.pop_front();
            assert(self.pending_creations() =~= old(self).pending_creations().skip(n + 1 as int));
            assert(prefab == all[n as int]);
            let id = match self.create_entity(prefab) {
                Ok(id) => id,
                Err(e) => {
                    assert(self.allocator().capacity() == 0);
                    assert(start.capacity() == n);
                    return Err(e);
                },
            };
            let ghost prev = created@;
            created.push(id);
            proof {
                prev.lemma_push_to_set_commute(id);
                assert(self.allocator() == start.allocated_times((n + 1) as nat));
                assert(created@ =~= start.issued_ids((n + 1) as nat));
                assert(self.allocator().live_ids() =~= start.live_ids() + created@.to_set());
                assert forall|k: int| 0 <= k < created@.len() implies self.holds_prefab(
                    #[trigger] created@[k],
                    all[k],
                ) by {
                    if k < n {
                        assert(before.allocator().is_live(created@[k]));
                    }
                }
                assert forall|x: EntityId| #[trigger] start.is_live(x) implies self.same_components_of(old(self), x) by {
                    assert(start.live_ids().contains(x));
                    assert(before.allocator().live_ids().contains(x));
                }
                assert(self.camera_set()@ =~= old(self).camera_set()@ + Set::new(
                    |i: EntityId| exists|k: int| 0 <= k < created@.len() && created@[k] == i && all[k].camera is Some,
                )) by {
                    assert forall|i: EntityId| (exists|k: int| 0 <= k < created@.len() && created@[k] == i && all[k].camera is Some)
                        implies #[trigger] self.camera_set()@.contains(i) by {
                        let k = choose|k: int| 0 <= k < created@.len() && created@[k] == i && all[k].camera is Some;
                        if k < n {
                            assert(before.camera_set()@.contains(i));
                        }
                    }
                    assert forall|i: EntityId| #[trigger] self.camera_set()@.contains(i) && !old(self).camera_set()@.contains(i)
                        implies (exists|k: int| 0 <= k < created@.len() && created@[k] == i && all[k].camera is Some) by {
                        if i != id {
                            assert(before.camera_set()@.contains(i));
                            let k = choose|k: int| 0 <= k < prev.len() && prev[k] == i && all[k].camera is Some;
                            assert(created@[k] == i);
                        } else {
                            assert(created@[n as int] == i);
                        }
                    }
                }
            }
        }
        proof {
            assert(all.skip(created@.len() as int).len() == 0);
        }
        Ok(created)
    }

    /// Drains the destruction queue: for each queued identifier, oldest
    /// first, deallocates it and empties its slot in every store. Returns the
    /// identifiers processed, in queue order. Fails with
    /// [`EcsError::NotLive`] exactly when some queued identifier is not live
    /// or is queued twice.
    pub fn destroy_entities(&mut self) -> (r: Result<Vec<EntityId>, EcsError>)
        requires
            old(self).wf(),
        ensures
            final(self).wf(),
            final(self).pending_creations() == old(self).pending_creations(),
            r is Ok <==> {
                &&& old(self).pending_destructions().no_duplicates()
                &&& forall|k: int| 0 <= k < old(self).pending_destructions().len()
                    ==> old(self).allocator().is_live(#[trigger] old(self).pending_destructions()[k])
            },
            r matches Ok(ids) ==> {
                &&& ids@ == old(self).pending_destructions()
                &&& final(self).allocator() == old(self).allocator().deallocated_all(ids@)
                &&& final(self).allocator().live_ids() == old(self).allocator().live_ids() - ids@.to_set()
                &&& final(self).pending_destructions().len() == 0
                &&& forall|k: int, kind: ComponentKind| 0 <= k < ids@.len() ==> !#[trigger] final(self).has(kind, ids@[k])
                &&& forall|x: EntityId| #[trigger] final(self).allocator().is_live(x) ==> final(self).same_components_of(old(self), x)
                &&& final(self).camera_set()@ == old(self).camera_set()@ - ids@.to_set()
            },
            r matches Err(e) ==> e == EcsError::NotLive,
    {
        let ghost queued = self.pending_destructions();
        let ghost start = self.allocator();
        let mut destroyed: Vec<EntityId> = Vec::new();
        while self.entities_to_destroy.len() > 0
            invariant
                self.wf(),
                self.pending_creations() == old(self).pending_creations(),
                queued == old(self).pending_destructions(),
                start == old(self).allocator(),
                destroyed@.len() <= queued.len(),
                destroyed@ == queued.take(destroyed@.len() as int),
                self.pending_destructions() == queued.skip(destroyed@.len() as int),
                destroyed@.no_duplicates(),
                forall|j: int| 0 <= j < destroyed@.len() ==> start.is_live(#[trigger] destroyed@[j]),
                self.allocator() == start.deallocated_all(destroyed@),
                self.allocator().live_ids() == start.live_ids() - destroyed@.to_set(),
                forall|j: int, kind: ComponentKind| 0 <= j < destroyed@.len() ==> !#[trigger] self.has(kind, destroyed@[j]),
                forall|x: EntityId| #[trigger] self.allocator().is_live(x) ==> self.same_components_of(old(self), x),
                self.camera_set()@ == old(self).camera_set()@ - destroyed@.to_set(),
            decreases self.pending_destructions().len(),
        {
            let ghost before = *self;
            let ghost n = destroyed@.len();
            let id = self.entities_to_destroy.pop_front().unwrap();
            assert(id == queued[n as int]);
            assert(self.pending_destructions() =~= queued.skip(n + 1 as int));
            match self.destroy_entity(&id) {
                Ok(()) => {},
                Err(e) => {
                    proof {
                        if queued.no_duplicates() && forall|k: int| 0 <= k < queued.len() ==> start.is_live(#[trigger] queued[k]) {
                            assert(start.is_live(queued[n as int]));
                            assert(!before.allocator().live_ids().contains(id));
                            assert(destroyed@.to_set().contains(id));
                            let j = choose|j: int| 0 <= j < destroyed@.len() && destroyed@[j] == id;
                            assert(queued[j] == queued[n as int]);
                        }
                    }
                    return Err(e);
                },
            }
            let ghost prev = destroyed@;
            destroyed.push(id);
            proof {
                prev.lemma_push_to_set_commute(id);
                assert(before.allocator().live_ids().contains(id));
                assert(!prev.to_set().contains(id));
                assert(start.is_live(id));
                assert(destroyed@.drop_last() == prev);
                assert(destroyed@ =~= queued.take(n + 1 as int));
                assert(self.allocator().live_ids() =~= start.live_ids() - destroyed@.to_set());
                assert(self.camera_set()@ =~= old(self).camera_set()@ - destroyed@.to_set());
                assert(destroyed@.no_duplicates()) by {
                    assert forall|a: int, b: int| 0 <= a < destroyed@.len() && 0 <= b < destroyed@.len() && a != b
                        implies destroyed@[a] != destroyed@[b] by {
                        if a == n {
                            assert(prev.to_set().contains(prev[b]));
                        } else if b == n {
                            assert(prev.to_set().contains(prev[a]));
                        }
                    }
                }
                assert forall|x: EntityId| #[trigger] self.allocator().is_live(x) implies self.same_components_of(old(self), x) by {
                    assert(self.allocator().live_ids().contains(x));
                    assert(before.allocator().live_ids().contains(x));
                    assert(x != id);
                }
                assert forall|j: int, kind: ComponentKind| 0 <= j < destroyed@.len() implies !#[trigger] self.has(
                    kind,
                    destroyed@[j],
                ) by {
                    if j < n {
                        assert(!before.has(kind, prev[j]));
                    }
                    match kind {
                        ComponentKind::Transform => {},
                        ComponentKind::Camera => {},
                        ComponentKind::Controller => {},
                        ComponentKind::Mesh => {},
                    }
                }
            }
        }
        proof {
            assert(destroyed@ =~= queued);
        }
        Ok(destroyed)
    }
}

} // verus!
