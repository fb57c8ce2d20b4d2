use sample_ecs::ecs::{ComponentKind, EntityComponentSystem, Prefab};
use sample_ecs::entity::EntityId;
use sample_ecs::error::EcsError;
use sample_ecs::resources::{declared_components, Resources};

type World = EntityComponentSystem<i32, u8, i64, String>;

fn ship() -> Prefab<i32, u8, i64, String> {
    let mut prefab = Prefab::new();
    prefab.transform = Some(1);
    prefab.controller = Some(2);
    prefab.mesh = Some("ship".to_string());
    prefab
}

fn camera() -> Prefab<i32, u8, i64, String> {
    let mut prefab = Prefab::new();
    prefab.transform = Some(7);
    prefab.camera = Some(3);
    prefab
}

#[test]
fn kind_names_map_to_kinds() {
    assert_eq!(ComponentKind::from_name(&"Transform".to_string()), Some(ComponentKind::Transform));
    assert_eq!(ComponentKind::from_name(&"Camera".to_string()), Some(ComponentKind::Camera));
    assert_eq!(ComponentKind::from_name(&"Controller".to_string()), Some(ComponentKind::Controller));
    assert_eq!(ComponentKind::from_name(&"Mesh".to_string()), Some(ComponentKind::Mesh));
    assert_eq!(ComponentKind::from_name(&"mesh".to_string()), None);
    assert_eq!(ComponentKind::from_name(&"Light".to_string()), None);
    assert_eq!(ComponentKind::from_name(&String::new()), None);
}

#[test]
fn queued_creations_wait_for_the_drain() {
    let mut world: World = EntityComponentSystem::new(4);
    world.add_entity("ship".to_string());
    world.add_entity("camera".to_string());
    assert_eq!(world.pending_prefabs().len(), 2);
    assert!(!world.is_live(&EntityId { index: 0, generation: 0 }));
    let created = world.create_entities(vec![ship(), camera()]).unwrap();
    assert_eq!(created, vec![EntityId { index: 0, generation: 0 }, EntityId { index: 1, generation: 0 }]);
    assert_eq!(world.pending_prefabs().len(), 0);
    assert!(world.is_live(&created[0]));
    assert!(world.has_component(ComponentKind::Transform, &created[0]));
    assert!(world.has_component(ComponentKind::Controller, &created[0]));
    assert!(world.has_component(ComponentKind::Mesh, &created[0]));
    assert!(!world.has_component(ComponentKind::Camera, &created[0]));
    assert!(world.has_component(ComponentKind::Camera, &created[1]));
    assert_eq!(world.transforms().get(&created[1]), Some(&7));
    assert_eq!(world.meshes().get(&created[0]), Some(&"ship".to_string()));
    assert_eq!(world.controllers().get(&created[0]), Some(&2));
    assert_eq!(world.camera_components().get(&created[1]), Some(&3));
    assert!(world.cameras().contains(&created[1]));
    assert!(!world.cameras().contains(&created[0]));
    assert_eq!(world.cameras().len(), 1);
}

#[test]
fn destruction_clears_every_store_and_frees_the_index() {
    let mut world: World = EntityComponentSystem::new(4);
    world.add_entity("camera".to_string());
    let created = world.create_entities(vec![camera()]).unwrap();
    let id = created[0];
    world.remove_entity(id);
    assert!(world.is_live(&id));
    assert_eq!(world.pending_removals().len(), 1);
    let destroyed = world.destroy_entities().unwrap();
    assert_eq!(destroyed, vec![id]);
    assert!(!world.is_live(&id));
    assert!(!world.has_component(ComponentKind::Transform, &id));
    assert!(!world.has_component(ComponentKind::Camera, &id));
    assert_eq!(world.cameras().len(), 0);
    world.add_entity("ship".to_string());
    let again = world.create_entities(vec![ship()]).unwrap();
    assert_eq!(again, vec![EntityId { index: 0, generation: 1 }]);
    assert!(!world.has_component(ComponentKind::Camera, &again[0]));
    assert!(!world.has_component(ComponentKind::Transform, &id));
}

#[test]
fn destroying_twice_reports_not_live() {
    let mut world: World = EntityComponentSystem::new(4);
    world.add_entity("ship".to_string());
    let id = world.create_entities(vec![ship()]).unwrap()[0];
    world.remove_entity(id);
    world.remove_entity(id);
    assert_eq!(world.destroy_entities(), Err(EcsError::NotLive));
}

#[test]
fn creating_beyond_capacity_reports_capacity_exceeded() {
    let mut world: World = EntityComponentSystem::new(1);
    world.add_entity("ship".to_string());
    world.add_entity("ship".to_string());
    assert_eq!(world.create_entities(vec![ship(), ship()]), Err(EcsError::CapacityExceeded));
}

#[test]
fn has_component_is_false_out_of_range() {
    let world: World = EntityComponentSystem::new(2);
    assert!(!world.has_component(ComponentKind::Mesh, &EntityId { index: 9, generation: 0 }));
}

#[test]
fn systems_can_update_two_stores_at_once() {
    let mut world: World = EntityComponentSystem::new(2);
    world.add_entity("ship".to_string());
    let id = world.create_entities(vec![ship()]).unwrap()[0];
    {
        let (transforms, _, controllers, _) = world.component_sets_mut();
        let velocity = *controllers.get(&id).unwrap();
        *transforms.get_mut(&id).unwrap() += velocity as i32;
        *controllers.get_mut(&id).unwrap() = 0;
    }
    assert_eq!(world.transforms().get(&id), Some(&3));
    assert_eq!(world.controllers().get(&id), Some(&0));
}

#[test]
fn resources_map_names_to_documents() {
    let mut resources = Resources::new();
    assert_eq!(resources.get(&"ship.json".to_string()), None);
    resources.insert("ship.json".to_string(), "{}".to_string());
    resources.insert("camera.json".to_string(), "{\"Camera\":{}}".to_string());
    assert_eq!(resources.get(&"ship.json".to_string()), Some(&"{}".to_string()));
    resources.insert("ship.json".to_string(), "{\"Mesh\":{}}".to_string());
    assert_eq!(resources.get(&"ship.json".to_string()), Some(&"{\"Mesh\":{}}".to_string()));
    assert_eq!(resources.get(&"camera.json".to_string()), Some(&"{\"Camera\":{}}".to_string()));
    assert_eq!(resources.get(&"light.json".to_string()), None);
}

#[test]
fn scenario_reallocated_index_hides_stale_id() {
    let mut world: World = EntityComponentSystem::new(5);
    for _ in 0..3 {
        world.add_entity("ship".to_string());
    }
    let ids = world.create_entities(vec![ship(), ship(), ship()]).unwrap();
    for (k, id) in ids.iter().enumerate() {
        assert_eq!(*id, EntityId { index: k, generation: 0 });
    }
    world.remove_entity(ids[1]);
    world.destroy_entities().unwrap();
    world.add_entity("camera".to_string());
    let fresh = world.create_entities(vec![camera()]).unwrap()[0];
    assert_eq!(fresh, EntityId { index: 1, generation: 1 });
    assert_eq!(world.transforms().get(&ids[1]), None);
    assert_eq!(world.transforms().get(&fresh), Some(&7));
    assert!(!world.has_component(ComponentKind::Transform, &ids[1]));
    assert!(world.has_component(ComponentKind::Transform, &ids[0]));
    assert!(world.has_component(ComponentKind::Transform, &ids[2]));
}

#[test]
fn prefab_components_keep_kind_fields_in_order() {
    let mut resources = Resources::new();
    resources.insert(
        "ship.json".to_string(),
        "{\"Transform\":[1,2],\"Light\":1,\"Mesh\":{\"mesh_name\":\"quad\"}}".to_string(),
    );
    resources.insert("broken.json".to_string(), "[1,2,3]".to_string());
    resources.insert("garbage.json".to_string(), "not json".to_string());
    let components = resources.prefab_components(&"ship.json".to_string()).unwrap();
    assert_eq!(
        components,
        vec![
            (ComponentKind::Mesh, "{\"mesh_name\":\"quad\"}".to_string()),
            (ComponentKind::Transform, "[1,2]".to_string()),
        ]
    );
    assert_eq!(
        resources.prefab_components(&"broken.json".to_string()),
        Err(EcsError::MalformedPrefab)
    );
    assert_eq!(
        resources.prefab_components(&"garbage.json".to_string()),
        Err(EcsError::MalformedPrefab)
    );
    assert_eq!(
        resources.prefab_components(&"missing.json".to_string()),
        Err(EcsError::UnknownPrefab)
    );
}

#[test]
fn declared_components_filter_by_kind_name() {
    let fields = vec![
        ("Camera".to_string(), "{}".to_string()),
        ("camera".to_string(), "1".to_string()),
        ("Controller".to_string(), "2".to_string()),
    ];
    assert_eq!(
        declared_components(&fields),
        vec![
            (ComponentKind::Camera, "{}".to_string()),
            (ComponentKind::Controller, "2".to_string()),
        ]
    );
    assert_eq!(declared_components(&Vec::new()), Vec::new());
}
