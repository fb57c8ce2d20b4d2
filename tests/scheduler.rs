use sample_ecs::ecs::{EntityComponentSystem, Prefab};
use sample_ecs::entity::EntityId;
use sample_ecs::entity_set::EntitySet;
use sample_ecs::error::EcsError;
use sample_ecs::system::{ControlSystem, RenderSystem, Signature, SystemManager};

type World = EntityComponentSystem<i32, u8, i64, String>;

fn full() -> Prefab<i32, u8, i64, String> {
    let mut prefab = Prefab::new();
    prefab.transform = Some(1);
    prefab.controller = Some(2);
    prefab.mesh = Some("ship".to_string());
    prefab
}

fn transform_only() -> Prefab<i32, u8, i64, String> {
    let mut prefab = Prefab::new();
    prefab.transform = Some(5);
    prefab
}

#[test]
fn scenario_entity_joins_and_leaves_both_systems() {
    let mut world: World = EntityComponentSystem::new(8);
    let mut manager = SystemManager::empty();
    let a = manager.add_system(Signature { transform: true, camera: false, controller: true, mesh: false });
    let b = manager.add_system(Signature { transform: true, camera: false, controller: false, mesh: true });
    world.add_entity("ship".to_string());
    manager.run(&mut world, vec![full()]).unwrap();
    let e = EntityId { index: 0, generation: 0 };
    assert!(manager.entities(a).contains(&e));
    assert!(manager.entities(b).contains(&e));
    world.remove_entity(e);
    manager.run(&mut world, Vec::new()).unwrap();
    assert!(!manager.entities(a).contains(&e));
    assert!(!manager.entities(b).contains(&e));
    assert_eq!(manager.entities(a).len(), 0);
    assert_eq!(manager.entities(b).len(), 0);
}

#[test]
fn queued_changes_leave_matching_sets_alone_until_run() {
    let mut world: World = EntityComponentSystem::new(8);
    let mut manager = SystemManager::new();
    world.add_entity("ship".to_string());
    manager.run(&mut world, vec![full()]).unwrap();
    let e = EntityId { index: 0, generation: 0 };
    world.remove_entity(e);
    world.add_entity("ship".to_string());
    assert!(manager.entities(0).contains(&e));
    assert!(manager.entities(1).contains(&e));
    assert_eq!(manager.entities(0).len(), 1);
    assert!(world.is_live(&e));
    manager.run(&mut world, vec![full()]).unwrap();
    let reused = EntityId { index: 0, generation: 1 };
    assert!(!manager.entities(0).contains(&e));
    assert!(manager.entities(0).contains(&reused));
    assert!(manager.entities(1).contains(&reused));
}

#[test]
fn only_matching_systems_receive_an_entity() {
    let mut world: World = EntityComponentSystem::new(8);
    let mut manager = SystemManager::new();
    world.add_entity("marker".to_string());
    manager.run(&mut world, vec![transform_only()]).unwrap();
    assert_eq!(manager.entities(0).len(), 0);
    assert_eq!(manager.entities(1).len(), 0);
}

#[test]
fn default_systems_are_control_then_render() {
    let manager = SystemManager::new();
    assert_eq!(manager.len(), 2);
    assert_eq!(manager.signature(0), ControlSystem {}.signature());
    assert_eq!(manager.signature(1), RenderSystem {}.signature());
    assert_eq!(
        manager.signature(0),
        Signature { transform: true, camera: false, controller: true, mesh: false }
    );
}

#[test]
fn system_predicates_follow_components() {
    let mut world: World = EntityComponentSystem::new(8);
    world.add_entity("ship".to_string());
    world.add_entity("marker".to_string());
    let ids = world.create_entities(vec![full(), transform_only()]).unwrap();
    assert!(ControlSystem {}.is_system_entity(&ids[0], &world));
    assert!(RenderSystem {}.is_system_entity(&ids[0], &world));
    assert!(!ControlSystem {}.is_system_entity(&ids[1], &world));
    assert!(!RenderSystem {}.is_system_entity(&ids[1], &world));
    let camera_only = Signature { transform: false, camera: true, controller: false, mesh: false };
    assert!(!camera_only.matches(&world, &ids[0]));
    let nothing = Signature { transform: false, camera: false, controller: false, mesh: false };
    assert!(nothing.matches(&world, &ids[1]));
}

#[test]
fn a_failed_destruction_fails_the_tick() {
    let mut world: World = EntityComponentSystem::new(8);
    let mut manager = SystemManager::new();
    world.remove_entity(EntityId { index: 3, generation: 0 });
    assert_eq!(manager.run(&mut world, Vec::new()), Err(EcsError::NotLive));
}

#[test]
fn a_tick_beyond_capacity_fails() {
    let mut world: World = EntityComponentSystem::new(1);
    let mut manager = SystemManager::new();
    world.add_entity("ship".to_string());
    world.add_entity("ship".to_string());
    assert_eq!(manager.run(&mut world, vec![full(), full()]), Err(EcsError::CapacityExceeded));
}

#[test]
fn entity_set_keeps_members_once() {
    let mut set = EntitySet::new();
    let a = EntityId { index: 1, generation: 0 };
    let b = EntityId { index: 1, generation: 1 };
    set.insert(a);
    set.insert(a);
    set.insert(b);
    assert_eq!(set.len(), 2);
    set.remove(&a);
    assert!(!set.contains(&a));
    assert!(set.contains(&b));
    assert_eq!(set.ids(), &vec![b]);
    set.remove(&a);
    assert_eq!(set.len(), 1);
}
