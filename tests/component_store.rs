use sample_ecs::component::ComponentSet;
use sample_ecs::entity::{EntityAllocator, EntityId};

#[test]
fn scenario_stale_id_reads_nothing_after_reuse() {
    let mut allocator = EntityAllocator::new(5);
    let mut store: ComponentSet<u32> = ComponentSet::new(5);
    let a = allocator.allocate().unwrap();
    let b = allocator.allocate().unwrap();
    let c = allocator.allocate().unwrap();
    assert_eq!((a.index, a.generation), (0, 0));
    assert_eq!((b.index, b.generation), (1, 0));
    assert_eq!((c.index, c.generation), (2, 0));
    store.set(&b, 10);
    allocator.deallocate(&b).unwrap();
    let fresh = allocator.allocate().unwrap();
    assert_eq!((fresh.index, fresh.generation), (1, 1));
    assert_eq!(store.get(&b), Some(&10));
    store.set(&fresh, 20);
    assert_eq!(store.get(&b), None);
    assert_eq!(store.get(&fresh), Some(&20));
}

#[test]
fn set_twice_keeps_the_second_value() {
    let mut store: ComponentSet<String> = ComponentSet::new(3);
    let id = EntityId { index: 2, generation: 4 };
    store.set(&id, "first".to_string());
    store.set(&id, "second".to_string());
    assert_eq!(store.get(&id), Some(&"second".to_string()));
}

#[test]
fn new_store_is_empty() {
    let store: ComponentSet<u8> = ComponentSet::new(4);
    assert_eq!(store.len(), 4);
    for index in 0..4 {
        assert_eq!(store.get(&EntityId { index, generation: 0 }), None);
    }
}

#[test]
fn clear_empties_the_slot_whatever_its_generation() {
    let mut store: ComponentSet<i64> = ComponentSet::new(2);
    let old = EntityId { index: 0, generation: 3 };
    store.set(&old, -7);
    store.clear(&EntityId { index: 0, generation: 9 });
    assert_eq!(store.get(&old), None);
}

#[test]
fn get_mut_writes_through_and_respects_generation() {
    let mut store: ComponentSet<i32> = ComponentSet::new(2);
    let id = EntityId { index: 1, generation: 2 };
    store.set(&id, 5);
    *store.get_mut(&id).unwrap() += 1;
    assert_eq!(store.get(&id), Some(&6));
    assert!(store.get_mut(&EntityId { index: 1, generation: 1 }).is_none());
    assert!(store.get_mut(&EntityId { index: 0, generation: 2 }).is_none());
}
