use sample_ecs::entity::{EntityAllocator, EntityId};
use sample_ecs::error::EcsError;

#[test]
fn consecutive_allocates_increments_index_with_generation_zero() {
    let mut allocator = EntityAllocator::new(5);
    let index_zero = allocator.allocate().unwrap();
    let index_one = allocator.allocate().unwrap();
    let index_two = allocator.allocate().unwrap();
    let generation = 0;
    assert_eq!(index_zero.index, 0);
    assert_eq!(index_zero.generation, generation);
    assert_eq!(index_one.index, 1);
    assert_eq!(index_one.generation, generation);
    assert_eq!(index_two.index, 2);
    assert_eq!(index_two.generation, generation);
}

#[test]
fn dealloc_after_alloc_succeeds() {
    let mut allocator = EntityAllocator::new(5);
    let gen_index = allocator.allocate().unwrap();
    allocator.deallocate(&gen_index).unwrap();
}

#[test]
#[should_panic]
fn dealloc_without_alloc_fails() {
    let mut allocator = EntityAllocator::new(5);

    allocator
        .deallocate(&EntityId {
            index: 0,
            generation: 0,
        })
        .unwrap();
}

#[test]
fn alloc_dealloc_alloc_returns_index_zero_gen_one() {
    let mut allocator = EntityAllocator::new(5);
    let gen_index = allocator.allocate().unwrap();
    allocator.deallocate(&gen_index).unwrap();
    let gen_index = allocator.allocate().unwrap();
    assert_eq!(gen_index.index, 0);
    assert_eq!(gen_index.generation, 1);
}

#[test]
#[should_panic]
fn alloc_more_than_max_size_panics() {
    let mut allocator = EntityAllocator::new(1);
    allocator.allocate().unwrap();
    allocator.allocate().unwrap();
}

#[test]
fn deallocating_a_dead_id_reports_not_live() {
    let mut allocator = EntityAllocator::new(5);
    assert_eq!(
        allocator.deallocate(&EntityId { index: 0, generation: 0 }),
        Err(EcsError::NotLive)
    );
    let id = allocator.allocate().unwrap();
    allocator.deallocate(&id).unwrap();
    assert_eq!(allocator.deallocate(&id), Err(EcsError::NotLive));
    let reused = allocator.allocate().unwrap();
    assert_eq!(reused, EntityId { index: 0, generation: 1 });
    assert_eq!(allocator.deallocate(&id), Err(EcsError::NotLive));
    assert!(allocator.is_live(&reused));
    assert!(!allocator.is_live(&id));
}

#[test]
fn allocating_exactly_max_size_succeeds_and_one_more_fails() {
    let mut allocator = EntityAllocator::new(3);
    let mut ids = Vec::new();
    for _ in 0..3 {
        ids.push(allocator.allocate().unwrap());
    }
    assert_eq!(allocator.allocate(), Err(EcsError::CapacityExceeded));
    allocator.deallocate(&ids[1]).unwrap();
    let again = allocator.allocate().unwrap();
    assert_eq!(again, EntityId { index: 1, generation: 1 });
    assert_eq!(allocator.allocate(), Err(EcsError::CapacityExceeded));
}

#[test]
fn zero_capacity_allocator_never_allocates() {
    let mut allocator = EntityAllocator::new(0);
    assert_eq!(allocator.max_size(), 0);
    assert_eq!(allocator.allocate(), Err(EcsError::CapacityExceeded));
}

#[test]
fn free_list_is_reused_most_recent_first() {
    let mut allocator = EntityAllocator::new(5);
    let a = allocator.allocate().unwrap();
    let b = allocator.allocate().unwrap();
    let c = allocator.allocate().unwrap();
    allocator.deallocate(&a).unwrap();
    allocator.deallocate(&c).unwrap();
    assert_eq!(allocator.allocate().unwrap(), EntityId { index: 2, generation: 1 });
    assert_eq!(allocator.allocate().unwrap(), EntityId { index: 0, generation: 1 });
    assert_eq!(allocator.allocate().unwrap(), EntityId { index: 3, generation: 0 });
    assert!(allocator.is_live(&b));
}

#[test]
fn live_ids_never_share_an_index() {
    let mut allocator = EntityAllocator::new(4);
    let mut live: Vec<EntityId> = Vec::new();
    for round in 0..20usize {
        if round % 3 == 2 && !live.is_empty() {
            let id = live.remove(round % live.len());
            allocator.deallocate(&id).unwrap();
        } else if let Ok(id) = allocator.allocate() {
            live.push(id);
        }
        for i in 0..live.len() {
            for j in 0..live.len() {
                if i != j {
                    assert_ne!(live[i].index, live[j].index);
                }
            }
        }
    }
}

#[test]
fn each_reuse_of_an_index_has_a_greater_generation() {
    let mut allocator = EntityAllocator::new(1);
    let mut last = allocator.allocate().unwrap();
    for _ in 0..10 {
        allocator.deallocate(&last).unwrap();
        let next = allocator.allocate().unwrap();
        assert_eq!(next.index, last.index);
        assert!(next.generation > last.generation);
        last = next;
    }
    assert_eq!(last.generation, 10);
}
