use std::sync::atomic::{AtomicUsize, Ordering};
use std::sync::Arc;

use ferrumc::ecs::access::{Access, AccessMode};
use ferrumc::ecs::component::ComponentStorage;
use ferrumc::ecs::entity::{Entity, EntityManager};
use ferrumc::ecs::error::EcsError;
use ferrumc::ecs::query::{Progress, Query, QueryIter};

#[derive(Debug, Clone, Copy, PartialEq)]
struct Position {
    x: f32,
    y: f32,
}

#[derive(Debug, Clone, Copy, PartialEq)]
struct Velocity {
    x: f32,
    y: f32,
}

#[derive(Debug, Clone, Copy, PartialEq)]
enum Component {
    Position(Position),
    Velocity(Velocity),
    Health(f32),
    A(f32),
    B(f32),
    C(f32),
}

const POSITION: u64 = 10;
const VELOCITY: u64 = 20;
const HEALTH: u64 = 30;
const A: u64 = 40;
const B: u64 = 50;
const C: u64 = 60;

fn position(c: &Component) -> Position {
    match c {
        Component::Position(p) => *p,
        other => panic!("not a position: {:?}", other),
    }
}

fn velocity(c: &Component) -> Velocity {
    match c {
        Component::Velocity(v) => *v,
        other => panic!("not a velocity: {:?}", other),
    }
}

fn scalar(c: &Component) -> f32 {
    match c {
        Component::Health(v) | Component::A(v) | Component::B(v) | Component::C(v) => *v,
        other => panic!("not a scalar: {:?}", other),
    }
}

fn run(
    shape: Vec<Access>,
    entity_manager: &EntityManager,
    storage: &mut ComponentStorage<Component>,
) -> Vec<(Entity, Vec<Component>)> {
    let query = Query::new(shape).unwrap();
    let mut iter = query.iter(entity_manager, storage).unwrap();
    let results = iter.collect(storage);
    iter.finish(storage);
    results
}

#[test]
fn test_basic_query() {
    let mut storage = ComponentStorage::new();
    let mut entity_manager = EntityManager::new();

    let entity = entity_manager.create_entity();
    storage
        .insert(POSITION, entity, Component::Position(Position { x: 1.0, y: 2.0 }))
        .unwrap();

    let results = run(vec![Access::shared(POSITION)], &entity_manager, &mut storage);

    assert_eq!(results.len(), 1);
    assert_eq!(u64::from(results[0].0), entity.into());
    assert_eq!(position(&results[0].1[0]).x, 1.0);
    assert_eq!(position(&results[0].1[0]).y, 2.0);
}

#[test]
fn test_multi_component_query() {
    let mut storage = ComponentStorage::new();
    let mut entity_manager = EntityManager::new();

    let entity1 = entity_manager.create_entity();
    let entity2 = entity_manager.create_entity();

    storage
        .insert(POSITION, entity1, Component::Position(Position { x: 1.0, y: 2.0 }))
        .unwrap();
    storage
        .insert(VELOCITY, entity1, Component::Velocity(Velocity { x: 3.0, y: 4.0 }))
        .unwrap();
    storage
        .insert(POSITION, entity2, Component::Position(Position { x: 5.0, y: 6.0 }))
        .unwrap();

    let results = run(
        vec![Access::exclusive(POSITION), Access::shared(VELOCITY)],
        &entity_manager,
        &mut storage,
    );

    assert_eq!(results.len(), 1);
    assert_eq!(u64::from(results[0].0), entity1.into());
    assert_eq!(position(&results[0].1[0]).x, 1.0);
    assert_eq!(velocity(&results[0].1[1]).x, 3.0);
}

#[test]
fn test_mutable_query() {
    let mut storage = ComponentStorage::new();
    let mut entity_manager = EntityManager::new();

    let entity = entity_manager.create_entity();
    storage
        .insert(POSITION, entity, Component::Position(Position { x: 1.0, y: 2.0 }))
        .unwrap();

    let query = Query::new(vec![Access::exclusive(POSITION)]).unwrap();
    let mut iter = query.iter(&entity_manager, &mut storage).unwrap();
    while let Some(_) = iter.next() {
        match iter.get_mut(&mut storage, 0) {
            Some(Component::Position(pos)) => pos.x += 1.0,
            other => panic!("unexpected: {:?}", other),
        }
    }
    iter.finish(&mut storage);

    let results = run(vec![Access::shared(POSITION)], &entity_manager, &mut storage);
    assert_eq!(position(&results[0].1[0]).x, 2.0);
}

#[test]
fn test_edge_cases() {
    let mut storage = ComponentStorage::new();
    let mut entity_manager = EntityManager::new();

    // Test query on empty storage
    {
        let results = run(vec![Access::shared(POSITION)], &entity_manager, &mut storage);
        assert_eq!(results.len(), 0);
    }

    let entity = entity_manager.create_entity();
    // Test query with non-existent component
    {
        storage
            .insert(POSITION, entity, Component::Position(Position { x: 1.0, y: 2.0 }))
            .unwrap();
        let results = run(vec![Access::shared(VELOCITY)], &entity_manager, &mut storage);
        assert_eq!(results.len(), 0);
    }

    // Test query after removing a component
    {
        storage.remove(POSITION, entity).unwrap();
        let results = run(vec![Access::shared(POSITION)], &entity_manager, &mut storage);
        assert_eq!(results.len(), 0);
    }

    // Test query with maximum number of components (6 in this case)
    let entity = entity_manager.create_entity();
    storage
        .insert(POSITION, entity, Component::Position(Position { x: 1.0, y: 2.0 }))
        .unwrap();
    storage
        .insert(VELOCITY, entity, Component::Velocity(Velocity { x: 3.0, y: 4.0 }))
        .unwrap();
    storage.insert(HEALTH, entity, Component::Health(100.0)).unwrap();
    storage.insert(A, entity, Component::A(5.0)).unwrap();
    storage.insert(B, entity, Component::B(6.0)).unwrap();
    storage.insert(C, entity, Component::C(7.0)).unwrap();

    let results = run(
        vec![
            Access::shared(POSITION),
            Access::shared(VELOCITY),
            Access::shared(HEALTH),
            Access::shared(A),
            Access::shared(B),
            Access::shared(C),
        ],
        &entity_manager,
        &mut storage,
    );
    assert_eq!(results.len(), 1);
    assert_eq!(position(&results[0].1[0]).x, 1.0);
    assert_eq!(velocity(&results[0].1[1]).x, 3.0);
    assert_eq!(scalar(&results[0].1[2]), 100.0);
    assert_eq!(scalar(&results[0].1[3]), 5.0);
    assert_eq!(scalar(&results[0].1[4]), 6.0);
    assert_eq!(scalar(&results[0].1[5]), 7.0);
}

struct DropCounter(Arc<AtomicUsize>);

impl Drop for DropCounter {
    fn drop(&mut self) {
        self.0.fetch_add(1, Ordering::SeqCst);
    }
}

#[test]
fn test_memory_safety() {
    let drop_count = Arc::new(AtomicUsize::new(0));

    {
        let mut storage = ComponentStorage::new();
        let mut entity_manager = EntityManager::new();

        for _ in 0..1000 {
            let entity = entity_manager.create_entity();
            storage
                .insert(POSITION, entity, DropCounter(drop_count.clone()))
                .unwrap();
        }

        let query = Query::new(vec![Access::shared(POSITION)]).unwrap();
        let mut iter = query.iter(&entity_manager, &mut storage).unwrap();
        let mut seen = 0;
        while let Some(_) = iter.next() {
            assert!(iter.get(&storage, 0).is_some());
            seen += 1;
        }
        iter.finish(&mut storage);
        assert_eq!(seen, 1000);
        assert_eq!(drop_count.load(Ordering::SeqCst), 0);
    }

    assert_eq!(drop_count.load(Ordering::SeqCst), 1000);
}

#[test]
fn replaced_and_removed_components_are_dropped_once() {
    let drop_count = Arc::new(AtomicUsize::new(0));
    let mut storage = ComponentStorage::new();
    let entity = Entity::from_id(7);

    storage
        .insert(POSITION, entity, DropCounter(drop_count.clone()))
        .unwrap();
    assert_eq!(drop_count.load(Ordering::SeqCst), 0);
    storage
        .insert(POSITION, entity, DropCounter(drop_count.clone()))
        .unwrap();
    assert_eq!(drop_count.load(Ordering::SeqCst), 1);

    let removed = storage.remove(POSITION, entity).unwrap();
    assert!(removed.is_some());
    assert_eq!(drop_count.load(Ordering::SeqCst), 1);
    drop(removed);
    assert_eq!(drop_count.load(Ordering::SeqCst), 2);

    assert!(storage.remove(POSITION, entity).unwrap().is_none());
    drop(storage);
    assert_eq!(drop_count.load(Ordering::SeqCst), 2);
}

#[test]
fn last_insert_is_what_a_query_sees() {
    let mut storage = ComponentStorage::new();
    let mut entity_manager = EntityManager::new();
    let first = entity_manager.create_entity();
    let second = entity_manager.create_entity();
    storage.insert(HEALTH, first, Component::Health(1.0)).unwrap();
    storage.insert(HEALTH, second, Component::Health(2.0)).unwrap();
    storage.insert(HEALTH, first, Component::Health(3.0)).unwrap();
    storage.insert(A, first, Component::A(9.0)).unwrap();

    let results = run(vec![Access::shared(HEALTH)], &entity_manager, &mut storage);
    assert_eq!(
        results,
        vec![
            (first, vec![Component::Health(3.0)]),
            (second, vec![Component::Health(2.0)]),
        ]
    );
}

#[test]
fn removed_component_is_not_seen_by_any_query() {
    let mut storage = ComponentStorage::new();
    let mut entity_manager = EntityManager::new();
    let first = entity_manager.create_entity();
    let second = entity_manager.create_entity();
    for e in [first, second] {
        storage.insert(A, e, Component::A(1.0)).unwrap();
        storage.insert(B, e, Component::B(2.0)).unwrap();
    }
    assert_eq!(storage.remove(B, first).unwrap(), Some(Component::B(2.0)));

    let only_b = run(vec![Access::shared(B)], &entity_manager, &mut storage);
    assert_eq!(only_b, vec![(second, vec![Component::B(2.0)])]);
    let both = run(
        vec![Access::shared(A), Access::exclusive(B)],
        &entity_manager,
        &mut storage,
    );
    assert_eq!(both, vec![(second, vec![Component::A(1.0), Component::B(2.0)])]);
    let only_a = run(vec![Access::shared(A)], &entity_manager, &mut storage);
    assert_eq!(only_a.len(), 2);
}

#[test]
fn pair_query_is_the_intersection_without_duplicates() {
    let mut storage = ComponentStorage::new();
    let mut entity_manager = EntityManager::new();
    let mut expected = Vec::new();
    for i in 0..60u32 {
        let e = entity_manager.create_entity();
        if i % 2 == 0 {
            storage.insert(A, e, Component::A(i as f32)).unwrap();
        }
        if i % 3 == 0 {
            storage.insert(B, e, Component::B(i as f32)).unwrap();
        }
        if i % 6 == 0 {
            expected.push(e);
        }
    }
    let results = run(
        vec![Access::shared(A), Access::shared(B)],
        &entity_manager,
        &mut storage,
    );
    let entities: Vec<Entity> = results.iter().map(|row| row.0).collect();
    assert_eq!(entities, expected);
    for (e, row) in &results {
        assert_eq!(row[0], Component::A(e.id() as f32));
        assert_eq!(row[1], Component::B(e.id() as f32));
    }
}

#[test]
fn destroyed_entity_is_not_surfaced() {
    let mut storage = ComponentStorage::new();
    let mut entity_manager = EntityManager::new();
    let first = entity_manager.create_entity();
    let second = entity_manager.create_entity();
    storage.insert(A, first, Component::A(1.0)).unwrap();
    storage.insert(A, second, Component::A(2.0)).unwrap();

    assert!(entity_manager.destroy_entity(first));
    assert!(!entity_manager.destroy_entity(first));
    assert!(!entity_manager.is_live(first));
    assert_eq!(entity_manager.live_count(), 1);

    let results = run(vec![Access::shared(A)], &entity_manager, &mut storage);
    assert_eq!(results, vec![(second, vec![Component::A(2.0)])]);
    // The component itself stays until it is removed.
    assert_eq!(storage.contains(A, first), Ok(true));

    // Ids are not handed out again.
    let third = entity_manager.create_entity();
    assert_eq!(third.id(), 2);
    assert_eq!(
        entity_manager.snapshot_live(),
        vec![second, third]
    );
}

#[test]
fn snapshot_decides_who_is_seen() {
    let mut storage = ComponentStorage::new();
    let mut entity_manager = EntityManager::new();
    let first = entity_manager.create_entity();
    storage.insert(A, first, Component::A(1.0)).unwrap();

    let query = Query::new(vec![Access::shared(A)]).unwrap();
    let mut pending = query.begin(&entity_manager);

    // Created after the query set out: not in its snapshot.
    let late = entity_manager.create_entity();
    // A type that the query does not lock may still be written.
    storage.insert(B, late, Component::B(5.0)).unwrap();

    assert_eq!(pending.advance(&mut storage), Ok(Progress::Ready));
    assert!(pending.is_ready());
    let mut iter = pending.complete(&storage).ok().unwrap();
    assert_eq!(iter.len(), 1);
    assert_eq!(iter.next(), Some(first));
    assert_eq!(iter.next(), None);
    iter.finish(&mut storage);
}

#[test]
fn duplicate_types_are_refused() {
    assert_eq!(
        Query::new(vec![Access::shared(A), Access::exclusive(A)]).err(),
        Some(EcsError::DuplicateTypeInQuery)
    );
    assert_eq!(
        Query::new(vec![Access::exclusive(A), Access::shared(B), Access::exclusive(A)]).err(),
        Some(EcsError::DuplicateTypeInQuery)
    );
    assert_eq!(
        Query::new(vec![Access::shared(A), Access::shared(B), Access::shared(A)]).err(),
        Some(EcsError::DuplicateTypeInQuery)
    );
    assert!(Query::new(vec![Access::shared(A), Access::shared(B)]).is_ok());
    assert!(Query::new(vec![Access::shared(A)]).is_ok());
}

#[test]
fn locks_are_taken_by_rising_type_id() {
    let query = Query::new(vec![
        Access::shared(C),
        Access::exclusive(A),
        Access::shared(HEALTH),
        Access::exclusive(POSITION),
    ])
    .unwrap();
    assert_eq!(query.arity(), 4);
    assert_eq!(query.field(0), Some(Access::shared(C)));
    assert_eq!(query.field(4), None);
    assert_eq!(
        query.lock_sequence(),
        vec![
            Access::exclusive(POSITION),
            Access::shared(HEALTH),
            Access::exclusive(A),
            Access::shared(C),
        ]
    );
}

fn begin_on(
    shape: Vec<Access>,
    entity_manager: &EntityManager,
    storage: &mut ComponentStorage<Component>,
) -> Result<QueryIter, EcsError> {
    Query::new(shape).unwrap().iter(entity_manager, storage)
}

#[test]
fn writer_shuts_others_out_and_readers_share() {
    let mut storage = ComponentStorage::new();
    let mut entity_manager = EntityManager::new();
    let e = entity_manager.create_entity();
    storage.insert(A, e, Component::A(1.0)).unwrap();
    storage.insert(B, e, Component::B(2.0)).unwrap();

    let writer = begin_on(vec![Access::exclusive(A)], &entity_manager, &mut storage).unwrap();
    assert!(storage.lock_state(A).writer);
    assert_eq!(
        begin_on(vec![Access::shared(A)], &entity_manager, &mut storage).err(),
        Some(EcsError::WouldBlock)
    );
    assert_eq!(
        begin_on(vec![Access::exclusive(A)], &entity_manager, &mut storage).err(),
        Some(EcsError::WouldBlock)
    );
    assert_eq!(storage.insert(A, e, Component::A(5.0)), Err(EcsError::WouldBlock));
    assert_eq!(storage.remove(A, e), Err(EcsError::WouldBlock));
    assert_eq!(storage.contains(A, e), Err(EcsError::WouldBlock));
    assert_eq!(storage.get(A, e), Err(EcsError::WouldBlock));

    // Disjoint types do not wait.
    let other = begin_on(vec![Access::exclusive(B)], &entity_manager, &mut storage).unwrap();
    assert_eq!(storage.contains(C, e), Ok(false));

    // A query that is shut out of its second lock lets go of the first.
    assert_eq!(
        begin_on(
            vec![Access::shared(POSITION), Access::shared(A)],
            &entity_manager,
            &mut storage
        )
        .err(),
        Some(EcsError::WouldBlock)
    );
    assert_eq!(storage.lock_state(POSITION).readers, 0);

    writer.finish(&mut storage);
    other.finish(&mut storage);
    assert!(!storage.lock_state(A).writer);

    let first = begin_on(vec![Access::shared(A)], &entity_manager, &mut storage).unwrap();
    let second = begin_on(vec![Access::shared(A)], &entity_manager, &mut storage).unwrap();
    assert_eq!(storage.lock_state(A).readers, 2);
    assert_eq!(storage.contains(A, e), Ok(true));
    assert_eq!(storage.insert(A, e, Component::A(5.0)), Err(EcsError::WouldBlock));
    assert_eq!(
        begin_on(vec![Access::exclusive(A)], &entity_manager, &mut storage).err(),
        Some(EcsError::WouldBlock)
    );
    first.finish(&mut storage);
    second.finish(&mut storage);
    assert_eq!(storage.lock_state(A).readers, 0);
    assert_eq!(storage.insert(A, e, Component::A(5.0)), Ok(()));
}

#[test]
fn blocked_acquisition_keeps_its_locks_and_goes_on() {
    let mut storage: ComponentStorage<Component> = ComponentStorage::new();
    let entity_manager = EntityManager::new();

    let holder = begin_on(vec![Access::exclusive(B)], &entity_manager, &mut storage).unwrap();

    let query = Query::new(vec![Access::shared(C), Access::shared(A), Access::shared(B)]).unwrap();
    let mut pending = query.begin(&entity_manager);
    assert_eq!(pending.advance(&mut storage), Ok(Progress::Blocked(B)));
    assert!(!pending.is_ready());
    assert_eq!(storage.lock_state(A).readers, 1);
    assert_eq!(storage.lock_state(C).readers, 0);
    // Asking again changes nothing while the writer holds on.
    assert_eq!(pending.advance(&mut storage), Ok(Progress::Blocked(B)));
    assert_eq!(storage.lock_state(A).readers, 1);
    let pending = match pending.complete(&storage) {
        Err(back) => back,
        Ok(_) => panic!("completed without its locks"),
    };

    holder.finish(&mut storage);
    let mut pending = pending;
    assert_eq!(pending.advance(&mut storage), Ok(Progress::Ready));
    assert_eq!(storage.lock_state(A).readers, 1);
    assert_eq!(storage.lock_state(B).readers, 1);
    assert_eq!(storage.lock_state(C).readers, 1);
    let iter = pending.complete(&storage).ok().unwrap();
    iter.finish(&mut storage);
    for t in [A, B, C] {
        assert_eq!(storage.lock_state(t).readers, 0);
    }
}

#[test]
fn cancelled_acquisition_lets_go() {
    let mut storage: ComponentStorage<Component> = ComponentStorage::new();
    let entity_manager = EntityManager::new();
    let holder = begin_on(vec![Access::exclusive(C)], &entity_manager, &mut storage).unwrap();

    let query = Query::new(vec![Access::exclusive(A), Access::shared(B), Access::shared(C)]).unwrap();
    let mut pending = query.begin(&entity_manager);
    assert_eq!(pending.advance(&mut storage), Ok(Progress::Blocked(C)));
    assert!(storage.lock_state(A).writer);
    assert_eq!(storage.lock_state(B).readers, 1);
    pending.cancel(&mut storage);
    assert!(!storage.lock_state(A).writer);
    assert_eq!(storage.lock_state(B).readers, 0);
    assert!(storage.lock_state(C).writer);
    holder.finish(&mut storage);
}

#[test]
fn abandoned_locks_are_poisoned() {
    let mut storage = ComponentStorage::new();
    let mut entity_manager = EntityManager::new();
    let e = entity_manager.create_entity();
    storage.insert(A, e, Component::A(1.0)).unwrap();
    storage.insert(B, e, Component::B(1.0)).unwrap();

    let iter = begin_on(vec![Access::exclusive(A)], &entity_manager, &mut storage).unwrap();
    iter.abandon(&mut storage);
    assert!(storage.lock_state(A).poisoned);
    assert!(!storage.lock_state(A).writer);

    assert_eq!(storage.insert(A, e, Component::A(2.0)), Err(EcsError::LockPoisoned));
    assert_eq!(storage.remove(A, e), Err(EcsError::LockPoisoned));
    assert_eq!(storage.contains(A, e), Err(EcsError::LockPoisoned));
    assert_eq!(
        begin_on(vec![Access::shared(A)], &entity_manager, &mut storage).err(),
        Some(EcsError::LockPoisoned)
    );
    // A query that meets the poisoned lock lets go of what it took before.
    assert_eq!(
        begin_on(
            vec![Access::shared(B), Access::shared(A), Access::shared(POSITION)],
            &entity_manager,
            &mut storage
        )
        .err(),
        Some(EcsError::LockPoisoned)
    );
    assert_eq!(storage.lock_state(POSITION).readers, 0);
    assert_eq!(storage.lock_state(B).readers, 0);
    // Other types go on.
    assert_eq!(storage.insert(B, e, Component::B(2.0)), Ok(()));
}

#[test]
fn borrows_follow_the_declared_modes() {
    let mut storage = ComponentStorage::new();
    let mut entity_manager = EntityManager::new();
    let e = entity_manager.create_entity();
    storage.insert(A, e, Component::A(1.0)).unwrap();
    storage.insert(B, e, Component::B(2.0)).unwrap();

    let mut iter = begin_on(
        vec![Access::shared(B), Access::exclusive(A)],
        &entity_manager,
        &mut storage,
    )
    .unwrap();
    assert_eq!(iter.arity(), 2);
    // No row yet.
    assert_eq!(iter.get(&storage, 0), None);
    assert_eq!(iter.next(), Some(e));
    assert_eq!(iter.get(&storage, 0), Some(&Component::B(2.0)));
    assert_eq!(iter.get(&storage, 1), Some(&Component::A(1.0)));
    assert_eq!(iter.get(&storage, 2), None);
    // A shared field is not for writing.
    assert!(iter.get_mut(&mut storage, 0).is_none());
    *iter.get_mut(&mut storage, 1).unwrap() = Component::A(10.0);
    // Seen at once through the same iterator.
    assert_eq!(iter.get(&storage, 1), Some(&Component::A(10.0)));
    assert_eq!(iter.next(), None);
    iter.finish(&mut storage);
    assert_eq!(storage.get(A, e), Ok(Some(&Component::A(10.0))));
}

#[test]
fn writers_taking_turns_add_up() {
    let mut storage = ComponentStorage::new();
    let mut entity_manager = EntityManager::new();
    let mut entities = Vec::new();
    for i in 0..50u32 {
        let e = entity_manager.create_entity();
        storage.insert(A, e, Component::A(i as f32)).unwrap();
        entities.push(e);
    }
    let bystander = entity_manager.create_entity();
    storage.insert(B, bystander, Component::B(0.5)).unwrap();

    let query = Query::new(vec![Access::exclusive(A)]).unwrap();
    for _ in 0..7 {
        let mut iter = query.iter(&entity_manager, &mut storage).unwrap();
        let changed = iter.update_rest(&mut storage, 0, |c: &Component| {
            Component::A(scalar(c) + 3.0)
        });
        assert_eq!(changed, 50);
        assert_eq!(iter.next(), None);
        iter.finish(&mut storage);
    }
    for (i, e) in entities.iter().enumerate() {
        assert_eq!(storage.get(A, *e), Ok(Some(&Component::A(i as f32 + 21.0))));
    }
    assert_eq!(storage.get(B, bystander), Ok(Some(&Component::B(0.5))));
}

#[test]
fn update_rest_starts_behind_the_rows_handed_out() {
    let mut storage = ComponentStorage::new();
    let mut entity_manager = EntityManager::new();
    let first = entity_manager.create_entity();
    let second = entity_manager.create_entity();
    storage.insert(A, first, Component::A(1.0)).unwrap();
    storage.insert(A, second, Component::A(2.0)).unwrap();

    let mut iter = begin_on(vec![Access::exclusive(A)], &entity_manager, &mut storage).unwrap();
    assert_eq!(iter.next(), Some(first));
    let changed = iter.update_rest(&mut storage, 0, |c: &Component| Component::A(scalar(c) * 10.0));
    assert_eq!(changed, 1);
    iter.finish(&mut storage);
    assert_eq!(storage.get(A, first), Ok(Some(&Component::A(1.0))));
    assert_eq!(storage.get(A, second), Ok(Some(&Component::A(20.0))));

    // A shared field is left alone.
    let mut iter = begin_on(vec![Access::shared(A)], &entity_manager, &mut storage).unwrap();
    assert_eq!(iter.update_rest(&mut storage, 0, |_c: &Component| Component::A(0.0)), 0);
    iter.finish(&mut storage);
    assert_eq!(storage.get(A, second), Ok(Some(&Component::A(20.0))));
}

#[test]
fn scoped_locks_run_the_closure_under_the_lock() {
    let mut storage = ComponentStorage::new();
    let mut entity_manager = EntityManager::new();
    let e = entity_manager.create_entity();
    storage.insert(A, e, Component::A(1.0)).unwrap();

    assert_eq!(storage.with_read_lock(A, |column| column.len()), Ok(1));
    assert_eq!(storage.with_read_lock(B, |column| column.len()), Ok(0));
    let taken = storage.with_write_lock(A, |column| {
        column.insert(99, Component::A(4.0));
        column.remove(&e.id())
    });
    assert_eq!(taken, Ok(Some(Component::A(1.0))));
    assert_eq!(storage.contains(A, e), Ok(false));
    assert_eq!(storage.get(A, Entity::from_id(99)), Ok(Some(&Component::A(4.0))));
    assert_eq!(storage.lock_state(A).readers, 0);
    assert!(!storage.lock_state(A).writer);

    let reader = begin_on(vec![Access::shared(A)], &entity_manager, &mut storage).unwrap();
    assert_eq!(storage.with_read_lock(A, |column| column.len()), Ok(1));
    assert_eq!(
        storage.with_write_lock(A, |column| column.clear()),
        Err(EcsError::WouldBlock)
    );
    reader.abandon(&mut storage);
    assert_eq!(
        storage.with_read_lock(A, |column| column.len()),
        Err(EcsError::LockPoisoned)
    );
}

#[test]
fn registry_counts_up() {
    let mut entity_manager = EntityManager::new();
    assert!(entity_manager.has_room());
    assert_eq!(entity_manager.live_count(), 0);
    assert!(entity_manager.snapshot_live().is_empty());
    let ids: Vec<u64> = (0..5).map(|_| entity_manager.create_entity().id()).collect();
    assert_eq!(ids, vec![0, 1, 2, 3, 4]);
    assert_eq!(entity_manager.snapshot_ids(), vec![0, 1, 2, 3, 4]);
    assert!(entity_manager.destroy_entity(Entity::from_id(2)));
    assert_eq!(entity_manager.snapshot_ids(), vec![0, 1, 3, 4]);
    assert!(!entity_manager.destroy_entity(Entity::from_id(17)));
    assert!(entity_manager.is_live(Entity::from_id(4)));
    assert_eq!(Access::shared(3).mode, AccessMode::Shared);
    assert_eq!(Access::exclusive(3).type_id, 3);
}

#[test]
fn remove_entity_drops_what_is_not_locked() {
    let mut storage = ComponentStorage::new();
    let mut entity_manager = EntityManager::new();
    let doomed = entity_manager.create_entity();
    let other = entity_manager.create_entity();
    for e in [doomed, other] {
        storage.insert(A, e, Component::A(1.0)).unwrap();
        storage.insert(B, e, Component::B(2.0)).unwrap();
        storage.insert(C, e, Component::C(3.0)).unwrap();
    }

    let reader = begin_on(vec![Access::shared(B)], &entity_manager, &mut storage).unwrap();
    assert!(entity_manager.destroy_entity(doomed));
    // The components under the held lock stay for now.
    assert!(!storage.remove_entity(doomed));
    assert_eq!(storage.contains(A, doomed), Ok(false));
    assert_eq!(storage.contains(B, doomed), Ok(true));
    assert_eq!(storage.contains(C, doomed), Ok(false));
    assert_eq!(storage.lock_state(B).readers, 1);
    reader.finish(&mut storage);

    assert!(storage.remove_entity(doomed));
    assert_eq!(storage.contains(B, doomed), Ok(false));
    for t in [A, B, C] {
        assert_eq!(storage.contains(t, other), Ok(true));
    }
    // Nothing to do the second time, nor for an entity without components.
    assert!(storage.remove_entity(doomed));
    assert!(storage.remove_entity(Entity::from_id(77)));
}

#[test]
fn registry_finds_every_live_entity() {
    let mut entity_manager = EntityManager::new();
    let entities: Vec<Entity> = (0..100).map(|_| entity_manager.create_entity()).collect();
    for e in entities.iter().filter(|e| e.id() % 3 == 0) {
        assert!(entity_manager.destroy_entity(*e));
    }
    for e in &entities {
        assert_eq!(entity_manager.is_live(*e), e.id() % 3 != 0, "entity {}", e.id());
    }
    assert!(!entity_manager.is_live(Entity::from_id(100)));
    assert!(!entity_manager.is_live(Entity::from_id(u64::MAX)));
    assert_eq!(entity_manager.live_count(), 66);
    let expected: Vec<u64> = (0..100).filter(|id| id % 3 != 0).collect();
    assert_eq!(entity_manager.snapshot_ids(), expected);
    for e in entities.iter().filter(|e| e.id() % 3 != 0) {
        assert!(entity_manager.destroy_entity(*e));
    }
    assert_eq!(entity_manager.live_count(), 0);
    assert_eq!(entity_manager.create_entity().id(), 100);
}
