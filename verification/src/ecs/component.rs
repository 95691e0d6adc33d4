//! Component storage: for each component type a map from entity to value,
//! guarded by a reader/writer lock of its own.

use std::collections::hash_map::Entry;
use std::collections::HashMap;
use vstd::prelude::*;
use crate::ecs::access::AccessMode;
use crate::ecs::entity::Entity;
use crate::ecs::error::EcsError;
use crate::ecs::lock::RwLockState;

verus! {

broadcast use vstd::std_specs::hash::group_hash_axioms;

/// The components of one type, by entity id, and the lock that guards them.
struct Column<V> {
    lock: RwLockState,
    cells: HashMap<u64, V>,
}

/// All components, keyed by a numeric component type id and by entity.
///
/// A type gets its map and its lock when they are first needed; a type that
/// was never seen has no components and a free lock.
pub struct ComponentStorage<V> {
    columns: HashMap<u64, Column<V>>,
    /// The type ids that have a column, each once, in the order they came.
    types: Vec<u64>,
}

/// The components of one type: the value of each entity id that has one.
pub open spec fn column_of<V>(view: Map<(u64, u64), V>, type_id: u64) -> Map<u64, V> {
    Map::new(|id: u64| view.contains_key((type_id, id)), |id: u64| view[(type_id, id)])
}

impl<V> Column<V> {
    /// A column without components, under a free lock.
    fn new() -> (c: Column<V>)
        ensures
            c.lock == RwLockState::free(),
            c.cells@ == Map::<u64, V>::empty(),
    {
        Column { lock: RwLockState::new(), cells: HashMap::new() }
    }
}

impl<V> ComponentStorage<V> {
    /// In every lock, readers and a writer exclude each other; and the list
    /// of known types names each type that has a column, once.
    pub closed spec fn wf(&self) -> bool {
        &&& forall|t: u64| #[trigger] self.columns@.contains_key(t) ==> self.columns@[t].lock.wf()
        &&& self.indexed()
    }

    /// The list of known types names each type that has a column, once.
    spec fn indexed(&self) -> bool {
        &&& self.types@.no_duplicates()
        &&& forall|t: u64| self.types@.contains(t) <==> #[trigger] self.columns@.contains_key(t)
    }

    /// The components: the value of each pair of a type id and an entity id
    /// that has one.
    pub closed spec fn view(&self) -> Map<(u64, u64), V> {
        Map::new(
            |k: (u64, u64)| self.columns@.contains_key(k.0) && self.columns@[k.0].cells@.contains_key(k.1),
            |k: (u64, u64)| self.columns@[k.0].cells@[k.1],
        )
    }

    /// The state of the lock of a type.
    pub closed spec fn lock(&self, type_id: u64) -> RwLockState {
        if self.columns@.contains_key(type_id) {
            self.columns@[type_id].lock
        } else {
            RwLockState::free()
        }
    }

    /// In no lock of a well-formed storage do readers and a writer hold
    /// together.
    pub proof fn law_locks_exclude(&self, type_id: u64)
        requires
            self.wf(),
        ensures
            self.lock(type_id).wf(),
    {
    }

    /// A storage without components.
    pub fn new() -> (s: ComponentStorage<V>)
        ensures
            s.wf(),
            s@ == Map::<(u64, u64), V>::empty(),
            forall|t: u64| s.lock(t) == RwLockState::free(),
    {
        let s = ComponentStorage { columns: HashMap::new(), types: Vec::new() };
        s
    }

    /// The column of a type, made first where there is none.
    fn column_mut(&mut self, type_id: u64) -> (col: &mut Column<V>)
        ensures
            old(self).columns@.contains_key(type_id) ==> *col == old(self).columns@[type_id],
            !old(self).columns@.contains_key(type_id) ==> col.lock == RwLockState::free()
                && col.cells@ == Map::<u64, V>::empty(),
            final(self).columns@ == old(self).columns@.insert(type_id, *final(col)),
            final(self).types@ == if old(self).columns@.contains_key(type_id) {
                old(self).types@
            } else {
                old(self).types@.push(type_id)
            },
            old(self).indexed() ==> final(self).indexed(),
    {
        if !self.columns.contains_key(&type_id) {
            self.types.push(type_id);
            proof {
                if old(self).indexed() {
                    assert forall|t: u64|
                        self.types@.contains(t) <==> old(self).types@.contains(t) || t
                            == type_id by {
                        if old(self).types@.contains(t) {
                            let i = choose|i: int|
                                0 <= i < old(self).types@.len() && old(self).types@[i] == t;
                            assert(self.types@[i] == t);
                        }
                        if t == type_id {
                            assert(self.types@[self.types@.len() - 1] == t);
                        }
                    }
                }
            }
        }
        self.columns.entry(type_id).or_insert(Column::new())
    }

    /// The state of the lock of a type.
    pub fn lock_state(&self, type_id: u64) -> (state: RwLockState)
        ensures
            state == self.lock(type_id),
    {
        match self.columns.get(&type_id) {
            Some(col) => col.lock,
            None => RwLockState::new(),
        }
    }

    /// Places `value` as the component of type `type_id` of `entity`, in
    /// place of the one it may have had, which is dropped.
    ///
    /// This is a write under the lock of the type: it takes place only while
    /// nobody holds that lock, and only if the lock is not poisoned. No lock
    /// changes.
    pub fn insert(&mut self, type_id: u64, entity: Entity, value: V) -> (r: Result<(), EcsError>)
        requires
            old(self).wf(),
        ensures
            final(self).wf(),
            forall|t: u64| final(self).lock(t) == old(self).lock(t),
            r is Ok <==> old(self).lock(type_id).admits(AccessMode::Exclusive),
            r is Ok ==> final(self)@ == old(self)@.insert((type_id, entity@), value),
            r matches Err(e) ==> final(self)@ == old(self)@ && e == if old(self).lock(
                type_id,
            ).poisoned {
                EcsError::LockPoisoned
            } else {
                EcsError::WouldBlock
            },
    {
        let id = entity.id();
        let col = self.column_mut(type_id);
        if col.lock.poisoned {
            return Err(EcsError::LockPoisoned);
        }
        if !col.lock.can_admit(AccessMode::Exclusive) {
            return Err(EcsError::WouldBlock);
        }
        col.cells.insert(id, value);
        Ok(())
    }

    /// Takes away the component of type `type_id` of `entity` and hands it
    /// out. Where the entity has none, nothing changes.
    ///
    /// This is a write under the lock of the type, as [`Self::insert`] is.
    pub fn remove(&mut self, type_id: u64, entity: Entity) -> (r: Result<Option<V>, EcsError>)
        requires
            old(self).wf(),
        ensures
            final(self).wf(),
            forall|t: u64| final(self).lock(t) == old(self).lock(t),
            r is Ok <==> old(self).lock(type_id).admits(AccessMode::Exclusive),
            r matches Ok(prior) ==> {
                &&& final(self)@ == old(self)@.remove((type_id, entity@))
                &&& prior is Some <==> old(self)@.contains_key((type_id, entity@))
                &&& prior matches Some(v) ==> v == old(self)@[(type_id, entity@)]
            },
            r matches Err(e) ==> final(self)@ == old(self)@ && e == if old(self).lock(
                type_id,
            ).poisoned {
                EcsError::LockPoisoned
            } else {
                EcsError::WouldBlock
            },
    {
        let id = entity.id();
        if !self.columns.contains_key(&type_id) {
            return Ok(None);
        }
        let col = self.column_mut(type_id);
        if col.lock.poisoned {
            return Err(EcsError::LockPoisoned);
        }
        if !col.lock.can_admit(AccessMode::Exclusive) {
            return Err(EcsError::WouldBlock);
        }
        let prior = col.cells.remove(&id);
        Ok(prior)
    }

    /// Takes away the components of `entity`, of every type whose lock
    /// nobody holds and nobody poisoned. Tells whether the entity has no
    /// component left: where it has, the call can be repeated later.
    pub fn remove_entity(&mut self, entity: Entity) -> (gone: bool)
        requires
            old(self).wf(),
        ensures
            final(self).wf(),
            forall|t: u64| final(self).lock(t) == old(self).lock(t),
            forall|key: (u64, u64)|
                #[trigger] final(self)@.contains_key(key) <==> old(self)@.contains_key(key) && !(
                key.1 == entity@ && old(self).lock(key.0).admits(AccessMode::Exclusive)),
            forall|key: (u64, u64)|
                final(self)@.contains_key(key) ==> #[trigger] final(self)@[key] == old(self)@[key],
            gone <==> forall|t: u64| !final(self)@.contains_key((t, entity@)),
    {
        let id = entity.id();
        let mut gone = true;
        let mut i: usize = 0;
        while i < self.types.len()
            invariant
                old(self).wf(),
                self.wf(),
                self.types@ == old(self).types@,
                i <= self.types@.len(),
                forall|t: u64| self.columns@.contains_key(t) <==> old(self).columns@.contains_key(t),
                forall|t: u64| self.lock(t) == old(self).lock(t),
                forall|key: (u64, u64)|
                    #[trigger] self@.contains_key(key) <==> old(self)@.contains_key(key) && !(key.1
                        == id && old(self).lock(key.0).admits(AccessMode::Exclusive) && exists|
                        j: int,
                    |
                        0 <= j < i && self.types@[j] == key.0),
                forall|key: (u64, u64)|
                    self@.contains_key(key) ==> #[trigger] self@[key] == old(self)@[key],
                gone <==> forall|j: int| 0 <= j < i ==> !self@.contains_key((#[trigger] self.types@[j], id)),
            decreases self.types@.len() - i,
        {
            let t = self.types[i];
            let ghost before = *self;
            let col = self.column_mut(t);
            if col.lock.can_admit(AccessMode::Exclusive) {
                col.cells.remove(&id);
            } else if col.cells.contains_key(&id) {
                gone = false;
            }
            proof {
                assert forall|key: (u64, u64)| #[trigger]
                    self@.contains_key(key) <==> old(self)@.contains_key(key) && !(key.1 == id
                        && old(self).lock(key.0).admits(AccessMode::Exclusive) && exists|j: int|
                        0 <= j < i + 1 && self.types@[j] == key.0) by {
                    let earlier = exists|j: int| 0 <= j < i && self.types@[j] == key.0;
                    assert(before@.contains_key(key) <==> old(self)@.contains_key(key) && !(key.1
                        == id && old(self).lock(key.0).admits(AccessMode::Exclusive) && earlier));
                }
                assert forall|key: (u64, u64)| self@.contains_key(key) implies #[trigger] self@[key]
                    == old(self)@[key] by {
                    assert(self@[key] == before@[key]);
                }
            }
            i = i + 1;
        }
        gone
    }

    /// Whether `entity` has a component of type `type_id`.
    ///
    /// This is a read under the lock of the type: it takes place only while
    /// no writer holds that lock, and only if the lock is not poisoned.
    pub fn contains(&self, type_id: u64, entity: Entity) -> (r: Result<bool, EcsError>)
        ensures
            r is Ok <==> self.lock(type_id).admits(AccessMode::Shared),
            r matches Ok(b) ==> b == self@.contains_key((type_id, entity@)),
            r matches Err(e) ==> e == if self.lock(type_id).poisoned {
                EcsError::LockPoisoned
            } else {
                EcsError::WouldBlock
            },
    {
        match self.get(type_id, entity) {
            Ok(found) => Ok(found.is_some()),
            Err(e) => Err(e),
        }
    }

    /// The component of type `type_id` of `entity`, if it has one.
    ///
    /// This is a read under the lock of the type, as [`Self::contains`] is.
    pub fn get(&self, type_id: u64, entity: Entity) -> (r: Result<Option<&V>, EcsError>)
        ensures
            r is Ok <==> self.lock(type_id).admits(AccessMode::Shared),
            r matches Ok(found) ==> {
                &&& found is Some <==> self@.contains_key((type_id, entity@))
                &&& found matches Some(v) ==> *v == self@[(type_id, entity@)]
            },
            r matches Err(e) ==> e == if self.lock(type_id).poisoned {
                EcsError::LockPoisoned
            } else {
                EcsError::WouldBlock
            },
    {
        let id = entity.id();
        match self.columns.get(&type_id) {
            None => Ok(None),
            Some(col) => {
                if col.lock.poisoned {
                    Err(EcsError::LockPoisoned)
                } else if !col.lock.can_admit(AccessMode::Shared) {
                    Err(EcsError::WouldBlock)
                } else {
                    Ok(col.cells.get(&id))
                }
            },
        }
    }

    /// Whether the entity `id` has a component of type `type_id`, whoever
    /// holds the lock: for the holder itself.
    pub(crate) fn has_component(&self, type_id: u64, id: u64) -> (b: bool)
        ensures
            b == self@.contains_key((type_id, id)),
    {
        match self.columns.get(&type_id) {
            None => false,
            Some(col) => col.cells.contains_key(&id),
        }
    }

    /// Runs `f` on the components of a type, as a reader under the lock of
    /// the type: only while no writer holds that lock, and only if the lock is
    /// not poisoned. The lock is as it was when `f` is done.
    pub fn with_read_lock<R, F: FnOnce(&HashMap<u64, V>) -> R>(&self, type_id: u64, f: F) -> (r:
        Result<R, EcsError>)
        requires
            forall|m: &HashMap<u64, V>| call_requires(f, (m,)),
        ensures
            r is Ok <==> self.lock(type_id).admits(AccessMode::Shared),
            r matches Ok(x) ==> exists|m: &HashMap<u64, V>| #[trigger]
                call_ensures(f, (m,), x) && m@ == column_of(self@, type_id),
            r matches Err(e) ==> e == if self.lock(type_id).poisoned {
                EcsError::LockPoisoned
            } else {
                EcsError::WouldBlock
            },
    {
        match self.columns.get(&type_id) {
            None => {
                let none: HashMap<u64, V> = HashMap::new();
                let x = f(&none);
                let r = Ok(x);
                assert(r->Ok_0 == x);
                r
            },
            Some(col) => {
                if col.lock.poisoned {
                    Err(EcsError::LockPoisoned)
                } else if !col.lock.can_admit(AccessMode::Shared) {
                    Err(EcsError::WouldBlock)
                } else {
                    let x = f(&col.cells);
                    let r = Ok(x);
                    assert(r->Ok_0 == x);
                    r
                }
            },
        }
    }

    /// Runs `f` on the components of a type, as the writer under the lock of
    /// the type: only while nobody holds that lock, and only if the lock is
    /// not poisoned. What `f` leaves are the components of the type
    /// afterwards; those of other types stay, and so does every lock.
    pub fn with_write_lock<R, F: FnOnce(&mut HashMap<u64, V>) -> R>(
        &mut self,
        type_id: u64,
        f: F,
    ) -> (r: Result<R, EcsError>)
        requires
            old(self).wf(),
            forall|m: &mut HashMap<u64, V>| call_requires(f, (m,)),
        ensures
            final(self).wf(),
            forall|t: u64| final(self).lock(t) == old(self).lock(t),
            forall|t: u64| t != type_id ==> column_of(final(self)@, t) == column_of(old(self)@, t),
            r is Ok <==> old(self).lock(type_id).admits(AccessMode::Exclusive),
            r matches Ok(x) ==> exists|m: &mut HashMap<u64, V>| #[trigger]
                call_ensures(f, (m,), x) && m@ == column_of(old(self)@, type_id) && final(m)@
                    == column_of(final(self)@, type_id),
            r matches Err(e) ==> final(self)@ == old(self)@ && e == if old(self).lock(
                type_id,
            ).poisoned {
                EcsError::LockPoisoned
            } else {
                EcsError::WouldBlock
            },
    {
        let col = self.column_mut(type_id);
        if col.lock.poisoned {
            return Err(EcsError::LockPoisoned);
        }
        if !col.lock.can_admit(AccessMode::Exclusive) {
            return Err(EcsError::WouldBlock);
        }
        let x = f(&mut col.cells);
        let r = Ok(x);
        assert(r->Ok_0 == x);
        r
    }

    /// Lets one holder into the lock of a type, in `mode`, if its state
    /// admits it. No component changes, nor any other lock.
    pub fn try_acquire(&mut self, type_id: u64, mode: AccessMode) -> (r: Result<(), EcsError>)
        requires
            old(self).wf(),
        ensures
            final(self).wf(),
            final(self)@ == old(self)@,
            forall|t: u64| t != type_id ==> final(self).lock(t) == old(self).lock(t),
            r is Ok <==> old(self).lock(type_id).admits(mode),
            r is Ok ==> final(self).lock(type_id) == old(self).lock(type_id).acquired(mode),
            r matches Err(e) ==> final(self).lock(type_id) == old(self).lock(type_id) && e
                == if old(self).lock(type_id).poisoned {
                EcsError::LockPoisoned
            } else {
                EcsError::WouldBlock
            },
    {
        let col = self.column_mut(type_id);
        let r = col.lock.try_acquire(mode);
        r
    }

    /// Lets one holder of the lock of a type go. Tells whether there was
    /// one in `mode`; where there was none, nothing changes.
    pub fn release(&mut self, type_id: u64, mode: AccessMode) -> (was_held: bool)
        requires
            old(self).wf(),
        ensures
            final(self).wf(),
            final(self)@ == old(self)@,
            forall|t: u64| t != type_id ==> final(self).lock(t) == old(self).lock(t),
            was_held == old(self).lock(type_id).held_in(mode),
            final(self).lock(type_id) == old(self).lock(type_id).released(mode),
    {
        let col = self.column_mut(type_id);
        let was_held = col.lock.release(mode);
        was_held
    }

    /// Marks the lock of a type as given up in a panic.
    pub fn poison(&mut self, type_id: u64)
        requires
            old(self).wf(),
        ensures
            final(self).wf(),
            final(self)@ == old(self)@,
            forall|t: u64| t != type_id ==> final(self).lock(t) == old(self).lock(t),
            final(self).lock(type_id) == (RwLockState {
                poisoned: true,
                ..old(self).lock(type_id)
            }),
    {
        let col = self.column_mut(type_id);
        col.lock.poison();
    }

    /// The component of type `type_id` of the entity `id`, for a holder of
    /// the lock of the type in `mode`: nothing where the lock is not held so.
    pub fn peek(&self, type_id: u64, id: u64, mode: AccessMode) -> (found: Option<&V>)
        ensures
            found is Some <==> self.lock(type_id).held_in(mode) && self@.contains_key(
                (type_id, id),
            ),
            found matches Some(v) ==> *v == self@[(type_id, id)],
    {
        match self.columns.get(&type_id) {
            None => None,
            Some(col) => {
                let held = match mode {
                    AccessMode::Shared => col.lock.readers > 0,
                    AccessMode::Exclusive => col.lock.writer,
                };
                if held {
                    col.cells.get(&id)
                } else {
                    None
                }
            },
        }
    }

    /// The component of type `type_id` of the entity `id`, to be changed in
    /// place, for the writer that holds the lock of the type: nothing where
    /// no writer holds it. What the borrower leaves in the component is what
    /// the storage holds afterwards; nothing else changes.
    pub fn peek_mut(&mut self, type_id: u64, id: u64) -> (found: Option<&mut V>)
        requires
            old(self).wf(),
        ensures
            final(self).wf(),
            forall|t: u64| final(self).lock(t) == old(self).lock(t),
            found is Some <==> old(self).lock(type_id).writer && old(self)@.contains_key(
                (type_id, id),
            ),
            match found {
                Some(v) => *v == old(self)@[(type_id, id)] && final(self)@ == old(self)@.insert(
                    (type_id, id),
                    *final(v),
                ),
                None => final(self)@ == old(self)@,
            },
    {
        let writable = match self.columns.get(&type_id) {
            None => false,
            Some(col) => col.lock.writer,
        };
        if !writable {
            return None;
        }
        let col = self.column_mut(type_id);
        match col.cells.entry(id) {
            Entry::Occupied(cell) => Some(cell.into_mut()),
            Entry::Vacant(_) => None,
        }
    }
}

} // verus!
