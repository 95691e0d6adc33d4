//! Queries: which entities have all the components a shape asks for, found
//! under the locks of the component types, taken in one global order.

use vstd::prelude::*;
use crate::ecs::access::{
    find_duplicate_type, has_duplicate_type, is_lock_order, lemma_lock_order_same_fields,
    lemma_lock_order_strict, lock_order, strictly_ascending, Access, AccessMode,
};
use crate::ecs::component::ComponentStorage;
use crate::ecs::entity::{Entity, EntityManager};
use crate::ecs::error::EcsError;

verus! {

/// The entity `id` has a component for every field of `shape`.
pub open spec fn has_all<V>(view: Map<(u64, u64), V>, shape: Seq<Access>, id: u64) -> bool {
    forall|i: int| 0 <= i < shape.len() ==> #[trigger] view.contains_key((shape[i].type_id, id))
}

/// The candidate set of a query, as a sequence: the entities of the
/// snapshot that have every component of the shape, in the snapshot's order.
pub open spec fn candidates_of<V>(
    snapshot: Seq<u64>,
    view: Map<(u64, u64), V>,
    shape: Seq<Access>,
) -> Seq<u64> {
    snapshot.filter(|id: u64| has_all(view, shape, id))
}

/// A descriptor of `plan` between `from` and `to` names the type `type_id`.
pub open spec fn mentions(plan: Seq<Access>, from: int, to: int, type_id: u64) -> bool {
    exists|i: int| from <= i < to && #[trigger] plan[i].type_id == type_id
}

/// From `before` to `after` one holder was let into each lock that `plan`
/// names between `from` and `to`, in the mode it names; nothing else moved.
pub open spec fn acquired_between<V>(
    before: &ComponentStorage<V>,
    after: &ComponentStorage<V>,
    plan: Seq<Access>,
    from: int,
    to: int,
) -> bool {
    &&& after@ == before@
    &&& forall|i: int|
        from <= i < to ==> #[trigger] after.lock(plan[i].type_id) == before.lock(
            plan[i].type_id,
        ).acquired(plan[i].mode)
    &&& forall|t: u64| !mentions(plan, from, to, t) ==> #[trigger] after.lock(t) == before.lock(t)
}

/// From `before` to `after` one holder left each lock that `plan` names
/// between `from` and `to`, in the mode it names; nothing else moved.
pub open spec fn released_between<V>(
    before: &ComponentStorage<V>,
    after: &ComponentStorage<V>,
    plan: Seq<Access>,
    from: int,
    to: int,
) -> bool {
    &&& after@ == before@
    &&& forall|i: int|
        from <= i < to ==> #[trigger] after.lock(plan[i].type_id) == before.lock(
            plan[i].type_id,
        ).released(plan[i].mode)
    &&& forall|t: u64| !mentions(plan, from, to, t) ==> #[trigger] after.lock(t) == before.lock(t)
}

/// Every lock that `plan` names between `from` and `to` admits one more
/// holder in the mode named.
pub open spec fn admits_between<V>(
    storage: &ComponentStorage<V>,
    plan: Seq<Access>,
    from: int,
    to: int,
) -> bool {
    forall|i: int|
        from <= i < to ==> #[trigger] storage.lock(plan[i].type_id).admits(plan[i].mode)
}

/// Every lock that `plan` names before `to` has a holder in the mode named.
pub open spec fn held_up_to<V>(storage: &ComponentStorage<V>, plan: Seq<Access>, to: int) -> bool {
    forall|i: int| 0 <= i < to ==> #[trigger] storage.lock(plan[i].type_id).held_in(plan[i].mode)
}

/// A copy of the descriptors.
fn copy_fields(fields: &Vec<Access>) -> (copy: Vec<Access>)
    ensures
        copy@ == fields@,
{
    let mut copy: Vec<Access> = Vec::with_capacity(fields.len());
    let mut k: usize = 0;
    while k < fields.len()
        invariant
            k <= fields@.len(),
            copy@ == fields@.take(k as int),
        decreases fields@.len() - k,
    {
        copy.push(fields[k]);
        k = k + 1;
    }
    copy
}

/// Lets go of the locks that `plan` names before `count`, the last taken
/// first. With `poison` set, each is marked as given up in a panic.
fn release_taken<V>(
    storage: &mut ComponentStorage<V>,
    plan: &Vec<Access>,
    count: usize,
    poison: bool,
)
    requires
        old(storage).wf(),
        count <= plan@.len(),
        strictly_ascending(plan@),
    ensures
        final(storage).wf(),
        final(storage)@ == old(storage)@,
        forall|i: int|
            0 <= i < count ==> #[trigger] final(storage).lock(plan@[i].type_id) == (
            crate::ecs::lock::RwLockState {
                poisoned: poison || old(storage).lock(plan@[i].type_id).poisoned,
                ..old(storage).lock(plan@[i].type_id).released(plan@[i].mode)
            }),
        forall|t: u64|
            !mentions(plan@, 0, count as int, t) ==> #[trigger] final(storage).lock(t) == old(
                storage,
            ).lock(t),
{
    let mut k: usize = count;
    while k > 0
        invariant
            k <= count,
            count <= plan@.len(),
            strictly_ascending(plan@),
            storage.wf(),
            storage@ == old(storage)@,
            forall|i: int|
                k <= i < count ==> #[trigger] storage.lock(plan@[i].type_id) == (
                crate::ecs::lock::RwLockState {
                    poisoned: poison || old(storage).lock(plan@[i].type_id).poisoned,
                    ..old(storage).lock(plan@[i].type_id).released(plan@[i].mode)
                }),
            forall|t: u64|
                !mentions(plan@, k as int, count as int, t) ==> #[trigger] storage.lock(t) == old(
                    storage,
                ).lock(t),
        decreases k,
    {
        k = k - 1;
        let a = plan[k];
        storage.release(a.type_id, a.mode);
        if poison {
            storage.poison(a.type_id);
        }
    }
}

/// A query: the shape of the rows it asks for. It holds no lock.
pub struct Query {
    shape: Vec<Access>,
    plan: Vec<Access>,
}

/// A query on its way to its locks: the snapshot of live entities that it
/// took when it set out, and how many locks of its order it holds so far.
pub struct Acquisition {
    shape: Vec<Access>,
    plan: Vec<Access>,
    taken: usize,
    snapshot: Vec<u64>,
}

/// How far an acquisition has come.
#[derive(Debug, Clone, Copy, PartialEq, Eq, Structural)]
pub enum Progress {
    /// Every lock is held.
    Ready,
    /// The lock of this type is held by others in a way that shuts the
    /// query out. The locks before it in the order stay held meanwhile.
    Blocked(u64),
}

impl Query {
    /// The fields, in the order declared.
    pub closed spec fn shape(&self) -> Seq<Access> {
        self.shape@
    }

    /// The fields, in the order in which their locks are taken.
    pub closed spec fn order(&self) -> Seq<Access> {
        self.plan@
    }

    /// No type is named twice, and the locks are taken by rising type id.
    pub open spec fn wf(&self) -> bool {
        &&& !has_duplicate_type(self.shape())
        &&& is_lock_order(self.order(), self.shape())
    }

    /// A query for rows of the given shape.
    ///
    /// A shape that names a component type twice is refused, in whatever
    /// modes: a query would shut itself out of its own lock.
    pub fn new(shape: Vec<Access>) -> (r: Result<Query, EcsError>)
        ensures
            match r {
                Ok(q) => !has_duplicate_type(shape@) && q.wf() && q.shape() == shape@,
                Err(e) => has_duplicate_type(shape@) && e == EcsError::DuplicateTypeInQuery,
            },
    {
        if find_duplicate_type(&shape) {
            return Err(EcsError::DuplicateTypeInQuery);
        }
        let plan = lock_order(&shape);
        Ok(Query { shape, plan })
    }

    /// The number of fields.
    pub fn arity(&self) -> (n: usize)
        ensures
            n == self.shape().len(),
    {
        self.shape.len()
    }

    /// The field at `index` of the shape, if there is one.
    pub fn field(&self, index: usize) -> (a: Option<Access>)
        ensures
            a == if index < self.shape().len() {
                Some(self.shape()[index as int])
            } else {
                None
            },
    {
        if index < self.shape.len() {
            Some(self.shape[index])
        } else {
            None
        }
    }

    /// The fields in the order in which their locks are taken.
    pub fn lock_sequence(&self) -> (plan: Vec<Access>)
        ensures
            plan@ == self.order(),
    {
        copy_fields(&self.plan)
    }

    /// Sets out: takes the snapshot of the live entities. No lock is taken yet.
    pub fn begin(&self, registry: &EntityManager) -> (a: Acquisition)
        requires
            self.wf(),
            registry.wf(),
        ensures
            a.wf(),
            a.shape() == self.shape(),
            a.order() == self.order(),
            a.taken() == 0,
            a.snapshot() == registry.ids(),
    {
        proof {
            lemma_lock_order_strict(self.plan@, self.shape@);
            registry.lemma_ids();
        }
        Acquisition {
            shape: copy_fields(&self.shape),
            plan: copy_fields(&self.plan),
            taken: 0,
            snapshot: registry.snapshot_ids(),
        }
    }
}

impl Acquisition {
    /// The fields, in the order declared.
    pub closed spec fn shape(&self) -> Seq<Access> {
        self.shape@
    }

    /// The fields, in the order in which their locks are taken.
    pub closed spec fn order(&self) -> Seq<Access> {
        self.plan@
    }

    /// How many locks of the order are held.
    pub closed spec fn taken(&self) -> nat {
        self.taken as nat
    }

    /// The ids of the entities that were live when the query set out.
    pub closed spec fn snapshot(&self) -> Seq<u64> {
        self.snapshot@
    }

    /// The order is a lock order of a shape without duplicate types, the
    /// locks held are a prefix of it, and no entity is twice in the snapshot.
    pub open spec fn wf(&self) -> bool {
        &&& !has_duplicate_type(self.shape())
        &&& is_lock_order(self.order(), self.shape())
        &&& strictly_ascending(self.order())
        &&& self.taken() <= self.order().len()
        &&& self.snapshot().no_duplicates()
    }

    /// Whether every lock is held.
    pub fn is_ready(&self) -> (b: bool)
        ensures
            b == (self.taken() == self.order().len()),
    {
        self.taken == self.plan.len()
    }

    /// Takes the locks still missing, in order, as far as they can be had.
    ///
    /// Where a lock is held by others, the acquisition stops before it and
    /// keeps what it has: the caller waits and calls again. Where a lock is
    /// poisoned, every lock taken is let go, the last taken first, and the
    /// acquisition is back at its start.
    pub fn advance<V>(&mut self, storage: &mut ComponentStorage<V>) -> (r: Result<
        Progress,
        EcsError,
    >)
        requires
            old(self).wf(),
            old(storage).wf(),
        ensures
            final(self).wf(),
            final(storage).wf(),
            final(storage)@ == old(storage)@,
            final(self).shape() == old(self).shape(),
            final(self).order() == old(self).order(),
            final(self).snapshot() == old(self).snapshot(),
            match r {
                Ok(progress) => {
                    let from = old(self).taken() as int;
                    let to = final(self).taken() as int;
                    let plan = old(self).order();
                    &&& from <= to <= plan.len()
                    &&& admits_between(old(storage), plan, from, to)
                    &&& acquired_between(old(storage), final(storage), plan, from, to)
                    &&& match progress {
                        Progress::Ready => to == plan.len(),
                        Progress::Blocked(t) => {
                            &&& to < plan.len()
                            &&& t == plan[to].type_id
                            &&& !old(storage).lock(t).admits(plan[to].mode)
                            &&& !old(storage).lock(t).poisoned
                        },
                    }
                },
                Err(e) => {
                    let from = old(self).taken() as int;
                    let plan = old(self).order();
                    &&& e == EcsError::LockPoisoned
                    &&& final(self).taken() == 0
                    &&& released_between(old(storage), final(storage), plan, 0, from)
                    &&& exists|k: int|
                        {
                            &&& from <= k < plan.len()
                            &&& admits_between(old(storage), plan, from, k)
                            &&& #[trigger] old(storage).lock(plan[k].type_id).poisoned
                        }
                },
            },
    {
        let ghost from = self.taken as int;
        let ghost plan = self.plan@;
        while self.taken < self.plan.len()
            invariant
                self.wf(),
                storage.wf(),
                old(storage).wf(),
                self.shape@ == old(self).shape@,
                self.plan@ == plan,
                plan == old(self).plan@,
                self.snapshot@ == old(self).snapshot@,
                from == old(self).taken,
                from <= self.taken <= plan.len(),
                admits_between(old(storage), plan, from, self.taken as int),
                acquired_between(old(storage), &*storage, plan, from, self.taken as int),
            decreases plan.len() - self.taken,
        {
            let k = self.taken;
            let a = self.plan[k];
            match storage.try_acquire(a.type_id, a.mode) {
                Ok(()) => {
                    self.taken = k + 1;
                },
                Err(EcsError::WouldBlock) => {
                    return Ok(Progress::Blocked(a.type_id));
                },
                Err(_) => {
                    release_taken(storage, &self.plan, k, false);
                    self.taken = 0;
                    proof {
                        assert forall|t: u64| !mentions(plan, 0, from, t) implies #[trigger]
                            storage.lock(t) == old(storage).lock(t) by {
                            if mentions(plan, 0, k as int, t) {
                                let i = choose|i: int| 0 <= i < k && plan[i].type_id == t;
                                // Taken in this call and let go again.
                                crate::ecs::lock::law_lock_excludes(
                                    old(storage).lock(t),
                                    plan[i].mode,
                                    plan[i].mode,
                                );
                            }
                        }
                    }
                    return Err(EcsError::LockPoisoned);
                },
            }
        }
        Ok(Progress::Ready)
    }

    /// Gives the acquisition up: every lock taken is let go, the last taken first.
    pub fn cancel<V>(self, storage: &mut ComponentStorage<V>)
        requires
            self.wf(),
            old(storage).wf(),
        ensures
            final(storage).wf(),
            released_between(
                old(storage),
                final(storage),
                self.order(),
                0,
                self.taken() as int,
            ),
    {
        release_taken(storage, &self.plan, self.taken, false);
    }
}

/// Adding an entity at the end of the snapshot adds it at the end of the
/// candidates if it has every component, and changes nothing if not.
pub proof fn lemma_candidates_push<V>(
    snapshot: Seq<u64>,
    view: Map<(u64, u64), V>,
    shape: Seq<Access>,
    id: u64,
)
    ensures
        candidates_of(snapshot.push(id), view, shape) == if has_all(view, shape, id) {
            candidates_of(snapshot, view, shape).push(id)
        } else {
            candidates_of(snapshot, view, shape)
        },
{
    snapshot.lemma_filter_push(id, |id: u64| has_all(view, shape, id));
}

/// Whether the entity `id` has a component for every field of `shape`.
fn has_every_component<V>(storage: &ComponentStorage<V>, shape: &Vec<Access>, id: u64) -> (b: bool)
    ensures
        b == has_all(storage@, shape@, id),
{
    let mut i: usize = 0;
    while i < shape.len()
        invariant
            i <= shape@.len(),
            forall|j: int| 0 <= j < i ==> #[trigger] storage@.contains_key((shape@[j].type_id, id)),
        decreases shape@.len() - i,
    {
        if !storage.has_component(shape[i].type_id, id) {
            return false;
        }
        i = i + 1;
    }
    true
}

/// The rows of a query, walked once from first to last while its locks are held.
///
/// The candidate set was decided when the iterator was made and is not
/// looked at again. The iterator names the row; the components of the row
/// are borrowed from the storage through it, field by field.
pub struct QueryIter {
    shape: Vec<Access>,
    plan: Vec<Access>,
    rows: Vec<u64>,
    pos: usize,
}

impl Acquisition {
    /// Decides the candidate set and makes the iterator over it.
    fn into_rows<V>(self, storage: &ComponentStorage<V>) -> (it: QueryIter)
        requires
            self.wf(),
        ensures
            it.wf(),
            it.shape() == self.shape(),
            it.order() == self.order(),
            it.rows() == candidates_of(self.snapshot(), storage@, self.shape()),
            it.position() == 0,
    {
        let mut rows: Vec<u64> = Vec::new();
        let mut k: usize = 0;
        while k < self.snapshot.len()
            invariant
                k <= self.snapshot@.len(),
                rows@ == candidates_of(self.snapshot@.take(k as int), storage@, self.shape@),
            decreases self.snapshot@.len() - k,
        {
            let id = self.snapshot[k];
            proof {
                lemma_candidates_push(self.snapshot@.take(k as int), storage@, self.shape@, id);
                assert(self.snapshot@.take(k + 1) == self.snapshot@.take(k as int).push(id));
            }
            if has_every_component(storage, &self.shape, id) {
                rows.push(id);
            }
            k = k + 1;
        }
        assert(self.snapshot@.take(k as int) == self.snapshot@);
        proof {
            law_candidates_exact(self.snapshot@, storage@, self.shape@);
        }
        QueryIter { shape: self.shape, plan: self.plan, rows, pos: 0 }
    }

    /// With every lock held, decides the candidate set and hands out the
    /// iterator over it. An acquisition that still misses a lock comes back
    /// as it is.
    pub fn complete<V>(self, storage: &ComponentStorage<V>) -> (r: Result<QueryIter, Acquisition>)
        requires
            self.wf(),
        ensures
            match r {
                Ok(it) => {
                    &&& self.taken() == self.order().len()
                    &&& it.wf()
                    &&& it.shape() == self.shape()
                    &&& it.order() == self.order()
                    &&& it.rows() == candidates_of(self.snapshot(), storage@, self.shape())
                    &&& it.position() == 0
                },
                Err(a) => self.taken() < self.order().len() && a == self,
            },
    {
        if self.taken < self.plan.len() {
            Err(self)
        } else {
            Ok(self.into_rows(storage))
        }
    }
}

/// The candidates are exactly the entities of the snapshot that have every
/// component of the shape, each once.
pub proof fn law_candidates_exact<V>(
    snapshot: Seq<u64>,
    view: Map<(u64, u64), V>,
    shape: Seq<Access>,
)
    requires
        snapshot.no_duplicates(),
    ensures
        candidates_of(snapshot, view, shape).no_duplicates(),
        forall|id: u64|
            #![trigger candidates_of(snapshot, view, shape).contains(id)]
            candidates_of(snapshot, view, shape).contains(id) <==> snapshot.contains(id)
                && has_all(view, shape, id),
    decreases snapshot.len(),
{
    if snapshot.len() > 0 {
        let front = snapshot.drop_last();
        let last = snapshot.last();
        assert(snapshot == front.push(last));
        law_candidates_exact(front, view, shape);
        lemma_candidates_push(front, view, shape, last);
        let before = candidates_of(front, view, shape);
        let all = candidates_of(snapshot, view, shape);
        assert forall|id: u64| all.contains(id) <==> snapshot.contains(id) && has_all(
            view,
            shape,
            id,
        ) by {
            if all.contains(id) {
                let i = choose|i: int| 0 <= i < all.len() && all[i] == id;
                if i < before.len() {
                    assert(candidates_of(front, view, shape).contains(id));
                }
            }
        }
        assert(all.no_duplicates()) by {
            if has_all(view, shape, last) {
                assert(!candidates_of(front, view, shape).contains(last));
            }
        }
    }
}

/// From `before` to `after` one holder left each lock that `plan` names
/// before `to`, in the mode it names, and left it poisoned; nothing else moved.
pub open spec fn abandoned_up_to<V>(
    before: &ComponentStorage<V>,
    after: &ComponentStorage<V>,
    plan: Seq<Access>,
    to: int,
) -> bool {
    &&& after@ == before@
    &&& forall|i: int|
        0 <= i < to ==> #[trigger] after.lock(plan[i].type_id) == (crate::ecs::lock::RwLockState {
            poisoned: true,
            ..before.lock(plan[i].type_id).released(plan[i].mode)
        })
    &&& forall|t: u64| !mentions(plan, 0, to, t) ==> #[trigger] after.lock(t) == before.lock(t)
}

impl QueryIter {
    /// The fields, in the order declared.
    pub closed spec fn shape(&self) -> Seq<Access> {
        self.shape@
    }

    /// The fields, in the order in which their locks were taken.
    pub closed spec fn order(&self) -> Seq<Access> {
        self.plan@
    }

    /// The ids of the entities that the iterator walks, in its order.
    pub closed spec fn rows(&self) -> Seq<u64> {
        self.rows@
    }

    /// How many rows were handed out.
    pub closed spec fn position(&self) -> nat {
        self.pos as nat
    }

    /// The order is a lock order of a shape without duplicate types, no
    /// entity is twice among the rows, and the position is among them.
    pub open spec fn wf(&self) -> bool {
        &&& !has_duplicate_type(self.shape())
        &&& is_lock_order(self.order(), self.shape())
        &&& strictly_ascending(self.order())
        &&& self.rows().no_duplicates()
        &&& self.position() <= self.rows().len()
    }

    /// The entity of the row last handed out, if one was.
    pub open spec fn current(&self) -> Option<u64> {
        if 0 < self.position() <= self.rows().len() {
            Some(self.rows()[self.position() - 1])
        } else {
            None
        }
    }

    /// The iterator's locks are held in `storage`, and each of its entities
    /// has there every component of the shape.
    pub open spec fn attached<V>(&self, storage: &ComponentStorage<V>) -> bool {
        &&& held_up_to(storage, self.shape(), self.shape().len() as int)
        &&& forall|k: int|
            0 <= k < self.rows().len() ==> has_all(storage@, self.shape(), #[trigger] self.rows()[k])
    }

    /// The number of rows, handed out or not.
    pub fn len(&self) -> (n: usize)
        ensures
            n == self.rows().len(),
    {
        self.rows.len()
    }

    /// The number of fields in a row.
    pub fn arity(&self) -> (n: usize)
        ensures
            n == self.shape().len(),
    {
        self.shape.len()
    }

    /// Moves to the next row and hands out its entity; nothing once the rows
    /// are used up.
    pub fn next(&mut self) -> (r: Option<Entity>)
        requires
            old(self).wf(),
        ensures
            final(self).wf(),
            final(self).shape() == old(self).shape(),
            final(self).order() == old(self).order(),
            final(self).rows() == old(self).rows(),
            match r {
                Some(e) => {
                    &&& old(self).position() < old(self).rows().len()
                    &&& e@ == old(self).rows()[old(self).position() as int]
                    &&& final(self).position() == old(self).position() + 1
                    &&& final(self).current() == Some(e@)
                },
                None => {
                    &&& old(self).position() == old(self).rows().len()
                    &&& final(self).position() == old(self).position()
                },
            },
    {
        if self.pos < self.rows.len() {
            let id = self.rows[self.pos];
            self.pos = self.pos + 1;
            Some(Entity::from_id(id))
        } else {
            None
        }
    }

    /// The entity of the current row and the field at `field`, where both exist.
    fn locate(&self, field: usize) -> (r: Option<(u64, Access)>)
        ensures
            r is Some <==> self.current() is Some && field < self.shape().len(),
            r matches Some((id, a)) ==> self.current() == Some(id) && a == self.shape()[
                field as int
            ],
    {
        if self.pos == 0 || self.pos > self.rows.len() || field >= self.shape.len() {
            None
        } else {
            Some((self.rows[self.pos - 1], self.shape[field]))
        }
    }

    /// The component of the current row in the field at `field`, to read.
    ///
    /// It is there wherever a row was handed out, the field exists, the
    /// lock of its type is held in the field's mode, and the entity has the
    /// component: so always for an iterator attached to the storage.
    pub fn get<'a, V>(&self, storage: &'a ComponentStorage<V>, field: usize) -> (r: Option<&'a V>)
        ensures
            r is Some <==> {
                &&& self.current() is Some
                &&& field < self.shape().len()
                &&& storage.lock(self.shape()[field as int].type_id).held_in(
                    self.shape()[field as int].mode,
                )
                &&& storage@.contains_key(
                    (self.shape()[field as int].type_id, self.current().unwrap()),
                )
            },
            r matches Some(v) ==> *v == storage@[(
                self.shape()[field as int].type_id,
                self.current().unwrap(),
            )],
    {
        match self.locate(field) {
            Some((id, a)) => storage.peek(a.type_id, id, a.mode),
            None => None,
        }
    }

    /// The component of the current row in the field at `field`, to change
    /// in place.
    ///
    /// It is there wherever [`Self::get`] would find it and the field is
    /// `Exclusive`. What the borrower leaves in it is what the storage holds
    /// afterwards; no other component changes, and no lock.
    pub fn get_mut<'a, V>(&self, storage: &'a mut ComponentStorage<V>, field: usize) -> (r: Option<
        &'a mut V,
    >)
        requires
            old(storage).wf(),
        ensures
            final(storage).wf(),
            forall|t: u64| final(storage).lock(t) == old(storage).lock(t),
            r is Some <==> {
                &&& self.current() is Some
                &&& field < self.shape().len()
                &&& self.shape()[field as int].mode == AccessMode::Exclusive
                &&& old(storage).lock(self.shape()[field as int].type_id).writer
                &&& old(storage)@.contains_key(
                    (self.shape()[field as int].type_id, self.current().unwrap()),
                )
            },
            match r {
                Some(v) => {
                    let key = (self.shape()[field as int].type_id, self.current().unwrap());
                    &&& *v == old(storage)@[key]
                    &&& final(storage)@ == old(storage)@.insert(key, *final(v))
                },
                None => final(storage)@ == old(storage)@,
            },
    {
        match self.locate(field) {
            Some((id, a)) => {
                match a.mode {
                    AccessMode::Exclusive => storage.peek_mut(a.type_id, id),
                    AccessMode::Shared => None,
                }
            },
            None => None,
        }
    }

    /// Copies of the components of the current row, field by field; nothing
    /// where one of them cannot be had.
    fn copy_row<V: Copy>(&self, storage: &ComponentStorage<V>) -> (r: Option<Vec<V>>)
        requires
            self.wf(),
        ensures
            self.current() is Some && self.attached(storage) ==> r is Some,
            r matches Some(row) ==> {
                &&& self.current() is Some || self.shape().len() == 0
                &&& row@.len() == self.shape().len()
                &&& forall|j: int|
                    0 <= j < row@.len() ==> {
                        &&& storage@.contains_key(
                            (#[trigger] self.shape()[j].type_id, self.current().unwrap()),
                        )
                        &&& row@[j] == storage@[(self.shape()[j].type_id, self.current().unwrap())]
                    }
            },
    {
        let mut row: Vec<V> = Vec::with_capacity(self.shape.len());
        let mut j: usize = 0;
        while j < self.shape.len()
            invariant
                self.wf(),
                j <= self.shape@.len(),
                row@.len() == j,
                j > 0 ==> self.current() is Some,
                forall|i: int|
                    0 <= i < j ==> {
                        &&& storage@.contains_key(
                            (#[trigger] self.shape()[i].type_id, self.current().unwrap()),
                        )
                        &&& row@[i] == storage@[(self.shape()[i].type_id, self.current().unwrap())]
                    },
            decreases self.shape@.len() - j,
        {
            match self.get(storage, j) {
                Some(v) => {
                    row.push(*v);
                },
                None => {
                    return None;
                },
            }
            j = j + 1;
        }
        Some(row)
    }

    /// Walks the rows not yet handed out and gathers them: each entity with
    /// copies of its components, in the order of the fields.
    ///
    /// For an iterator attached to the storage, that is every such row, in
    /// the iterator's order.
    pub fn collect<V: Copy>(&mut self, storage: &ComponentStorage<V>) -> (out: Vec<
        (Entity, Vec<V>),
    >)
        requires
            old(self).wf(),
        ensures
            final(self).wf(),
            final(self).shape() == old(self).shape(),
            final(self).order() == old(self).order(),
            final(self).rows() == old(self).rows(),
            final(self).position() == old(self).rows().len(),
            out@.len() <= old(self).rows().len() - old(self).position(),
            old(self).attached(storage) ==> {
                &&& out@.len() == old(self).rows().len() - old(self).position()
                &&& forall|k: int|
                    0 <= k < out@.len() ==> {
                        &&& (#[trigger] out@[k]).0@ == old(self).rows()[old(self).position() + k]
                        &&& out@[k].1@.len() == old(self).shape().len()
                        &&& forall|j: int|
                            0 <= j < old(self).shape().len() ==> out@[k].1@[j] == storage@[(
                                #[trigger] old(self).shape()[j].type_id,
                                out@[k].0@,
                            )]
                    }
            },
    {
        let ghost start = self.pos as int;
        let mut out: Vec<(Entity, Vec<V>)> = Vec::new();
        while self.pos < self.rows.len()
            invariant
                self.wf(),
                self.shape@ == old(self).shape@,
                self.plan@ == old(self).plan@,
                self.rows@ == old(self).rows@,
                start == old(self).pos,
                start <= self.pos <= self.rows@.len(),
                out@.len() <= self.pos - start,
                old(self).attached(storage) ==> {
                    &&& out@.len() == self.pos - start
                    &&& forall|k: int|
                        0 <= k < out@.len() ==> {
                            &&& (#[trigger] out@[k]).0@ == self.rows@[start + k]
                            &&& out@[k].1@.len() == self.shape@.len()
                            &&& forall|j: int|
                                0 <= j < self.shape@.len() ==> out@[k].1@[j] == storage@[(
                                    #[trigger] self.shape@[j].type_id,
                                    out@[k].0@,
                                )]
                        }
                },
            decreases self.rows@.len() - self.pos,
        {
            let id = self.rows[self.pos];
            self.pos = self.pos + 1;
            proof {
                if old(self).attached(storage) {
                    assert(self.attached(storage)) by {
                        assert(self.rows() == old(self).rows());
                    }
                }
            }
            match self.copy_row(storage) {
                Some(row) => {
                    out.push((Entity::from_id(id), row));
                    proof {
                        if old(self).attached(storage) {
                            assert forall|k: int| 0 <= k < out@.len() implies {
                                &&& (#[trigger] out@[k]).0@ == self.rows@[start + k]
                                &&& out@[k].1@.len() == self.shape@.len()
                                &&& forall|j: int|
                                    0 <= j < self.shape@.len() ==> out@[k].1@[j] == storage@[(
                                        #[trigger] self.shape@[j].type_id,
                                        out@[k].0@,
                                    )]
                            } by {}
                        }
                    }
                },
                None => {},
            }
        }
        out
    }

    /// Walks the rows not yet handed out and replaces, in each, the component
    /// in the field at `field` by what `f` makes of it. Tells how many
    /// components were replaced.
    ///
    /// For an iterator attached to the storage and an `Exclusive` field,
    /// that is one replacement for each of those rows: no row is left out
    /// and none is visited twice. Nothing else changes in the storage.
    pub fn update_rest<V, F: Fn(&V) -> V>(
        &mut self,
        storage: &mut ComponentStorage<V>,
        field: usize,
        f: F,
    ) -> (changed: usize)
        requires
            old(self).wf(),
            old(storage).wf(),
            forall|v: &V| call_requires(f, (v,)),
        ensures
            final(self).wf(),
            final(storage).wf(),
            final(self).shape() == old(self).shape(),
            final(self).order() == old(self).order(),
            final(self).rows() == old(self).rows(),
            final(self).position() == old(self).rows().len(),
            forall|t: u64| final(storage).lock(t) == old(storage).lock(t),
            final(storage)@.dom() == old(storage)@.dom(),
            forall|key: (u64, u64)|
                old(storage)@.contains_key(key) && !(field < old(self).shape().len() && key.0
                    == old(self).shape()[field as int].type_id && old(self).rows().skip(
                    old(self).position() as int,
                ).contains(key.1)) ==> #[trigger] final(storage)@[key] == old(storage)@[key],
            field < old(self).shape().len() && old(self).shape()[field as int].mode
                == AccessMode::Exclusive && old(self).attached(old(storage)) ==> {
                &&& changed == old(self).rows().len() - old(self).position()
                &&& forall|k: int|
                    old(self).position() <= k < old(self).rows().len() ==> call_ensures(
                        f,
                        (&old(storage)@[(
                            old(self).shape()[field as int].type_id,
                            old(self).rows()[k],
                        )],),
                        #[trigger] final(storage)@[(
                            old(self).shape()[field as int].type_id,
                            old(self).rows()[k],
                        )],
                    )
            },
    {
        let ghost start = self.pos as int;
        let ghost rows = self.rows@;
        let ghost shape = self.shape@;
        let ghost sure = field < shape.len() && shape[field as int].mode == AccessMode::Exclusive
            && old(self).attached(old(storage));
        let mut changed: usize = 0;
        while self.pos < self.rows.len()
            invariant
                self.wf(),
                storage.wf(),
                self.shape@ == shape,
                shape == old(self).shape@,
                self.plan@ == old(self).plan@,
                self.rows@ == rows,
                rows == old(self).rows@,
                rows.no_duplicates(),
                start == old(self).pos,
                start <= self.pos <= rows.len(),
                changed <= self.pos - start,
                forall|v: &V| call_requires(f, (v,)),
                forall|t: u64| storage.lock(t) == old(storage).lock(t),
                storage@.dom() == old(storage)@.dom(),
                sure == (field < shape.len() && shape[field as int].mode == AccessMode::Exclusive
                    && old(self).attached(old(storage))),
                forall|key: (u64, u64)|
                    old(storage)@.contains_key(key) && !(field < shape.len() && key.0
                        == shape[field as int].type_id && exists|k: int|
                        start <= k < self.pos && rows[k] == key.1) ==> #[trigger] storage@[key]
                        == old(storage)@[key],
                sure ==> {
                    &&& changed == self.pos - start
                    &&& forall|k: int|
                        start <= k < self.pos ==> call_ensures(
                            f,
                            (&old(storage)@[(shape[field as int].type_id, rows[k])],),
                            #[trigger] storage@[(shape[field as int].type_id, rows[k])],
                        )
                },
            decreases rows.len() - self.pos,
        {
            let ghost at = self.pos as int;
            self.pos = self.pos + 1;
            proof {
                if sure {
                    assert(has_all(old(storage)@, old(self).shape(), old(self).rows()[at]));
                    assert(old(storage).lock(shape[field as int].type_id).held_in(
                        shape[field as int].mode,
                    ));
                }
            }
            match self.get_mut(storage, field) {
                Some(slot) => {
                    let made = f(&*slot);
                    *slot = made;
                    changed = changed + 1;
                },
                None => {},
            }
        }
        proof {
            assert forall|key: (u64, u64)|
                old(storage)@.contains_key(key) && !(field < shape.len() && key.0
                    == shape[field as int].type_id && rows.skip(start).contains(key.1)) implies
                #[trigger] storage@[key] == old(storage)@[key] by {
                if field < shape.len() && key.0 == shape[field as int].type_id && exists|k: int|
                    start <= k < rows.len() && rows[k] == key.1 {
                    let k = choose|k: int| start <= k < rows.len() && rows[k] == key.1;
                    assert(rows.skip(start)[k - start] == key.1);
                }
            }
        }
        changed
    }

    /// Ends the iteration: every lock is let go, the last taken first.
    pub fn finish<V>(self, storage: &mut ComponentStorage<V>)
        requires
            self.wf(),
            old(storage).wf(),
        ensures
            final(storage).wf(),
            released_between(
                old(storage),
                final(storage),
                self.order(),
                0,
                self.order().len() as int,
            ),
    {
        release_taken(storage, &self.plan, self.plan.len(), false);
    }

    /// Ends the iteration for a holder that panicked: every lock is let go,
    /// the last taken first, and is poisoned.
    pub fn abandon<V>(self, storage: &mut ComponentStorage<V>)
        requires
            self.wf(),
            old(storage).wf(),
        ensures
            final(storage).wf(),
            abandoned_up_to(old(storage), final(storage), self.order(), self.order().len() as int),
    {
        release_taken(storage, &self.plan, self.plan.len(), true);
    }
}

impl Query {
    /// Takes every lock of the query, or none, and hands out the iterator
    /// over the rows.
    ///
    /// The snapshot of live entities is taken first, then the locks by
    /// rising type id. Where one is held by others, the query reports
    /// `WouldBlock`; where one is poisoned, `LockPoisoned`. In both cases the
    /// locks already taken are let go again, the last taken first, and the
    /// storage is as it was.
    pub fn iter<V>(&self, registry: &EntityManager, storage: &mut ComponentStorage<V>) -> (r:
        Result<QueryIter, EcsError>)
        requires
            self.wf(),
            registry.wf(),
            old(storage).wf(),
        ensures
            final(storage).wf(),
            final(storage)@ == old(storage)@,
            r is Ok <==> admits_between(old(storage), self.order(), 0, self.order().len() as int),
            match r {
                Ok(it) => {
                    &&& acquired_between(
                        old(storage),
                        final(storage),
                        self.order(),
                        0,
                        self.order().len() as int,
                    )
                    &&& it.wf()
                    &&& it.shape() == self.shape()
                    &&& it.order() == self.order()
                    &&& it.position() == 0
                    &&& it.rows() == candidates_of(registry.ids(), old(storage)@, self.shape())
                    &&& it.attached(final(storage))
                },
                Err(e) => {
                    &&& forall|t: u64| final(storage).lock(t) == old(storage).lock(t)
                    &&& exists|k: int|
                        {
                            &&& 0 <= k < self.order().len()
                            &&& admits_between(old(storage), self.order(), 0, k)
                            &&& !(#[trigger] old(storage).lock(self.order()[k].type_id)).admits(
                                self.order()[k].mode,
                            )
                            &&& e == if old(storage).lock(self.order()[k].type_id).poisoned {
                                EcsError::LockPoisoned
                            } else {
                                EcsError::WouldBlock
                            }
                        }
                },
            },
    {
        let ghost plan = self.plan@;
        let mut pending = self.begin(registry);
        match pending.advance(storage) {
            Ok(Progress::Ready) => {
                let it = pending.into_rows(storage);
                proof {
                    lemma_lock_order_same_fields(plan, self.shape@);
                    assert forall|i: int| 0 <= i < self.shape@.len() implies #[trigger]
                        storage.lock(self.shape@[i].type_id).held_in(
                        self.shape@[i].mode,
                    ) by {
                        let a = self.shape@[i];
                        assert(self.shape@.contains(a));
                        let j = choose|j: int| 0 <= j < plan.len() && plan[j] == a;
                        crate::ecs::lock::law_lock_excludes(
                            old(storage).lock(plan[j].type_id),
                            plan[j].mode,
                            plan[j].mode,
                        );
                    }
                }
                Ok(it)
            },
            Ok(Progress::Blocked(_)) => {
                let ghost mid = *storage;
                let ghost k = pending.taken() as int;
                pending.cancel(storage);
                proof {
                    lemma_taken_and_released(old(storage), &mid, &*storage, plan, k);
                }
                Err(EcsError::WouldBlock)
            },
            Err(e) => {
                proof {
                    let k = choose|k: int|
                        {
                            &&& 0 <= k < plan.len()
                            &&& admits_between(old(storage), plan, 0, k)
                            &&& #[trigger] old(storage).lock(plan[k].type_id).poisoned
                        };
                    assert(!old(storage).lock(plan[k].type_id).admits(plan[k].mode));
                }
                Err(e)
            },
        }
    }
}

/// Locks that were taken and let go again are as they were before.
pub proof fn lemma_taken_and_released<V>(
    before: &ComponentStorage<V>,
    mid: &ComponentStorage<V>,
    after: &ComponentStorage<V>,
    plan: Seq<Access>,
    count: int,
)
    requires
        before.wf(),
        admits_between(before, plan, 0, count),
        acquired_between(before, mid, plan, 0, count),
        released_between(mid, after, plan, 0, count),
    ensures
        after@ == before@,
        forall|t: u64| after.lock(t) == before.lock(t),
{
    assert forall|t: u64| after.lock(t) == before.lock(t) by {
        if mentions(plan, 0, count, t) {
            let i = choose|i: int| 0 <= i < count && #[trigger] plan[i].type_id == t;
            crate::ecs::lock::law_lock_excludes(before.lock(t), plan[i].mode, plan[i].mode);
        }
    }
}

} // verus!
