//! Entities and the registry that hands them out.

use vstd::prelude::*;

verus! {

/// An opaque handle for one logical object. Two handles are the same entity
/// exactly when their ids are equal.
#[derive(Debug, Clone, Copy, PartialEq, Eq, Structural, PartialOrd, Ord, Hash)]
pub struct Entity {
    id: u64,
}

impl View for Entity {
    type V = u64;

    /// The id of the entity.
    closed spec fn view(&self) -> u64 {
        self.id
    }
}

/// The ids of a sequence of entities, in order.
pub open spec fn ids_of(entities: Seq<Entity>) -> Seq<u64> {
    entities.map_values(|e: Entity| e@)
}

impl Entity {
    /// The entity with the given id.
    pub closed spec fn with_id(id: u64) -> Entity {
        Entity { id }
    }

    /// An entity is its id and nothing else.
    pub proof fn law_entity_is_its_id(a: Entity, b: Entity)
        ensures
            a@ == b@ <==> a == b,
            Entity::with_id(a@) == a,
            Entity::with_id(a@)@ == a@,
    {
    }

    /// The handle for a known id.
    pub fn from_id(id: u64) -> (e: Entity)
        ensures
            e@ == id,
            e == Entity::with_id(id),
    {
        Entity { id }
    }

    /// The id, for printing and for keying.
    pub fn id(&self) -> (id: u64)
        ensures
            id == self@,
    {
        self.id
    }
}

impl From<Entity> for u64 {
    /// The id of the entity.
    fn from(entity: Entity) -> (id: u64) {
        entity.id
    }
}

impl vstd::std_specs::convert::FromSpecImpl<Entity> for u64 {
    open spec fn obeys_from_spec() -> bool {
        true
    }

    open spec fn from_spec(entity: Entity) -> u64 {
        entity@
    }
}

/// Allocates entities and keeps track of the live ones.
///
/// Ids are handed out in increasing order and never twice, so a destroyed
/// entity never comes back.
pub struct EntityManager {
    next_id: u64,
    live: Vec<u64>,
}

impl EntityManager {
    /// The live ids are kept in rising order, and all lie below the next id.
    pub closed spec fn wf(&self) -> bool {
        &&& forall|i: int, j: int| 0 <= i < j < self.live@.len() ==> self.live@[i] < self.live@[j]
        &&& forall|i: int| 0 <= i < self.live@.len() ==> self.live@[i] < self.next_id
    }

    /// The ids of the live entities.
    pub closed spec fn view(&self) -> Set<u64> {
        self.live@.to_set()
    }

    /// The ids of the live entities, in rising order: the order of creation.
    pub closed spec fn ids(&self) -> Seq<u64> {
        self.live@
    }

    /// The id that the next entity gets.
    pub closed spec fn next(&self) -> u64 {
        self.next_id
    }

    /// The sequence of live ids holds each live id once, and rises; and
    /// every live id lies below the next id: none was handed out twice, and
    /// none will be.
    pub proof fn lemma_ids(&self)
        requires
            self.wf(),
        ensures
            self.ids().no_duplicates(),
            self.ids().to_set() == self@,
            forall|i: int, j: int| 0 <= i < j < self.ids().len() ==> self.ids()[i] < self.ids()[j],
            forall|id: u64| self@.contains(id) ==> id < self.next(),
    {
    }

    /// A registry without entities.
    pub fn new() -> (m: EntityManager)
        ensures
            m.wf(),
            m@ == Set::<u64>::empty(),
            m.next() == 0,
    {
        let m = EntityManager { next_id: 0, live: Vec::new() };
        m
    }

    /// Whether another entity can be created: the ids have not run out.
    pub fn has_room(&self) -> (b: bool)
        ensures
            b == (self.next() < u64::MAX),
    {
        self.next_id < u64::MAX
    }

    /// Allocates the next id and marks it live.
    pub fn create_entity(&mut self) -> (e: Entity)
        requires
            old(self).wf(),
            old(self).next() < u64::MAX,
        ensures
            final(self).wf(),
            e@ == old(self).next(),
            !old(self)@.contains(e@),
            final(self)@ == old(self)@.insert(e@),
            final(self).next() == old(self).next() + 1,
    {
        let id = self.next_id;
        self.live.push(id);
        self.next_id = id + 1;
        assert(self.live@.to_set() =~= old(self).live@.to_set().insert(id)) by {
            assert forall|x: u64|
                self.live@.to_set().contains(x) <==> old(self).live@.to_set().insert(id).contains(
                    x,
                ) by {
                if old(self).live@.contains(x) {
                    let k = choose|k: int| 0 <= k < old(self).live@.len() && old(self).live@[k] == x;
                    assert(self.live@[k] == x);
                }
                if x == id {
                    assert(self.live@[self.live@.len() - 1] == x);
                }
            }
        }
        Entity { id }
    }

    /// Where `id` stands among the live ids, if it is live. The ids rise, so
    /// the place is found by halving.
    fn position_of(&self, id: u64) -> (r: Option<usize>)
        requires
            self.wf(),
        ensures
            match r {
                Some(k) => k < self.live@.len() && self.live@[k as int] == id,
                None => !self.live@.contains(id),
            },
    {
        let mut low: usize = 0;
        let mut high: usize = self.live.len();
        while low < high
            invariant
                self.wf(),
                low <= high <= self.live@.len(),
                forall|i: int| 0 <= i < low ==> self.live@[i] < id,
                forall|i: int| high <= i < self.live@.len() ==> self.live@[i] > id,
            decreases high - low,
        {
            let mid = low + (high - low) / 2;
            let at = self.live[mid];
            if at == id {
                return Some(mid);
            } else if at < id {
                low = mid + 1;
            } else {
                high = mid;
            }
        }
        None
    }

    /// Whether `e` is live.
    pub fn is_live(&self, e: Entity) -> (b: bool)
        requires
            self.wf(),
        ensures
            b == self@.contains(e@),
    {
        self.position_of(e.id).is_some()
    }

    /// Marks `e` as no longer live. Tells whether it was live.
    pub fn destroy_entity(&mut self, e: Entity) -> (was_live: bool)
        requires
            old(self).wf(),
        ensures
            final(self).wf(),
            was_live == old(self)@.contains(e@),
            final(self)@ == old(self)@.remove(e@),
            final(self).next() == old(self).next(),
    {
        match self.position_of(e.id) {
            Some(k) => {
                self.live.remove(k);
                assert(self.live@.to_set() =~= old(self).live@.to_set().remove(e.id)) by {
                    assert forall|x: u64|
                        self.live@.to_set().contains(x) <==> old(self).live@.to_set().remove(
                            e.id,
                        ).contains(x) by {
                        if old(self).live@.contains(x) && x != e.id {
                            let i = choose|i: int|
                                0 <= i < old(self).live@.len() && old(self).live@[i] == x;
                            if i < k {
                                assert(self.live@[i] == x);
                            } else {
                                assert(self.live@[i - 1] == x);
                            }
                        }
                    }
                }
                true
            },
            None => {
                false
            },
        }
    }

    /// How many entities are live.
    pub fn live_count(&self) -> (n: usize)
        requires
            self.wf(),
        ensures
            n == self@.len(),
    {
        proof {
            self.live@.unique_seq_to_set();
        }
        self.live.len()
    }

    /// The ids of the live entities, each once, in rising order.
    pub fn snapshot_ids(&self) -> (s: Vec<u64>)
        requires
            self.wf(),
        ensures
            s@ == self.ids(),
    {
        let mut s: Vec<u64> = Vec::with_capacity(self.live.len());
        let mut k: usize = 0;
        while k < self.live.len()
            invariant
                k <= self.live@.len(),
                s@ == self.live@.take(k as int),
            decreases self.live@.len() - k,
        {
            s.push(self.live[k]);
            k = k + 1;
        }
        s
    }

    /// The live entities, each once, in the order of their creation.
    pub fn snapshot_live(&self) -> (s: Vec<Entity>)
        requires
            self.wf(),
        ensures
            ids_of(s@) == self.ids(),
    {
        let mut s: Vec<Entity> = Vec::with_capacity(self.live.len());
        let mut k: usize = 0;
        while k < self.live.len()
            invariant
                k <= self.live@.len(),
                s@.len() == k,
                forall|i: int| 0 <= i < k ==> s@[i]@ == self.live@[i],
            decreases self.live@.len() - k,
        {
            s.push(Entity { id: self.live[k] });
            k = k + 1;
        }
        s
    }
}

} // verus!
