//! Access descriptors: which component type a query field wants, and how.

use vstd::prelude::*;

verus! {

/// How a query field borrows its component.
#[derive(Debug, Clone, Copy, PartialEq, Eq, Structural, Hash)]
pub enum AccessMode {
    /// Read-only; any number of holders at a time.
    Shared,
    /// Read-write; no other holder at the same time.
    Exclusive,
}

/// One field of a query: a component type and the mode of access to it.
#[derive(Debug, Clone, Copy, PartialEq, Eq, Structural, Hash)]
pub struct Access {
    pub type_id: u64,
    pub mode: AccessMode,
}

impl Access {
    /// Read-only access to the components of type `type_id`.
    pub fn shared(type_id: u64) -> (a: Access)
        ensures
            a == (Access { type_id, mode: AccessMode::Shared }),
    {
        Access { type_id, mode: AccessMode::Shared }
    }

    /// Read-write access to the components of type `type_id`.
    pub fn exclusive(type_id: u64) -> (a: Access)
        ensures
            a == (Access { type_id, mode: AccessMode::Exclusive }),
    {
        Access { type_id, mode: AccessMode::Exclusive }
    }
}

/// Two fields of the shape name the same component type.
pub open spec fn has_duplicate_type(shape: Seq<Access>) -> bool {
    exists|i: int, j: int| 0 <= i < j < shape.len() && shape[i].type_id == shape[j].type_id
}

/// The type ids never fall from one descriptor to the next.
pub open spec fn ascending(plan: Seq<Access>) -> bool {
    forall|i: int, j: int| 0 <= i < j < plan.len() ==> plan[i].type_id <= plan[j].type_id
}

/// The type ids rise from each descriptor to the next.
pub open spec fn strictly_ascending(plan: Seq<Access>) -> bool {
    forall|i: int, j: int| 0 <= i < j < plan.len() ==> plan[i].type_id < plan[j].type_id
}

/// `plan` is the order in which the locks of `shape` are taken: the same
/// descriptors, by rising type id.
pub open spec fn is_lock_order(plan: Seq<Access>, shape: Seq<Access>) -> bool {
    &&& plan.to_multiset() == shape.to_multiset()
    &&& ascending(plan)
}

/// Whether two fields of the shape name the same component type.
pub fn find_duplicate_type(shape: &Vec<Access>) -> (found: bool)
    ensures
        found == has_duplicate_type(shape@),
{
    let n = shape.len();
    let mut j: usize = 0;
    while j < n
        invariant
            j <= n,
            n == shape@.len(),
            forall|a: int, b: int| 0 <= a < b < j ==> shape@[a].type_id != shape@[b].type_id,
        decreases n - j,
    {
        let mut i: usize = 0;
        while i < j
            invariant
                i <= j,
                j < n,
                n == shape@.len(),
                forall|a: int| 0 <= a < i ==> shape@[a].type_id != shape@[j as int].type_id,
            decreases j - i,
        {
            if shape[i].type_id == shape[j].type_id {
                return true;
            }
            i = i + 1;
        }
        j = j + 1;
    }
    false
}

/// The descriptors of `shape` in the order in which their locks are taken.
pub fn lock_order(shape: &Vec<Access>) -> (plan: Vec<Access>)
    ensures
        is_lock_order(plan@, shape@),
{
    let n = shape.len();
    let mut plan: Vec<Access> = Vec::with_capacity(n);
    let mut k: usize = 0;
    assert(plan@ == shape@.take(0));
    while k < n
        invariant
            k <= n,
            n == shape@.len(),
            plan@.to_multiset() == shape@.take(k as int).to_multiset(),
            ascending(plan@),
        decreases n - k,
    {
        let a = shape[k];
        let mut p: usize = 0;
        while p < plan.len() && plan[p].type_id <= a.type_id
            invariant
                p <= plan@.len(),
                forall|i: int| 0 <= i < p ==> plan@[i].type_id <= a.type_id,
            decreases plan@.len() - p,
        {
            p = p + 1;
        }
        proof {
            vstd::seq_lib::to_multiset_insert(plan@, p as int, a);
            vstd::seq_lib::to_multiset_build(shape@.take(k as int), a);
            assert(shape@.take(k + 1) == shape@.take(k as int).push(a));
        }
        plan.insert(p, a);
        k = k + 1;
    }
    assert(shape@.take(n as int) == shape@);
    plan
}

/// A lock order holds each descriptor of its shape, and nothing else.
pub proof fn lemma_lock_order_same_fields(plan: Seq<Access>, shape: Seq<Access>)
    requires
        is_lock_order(plan, shape),
    ensures
        plan.len() == shape.len(),
        forall|a: Access| plan.contains(a) <==> shape.contains(a),
{
    vstd::seq_lib::to_multiset_len(plan);
    vstd::seq_lib::to_multiset_len(shape);
    assert forall|a: Access| plan.contains(a) <==> shape.contains(a) by {
        vstd::seq_lib::to_multiset_contains(plan, a);
        vstd::seq_lib::to_multiset_contains(shape, a);
    }
}

/// The lock order of a shape without duplicate types rises strictly: no lock
/// is asked for twice.
pub proof fn lemma_lock_order_strict(plan: Seq<Access>, shape: Seq<Access>)
    requires
        is_lock_order(plan, shape),
        !has_duplicate_type(shape),
    ensures
        strictly_ascending(plan),
{
    lemma_lock_order_same_fields(plan, shape);
    assert forall|i: int, j: int| 0 <= i < j < plan.len() implies plan[i].type_id
        < plan[j].type_id by {
        if plan[i].type_id == plan[j].type_id {
            assert(plan.contains(plan[i]));
            assert(plan.contains(plan[j]));
            let a = choose|a: int| 0 <= a < shape.len() && shape[a] == plan[i];
            let b = choose|b: int| 0 <= b < shape.len() && shape[b] == plan[j];
            if a == b {
                // The same descriptor stands twice in the plan, so twice in the shape.
                lemma_twice_in_seq(plan, i, j);
                lemma_count_two_indices(shape, plan[i]);
            }
        }
    }
}

/// A value at two places of a sequence counts at least twice.
proof fn lemma_twice_in_seq(s: Seq<Access>, i: int, j: int)
    requires
        0 <= i < j < s.len(),
        s[i] == s[j],
    ensures
        s.to_multiset().count(s[i]) >= 2,
    decreases s.len(),
{
    let x = s[i];
    let front = s.drop_last();
    assert(s == front.push(s.last()));
    vstd::seq_lib::to_multiset_build(front, s.last());
    if j == s.len() - 1 {
        vstd::seq_lib::to_multiset_contains(front, x);
    } else {
        lemma_twice_in_seq(front, i, j);
    }
}

/// A value that counts at least twice stands at two places.
proof fn lemma_count_two_indices(s: Seq<Access>, x: Access)
    requires
        s.to_multiset().count(x) >= 2,
    ensures
        exists|a: int, b: int| 0 <= a < b < s.len() && s[a] == x && s[b] == x,
    decreases s.len(),
{
    if s.len() == 0 {
        s.to_multiset_ensures();
    } else {
        let front = s.drop_last();
        assert(s == front.push(s.last()));
        vstd::seq_lib::to_multiset_build(front, s.last());
        if s.last() == x {
            vstd::seq_lib::to_multiset_contains(front, x);
        } else {
            lemma_count_two_indices(front, x);
        }
    }
}

} // verus!
