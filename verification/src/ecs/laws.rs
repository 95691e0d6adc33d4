//! What holds of the store and its queries, whatever the components and
//! whatever the order of operations.

use vstd::prelude::*;
use crate::ecs::access::{Access, AccessMode};
use crate::ecs::component::ComponentStorage;
use crate::ecs::query::{
    acquired_between, admits_between, candidates_of, has_all, law_candidates_exact, mentions,
};

verus! {

/// The shape of a query over one component type.
pub open spec fn single(type_id: u64, mode: AccessMode) -> Seq<Access> {
    seq![Access { type_id, mode }]
}

/// The shape of a query over two component types.
pub open spec fn pair(first: Access, second: Access) -> Seq<Access> {
    seq![first, second]
}

/// A component that is in the storage is seen: a query over its type alone
/// has the entity among its rows, if the entity was live when the query set
/// out, and the component it finds there is the value stored last.
pub proof fn law_stored_component_is_observed<V>(
    snapshot: Seq<u64>,
    view: Map<(u64, u64), V>,
    type_id: u64,
    mode: AccessMode,
    id: u64,
    value: V,
)
    requires
        snapshot.no_duplicates(),
        snapshot.contains(id),
    ensures
        candidates_of(snapshot, view.insert((type_id, id), value), single(type_id, mode)).contains(
            id,
        ),
        view.insert((type_id, id), value)[(type_id, id)] == value,
{
    let after = view.insert((type_id, id), value);
    let shape = single(type_id, mode);
    law_candidates_exact(snapshot, after, shape);
    assert(has_all(after, shape, id));
}

/// A component that was taken away is not seen: no query that names its type
/// has the entity among its rows.
pub proof fn law_removed_component_is_not_observed<V>(
    snapshot: Seq<u64>,
    view: Map<(u64, u64), V>,
    shape: Seq<Access>,
    type_id: u64,
    id: u64,
)
    requires
        snapshot.no_duplicates(),
        mentions(shape, 0, shape.len() as int, type_id),
    ensures
        !candidates_of(snapshot, view.remove((type_id, id)), shape).contains(id),
{
    let after = view.remove((type_id, id));
    law_candidates_exact(snapshot, after, shape);
    let i = choose|i: int| 0 <= i < shape.len() && #[trigger] shape[i].type_id == type_id;
    assert(!after.contains_key((shape[i].type_id, id)));
}

/// An entity that was not live when the query set out is not seen, whatever
/// components it has.
pub proof fn law_only_snapshot_is_observed<V>(
    snapshot: Seq<u64>,
    view: Map<(u64, u64), V>,
    shape: Seq<Access>,
    id: u64,
)
    requires
        snapshot.no_duplicates(),
        !snapshot.contains(id),
    ensures
        !candidates_of(snapshot, view, shape).contains(id),
{
    law_candidates_exact(snapshot, view, shape);
}

/// A query over two component types walks exactly the live entities that
/// have both, each once.
pub proof fn law_pair_query_is_intersection<V>(
    snapshot: Seq<u64>,
    view: Map<(u64, u64), V>,
    first: Access,
    second: Access,
)
    requires
        snapshot.no_duplicates(),
    ensures
        candidates_of(snapshot, view, pair(first, second)).no_duplicates(),
        candidates_of(snapshot, view, pair(first, second)).to_set() == Set::new(
            |id: u64|
                snapshot.to_set().contains(id) && view.contains_key((first.type_id, id))
                    && view.contains_key((second.type_id, id)),
        ),
{
    let shape = pair(first, second);
    let rows = candidates_of(snapshot, view, shape);
    law_candidates_exact(snapshot, view, shape);
    assert forall|id: u64| has_all(view, shape, id) <==> view.contains_key((first.type_id, id))
        && view.contains_key((second.type_id, id)) by {
        if has_all(view, shape, id) {
            assert(view.contains_key((shape[0].type_id, id)));
            assert(view.contains_key((shape[1].type_id, id)));
        }
    }
    assert(rows.to_set() =~= Set::new(
        |id: u64|
            snapshot.to_set().contains(id) && view.contains_key((first.type_id, id))
                && view.contains_key((second.type_id, id)),
    )) by {
        assert forall|id: u64| rows.to_set().contains(id) <==> (snapshot.to_set().contains(id)
            && view.contains_key((first.type_id, id)) && view.contains_key(
            (second.type_id, id),
        )) by {
            assert(rows.to_set().contains(id) <==> rows.contains(id));
            assert(snapshot.to_set().contains(id) <==> snapshot.contains(id));
        }
    }
}

/// Where nothing has every component, and where nothing is live, a query has
/// no rows; a type that the storage never saw has no components.
pub proof fn law_empty_queries<V>(snapshot: Seq<u64>, view: Map<(u64, u64), V>, shape: Seq<Access>)
    requires
        snapshot.no_duplicates(),
        snapshot.len() == 0 || forall|id: u64| !has_all(view, shape, id),
    ensures
        candidates_of(snapshot, view, shape).len() == 0,
{
    law_candidates_exact(snapshot, view, shape);
    let rows = candidates_of(snapshot, view, shape);
    if rows.len() > 0 {
        assert(rows.contains(rows[0]));
        assert(snapshot.contains(rows[0]));
    }
}

/// While a writer holds the lock of a type, no query that names the type
/// gets its locks; while readers hold it, none that wants to write there.
pub proof fn law_held_lock_shuts_out<V>(
    storage: &ComponentStorage<V>,
    plan: Seq<Access>,
    k: int,
)
    requires
        0 <= k < plan.len(),
        storage.lock(plan[k].type_id).writer || (storage.lock(plan[k].type_id).readers > 0
            && plan[k].mode == AccessMode::Exclusive),
    ensures
        !admits_between(storage, plan, 0, plan.len() as int),
{
    assert(!storage.lock(plan[k].type_id).admits(plan[k].mode));
}

/// Queries over disjoint sets of types do not wait for each other: the locks
/// that one takes leave the other's locks as free as they were.
pub proof fn law_disjoint_queries_do_not_contend<V>(
    before: &ComponentStorage<V>,
    after: &ComponentStorage<V>,
    taker: Seq<Access>,
    other: Seq<Access>,
)
    requires
        acquired_between(before, after, taker, 0, taker.len() as int),
        forall|i: int, j: int|
            0 <= i < taker.len() && 0 <= j < other.len() ==> taker[i].type_id != other[j].type_id,
    ensures
        admits_between(before, other, 0, other.len() as int) <==> admits_between(
            after,
            other,
            0,
            other.len() as int,
        ),
        forall|j: int|
            0 <= j < other.len() ==> after.lock(#[trigger] other[j].type_id) == before.lock(
                other[j].type_id,
            ),
{
    assert forall|j: int| 0 <= j < other.len() implies after.lock(#[trigger] other[j].type_id)
        == before.lock(other[j].type_id) by {
        let t = other[j].type_id;
        if mentions(taker, 0, taker.len() as int, t) {
            let i = choose|i: int| 0 <= i < taker.len() && #[trigger] taker[i].type_id == t;
            assert(taker[i].type_id != other[j].type_id);
        }
    }
    if admits_between(before, other, 0, other.len() as int) {
        assert forall|j: int| 0 <= j < other.len() implies #[trigger] after.lock(
            other[j].type_id,
        ).admits(other[j].mode) by {
            assert(before.lock(other[j].type_id).admits(other[j].mode));
        }
    }
    if admits_between(after, other, 0, other.len() as int) {
        assert forall|j: int| 0 <= j < other.len() implies #[trigger] before.lock(
            other[j].type_id,
        ).admits(other[j].mode) by {
            assert(after.lock(other[j].type_id).admits(other[j].mode));
        }
    }
}

/// Readers of one type do not wait for each other either: a query that only
/// reads gets its locks beside any number of readers, short of the counters' end.
pub proof fn law_readers_do_not_contend<V>(storage: &ComponentStorage<V>, plan: Seq<Access>)
    requires
        forall|i: int|
            0 <= i < plan.len() ==> {
                &&& (#[trigger] plan[i]).mode == AccessMode::Shared
                &&& !storage.lock(plan[i].type_id).writer
                &&& !storage.lock(plan[i].type_id).poisoned
                &&& storage.lock(plan[i].type_id).readers < usize::MAX
            },
    ensures
        admits_between(storage, plan, 0, plan.len() as int),
{
    assert forall|i: int| 0 <= i < plan.len() implies #[trigger] storage.lock(
        plan[i].type_id,
    ).admits(plan[i].mode) by {
        assert(plan[i].mode == AccessMode::Shared);
    }
}

/// The components after one pass of a writer over `rows` that makes `f(v)` of
/// each component `v` of type `type_id` there, and leaves the rest alone.
pub open spec fn after_pass<V>(
    view: Map<(u64, u64), V>,
    type_id: u64,
    rows: Seq<u64>,
    f: spec_fn(V) -> V,
) -> Map<(u64, u64), V> {
    Map::new(
        |key: (u64, u64)| view.contains_key(key),
        |key: (u64, u64)|
            if key.0 == type_id && rows.contains(key.1) {
                f(view[key])
            } else {
                view[key]
            },
    )
}

/// The components after a number of such passes, one after the other.
pub open spec fn after_passes<V>(
    view: Map<(u64, u64), V>,
    type_id: u64,
    rows: Seq<u64>,
    f: spec_fn(V) -> V,
    passes: nat,
) -> Map<(u64, u64), V>
    decreases passes,
{
    if passes == 0 {
        view
    } else {
        after_pass(after_passes(view, type_id, rows, f, (passes - 1) as nat), type_id, rows, f)
    }
}

/// `f` applied `times` times to `v`.
pub open spec fn applied<V>(f: spec_fn(V) -> V, times: nat, v: V) -> V
    decreases times,
{
    if times == 0 {
        v
    } else {
        f(applied(f, (times - 1) as nat, v))
    }
}

/// A storage that kept its keys, kept every component outside the rows of
/// the pass, and holds `f` of the old component in each of those rows, is
/// the storage after the pass.
pub proof fn law_pass_is_determined<V>(
    before: Map<(u64, u64), V>,
    after: Map<(u64, u64), V>,
    type_id: u64,
    rows: Seq<u64>,
    f: spec_fn(V) -> V,
)
    requires
        after.dom() == before.dom(),
        forall|key: (u64, u64)|
            before.contains_key(key) && !(key.0 == type_id && rows.contains(key.1))
                ==> #[trigger] after[key] == before[key],
        forall|key: (u64, u64)|
            before.contains_key(key) && key.0 == type_id && rows.contains(key.1)
                ==> #[trigger] after[key] == f(before[key]),
    ensures
        after == after_pass(before, type_id, rows, f),
{
    let made = after_pass(before, type_id, rows, f);
    assert(after =~= made) by {
        assert forall|key: (u64, u64)| after.contains_key(key) <==> made.contains_key(key) by {
            assert(after.dom().contains(key) <==> before.dom().contains(key));
        }
    }
}

/// Writers that take turns each leave their mark once: after a number of
/// passes, each component in the rows is what `f`, applied that many times,
/// makes of the first value, and every other component is untouched.
pub proof fn law_each_pass_applies_once<V>(
    view: Map<(u64, u64), V>,
    type_id: u64,
    rows: Seq<u64>,
    f: spec_fn(V) -> V,
    passes: nat,
)
    ensures
        after_passes(view, type_id, rows, f, passes).dom() == view.dom(),
        forall|key: (u64, u64)|
            view.contains_key(key) ==> #[trigger] after_passes(view, type_id, rows, f, passes)[key]
                == if key.0 == type_id && rows.contains(key.1) {
                applied(f, passes, view[key])
            } else {
                view[key]
            },
    decreases passes,
{
    if passes > 0 {
        let earlier = after_passes(view, type_id, rows, f, (passes - 1) as nat);
        law_each_pass_applies_once(view, type_id, rows, f, (passes - 1) as nat);
        let now = after_passes(view, type_id, rows, f, passes);
        assert(now.dom() =~= view.dom()) by {
            assert forall|key: (u64, u64)| now.dom().contains(key) <==> view.dom().contains(
                key,
            ) by {
                assert(earlier.dom().contains(key) <==> view.dom().contains(key));
            }
        }
        assert forall|key: (u64, u64)| view.contains_key(key) implies #[trigger] now[key] == if key.0
            == type_id && rows.contains(key.1) {
            applied(f, passes, view[key])
        } else {
            view[key]
        } by {
            assert(earlier.dom().contains(key));
            assert(earlier.contains_key(key));
        }
    }
}

/// Writers that take turns adding `step` add up: after the passes of
/// `writers` writers, each component in the rows is its first value plus
/// `writers` times `step`.
pub proof fn law_increments_add_up(
    view: Map<(u64, u64), int>,
    type_id: u64,
    rows: Seq<u64>,
    step: int,
    writers: nat,
    id: u64,
)
    requires
        view.contains_key((type_id, id)),
        rows.contains(id),
    ensures
        after_passes(view, type_id, rows, |v: int| v + step, writers)[(type_id, id)] == view[(
            type_id,
            id,
        )] + writers * step,
{
    let f = |v: int| v + step;
    law_each_pass_applies_once(view, type_id, rows, f, writers);
    lemma_applied_increment(step, writers, view[(type_id, id)]);
}

/// Adding `step` a number of times adds that many times `step`.
proof fn lemma_applied_increment(step: int, times: nat, v: int)
    ensures
        applied(|v: int| v + step, times, v) == v + times * step,
    decreases times,
{
    if times > 0 {
        lemma_applied_increment(step, (times - 1) as nat, v);
        assert((times - 1) * step + step == times * step) by (nonlinear_arith);
    } else {
        assert(0 * step == 0) by (nonlinear_arith);
    }
}

} // verus!
