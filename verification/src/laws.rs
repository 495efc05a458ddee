//! The temporal and structural laws of resolution, proved over the resolver
//! and fill specifications.

use vstd::prelude::*;
use crate::action_item::{ActionItem, Priority};
use crate::dates::{date_min, moment_le, moment_lt, moment_valid, prev_day_spec, Moment};
use crate::map::ItemMap;
use crate::normalize::{declared_priority, filled_rel, inherit_spec, is_project, walk_max};
use crate::resolve::{
    buffer_applies, children_of, map_occs_valid, min_dt_spec, moment_minus_day_spec, occs_valid,
    parent_project, resolve_spec, sibling_fold, sibling_step,
};

verus! {

/// Two moments are always ordered one way or the other.
proof fn lemma_moment_total(a: Moment, b: Moment)
    ensures
        moment_le(a, b) || moment_lt(b, a),
{
}

/// A moment moved back a day never moves forward.
proof fn lemma_minus_day_le(m: Moment)
    requires
        moment_valid(m),
    ensures
        moment_le(moment_minus_day_spec(m), m),
{
    if m.date != date_min() {
        crate::dates::lemma_prev_day(m.date);
    }
}

/// The sibling fold never loses the accumulator's bound: starting from a
/// moment at or before `bound`, it yields a moment at or before `bound`.
proof fn lemma_fold_le(m: ItemMap, kids: Seq<u128>, idx: int, acc: (Option<Moment>, bool), bound: Moment)
    requires
        acc.0 is Some,
        moment_le(acc.0.unwrap(), bound),
    ensures
        sibling_fold(m, kids, idx, acc).0 is Some,
        moment_le(sibling_fold(m, kids, idx, acc).0.unwrap(), bound),
    decreases kids.len(),
{
    if kids.len() > 0 {
        let acc2 = sibling_step(m, kids[0], idx, acc);
        assert(acc2.0 is Some && moment_le(acc2.0.unwrap(), bound));
        lemma_fold_le(m, kids.drop_first(), idx, acc2, bound);
    }
}

/// Scheduled-before-deadline: whenever resolution succeeds and both a
/// scheduled and a deadline moment are present in the resolved occurrence,
/// the scheduled moment is at or before the deadline; an occurrence that
/// would violate this is rejected with a consistency error instead.
pub proof fn lemma_scheduled_before_deadline(item: ActionItem, idx: int, m: ItemMap)
    requires
        resolve_spec(item, idx, m) is Ok,
        resolve_spec(item, idx, m).unwrap().0.scheduled is Some,
        resolve_spec(item, idx, m).unwrap().0.deadline is Some,
    ensures
        moment_le(
            resolve_spec(item, idx, m).unwrap().0.scheduled.unwrap(),
            resolve_spec(item, idx, m).unwrap().0.deadline.unwrap(),
        ),
{
    let occ = resolve_spec(item, idx, m).unwrap().0;
    lemma_moment_total(occ.scheduled.unwrap(), occ.deadline.unwrap());
}

/// Deadline monotonicity: when an item's parent project declares a deadline
/// at the shared occurrence index, a successful resolution of the item gives
/// it a deadline at or before the parent's, and the parent's own successful
/// resolution keeps that declared deadline; an item whose deadline would land
/// after the parent's is rejected with a consistency error instead.
pub proof fn lemma_deadline_monotonic(m: ItemMap, item: ActionItem, idx: int)
    requires
        map_occs_valid(m),
        parent_project(m, item) is Some,
        0 <= idx < item.base_spec().repeats@.len(),
        idx < parent_project(m, item).unwrap().base_spec().repeats@.len(),
        parent_project(m, item).unwrap().base_spec().repeats@[idx].deadline is Some,
        resolve_spec(item, idx, m) is Ok,
    ensures
        resolve_spec(item, idx, m).unwrap().0.deadline is Some,
        moment_le(
            resolve_spec(item, idx, m).unwrap().0.deadline.unwrap(),
            parent_project(m, item).unwrap().base_spec().repeats@[idx].deadline.unwrap(),
        ),
        resolve_spec(parent_project(m, item).unwrap(), idx, m) is Ok ==> resolve_spec(
            parent_project(m, item).unwrap(),
            idx,
            m,
        ).unwrap().0.deadline == parent_project(m, item).unwrap().base_spec().repeats@[idx].deadline,
{
    let parent = parent_project(m, item).unwrap();
    let prepeat = parent.base_spec().repeats@[idx];
    let occ = item.base_spec().repeats@[idx];
    let pd = prepeat.deadline.unwrap();
    let dead = if occ.deadline is None && prepeat.deadline is Some {
        prepeat.deadline
    } else {
        occ.deadline
    };
    lemma_moment_total(dead.unwrap(), pd);
    if buffer_applies(item) {
        let folded = sibling_fold(m, children_of(parent), idx, (prepeat.deadline, false));
        lemma_fold_le(m, children_of(parent), idx, (prepeat.deadline, false), pd);
        let pid = item.base_spec().parent_id.unwrap();
        assert(occs_valid(m.at(pid)));
        assert(crate::resolve::occ_valid(parent.base_spec().repeats@[idx]));
        crate::resolve::lemma_sibling_fold_valid(
            m,
            children_of(parent),
            idx,
            (prepeat.deadline, false),
        );
        lemma_minus_day_le(folded.0.unwrap());
    }
    // The parent is a project, so the buffer never applies to it, and its
    // declared deadline survives inheritance unchanged.
    assert(!buffer_applies(parent));
}

/// No element of the child list is a non-actionable task in the map, so the
/// sibling fold leaves the accumulator alone.
proof fn lemma_fold_nocontrib(m: ItemMap, kids: Seq<u128>, idx: int, acc: (Option<Moment>, bool))
    requires
        forall|j: int|
            0 <= j < kids.len() ==> !(m.contains_id(#[trigger] kids[j]) && (m.at(kids[j]) matches
            ActionItem::Task { can_start: false, .. })),
    ensures
        sibling_fold(m, kids, idx, acc) == acc,
    decreases kids.len(),
{
    if kids.len() > 0 {
        assert(sibling_step(m, kids[0], idx, acc) == acc);
        assert(forall|j: int|
            0 <= j < kids.drop_first().len() ==> kids.drop_first()[j] == kids[j + 1]);
        lemma_fold_nocontrib(m, kids.drop_first(), idx, acc);
    }
}

/// The sibling fold of a concatenation folds the parts in order.
proof fn lemma_fold_append(
    m: ItemMap,
    x: Seq<u128>,
    y: Seq<u128>,
    idx: int,
    acc: (Option<Moment>, bool),
)
    ensures
        sibling_fold(m, x + y, idx, acc) == sibling_fold(m, y, idx, sibling_fold(m, x, idx, acc)),
    decreases x.len(),
{
    if x.len() == 0 {
        assert(x + y =~= y);
    } else {
        assert((x + y)[0] == x[0]);
        assert((x + y).drop_first() =~= x.drop_first() + y);
        lemma_fold_append(m, x.drop_first(), y, idx, sibling_step(m, x[0], idx, acc));
    }
}

/// Sibling buffer: a project holding an actionable task (with no deadline of
/// its own, under a project with none either) and exactly one non-actionable
/// sibling task with deadline `d` resolves the actionable task's deadline to
/// one day before `d`, and reports that such siblings exist.
pub proof fn lemma_sibling_buffer(
    m: ItemMap,
    item: ActionItem,
    idx: int,
    bid: u128,
    p: int,
    d: Moment,
)
    requires
        map_occs_valid(m),
        item matches ActionItem::Task { can_start: true, .. },
        parent_project(m, item) is Some,
        0 <= idx < item.base_spec().repeats@.len(),
        idx < parent_project(m, item).unwrap().base_spec().repeats@.len(),
        // The project imposes no dates of its own at this index.
        parent_project(m, item).unwrap().base_spec().repeats@[idx].deadline is None,
        parent_project(m, item).unwrap().base_spec().repeats@[idx].scheduled is None,
        // The actionable task has no dates of its own at this index.
        item.base_spec().repeats@[idx].scheduled is None,
        item.base_spec().repeats@[idx].deadline is None,
        // The non-actionable sibling stands at position `p` of the child
        // list, carries deadline `d` and no scheduled moment at this index.
        0 <= p < children_of(parent_project(m, item).unwrap()).len(),
        children_of(parent_project(m, item).unwrap())[p] == bid,
        m.contains_id(bid),
        m.at(bid) matches ActionItem::Task { can_start: false, .. },
        idx < m.at(bid).base_spec().repeats@.len(),
        m.at(bid).base_spec().repeats@[idx].scheduled is None,
        m.at(bid).base_spec().repeats@[idx].deadline == Some(d),
        // No other child is a non-actionable task in the map.
        forall|j: int|
            0 <= j < children_of(parent_project(m, item).unwrap()).len() && j != p ==> !(
            m.contains_id(#[trigger] children_of(parent_project(m, item).unwrap())[j]) && (m.at(
                children_of(parent_project(m, item).unwrap())[j],
            ) matches ActionItem::Task { can_start: false, .. })),
    ensures
        resolve_spec(item, idx, m) is Ok,
        resolve_spec(item, idx, m).unwrap().0.deadline == Some(moment_minus_day_spec(d)),
        d.date != date_min() ==> resolve_spec(item, idx, m).unwrap().0.deadline == Some(
            Moment { date: prev_day_spec(d.date), secs: d.secs },
        ),
        resolve_spec(item, idx, m).unwrap().1 == true,
{
    let parent = parent_project(m, item).unwrap();
    let kids = children_of(parent);
    let pre = kids.take(p);
    let post = kids.skip(p + 1);
    assert(kids =~= pre + (seq![bid] + post));
    assert(forall|j: int| 0 <= j < pre.len() ==> pre[j] == kids[j]);
    assert(forall|j: int| 0 <= j < post.len() ==> post[j] == kids[j + p + 1]);
    let acc0: (Option<Moment>, bool) = (None, false);
    lemma_fold_append(m, pre, seq![bid] + post, idx, acc0);
    lemma_fold_nocontrib(m, pre, idx, acc0);
    let acc1 = sibling_step(m, bid, idx, acc0);
    assert(acc1 == (Some(d), true)) by {
        assert(min_dt_spec(min_dt_spec(acc0.0, None), Some(d)) == Some(d));
    };
    assert((seq![bid] + post)[0] == bid);
    assert((seq![bid] + post).drop_first() =~= post);
    lemma_fold_nocontrib(m, post, idx, acc1);
    assert(sibling_fold(m, seq![bid] + post, idx, acc0) == sibling_fold(
        m,
        post,
        idx,
        acc1,
    ));
    assert(sibling_fold(m, kids, idx, acc0) == acc1);
    let occ = item.base_spec().repeats@[idx];
    let prepeat = parent.base_spec().repeats@[idx];
    assert(prepeat.deadline is None);
    assert(sibling_fold(m, kids, idx, (prepeat.deadline, false)) == acc1);
    assert(buffer_applies(item));
    assert(resolve_spec(item, idx, m) == Ok::<(crate::repeat::ActionItemRepeat, bool), crate::resolve::ConsistencyError>((
        crate::repeat::ActionItemRepeat {
            primary: prepeat.primary,
            scheduled: occ.scheduled,
            deadline: Some(moment_minus_day_spec(d)),
        },
        true,
    )));
}

/// The resolved priority of an item: the computed (inherited) priority when
/// one was recorded, else the declared one.
pub open spec fn resolved_priority(item: ActionItem) -> Priority {
    match item {
        ActionItem::Task { priority, computed_priority, .. } => match computed_priority {
            Some(c) => c,
            None => priority,
        },
        ActionItem::Project { priority, computed_priority, .. } => match computed_priority {
            Some(c) => c,
            None => priority,
        },
        _ => Priority::Low,
    }
}

/// The identifier `k` steps up the parent chain from `id`.
pub open spec fn chain_id(m: ItemMap, id: u128, k: nat) -> u128
    decreases k,
{
    if k == 0 {
        id
    } else {
        match m.at(chain_id(m, id, (k - 1) as nat)).base_spec().parent_id {
            Some(pp) => pp,
            None => chain_id(m, id, (k - 1) as nat),
        }
    }
}

/// The first `k + 1` links of the chain from `id` are projects in the map.
pub open spec fn chain_ok(m: ItemMap, id: u128, k: nat) -> bool
    decreases k,
{
    if k == 0 {
        m.contains_id(id) && is_project(m.at(id))
    } else {
        &&& chain_ok(m, id, (k - 1) as nat)
        &&& m.at(chain_id(m, id, (k - 1) as nat)).base_spec().parent_id is Some
        &&& m.contains_id(chain_id(m, id, k))
        &&& is_project(m.at(chain_id(m, id, k)))
    }
}

/// The walk sees at least the declared priority of every project within its
/// fuel along the chain.
pub proof fn lemma_walk_ge_chain(m: ItemMap, id: u128, fuel: nat, k: nat)
    requires
        chain_ok(m, id, k),
        k < fuel,
    ensures
        walk_max(m, id, fuel).rank_spec() >= declared_priority(m.at(chain_id(m, id, k))).rank_spec(),
    decreases k,
{
    if k == 0 {
        assert(walk_max(m, id, fuel) == crate::normalize::pmax(
            declared_priority(m.at(id)),
            match m.at(id).base_spec().parent_id {
                Some(pp) => walk_max(m, pp, (fuel - 1) as nat),
                None => Priority::Low,
            },
        ));
    } else {
        let pp = m.at(id).base_spec().parent_id;
        lemma_chain_ok_prefix(m, id, k);
        assert(chain_ok(m, id, 0));
        assert(chain_ok(m, id, 1));
        lemma_chain_shift(m, id, k);
        lemma_walk_ge_chain(m, pp.unwrap(), (fuel - 1) as nat, (k - 1) as nat);
        assert(walk_max(m, id, fuel) == crate::normalize::pmax(
            declared_priority(m.at(id)),
            walk_max(m, pp.unwrap(), (fuel - 1) as nat),
        ));
    }
}

/// Shifts a chain fact one link up: the chain from `id` continued past its
/// first parent is the chain from that parent.
proof fn lemma_chain_shift(m: ItemMap, id: u128, k: nat)
    requires
        chain_ok(m, id, k),
        k >= 1,
    ensures
        m.at(id).base_spec().parent_id is Some,
        chain_ok(m, m.at(id).base_spec().parent_id.unwrap(), (k - 1) as nat),
        chain_id(m, m.at(id).base_spec().parent_id.unwrap(), (k - 1) as nat) == chain_id(m, id, k),
    decreases k,
{
    let pp = m.at(id).base_spec().parent_id;
    if k == 1 {
        assert(chain_ok(m, id, 0));
        assert(chain_id(m, id, 0) == id);
        assert(pp is Some);
        assert(chain_id(m, id, 1) == pp.unwrap());
    } else {
        lemma_chain_shift(m, id, (k - 1) as nat);
        assert(chain_id(m, pp.unwrap(), (k - 2) as nat) == chain_id(m, id, (k - 1) as nat));
        assert(chain_id(m, pp.unwrap(), (k - 1) as nat) == chain_id(m, id, k));
        assert(chain_ok(m, pp.unwrap(), (k - 1) as nat));
    }
}

/// Priority monotonicity: the filled item's resolved priority is at least
/// its declared one, and at least the declared priority of every project
/// ancestor that the bounded walk reaches.
pub proof fn lemma_priority_monotonicity(mb: ItemMap, id: u128, r: ActionItem, k: nat)
    requires
        mb.contains_id(id),
        filled_rel(mb, id, r),
        mb.at(id) matches ActionItem::Task { computed_priority: Option::None, .. } || mb.at(
            id,
        ) matches ActionItem::Project { computed_priority: Option::None, .. },
    ensures
        resolved_priority(r).rank_spec() >= declared_priority(mb.at(id)).rank_spec(),
        (mb.at(id).base_spec().parent_id is Some && chain_ok(
            mb,
            mb.at(id).base_spec().parent_id.unwrap(),
            k,
        ) && k + 1 < mb.len_spec() + 1) ==> resolved_priority(r).rank_spec() >= declared_priority(
            mb.at(chain_id(mb, mb.at(id).base_spec().parent_id.unwrap(), k)),
        ).rank_spec(),
{
    match mb.at(id).base_spec().parent_id {
        Some(pid) => {
            if chain_ok(mb, pid, k) && k + 1 < mb.len_spec() + 1 {
                assert(mb.contains_id(pid)) by {
                    if k == 0 {
                    } else {
                        assert(chain_ok(mb, pid, 0)) by {
                            lemma_chain_ok_prefix(mb, pid, k);
                        };
                    }
                };
                lemma_walk_ge_chain(mb, pid, (mb.len_spec() + 1) as nat, k);
                assert(inherit_spec(mb, pid) == Some(
                    walk_max(mb, pid, (mb.len_spec() + 1) as nat),
                ));
            }
        },
        None => {},
    }
}

/// The walk never exceeds the chain: its value is the lowest priority or
/// the declared priority of some project along the chain within the fuel,
/// so together with the lower bounds the walk is exactly the maximum
/// declared priority among the item and its project ancestors.
pub proof fn lemma_walk_le_chain(m: ItemMap, id: u128, fuel: nat)
    ensures
        walk_max(m, id, fuel) == Priority::Low || exists|k: nat|
            #![trigger chain_id(m, id, k)]
            k < fuel && chain_ok(m, id, k) && declared_priority(m.at(chain_id(m, id, k)))
                == walk_max(m, id, fuel),
    decreases fuel,
{
    if fuel == 0 {
    } else if m.contains_id(id) && is_project(m.at(id)) {
        let rest = match m.at(id).base_spec().parent_id {
            Some(pp) => walk_max(m, pp, (fuel - 1) as nat),
            None => Priority::Low,
        };
        let w = walk_max(m, id, fuel);
        if w == declared_priority(m.at(id)) {
            assert(chain_ok(m, id, 0));
            assert(chain_id(m, id, 0) == id);
            assert(0 < fuel && chain_ok(m, id, 0) && declared_priority(m.at(chain_id(m, id, 0)))
                == w);
        } else {
            // The rest of the walk won, so the parent chain supplies the
            // witness, shifted down one link.
            assert(w == rest);
            let pp = m.at(id).base_spec().parent_id.unwrap();
            lemma_walk_le_chain(m, pp, (fuel - 1) as nat);
            if rest != Priority::Low {
                let k = choose|k: nat|
                    #![trigger chain_id(m, pp, k)]
                    k < (fuel - 1) as nat && chain_ok(m, pp, k) && declared_priority(
                        m.at(chain_id(m, pp, k)),
                    ) == rest;
                lemma_chain_unshift(m, id, k);
                assert(chain_id(m, id, k + 1) == chain_id(m, pp, k));
                assert(chain_ok(m, id, k + 1));
            }
        }
    }
}

/// Extends a chain fact of the parent one link down to the item itself.
proof fn lemma_chain_unshift(m: ItemMap, id: u128, k: nat)
    requires
        m.contains_id(id),
        is_project(m.at(id)),
        m.at(id).base_spec().parent_id is Some,
        chain_ok(m, m.at(id).base_spec().parent_id.unwrap(), k),
    ensures
        chain_ok(m, id, k + 1),
        chain_id(m, id, k + 1) == chain_id(m, m.at(id).base_spec().parent_id.unwrap(), k),
    decreases k,
{
    let pp = m.at(id).base_spec().parent_id.unwrap();
    if k == 0 {
        assert(chain_ok(m, id, 0));
        assert(chain_id(m, id, 1) == pp);
    } else {
        lemma_chain_unshift(m, id, (k - 1) as nat);
        assert(chain_id(m, id, k) == chain_id(m, pp, (k - 1) as nat));
        assert(chain_id(m, id, k + 1) == chain_id(m, pp, k));
    }
}

/// The other half of priority inheritance: the resolved priority never
/// exceeds the chain. It is the item's own declared priority, or the
/// declared priority of some project ancestor within the bounded walk; with
/// `lemma_priority_monotonicity` and `lemma_walk_ge_chain` it is therefore
/// exactly the maximum declared priority among the item and its project
/// ancestors.
pub proof fn lemma_priority_from_chain(mb: ItemMap, id: u128, r: ActionItem)
    requires
        mb.contains_id(id),
        filled_rel(mb, id, r),
        mb.at(id) matches ActionItem::Task { computed_priority: Option::None, .. } || mb.at(
            id,
        ) matches ActionItem::Project { computed_priority: Option::None, .. },
    ensures
        resolved_priority(r) == declared_priority(mb.at(id)) || (mb.at(id).base_spec().parent_id
            is Some && exists|k: nat|
            #![trigger chain_id(mb, mb.at(id).base_spec().parent_id.unwrap(), k)]
            {
                &&& k < mb.len_spec() + 1
                &&& chain_ok(mb, mb.at(id).base_spec().parent_id.unwrap(), k)
                &&& declared_priority(
                    mb.at(chain_id(mb, mb.at(id).base_spec().parent_id.unwrap(), k)),
                ) == resolved_priority(r)
            }),
{
    match mb.at(id).base_spec().parent_id {
        Some(pid) => {
            if mb.contains_id(pid) {
                let fuel = (mb.len_spec() + 1) as nat;
                let w = walk_max(mb, pid, fuel);
                lemma_walk_le_chain(mb, pid, fuel);
                if w.rank_spec() > declared_priority(mb.at(id)).rank_spec() {
                    // The walk won, so it names some chain member: it is not
                    // the floor, since it strictly exceeds a declared rank.
                    assert(w != Priority::Low);
                    assert(resolved_priority(r) == w);
                } else {
                    assert(resolved_priority(r) == declared_priority(mb.at(id)));
                }
            } else {
                assert(resolved_priority(r) == declared_priority(mb.at(id)));
            }
        },
        None => {
            assert(resolved_priority(r) == declared_priority(mb.at(id)));
        },
    }
}

/// Any prefix of a good chain is good.
proof fn lemma_chain_ok_prefix(m: ItemMap, id: u128, k: nat)
    requires
        chain_ok(m, id, k),
    ensures
        forall|j: nat| j <= k ==> #[trigger] chain_ok(m, id, j),
    decreases k,
{
    if k > 0 {
        lemma_chain_ok_prefix(m, id, (k - 1) as nat);
        assert forall|j: nat| j <= k implies #[trigger] chain_ok(m, id, j) by {
            if j < k {
                assert(chain_ok(m, id, j));
            }
        };
    }
}

} // verus!
