//! The second pass over the built item map: priority inheritance through
//! project ancestors, pruning of project children to entries present in the
//! map, and the pipeline that normalises raw nodes into the resolved map.

use vstd::prelude::*;
use crate::action_item::{
    build_error_spec, builds_to, node_to_action_item, ActionItem, ParseError, Priority,
};
use crate::dates::{date_valid, Date};
use crate::map::ItemMap;
use crate::node::{
    expand_result, expand_timestamps, node_wf, prune_inactive_ts, skip_complete, skip_complete_spec,
    Node,
};
use crate::repeat::ActionItemRepeat;
use crate::timestamps::EXPAND_YEAR_MAX;

verus! {

/// The higher of two priorities.
pub open spec fn pmax(a: Priority, b: Priority) -> Priority {
    if b.rank_spec() > a.rank_spec() {
        b
    } else {
        a
    }
}

pub open spec fn is_project(item: ActionItem) -> bool {
    item matches ActionItem::Project { .. }
}

/// The declared priority of a project item (lowest for any other variant).
pub open spec fn declared_priority(item: ActionItem) -> Priority {
    match item {
        ActionItem::Project { priority, .. } => priority,
        ActionItem::Task { priority, .. } => priority,
        _ => Priority::Low,
    }
}

/// The highest declared priority along the chain of project ancestors
/// starting at `id`, walking at most `fuel` steps.
pub open spec fn walk_max(m: ItemMap, id: u128, fuel: nat) -> Priority
    decreases fuel,
{
    if fuel == 0 {
        Priority::Low
    } else if m.contains_id(id) && is_project(m.at(id)) {
        let rest = match m.at(id).base_spec().parent_id {
            Some(pp) => walk_max(m, pp, (fuel - 1) as nat),
            None => Priority::Low,
        };
        pmax(declared_priority(m.at(id)), rest)
    } else {
        Priority::Low
    }
}

/// What priority inheritance yields for `id`: the walk over project
/// ancestors, or nothing when `id` is not in the map.
pub open spec fn inherit_spec(m: ItemMap, id: u128) -> Option<Priority> {
    if m.contains_id(id) {
        Some(walk_max(m, id, (m.len_spec() + 1) as nat))
    } else {
        None
    }
}

/// The walk value for an optional current position.
spec fn cur_walk(m: ItemMap, cur: Option<u128>, fuel: nat) -> Priority {
    match cur {
        Some(c) => walk_max(m, c, fuel),
        None => Priority::Low,
    }
}

/// Computes the priority of the item with the given identifier by walking
/// its chain of parent projects and taking the highest declared priority
/// seen. Returns nothing when the identifier is not in the map. The walk is
/// bounded by the size of the map, so a malformed parent cycle ends it
/// rather than looping.
pub fn inherit_priority(id: u128, map: &ItemMap) -> (r: Option<Priority>)
    requires
        map.wf(),
    ensures
        r == inherit_spec(*map, id),
{
    if map.get(id).is_none() {
        return None;
    }
    let total: u128 = map.len() as u128 + 1;
    let mut highest = Priority::Low;
    let mut cur: Option<u128> = Some(id);
    let mut fuel: u128 = total;
    while fuel > 0
        invariant
            map.wf(),
            fuel <= total,
            total == map.len_spec() + 1,
            walk_max(*map, id, total as nat) == pmax(highest, cur_walk(*map, cur, fuel as nat)),
            highest.rank_spec() >= Priority::Low.rank_spec(),
        decreases fuel,
    {
        let next_cur: Option<u128> = match &cur {
            Some(cid) => match map.get(*cid) {
                Some(item) => {
                    match item {
                        ActionItem::Project { base, priority, .. } => {
                            proof {
                                assert(walk_max(*map, *cid, fuel as nat) == pmax(
                                    declared_priority(map.at(*cid)),
                                    cur_walk(*map, base.parent_id, (fuel - 1) as nat),
                                ));
                            }
                            if priority.rank() > highest.rank() {
                                highest = *priority;
                            }
                            base.parent_id
                        },
                        _ => None,
                    }
                },
                None => None,
            },
            None => None,
        };
        cur = next_cur;
        fuel = fuel - 1;
    }
    Some(highest)
}

/// The computed priority after inheritance: the inherited value when it beats
/// the declared one, otherwise whatever was recorded before.
pub open spec fn new_computed(
    m: ItemMap,
    parent_id: Option<u128>,
    declared: Priority,
    old_c: Option<Priority>,
) -> Option<Priority> {
    match parent_id {
        Some(pid) => match inherit_spec(m, pid) {
            Some(p) => if p.rank_spec() > declared.rank_spec() {
                Some(p)
            } else {
                old_c
            },
            None => old_c,
        },
        None => old_c,
    }
}

/// The child identifiers that are still present in the map, in order.
pub open spec fn pruned_children(s: Seq<u128>, m: ItemMap) -> Seq<u128>
    decreases s.len(),
{
    if s.len() == 0 {
        Seq::empty()
    } else if m.contains_id(s[0]) {
        seq![s[0]] + pruned_children(s.drop_first(), m)
    } else {
        pruned_children(s.drop_first(), m)
    }
}

/// `r` is `item` with its computed fields filled against the map `m`: tasks
/// and projects take an inherited priority when it is higher, projects have
/// their child lists pruned to entries in the map, other variants are
/// untouched.
pub open spec fn filled_rel(m: ItemMap, id: u128, r: ActionItem) -> bool {
    match m.at(id) {
        ActionItem::Task {
            base,
            priority,
            computed_priority,
            effort,
            contexts,
            people,
            can_start,
        } => match r {
            ActionItem::Task {
                base: b2,
                priority: p2,
                computed_priority: c2,
                effort: e2,
                contexts: x2,
                people: pe2,
                can_start: s2,
            } => {
                &&& b2 == base
                &&& p2 == priority
                &&& c2 == new_computed(m, base.parent_id, priority, computed_priority)
                &&& e2 == effort
                &&& x2 == contexts
                &&& pe2 == people
                &&& s2 == can_start
            },
            _ => false,
        },
        ActionItem::Project { base, priority, computed_priority, child_items } => match r {
            ActionItem::Project {
                base: b2,
                priority: p2,
                computed_priority: c2,
                child_items: ch2,
            } => {
                &&& b2 == base
                &&& p2 == priority
                &&& c2 == new_computed(m, base.parent_id, priority, computed_priority)
                &&& ch2@ == pruned_children(child_items@, m)
            },
            _ => false,
        },
        _ => r == m.at(id),
    }
}

proof fn lemma_pruned_children_step(s: Seq<u128>, m: ItemMap, i: int)
    requires
        0 <= i < s.len(),
    ensures
        m.contains_id(s[i]) ==> pruned_children(s.skip(i), m) == seq![s[i]] + pruned_children(
            s.skip(i + 1),
            m,
        ),
        !m.contains_id(s[i]) ==> pruned_children(s.skip(i), m) == pruned_children(s.skip(i + 1), m),
{
    assert(s.skip(i)[0] == s[i]);
    assert(s.skip(i).drop_first() =~= s.skip(i + 1));
}

/// Keeps the identifiers that are present in the map.
fn prune_ids(ids: &Vec<u128>, map: &ItemMap) -> (r: Vec<u128>)
    requires
        map.wf(),
    ensures
        r@ == pruned_children(ids@, *map),
{
    let mut out: Vec<u128> = Vec::new();
    let mut i: usize = 0;
    proof {
        assert(ids@.skip(0) =~= ids@);
    }
    while i < ids.len()
        invariant
            map.wf(),
            i <= ids@.len(),
            out@ + pruned_children(ids@.skip(i as int), *map) == pruned_children(ids@, *map),
        decreases ids@.len() - i,
    {
        proof {
            lemma_pruned_children_step(ids@, *map, i as int);
        }
        let ghost old_out = out@;
        if map.get(ids[i]).is_some() {
            out.push(ids[i]);
            proof {
                assert(old_out + (seq![ids@[i as int]] + pruned_children(
                    ids@.skip(i + 1),
                    *map,
                )) =~= out@ + pruned_children(ids@.skip(i + 1), *map));
            }
        }
        i = i + 1;
    }
    proof {
        assert(ids@.skip(ids@.len() as int) =~= Seq::<u128>::empty());
        assert(out@ + Seq::<u128>::empty() =~= out@);
    }
    out
}

/// Copies a list of identifiers.
fn copy_ids(ids: &Vec<u128>) -> (r: Vec<u128>)
    ensures
        r@ == ids@,
{
    let mut out: Vec<u128> = Vec::new();
    let mut i: usize = 0;
    while i < ids.len()
        invariant
            i <= ids@.len(),
            out@ == ids@.take(i as int),
        decreases ids@.len() - i,
    {
        out.push(ids[i]);
        proof {
            assert(ids@.take(i + 1) =~= ids@.take(i as int).push(ids@[i as int]));
        }
        i = i + 1;
    }
    proof {
        assert(ids@.take(ids@.len() as int) =~= ids@);
    }
    out
}

/// Completes the computed fields of the item with the given identifier:
/// inherits a higher priority from parent projects and prunes a project's
/// child list to entries still present in the map. Other entries are left
/// untouched.
pub fn fill_action_item(id: u128, map: &mut ItemMap)
    requires
        old(map).wf(),
        old(map).contains_id(id),
    ensures
        final(map).wf(),
        final(map).same_keys(*old(map)),
        final(map).len_spec() == old(map).len_spec(),
        final(map).contains_id(id),
        filled_rel(*old(map), id, final(map).at(id)),
        forall|k: u128|
            k != id && old(map).contains_id(k) ==> #[trigger] final(map).at(k) == old(map).at(k),
{
    let ghost m0 = *map;
    // Read the fields that inheritance and pruning need, before any change.
    let info: Option<(Option<u128>, Priority, Option<Vec<u128>>)> = match map.get(id) {
        Some(item) => match item {
            ActionItem::Task { base, priority, .. } => Some((base.parent_id, *priority, None)),
            ActionItem::Project { base, priority, child_items, .. } => Some(
                (base.parent_id, *priority, Some(copy_ids(child_items))),
            ),
            _ => None,
        },
        None => None,
    };

    match info {
        None => {
            proof {
                assert(filled_rel(m0, id, map.at(id)));
                assert(map.same_keys(m0));
            }
        },
        Some((parent_id, declared, kids_opt)) => {
            let pcp: Option<Priority> = match parent_id {
                Some(pid) => inherit_priority(pid, map),
                None => None,
            };
            let pruned: Option<Vec<u128>> = match kids_opt {
                Some(kids) => Some(prune_ids(&kids, map)),
                None => None,
            };
            let item = match map.remove(id) {
                Some(it) => it,
                None => unreached(),
            };
            let updated = match item {
                ActionItem::Task {
                    base,
                    priority,
                    computed_priority,
                    effort,
                    contexts,
                    people,
                    can_start,
                } => {
                    let computed_priority = match pcp {
                        Some(p) => if p.rank() > priority.rank() {
                            Some(p)
                        } else {
                            computed_priority
                        },
                        None => computed_priority,
                    };
                    ActionItem::Task {
                        base,
                        priority,
                        computed_priority,
                        effort,
                        contexts,
                        people,
                        can_start,
                    }
                },
                ActionItem::Project { base, priority, computed_priority, child_items } => {
                    let computed_priority = match pcp {
                        Some(p) => if p.rank() > priority.rank() {
                            Some(p)
                        } else {
                            computed_priority
                        },
                        None => computed_priority,
                    };
                    let child_items = match pruned {
                        Some(ch) => ch,
                        None => child_items,
                    };
                    ActionItem::Project { base, priority, computed_priority, child_items }
                },
                other => other,
            };
            map.insert(id, updated);
        },
    }
}

/// The fields that the priority walk reads agree between two items.
pub open spec fn decl_fields_eq(x: ActionItem, y: ActionItem) -> bool {
    &&& is_project(x) == is_project(y)
    &&& declared_priority(x) == declared_priority(y)
    &&& x.base_spec().parent_id == y.base_spec().parent_id
}

/// Two maps agree on everything the priority walk and pruning read: keys,
/// sizes, and each item's declared fields.
pub open spec fn decl_eq(a: ItemMap, b: ItemMap) -> bool {
    &&& a.same_keys(b)
    &&& a.len_spec() == b.len_spec()
    &&& forall|k: u128| #[trigger] a.contains_id(k) ==> decl_fields_eq(a.at(k), b.at(k))
}

proof fn lemma_walk_eq(a: ItemMap, b: ItemMap, id: u128, fuel: nat)
    requires
        decl_eq(a, b),
    ensures
        walk_max(a, id, fuel) == walk_max(b, id, fuel),
    decreases fuel,
{
    if fuel > 0 {
        assert(a.contains_id(id) == b.contains_id(id));
        if a.contains_id(id) {
            assert(decl_fields_eq(a.at(id), b.at(id)));
            if is_project(a.at(id)) {
                match a.at(id).base_spec().parent_id {
                    Some(pp) => {
                        lemma_walk_eq(a, b, pp, (fuel - 1) as nat);
                    },
                    None => {},
                }
            }
        }
    }
}

proof fn lemma_inherit_eq(a: ItemMap, b: ItemMap, id: u128)
    requires
        decl_eq(a, b),
    ensures
        inherit_spec(a, id) == inherit_spec(b, id),
{
    assert(a.contains_id(id) == b.contains_id(id));
    if a.contains_id(id) {
        lemma_walk_eq(a, b, id, (a.len_spec() + 1) as nat);
    }
}

proof fn lemma_pruned_eq(s: Seq<u128>, a: ItemMap, b: ItemMap)
    requires
        a.same_keys(b),
    ensures
        pruned_children(s, a) == pruned_children(s, b),
    decreases s.len(),
{
    if s.len() > 0 {
        assert(a.contains_id(s[0]) == b.contains_id(s[0]));
        lemma_pruned_eq(s.drop_first(), a, b);
    }
}

/// A filled item keeps the fields that the priority walk reads.
proof fn lemma_filled_decl(m: ItemMap, id: u128, r: ActionItem)
    requires
        filled_rel(m, id, r),
    ensures
        decl_fields_eq(m.at(id), r),
{
}

/// A fill computed against one map holds against any map that agrees on the
/// entry and on everything the walk and pruning read.
proof fn lemma_filled_transfer(m1: ItemMap, m2: ItemMap, id: u128, r: ActionItem)
    requires
        filled_rel(m1, id, r),
        m1.at(id) == m2.at(id),
        decl_eq(m2, m1),
    ensures
        filled_rel(m2, id, r),
{
    assert(decl_eq(m1, m2)) by {
        assert forall|k: u128| #[trigger] m1.contains_id(k) implies decl_fields_eq(
            m1.at(k),
            m2.at(k),
        ) by {
            assert(m2.contains_id(k));
        };
    };
    match m1.at(id) {
        ActionItem::Task { base, .. } => {
            match base.parent_id {
                Some(pid) => {
                    lemma_inherit_eq(m1, m2, pid);
                },
                None => {},
            }
        },
        ActionItem::Project { base, child_items, .. } => {
            match base.parent_id {
                Some(pid) => {
                    lemma_inherit_eq(m1, m2, pid);
                },
                None => {},
            }
            lemma_pruned_eq(child_items@, m1, m2);
        },
        _ => {},
    }
}

/// There is a pruning of `n` that the builder turns into `item` with the
/// given horizon's occurrences.
pub open spec fn built_entry(n: Node, until: Date, item: ActionItem) -> bool {
    exists|pn: Node|
        {
            &&& #[trigger] crate::node::pruned_rel(n, pn)
            &&& build_error_spec(pn) is None
            &&& exists|occs: Seq<ActionItemRepeat>|
                #[trigger] expand_result(pn, until, occs) && builds_to(pn, occs, item)
        }
}

/// The builder rejects the pruning of `n` with the error `e`.
pub open spec fn entry_fails(n: Node, e: ParseError) -> bool {
    exists|pn: Node| #[trigger] crate::node::pruned_rel(n, pn) && build_error_spec(pn) == Some(e)
}

/// `mb` holds exactly the non-completed nodes of `ns`, each built from its
/// pruned form and expanded occurrences.
pub open spec fn is_built_map(ns: Seq<Node>, dks: Seq<String>, until: Date, mb: ItemMap) -> bool {
    &&& mb.wf()
    &&& forall|i: int|
        0 <= i < ns.len() ==> (skip_complete_spec(#[trigger] ns[i], dks) <==> mb.contains_id(
            ns[i].id,
        ))
    &&& forall|k: u128|
        #[trigger] mb.contains_id(k) ==> exists|i: int| 0 <= i < ns.len() && #[trigger] ns[i].id
            == k
    &&& forall|i: int|
        0 <= i < ns.len() && skip_complete_spec(#[trigger] ns[i], dks) ==> built_entry(
            ns[i],
            until,
            mb.at(ns[i].id),
        )
}

/// Normalises the given raw nodes to a map of parsed action items, repeated
/// until the given date: completed nodes are skipped, inactive timestamps
/// discarded, timestamps expanded, each node built into its item, and the
/// computed fields filled in a second pass over the whole map.
pub fn normalize_action_items(
    nodes: Vec<Node>,
    done_keywords: &Vec<String>,
    until: Date,
) -> (r: Result<ItemMap, ParseError>)
    requires
        forall|i: int| 0 <= i < nodes@.len() ==> node_wf(#[trigger] nodes@[i]),
        forall|i: int, j: int|
            0 <= i < j < nodes@.len() ==> #[trigger] nodes@[i].id != #[trigger] nodes@[j].id,
        date_valid(until),
        until.year <= EXPAND_YEAR_MAX,
    ensures
        match r {
            Ok(m) => {
                &&& m.wf()
                &&& exists|mb: ItemMap|
                    {
                        &&& #[trigger] is_built_map(nodes@, done_keywords@, until, mb)
                        &&& m.same_keys(mb)
                        &&& forall|k: u128|
                            #[trigger] m.contains_id(k) ==> filled_rel(mb, k, m.at(k))
                    }
            },
            Err(e) => exists|i: int|
                {
                    &&& 0 <= i < nodes@.len()
                    &&& skip_complete_spec(#[trigger] nodes@[i], done_keywords@)
                    &&& entry_fails(nodes@[i], e)
                },
        },
{
    let ghost ns = nodes@;
    let mut queue = nodes;
    let mut mb = ItemMap::new();
    let ghost mut done: int = 0;
    while queue.len() > 0
        invariant
            ns == nodes@,
            0 <= done <= ns.len(),
            queue@ == ns.skip(done),
            forall|i: int| 0 <= i < ns.len() ==> node_wf(#[trigger] ns[i]),
            forall|i: int, j: int|
                0 <= i < j < ns.len() ==> #[trigger] ns[i].id != #[trigger] ns[j].id,
            date_valid(until),
            until.year <= EXPAND_YEAR_MAX,
            mb.wf(),
            forall|j: int|
                0 <= j < done ==> (skip_complete_spec(#[trigger] ns[j], done_keywords@)
                    <==> mb.contains_id(ns[j].id)),
            forall|k: u128|
                #[trigger] mb.contains_id(k) ==> exists|j: int| 0 <= j < done && #[trigger] ns[j].id
                    == k,
            forall|j: int|
                0 <= j < done && skip_complete_spec(#[trigger] ns[j], done_keywords@)
                    ==> built_entry(ns[j], until, mb.at(ns[j].id)),
        decreases queue@.len(),
    {
        let node = queue.remove(0);
        proof {
            assert(node == ns[done]);
            assert(ns.skip(done).remove(0) =~= ns.skip(done + 1));
        }
        let ghost node_g = node;
        let nid = node.id;
        if skip_complete(&node, done_keywords) {
            let pn = prune_inactive_ts(node);
            let ghost pn_g = pn;
            proof {
                crate::node::lemma_pruned_wf(node_g, pn_g);
            }
            let occs = expand_timestamps(&pn, until);
            let ghost occs_g = occs@;
            match node_to_action_item(pn, occs) {
                Ok(item) => {
                    let ghost mb_before = mb;
                    mb.insert(nid, item);
                    proof {
                        assert(built_entry(ns[done], until, item));
                        // Entries of earlier nodes keep their values: their
                        // identifiers differ from this node's.
                        assert forall|j: int|
                            0 <= j < done + 1 && skip_complete_spec(
                                #[trigger] ns[j],
                                done_keywords@,
                            ) implies built_entry(ns[j], until, mb.at(ns[j].id)) by {
                            if j < done {
                                assert(ns[j].id != nid);
                            }
                        };
                        assert forall|k: u128| #[trigger] mb.contains_id(k) implies exists|j: int|
                            0 <= j < done + 1 && #[trigger] ns[j].id == k by {
                            if k != nid {
                                assert(mb_before.contains_id(k));
                            } else {
                                assert(ns[done].id == k);
                            }
                        };
                    }
                },
                Err(e) => {
                    proof {
                        assert(crate::node::pruned_rel(ns[done], pn_g));
                        assert(entry_fails(ns[done], e));
                        assert(skip_complete_spec(ns[done], done_keywords@));
                        assert(0 <= done < ns.len());
                        assert(exists|i: int|
                            0 <= i < ns.len() && skip_complete_spec(
                                #[trigger] ns[i],
                                done_keywords@,
                            ) && entry_fails(ns[i], e));
                    }
                    return Err(e);
                },
            }
        } else {
            proof {
                if mb.contains_id(nid) {
                    let j = choose|j: int| 0 <= j < done && #[trigger] ns[j].id == nid;
                    assert(ns[j].id != ns[done].id);
                }
            }
        }
        proof {
            done = done + 1;
        }
    }
    proof {
        assert(ns.skip(ns.len() as int).len() == 0);
        assert(done == ns.len());
        assert(is_built_map(ns, done_keywords@, until, mb));
    }

    // Second pass: fill the computed fields of every item, reading only the
    // declared fields of the map, so each fill is independent of the others.
    let ghost mb0 = mb;
    let ids = mb.ids();
    let mut m = mb;
    proof {
        assert forall|j: int| 0 <= j < ids@.len() implies mb0.contains_id(
            #[trigger] ids@[j],
        ) && mb0.at(ids@[j]) == mb0.entry_item(j) && ids@[j] == mb0.entry_key(j) by {
            mb0.lemma_entry_at(j);
        };
        assert forall|j1: int, j2: int| 0 <= j1 < j2 < ids@.len() implies #[trigger] ids@[j1]
            != #[trigger] ids@[j2] by {
            mb0.lemma_entry_at(j1);
            mb0.lemma_entry_at(j2);
        };
        assert forall|k: u128| #[trigger] mb0.contains_id(k) implies exists|j: int|
            0 <= j < ids@.len() && ids@[j] == k by {
            mb0.lemma_contains_index(k);
            let i = mb0.index_of(k);
            assert(ids@[i] == k);
        };
    }
    let mut idx: usize = 0;
    while idx < ids.len()
        invariant
            idx <= ids@.len(),
            ids@.len() == mb0.len_spec(),
            forall|j: int| 0 <= j < ids@.len() ==> mb0.contains_id(#[trigger] ids@[j]),
            forall|j1: int, j2: int|
                0 <= j1 < j2 < ids@.len() ==> #[trigger] ids@[j1] != #[trigger] ids@[j2],
            forall|k: u128|
                #[trigger] mb0.contains_id(k) ==> exists|j: int|
                    0 <= j < ids@.len() && ids@[j] == k,
            mb0.wf(),
            m.wf(),
            m.same_keys(mb0),
            m.len_spec() == mb0.len_spec(),
            decl_eq(mb0, m),
            forall|j: int|
                0 <= j < idx ==> filled_rel(mb0, #[trigger] ids@[j], m.at(ids@[j])),
            forall|j: int| idx <= j < ids@.len() ==> m.at(#[trigger] ids@[j]) == mb0.at(ids@[j]),
        decreases ids@.len() - idx,
    {
        let id = ids[idx];
        let ghost m_before = m;
        proof {
            assert(m.contains_id(id));
        }
        fill_action_item(id, &mut m);
        proof {
            assert(m_before.at(id) == mb0.at(id));
            lemma_filled_transfer(m_before, mb0, id, m.at(id));
            lemma_filled_decl(mb0, id, m.at(id));
            assert forall|k: u128| #[trigger] mb0.contains_id(k) implies decl_fields_eq(
                mb0.at(k),
                m.at(k),
            ) by {
                if k != id {
                    assert(m.at(k) == m_before.at(k));
                }
            };
            assert forall|j: int| idx + 1 <= j < ids@.len() implies m.at(#[trigger] ids@[j])
                == mb0.at(ids@[j]) by {
                assert(ids@[j] != id);
            };
            assert forall|j: int| 0 <= j < idx + 1 implies filled_rel(
                mb0,
                #[trigger] ids@[j],
                m.at(ids@[j]),
            ) by {
                if j < idx {
                    assert(ids@[j] != id);
                    assert(m.at(ids@[j]) == m_before.at(ids@[j]));
                }
            };
        }
        idx = idx + 1;
    }
    proof {
        assert forall|k: u128| #[trigger] m.contains_id(k) implies filled_rel(
            mb0,
            k,
            m.at(k),
        ) by {
            assert(mb0.contains_id(k));
            let j = choose|j: int| 0 <= j < ids@.len() && #[trigger] ids@[j] == k;
            assert(filled_rel(mb0, ids@[j], m.at(ids@[j])));
        };
        assert(is_built_map(ns, done_keywords@, until, mb0));
    }
    Ok(m)
}

} // verus!
