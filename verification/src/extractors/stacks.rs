//! The stack view: the container holding tank, like the project view but
//! with its child tasks and waiting items fully resolved and embedded.

use vstd::prelude::*;
use crate::action_item::{ActionItem, Priority};
use crate::dates::Moment;
use crate::extractors::projects::map_titles_ok;
use crate::extractors::tasks::{task_matches, Task};
use crate::extractors::waiting::{waiting_matches, Waiting};
use crate::map::ItemMap;
use crate::resolve::{
    compute_from_parent, map_occs_valid, occs_valid, resolve_spec, ConsistencyError,
};
use crate::strutil::{clone_opt_string, clone_pairs, clone_strings, last_title};
use crate::timestamps::SimpleTimestamp;

verus! {

/// A stack: a collection of tasks and waiting items to pull from, carrying
/// the fully resolved records of its children.
#[derive(Debug)]
pub struct Stack {
    /// The identifier of the node corresponding to this stack.
    pub id: u128,
    /// The title of the stack.
    pub title: String,
    /// The body of the stack, if there is one.
    pub body: Option<String>,
    /// The stack's primary timestamp at this occurrence, if it has one.
    pub timestamp: Option<SimpleTimestamp>,
    /// When the user should start working on this stack.
    pub scheduled: Option<Moment>,
    /// When the user must complete this stack by.
    pub deadline: Option<Moment>,
    /// The resolved priority, inherited from parent containers.
    pub priority: Priority,
    /// The actionable tasks on this stack, fully resolved.
    pub actionable_tasks: Vec<Task>,
    /// The non-actionable tasks on this stack, fully resolved.
    pub next_tasks: Vec<Task>,
    /// The items being waited for within this stack, fully resolved.
    pub waiting: Vec<Waiting>,
}

/// Every item of the map has at least one occurrence.
pub open spec fn map_repeats_nonempty(m: ItemMap) -> bool {
    forall|k: u128| #[trigger] m.contains_id(k) ==> m.at(k).base_spec().repeats@.len() >= 1
}

/// The running classification of a stack's children, by identifier.
pub struct StackScan {
    pub acts: Seq<u128>,
    pub nexts: Seq<u128>,
    pub waits: Seq<u128>,
    pub has_scheduled_wait: bool,
    pub has_substacks: bool,
}

pub open spec fn stack_scan_empty() -> StackScan {
    StackScan {
        acts: Seq::empty(),
        nexts: Seq::empty(),
        waits: Seq::empty(),
        has_scheduled_wait: false,
        has_substacks: false,
    }
}

/// One step of the stack scan: task and waiting children are resolved at
/// their first occurrence (a violation there stops the scan), waiting items
/// with resolved dates mark the stack as having dated waits, and container
/// children count as substacks.
pub open spec fn stack_step(m: ItemMap, kid: u128, acc: StackScan) -> Result<
    StackScan,
    ConsistencyError,
> {
    if m.contains_id(kid) {
        match m.at(kid) {
            ActionItem::Task { can_start, .. } => match resolve_spec(m.at(kid), 0, m) {
                Err(e) => Err(e),
                Ok(_) => if can_start {
                    Ok(StackScan { acts: acc.acts.push(kid), ..acc })
                } else {
                    Ok(StackScan { nexts: acc.nexts.push(kid), ..acc })
                },
            },
            ActionItem::Waiting { .. } => match resolve_spec(m.at(kid), 0, m) {
                Err(e) => Err(e),
                Ok(rb) => Ok(
                    StackScan {
                        waits: acc.waits.push(kid),
                        has_scheduled_wait: acc.has_scheduled_wait || rb.0.scheduled is Some
                            || rb.0.deadline is Some,
                        ..acc
                    },
                ),
            },
            ActionItem::Project { .. } => Ok(StackScan { has_substacks: true, ..acc }),
            _ => Ok(acc),
        }
    } else {
        Ok(acc)
    }
}

pub open spec fn stack_scan(m: ItemMap, kids: Seq<u128>, acc: StackScan) -> Result<
    StackScan,
    ConsistencyError,
>
    decreases kids.len(),
{
    if kids.len() == 0 {
        Ok(acc)
    } else {
        match stack_step(m, kids[0], acc) {
            Err(e) => Err(e),
            Ok(acc2) => stack_scan(m, kids.drop_first(), acc2),
        }
    }
}

/// The classification of a stack item's children.
pub open spec fn stack_scan_of(m: ItemMap, item: ActionItem) -> Result<
    StackScan,
    ConsistencyError,
> {
    stack_scan(m, crate::resolve::children_of(item), stack_scan_empty())
}

/// The stack has neither an actionable task, nor a dated waiting item, nor a
/// substack.
pub open spec fn stack_empty(m: ItemMap, item: ActionItem) -> bool {
    match stack_scan_of(m, item) {
        Ok(s) => s.acts.len() == 0 && (s.waits.len() == 0 || !s.has_scheduled_wait)
            && !s.has_substacks,
        Err(_) => false,
    }
}

/// `s` is the stack record of occurrence `idx` of the container item.
pub open spec fn stack_matches(item: ActionItem, m: ItemMap, idx: int, s: Stack) -> bool {
    match item {
        ActionItem::Project { base, .. } => match stack_scan_of(m, item) {
            Ok(sc) => {
                &&& s.id == base.id
                &&& s.title == base.title@.last()
                &&& s.body == base.body
                &&& s.timestamp == base.repeats@[idx].primary
                &&& s.scheduled == base.repeats@[idx].scheduled
                &&& s.deadline == base.repeats@[idx].deadline
                &&& s.priority == crate::laws::resolved_priority(item)
                &&& s.actionable_tasks@.len() == sc.acts.len()
                &&& forall|j: int|
                    0 <= j < sc.acts.len() ==> task_matches(
                        m.at(sc.acts[j]),
                        m,
                        0,
                        #[trigger] s.actionable_tasks@[j],
                    )
                &&& s.next_tasks@.len() == sc.nexts.len()
                &&& forall|j: int|
                    0 <= j < sc.nexts.len() ==> task_matches(
                        m.at(sc.nexts[j]),
                        m,
                        0,
                        #[trigger] s.next_tasks@[j],
                    )
                &&& s.waiting@.len() == sc.waits.len()
                &&& forall|j: int|
                    0 <= j < sc.waits.len() ==> waiting_matches(
                        m.at(sc.waits[j]),
                        m,
                        0,
                        #[trigger] s.waiting@[j],
                    )
            },
            Err(_) => false,
        },
        _ => false,
    }
}

/// Resolves one task child at its first occurrence into a task record.
fn resolve_child_task(child: &ActionItem, map: &ItemMap) -> (r: Result<Task, ConsistencyError>)
    requires
        map.wf(),
        map_occs_valid(*map),
        occs_valid(*child),
        child.base_spec().title@.len() >= 1,
        child matches ActionItem::Task { .. },
        child.base_spec().repeats@.len() >= 1,
    ensures
        r == match resolve_spec(*child, 0, *map) {
            Ok(_) => Result::<Task, ConsistencyError>::Ok(r.unwrap()),
            Err(e) => Result::<Task, ConsistencyError>::Err(e),
        },
        r is Ok ==> task_matches(*child, *map, 0, r.unwrap()),
{
    match child {
        ActionItem::Task {
            base,
            priority,
            computed_priority,
            effort,
            contexts,
            people,
            can_start,
        } => {
            let (rocc, has_next) = match compute_from_parent(child, 0, map) {
                Ok(p) => p,
                Err(e) => {
                    return Err(e);
                },
            };
            let resolved_priority = match computed_priority {
                Some(c) => *c,
                None => *priority,
            };
            Ok(
                Task {
                    id: base.id,
                    title: last_title(&base.title),
                    body: clone_opt_string(&base.body),
                    can_start: *can_start,
                    timestamp: base.repeats[0].primary,
                    parent_timestamp: rocc.primary,
                    scheduled: rocc.scheduled,
                    deadline: rocc.deadline,
                    priority: resolved_priority,
                    project_has_non_actionable: has_next,
                    effort: *effort,
                    contexts: clone_strings(contexts),
                    people: clone_pairs(people),
                },
            )
        },
        _ => unreached(),
    }
}

/// Resolves one waiting child at its first occurrence into a waiting record.
fn resolve_child_wait(child: &ActionItem, map: &ItemMap) -> (r: Result<Waiting, ConsistencyError>)
    requires
        map.wf(),
        map_occs_valid(*map),
        occs_valid(*child),
        child.base_spec().title@.len() >= 1,
        child matches ActionItem::Waiting { .. },
        child.base_spec().repeats@.len() >= 1,
    ensures
        r == match resolve_spec(*child, 0, *map) {
            Ok(_) => Result::<Waiting, ConsistencyError>::Ok(r.unwrap()),
            Err(e) => Result::<Waiting, ConsistencyError>::Err(e),
        },
        r is Ok ==> waiting_matches(*child, *map, 0, r.unwrap()),
        r is Ok ==> {
            let rb = resolve_spec(*child, 0, *map).unwrap();
            r.unwrap().scheduled == rb.0.scheduled && r.unwrap().deadline == rb.0.deadline
        },
{
    match child {
        ActionItem::Waiting { base, sent } => {
            let (rocc, _) = match compute_from_parent(child, 0, map) {
                Ok(p) => p,
                Err(e) => {
                    return Err(e);
                },
            };
            Ok(
                Waiting {
                    id: base.id,
                    title: last_title(&base.title),
                    body: clone_opt_string(&base.body),
                    sent: *sent,
                    scheduled: rocc.scheduled,
                    deadline: rocc.deadline,
                },
            )
        },
        _ => unreached(),
    }
}

impl Stack {
    /// Converts the given action item into one stack record per occurrence,
    /// resolving and embedding its child tasks and waiting items; items of
    /// other variants yield nothing. A stack without an actionable task, a
    /// dated waiting item or a substack is rejected, as is any child whose
    /// resolution fails.
    pub fn from_action_item(item: &ActionItem, map: &ItemMap) -> (r: Result<
        Vec<Stack>,
        ConsistencyError,
    >)
        requires
            map.wf(),
            map_occs_valid(*map),
            map_titles_ok(*map),
            map_repeats_nonempty(*map),
            item.base_spec().title@.len() >= 1,
        ensures
            match r {
                Ok(ss) => {
                    &&& (item matches ActionItem::Project { .. }) ==> ss@.len()
                        == item.base_spec().repeats@.len() && (forall|idx: int|
                        0 <= idx < ss@.len() ==> stack_matches(*item, *map, idx, #[trigger] ss@[idx]))
                        && (item.base_spec().repeats@.len() >= 1 ==> !stack_empty(*map, *item)
                        && stack_scan_of(*map, *item) is Ok)
                    &&& !(item matches ActionItem::Project { .. }) ==> ss@.len() == 0
                },
                Err(e) => {
                    &&& item matches ActionItem::Project { .. }
                    &&& item.base_spec().repeats@.len() >= 1
                    &&& (stack_scan_of(*map, *item) == Result::<
                        StackScan,
                        ConsistencyError,
                    >::Err(e) || (stack_scan_of(*map, *item) is Ok && stack_empty(*map, *item) && e
                        == (ConsistencyError::NoActionableContent { id: item.base_spec().id })))
                },
            },
    {
        match item {
            ActionItem::Project { base, priority, computed_priority, child_items } => {
                if base.repeats.len() == 0 {
                    return Ok(Vec::new());
                }
                let mut out: Vec<Stack> = Vec::new();
                let mut idx: usize = 0;
                while idx < base.repeats.len()
                    invariant
                        map.wf(),
                        map_occs_valid(*map),
                        map_titles_ok(*map),
                        map_repeats_nonempty(*map),
                        item.base_spec().title@.len() >= 1,
                        base == item.base_spec(),
                        item == (ActionItem::Project {
                            base: *base,
                            priority: *priority,
                            computed_priority: *computed_priority,
                            child_items: *child_items,
                        }),
                        idx <= base.repeats@.len(),
                        base.repeats@.len() >= 1,
                        out@.len() == idx,
                        forall|j: int|
                            0 <= j < idx ==> stack_matches(*item, *map, j, #[trigger] out@[j]),
                        idx >= 1 ==> stack_scan_of(*map, *item) is Ok && !stack_empty(
                            *map,
                            *item,
                        ),
                    decreases base.repeats@.len() - idx,
                {
                    // Classify and resolve the children; the result is the
                    // same for every occurrence.
                    let mut acts: Vec<Task> = Vec::new();
                    let mut nexts: Vec<Task> = Vec::new();
                    let mut waits: Vec<Waiting> = Vec::new();
                    let ghost mut g_acts: Seq<u128> = Seq::empty();
                    let ghost mut g_nexts: Seq<u128> = Seq::empty();
                    let ghost mut g_waits: Seq<u128> = Seq::empty();
                    let mut has_scheduled_wait = false;
                    let mut has_substacks = false;
                    let mut i: usize = 0;
                    proof {
                        assert(child_items@.skip(0) =~= child_items@);
                    }
                    while i < child_items.len()
                        invariant
                            map.wf(),
                            map_occs_valid(*map),
                            map_titles_ok(*map),
                            map_repeats_nonempty(*map),
                            base == item.base_spec(),
                            item == (ActionItem::Project {
                                base: *base,
                                priority: *priority,
                                computed_priority: *computed_priority,
                                child_items: *child_items,
                            }),
                            base.repeats@.len() >= 1,
                            i <= child_items@.len(),
                            acts@.len() == g_acts.len(),
                            nexts@.len() == g_nexts.len(),
                            waits@.len() == g_waits.len(),
                            forall|j: int|
                                0 <= j < g_acts.len() ==> task_matches(
                                    map.at(g_acts[j]),
                                    *map,
                                    0,
                                    #[trigger] acts@[j],
                                ),
                            forall|j: int|
                                0 <= j < g_nexts.len() ==> task_matches(
                                    map.at(g_nexts[j]),
                                    *map,
                                    0,
                                    #[trigger] nexts@[j],
                                ),
                            forall|j: int|
                                0 <= j < g_waits.len() ==> waiting_matches(
                                    map.at(g_waits[j]),
                                    *map,
                                    0,
                                    #[trigger] waits@[j],
                                ),
                            stack_scan(*map, child_items@, stack_scan_empty()) == stack_scan(
                                *map,
                                child_items@.skip(i as int),
                                StackScan {
                                    acts: g_acts,
                                    nexts: g_nexts,
                                    waits: g_waits,
                                    has_scheduled_wait,
                                    has_substacks,
                                },
                            ),
                        decreases child_items@.len() - i,
                    {
                        proof {
                            assert(child_items@.skip(i as int)[0] == child_items@[i as int]);
                            assert(child_items@.skip(i as int).drop_first() =~= child_items@.skip(
                                i + 1,
                            ));
                        }
                        let kid = child_items[i];
                        match map.get(kid) {
                            Some(child) => match child {
                                ActionItem::Task { can_start, .. } => {
                                    let t = match resolve_child_task(child, map) {
                                        Ok(t) => t,
                                        Err(e) => {
                                            proof {
                                                assert(crate::resolve::children_of(*item)
                                                    == child_items@);
                                                assert(stack_step(*map, kid, (StackScan {
                                                    acts: g_acts,
                                                    nexts: g_nexts,
                                                    waits: g_waits,
                                                    has_scheduled_wait,
                                                    has_substacks,
                                                })) == Err::<StackScan, ConsistencyError>(e));
                                            }
                                            return Err(e);
                                        },
                                    };
                                    if *can_start {
                                        acts.push(t);
                                        proof {
                                            g_acts = g_acts.push(kid);
                                        }
                                    } else {
                                        nexts.push(t);
                                        proof {
                                            g_nexts = g_nexts.push(kid);
                                        }
                                    }
                                },
                                ActionItem::Waiting { .. } => {
                                    let w = match resolve_child_wait(child, map) {
                                        Ok(w) => w,
                                        Err(e) => {
                                            proof {
                                                assert(crate::resolve::children_of(*item)
                                                    == child_items@);
                                                assert(stack_step(*map, kid, (StackScan {
                                                    acts: g_acts,
                                                    nexts: g_nexts,
                                                    waits: g_waits,
                                                    has_scheduled_wait,
                                                    has_substacks,
                                                })) == Err::<StackScan, ConsistencyError>(e));
                                            }
                                            return Err(e);
                                        },
                                    };
                                    if w.scheduled.is_some() || w.deadline.is_some() {
                                        has_scheduled_wait = true;
                                    }
                                    waits.push(w);
                                    proof {
                                        g_waits = g_waits.push(kid);
                                    }
                                },
                                ActionItem::Project { .. } => {
                                    has_substacks = true;
                                },
                                _ => {},
                            },
                            None => {},
                        }
                        i = i + 1;
                    }
                    proof {
                        assert(child_items@.skip(child_items@.len() as int).len() == 0);
                    }

                    if acts.len() == 0 && (waits.len() == 0 || !has_scheduled_wait)
                        && !has_substacks {
                        return Err(ConsistencyError::NoActionableContent { id: base.id });
                    }

                    let resolved_priority = match computed_priority {
                        Some(c) => *c,
                        None => *priority,
                    };
                    out.push(
                        Stack {
                            id: base.id,
                            title: last_title(&base.title),
                            body: clone_opt_string(&base.body),
                            timestamp: base.repeats[idx].primary,
                            scheduled: base.repeats[idx].scheduled,
                            deadline: base.repeats[idx].deadline,
                            priority: resolved_priority,
                            actionable_tasks: acts,
                            next_tasks: nexts,
                            waiting: waits,
                        },
                    );
                    idx = idx + 1;
                }
                Ok(out)
            },
            _ => Ok(Vec::new()),
        }
    }
}

} // verus!
