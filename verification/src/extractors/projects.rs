//! The project view: one record per occurrence of every project item, its
//! children classified, and the structural guarantee that a project holds
//! something actionable.

use vstd::prelude::*;
use crate::action_item::{ActionItem, Priority};
use crate::dates::Moment;
use crate::map::ItemMap;
use crate::resolve::ConsistencyError;
use crate::strutil::{clone_opt_string, clone_pairs, last_title};
use crate::timestamps::SimpleTimestamp;

verus! {

/// A project: a collection of tasks and waiting items, with overarching
/// dates. Every emitted project has at least one actionable task, a waiting
/// item with dates, or a subproject.
#[derive(Debug)]
pub struct Project {
    /// The identifier of the node corresponding to this project.
    pub id: u128,
    /// The title of the project.
    pub title: String,
    /// The body of the project, if there is one.
    pub body: Option<String>,
    /// The project's primary timestamp at this occurrence, if any.
    pub timestamp: Option<SimpleTimestamp>,
    /// When the user should start working on this project.
    pub scheduled: Option<Moment>,
    /// When the user must complete this project by.
    pub deadline: Option<Moment>,
    /// The resolved priority, inherited from parent meta-projects.
    pub priority: Priority,
    /// The actionable tasks on this project, by identifier and title.
    pub actionable_tasks: Vec<(u128, String)>,
    /// The non-actionable tasks on this project, by identifier and title.
    pub next_tasks: Vec<(u128, String)>,
    /// The items being waited for in this project, by identifier and title.
    pub waiting: Vec<(u128, String)>,
}

/// Every item of the map has a non-empty title path.
pub open spec fn map_titles_ok(m: ItemMap) -> bool {
    forall|k: u128| #[trigger] m.contains_id(k) ==> m.at(k).base_spec().title@.len() >= 1
}

/// The running classification of a project's children: actionable tasks,
/// non-actionable tasks, waiting items (each by identifier and title),
/// whether some waiting item carries dates on its first occurrence, and
/// whether a subproject exists.
pub struct ChildScan {
    pub acts: Seq<(u128, String)>,
    pub nexts: Seq<(u128, String)>,
    pub waits: Seq<(u128, String)>,
    pub has_scheduled_wait: bool,
    pub has_subprojects: bool,
}

pub open spec fn scan_empty() -> ChildScan {
    ChildScan {
        acts: Seq::empty(),
        nexts: Seq::empty(),
        waits: Seq::empty(),
        has_scheduled_wait: false,
        has_subprojects: false,
    }
}

pub open spec fn scan_step(m: ItemMap, kid: u128, acc: ChildScan) -> ChildScan {
    if m.contains_id(kid) {
        match m.at(kid) {
            ActionItem::Task { base, can_start, .. } => {
                if can_start {
                    ChildScan { acts: acc.acts.push((base.id, base.title@.last())), ..acc }
                } else {
                    ChildScan { nexts: acc.nexts.push((base.id, base.title@.last())), ..acc }
                }
            },
            ActionItem::Waiting { base, .. } => {
                let dated = base.repeats@.len() >= 1 && (base.repeats@[0].scheduled is Some
                    || base.repeats@[0].deadline is Some);
                ChildScan {
                    waits: acc.waits.push((base.id, base.title@.last())),
                    has_scheduled_wait: acc.has_scheduled_wait || dated,
                    ..acc
                }
            },
            ActionItem::Project { .. } => ChildScan { has_subprojects: true, ..acc },
            _ => acc,
        }
    } else {
        acc
    }
}

pub open spec fn scan_children(m: ItemMap, kids: Seq<u128>, acc: ChildScan) -> ChildScan
    decreases kids.len(),
{
    if kids.len() == 0 {
        acc
    } else {
        scan_children(m, kids.drop_first(), scan_step(m, kids[0], acc))
    }
}

/// The classification of a project item's children.
pub open spec fn project_scan(m: ItemMap, item: ActionItem) -> ChildScan {
    scan_children(m, crate::resolve::children_of(item), scan_empty())
}

/// The project has neither an actionable task, nor a dated waiting item, nor
/// a subproject: the structural violation the extractor rejects.
pub open spec fn project_empty(m: ItemMap, item: ActionItem) -> bool {
    let s = project_scan(m, item);
    s.acts.len() == 0 && (s.waits.len() == 0 || !s.has_scheduled_wait) && !s.has_subprojects
}

/// `p` is the project record of occurrence `idx` of the project item.
pub open spec fn project_matches(item: ActionItem, m: ItemMap, idx: int, p: Project) -> bool {
    match item {
        ActionItem::Project { base, .. } => {
            let s = project_scan(m, item);
            &&& p.id == base.id
            &&& p.title == base.title@.last()
            &&& p.body == base.body
            &&& p.timestamp == base.repeats@[idx].primary
            &&& p.scheduled == base.repeats@[idx].scheduled
            &&& p.deadline == base.repeats@[idx].deadline
            &&& p.priority == crate::laws::resolved_priority(item)
            &&& p.actionable_tasks@ == s.acts
            &&& p.next_tasks@ == s.nexts
            &&& p.waiting@ == s.waits
        },
        _ => false,
    }
}

impl Project {
    /// Converts the given action item into one project record per occurrence,
    /// classifying its children from the map; items of other variants yield
    /// nothing. A project without an actionable task, a dated waiting item or
    /// a subproject is rejected.
    pub fn from_action_item(item: &ActionItem, map: &ItemMap) -> (r: Result<
        Vec<Project>,
        ConsistencyError,
    >)
        requires
            map.wf(),
            map_titles_ok(*map),
            item.base_spec().title@.len() >= 1,
        ensures
            match r {
                Ok(ps) => {
                    &&& (item matches ActionItem::Project { .. }) ==> ps@.len()
                        == item.base_spec().repeats@.len() && (forall|idx: int|
                        0 <= idx < ps@.len() ==> project_matches(
                            *item,
                            *map,
                            idx,
                            #[trigger] ps@[idx],
                        )) && (item.base_spec().repeats@.len() >= 1 ==> !project_empty(
                        *map,
                        *item,
                    ))
                    &&& !(item matches ActionItem::Project { .. }) ==> ps@.len() == 0
                },
                Err(e) => {
                    &&& item matches ActionItem::Project { .. }
                    &&& project_empty(*map, *item)
                    &&& item.base_spec().repeats@.len() >= 1
                    &&& e == (ConsistencyError::NoActionableContent { id: item.base_spec().id })
                },
            },
    {
        match item {
            ActionItem::Project { base, priority, computed_priority, child_items } => {
                // Classify the children once; the classification is the same
                // for every occurrence.
                let mut acts: Vec<(u128, String)> = Vec::new();
                let mut nexts: Vec<(u128, String)> = Vec::new();
                let mut waits: Vec<(u128, String)> = Vec::new();
                let mut has_scheduled_wait = false;
                let mut has_subprojects = false;
                let mut i: usize = 0;
                proof {
                    assert(child_items@.skip(0) =~= child_items@);
                }
                while i < child_items.len()
                    invariant
                        map.wf(),
                        map_titles_ok(*map),
                        i <= child_items@.len(),
                        scan_children(*map, child_items@, scan_empty()) == scan_children(
                            *map,
                            child_items@.skip(i as int),
                            ChildScan {
                                acts: acts@,
                                nexts: nexts@,
                                waits: waits@,
                                has_scheduled_wait,
                                has_subprojects,
                            },
                        ),
                    decreases child_items@.len() - i,
                {
                    proof {
                        assert(child_items@.skip(i as int)[0] == child_items@[i as int]);
                        assert(child_items@.skip(i as int).drop_first() =~= child_items@.skip(
                            i + 1,
                        ));
                    }
                    let kid = child_items[i];
                    match map.get(kid) {
                        Some(child) => match child {
                            ActionItem::Task { base: kb, can_start, .. } => {
                                if *can_start {
                                    acts.push((kb.id, last_title(&kb.title)));
                                } else {
                                    nexts.push((kb.id, last_title(&kb.title)));
                                }
                            },
                            ActionItem::Waiting { base: kb, .. } => {
                                if kb.repeats.len() >= 1 {
                                    let first = &kb.repeats[0];
                                    if first.scheduled.is_some() || first.deadline.is_some() {
                                        has_scheduled_wait = true;
                                    }
                                }
                                waits.push((kb.id, last_title(&kb.title)));
                            },
                            ActionItem::Project { .. } => {
                                has_subprojects = true;
                            },
                            _ => {},
                        },
                        None => {},
                    }
                    i = i + 1;
                }
                proof {
                    assert(child_items@.skip(child_items@.len() as int).len() == 0);
                }

                if base.repeats.len() >= 1 && acts.len() == 0 && (waits.len() == 0
                    || !has_scheduled_wait) && !has_subprojects {
                    return Err(ConsistencyError::NoActionableContent { id: base.id });
                }

                let mut out: Vec<Project> = Vec::new();
                let mut idx: usize = 0;
                while idx < base.repeats.len()
                    invariant
                        map.wf(),
                        item.base_spec().title@.len() >= 1,
                        base == item.base_spec(),
                        item == (ActionItem::Project {
                            base: *base,
                            priority: *priority,
                            computed_priority: *computed_priority,
                            child_items: *child_items,
                        }),
                        project_scan(*map, *item) == (ChildScan {
                            acts: acts@,
                            nexts: nexts@,
                            waits: waits@,
                            has_scheduled_wait,
                            has_subprojects,
                        }),
                        idx <= base.repeats@.len(),
                        out@.len() == idx,
                        forall|j: int|
                            0 <= j < idx ==> project_matches(*item, *map, j, #[trigger] out@[j]),
                    decreases base.repeats@.len() - idx,
                {
                    let resolved_priority = match computed_priority {
                        Some(c) => *c,
                        None => *priority,
                    };
                    out.push(
                        Project {
                            id: base.id,
                            title: last_title(&base.title),
                            body: clone_opt_string(&base.body),
                            timestamp: base.repeats[idx].primary,
                            scheduled: base.repeats[idx].scheduled,
                            deadline: base.repeats[idx].deadline,
                            priority: resolved_priority,
                            actionable_tasks: clone_pairs(&acts),
                            next_tasks: clone_pairs(&nexts),
                            waiting: clone_pairs(&waits),
                        },
                    );
                    idx = idx + 1;
                }
                Ok(out)
            },
            _ => Ok(Vec::new()),
        }
    }
}

} // verus!
