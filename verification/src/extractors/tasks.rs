//! The task view: one record per occurrence of every task item, with its
//! dates resolved against the parent project and the sibling buffer.

use vstd::prelude::*;
use crate::action_item::{ActionItem, Effort, Priority};
use crate::dates::Moment;
use crate::map::ItemMap;
use crate::resolve::{
    compute_from_parent, map_occs_valid, occs_valid, resolve_spec, ConsistencyError,
};
use crate::strutil::{clone_opt_string, clone_pairs, clone_strings, last_title};
use crate::timestamps::SimpleTimestamp;

verus! {

/// A task, as displayed: its own and its parent's primary timestamps, its
/// resolved scheduled/deadline moments, and its resolved priority.
#[derive(Debug)]
pub struct Task {
    /// The identifier of the node corresponding to the task.
    pub id: u128,
    /// The title of the task.
    pub title: String,
    /// The body of the task, if one exists.
    pub body: Option<String>,
    /// Whether the task can be started immediately.
    pub can_start: bool,
    /// The task's own primary timestamp at this occurrence, if any.
    pub timestamp: Option<SimpleTimestamp>,
    /// The parent project's primary timestamp at this occurrence, if any.
    pub parent_timestamp: Option<SimpleTimestamp>,
    /// When to start the task, possibly inherited from the parent project.
    pub scheduled: Option<Moment>,
    /// When the task must be done, possibly inherited or imposed by
    /// non-actionable siblings.
    pub deadline: Option<Moment>,
    /// The resolved priority: the highest among the task and its project
    /// ancestors.
    pub priority: Priority,
    /// Whether the parent project has non-actionable sibling tasks.
    pub project_has_non_actionable: bool,
    /// The effort required to complete the task.
    pub effort: Effort,
    /// The contexts required to complete the task.
    pub contexts: Vec<String>,
    /// The people needed to complete the task, by identifier and name.
    pub people: Vec<(u128, String)>,
}

/// `t` is the task record of occurrence `idx` of the task item.
pub open spec fn task_matches(item: ActionItem, m: ItemMap, idx: int, t: Task) -> bool {
    match item {
        ActionItem::Task {
            base,
            priority,
            computed_priority,
            effort,
            contexts,
            people,
            can_start,
        } => match resolve_spec(item, idx, m) {
            Ok(rb) => {
                &&& t.id == base.id
                &&& t.title == base.title@.last()
                &&& t.body == base.body
                &&& t.can_start == can_start
                &&& t.timestamp == base.repeats@[idx].primary
                &&& t.parent_timestamp == rb.0.primary
                &&& t.scheduled == rb.0.scheduled
                &&& t.deadline == rb.0.deadline
                &&& t.priority == crate::laws::resolved_priority(item)
                &&& t.project_has_non_actionable == rb.1
                &&& t.effort == effort
                &&& t.contexts@ == contexts@
                &&& t.people@ == people@
            },
            Err(_) => false,
        },
        _ => false,
    }
}

impl Task {
    /// Converts the given action item into one task record per occurrence,
    /// resolving each occurrence against the map; items of other variants
    /// yield nothing. The first consistency violation aborts the conversion.
    pub fn from_action_item(item: &ActionItem, map: &ItemMap) -> (r: Result<
        Vec<Task>,
        ConsistencyError,
    >)
        requires
            map.wf(),
            map_occs_valid(*map),
            occs_valid(*item),
            item.base_spec().title@.len() >= 1,
        ensures
            match r {
                Ok(ts) => {
                    &&& (item matches ActionItem::Task { .. }) ==> ts@.len()
                        == item.base_spec().repeats@.len() && forall|idx: int|
                        0 <= idx < ts@.len() ==> task_matches(*item, *map, idx, #[trigger] ts@[idx])
                    &&& !(item matches ActionItem::Task { .. }) ==> ts@.len() == 0
                },
                Err(e) => (item matches ActionItem::Task { .. }) && exists|idx: int|
                    0 <= idx < item.base_spec().repeats@.len() && resolve_spec(*item, idx, *map)
                        == Err::<(crate::repeat::ActionItemRepeat, bool), ConsistencyError>(e),
            },
    {
        match item {
            ActionItem::Task {
                base,
                priority,
                computed_priority,
                effort,
                contexts,
                people,
                can_start,
            } => {
                let mut out: Vec<Task> = Vec::new();
                let mut idx: usize = 0;
                while idx < base.repeats.len()
                    invariant
                        map.wf(),
                        map_occs_valid(*map),
                        occs_valid(*item),
                        item.base_spec().title@.len() >= 1,
                        item matches ActionItem::Task { .. },
                        base == item.base_spec(),
                        item == (ActionItem::Task {
                            base: *base,
                            priority: *priority,
                            computed_priority: *computed_priority,
                            effort: *effort,
                            contexts: *contexts,
                            people: *people,
                            can_start: *can_start,
                        }),
                        idx <= base.repeats@.len(),
                        out@.len() == idx,
                        forall|j: int|
                            0 <= j < idx ==> task_matches(*item, *map, j, #[trigger] out@[j]),
                    decreases base.repeats@.len() - idx,
                {
                    let (rocc, has_next) = match compute_from_parent(item, idx, map) {
                        Ok(p) => p,
                        Err(e) => {
                            return Err(e);
                        },
                    };
                    let resolved_priority = match computed_priority {
                        Some(c) => *c,
                        None => *priority,
                    };
                    out.push(
                        Task {
                            id: base.id,
                            title: last_title(&base.title),
                            body: clone_opt_string(&base.body),
                            can_start: *can_start,
                            timestamp: base.repeats[idx].primary,
                            parent_timestamp: rocc.primary,
                            scheduled: rocc.scheduled,
                            deadline: rocc.deadline,
                            priority: resolved_priority,
                            project_has_non_actionable: has_next,
                            effort: *effort,
                            contexts: clone_strings(contexts),
                            people: clone_pairs(people),
                        },
                    );
                    idx = idx + 1;
                }
                Ok(out)
            },
            _ => Ok(Vec::new()),
        }
    }
}

} // verus!
