//! Scheduled/deadline resolution against the hierarchy: inheriting a parent
//! project's dates per occurrence index, enforcing the parent/child deadline
//! order, and buffering actionable work before non-actionable siblings.

use vstd::prelude::*;
use crate::action_item::ActionItem;
use crate::dates::{
    date_min, date_valid, moment_le, moment_lt, moment_le_x, moment_lt_x, prev_day, prev_day_spec,
    Moment, END_OF_DAY_SECS,
};
use crate::map::ItemMap;
use crate::repeat::ActionItemRepeat;
use crate::timestamps::{simple_ts_valid, SimpleTimestamp};

verus! {

/// A resolved temporal or structural invariant is violated; carries the
/// identifier of the offending item.
#[derive(Clone, Copy, PartialEq, Eq, Structural, Debug)]
pub enum ConsistencyError {
    /// The item's resolved deadline falls after its parent project's.
    DeadlineAfterParent { id: u128 },
    /// The item's resolved scheduled moment falls after its resolved deadline.
    ScheduledAfterDeadline { id: u128 },
    /// A project has no actionable task, scheduled waiting item or subproject.
    NoActionableContent { id: u128 },
}

/// The earlier of two optional moments; an absent side never wins.
pub open spec fn min_dt_spec(a: Option<Moment>, b: Option<Moment>) -> Option<Moment> {
    match (a, b) {
        (Option::None, Option::None) => None,
        (Option::Some(x), Option::None) => Some(x),
        (Option::None, Option::Some(y)) => Some(y),
        (Option::Some(x), Option::Some(y)) => if moment_le(x, y) {
            Some(x)
        } else {
            Some(y)
        },
    }
}

/// Returns the earlier of the two given moments, either of which may be
/// absent.
pub fn min_dt(a: Option<Moment>, b: Option<Moment>) -> (r: Option<Moment>)
    ensures
        r == min_dt_spec(a, b),
{
    match (a, b) {
        (None, None) => None,
        (Some(x), None) => Some(x),
        (None, Some(y)) => Some(y),
        (Some(x), Some(y)) => if moment_le_x(&x, &y) {
            Some(x)
        } else {
            Some(y)
        },
    }
}

/// The final moment a timestamp covers: its end (or start, lacking an end),
/// at that point's time or, lacking one, the end of the day.
pub open spec fn final_ts_point_spec(ts: SimpleTimestamp) -> Moment {
    let dt = match ts.end {
        Some(e) => e,
        None => ts.start,
    };
    Moment {
        date: dt.date,
        secs: match dt.time {
            Some(t) => t,
            None => END_OF_DAY_SECS,
        },
    }
}

/// Returns the final moment in the given timestamp.
pub fn final_ts_point(ts: &SimpleTimestamp) -> (r: Moment)
    ensures
        r == final_ts_point_spec(*ts),
{
    let dt = match &ts.end {
        Some(e) => e,
        None => &ts.start,
    };
    Moment {
        date: dt.date,
        secs: match dt.time {
            Some(t) => t,
            None => END_OF_DAY_SECS,
        },
    }
}

/// A moment one day earlier, at the same time of day; at the earliest
/// representable date it stays put.
pub open spec fn moment_minus_day_spec(m: Moment) -> Moment {
    if m.date == date_min() {
        m
    } else {
        Moment { date: prev_day_spec(m.date), secs: m.secs }
    }
}

pub open spec fn opt_moment_valid(m: Option<Moment>) -> bool {
    match m {
        Some(mm) => crate::dates::moment_valid(mm),
        None => true,
    }
}

/// Every occurrence of the item carries well-formed moments and timestamps.
pub open spec fn occs_valid(item: ActionItem) -> bool {
    forall|i: int|
        0 <= i < item.base_spec().repeats@.len() ==> occ_valid(
            #[trigger] item.base_spec().repeats@[i],
        )
}

pub open spec fn occ_valid(occ: ActionItemRepeat) -> bool {
    &&& opt_moment_valid(occ.scheduled)
    &&& opt_moment_valid(occ.deadline)
    &&& match occ.primary {
        Some(ts) => simple_ts_valid(ts),
        None => true,
    }
}

/// Every item of the map has well-formed occurrences.
pub open spec fn map_occs_valid(m: ItemMap) -> bool {
    forall|k: u128| #[trigger] m.contains_id(k) ==> occs_valid(m.at(k))
}

/// The parent of the item, when it is a project present in the map.
pub open spec fn parent_project(m: ItemMap, item: ActionItem) -> Option<ActionItem> {
    match item.base_spec().parent_id {
        Some(pid) => if m.contains_id(pid) && (m.at(pid) matches ActionItem::Project { .. }) {
            Some(m.at(pid))
        } else {
            None
        },
        None => None,
    }
}

/// The item is subject to the sibling buffer: an immediately actionable task
/// or a waiting item.
pub open spec fn buffer_applies(item: ActionItem) -> bool {
    ||| item matches ActionItem::Task { can_start: true, .. }
    ||| item matches ActionItem::Waiting { .. }
}

/// One step of the sibling scan: a non-actionable task child contributes its
/// occurrence-index scheduled and deadline moments to the running earliest,
/// and marks that such siblings exist.
pub open spec fn sibling_step(
    m: ItemMap,
    kid: u128,
    idx: int,
    acc: (Option<Moment>, bool),
) -> (Option<Moment>, bool) {
    if m.contains_id(kid) && (m.at(kid) matches ActionItem::Task { can_start: false, .. }) {
        let kb = m.at(kid).base_spec();
        if 0 <= idx < kb.repeats@.len() {
            let kocc = kb.repeats@[idx];
            (min_dt_spec(min_dt_spec(acc.0, kocc.scheduled), kocc.deadline), true)
        } else {
            (acc.0, true)
        }
    } else {
        acc
    }
}

/// The sibling scan over a child list, left to right.
pub open spec fn sibling_fold(
    m: ItemMap,
    kids: Seq<u128>,
    idx: int,
    acc: (Option<Moment>, bool),
) -> (Option<Moment>, bool)
    decreases kids.len(),
{
    if kids.len() == 0 {
        acc
    } else {
        sibling_fold(m, kids.drop_first(), idx, sibling_step(m, kids[0], idx, acc))
    }
}

/// The child list of a project item (empty for other variants).
pub open spec fn children_of(item: ActionItem) -> Seq<u128> {
    match item {
        ActionItem::Project { child_items, .. } => child_items@,
        _ => Seq::empty(),
    }
}

/// What resolving the item's occurrence `idx` against the map yields: the
/// parent's primary timestamp at the same index, the inherited scheduled and
/// deadline moments after the sibling buffer, and whether non-actionable
/// sibling tasks exist — or the consistency violation that stops it.
pub open spec fn resolve_spec(item: ActionItem, idx: int, m: ItemMap) -> Result<
    (ActionItemRepeat, bool),
    ConsistencyError,
> {
    let occ = item.base_spec().repeats@[idx];
    let pp = parent_project(m, item);
    if pp is Some && idx < pp.unwrap().base_spec().repeats@.len() {
        let parent = pp.unwrap();
        let prepeat = parent.base_spec().repeats@[idx];
        let sched = if occ.scheduled is None && prepeat.scheduled is Some {
            prepeat.scheduled
        } else {
            occ.scheduled
        };
        let dead = if occ.deadline is None && prepeat.deadline is Some {
            prepeat.deadline
        } else {
            occ.deadline
        };
        if prepeat.deadline is Some && moment_lt(prepeat.deadline.unwrap(), dead.unwrap()) {
            Err(ConsistencyError::DeadlineAfterParent { id: item.base_spec().id })
        } else {
            let folded = if buffer_applies(item) {
                sibling_fold(m, children_of(parent), idx, (prepeat.deadline, false))
            } else {
                (None, false)
            };
            let dead2 = if buffer_applies(item) && folded.0 is Some {
                if folded.1 {
                    Some(moment_minus_day_spec(folded.0.unwrap()))
                } else {
                    folded.0
                }
            } else {
                dead
            };
            if sched is Some && dead2 is Some && moment_lt(dead2.unwrap(), sched.unwrap()) {
                Err(ConsistencyError::ScheduledAfterDeadline { id: item.base_spec().id })
            } else {
                Ok((ActionItemRepeat { primary: prepeat.primary, scheduled: sched, deadline: dead2 }, folded.1))
            }
        }
    } else {
        if occ.scheduled is Some && occ.deadline is Some && moment_lt(
            occ.deadline.unwrap(),
            occ.scheduled.unwrap(),
        ) {
            Err(ConsistencyError::ScheduledAfterDeadline { id: item.base_spec().id })
        } else {
            Ok((ActionItemRepeat { primary: None, scheduled: occ.scheduled, deadline: occ.deadline }, false))
        }
    }
}

/// Subtracts one day from a moment, staying put at the earliest
/// representable date.
fn moment_minus_day(m: &Moment) -> (r: Moment)
    requires
        date_valid(m.date),
    ensures
        r == moment_minus_day_spec(*m),
        date_valid(r.date),
        r.secs == m.secs,
{
    if m.date.year == 0 && m.date.month == 1 && m.date.day == 1 {
        *m
    } else {
        proof {
            crate::dates::lemma_prev_day(m.date);
        }
        Moment { date: prev_day(&m.date), secs: m.secs }
    }
}

/// Computes scheduled and deadline moments for one occurrence of the given
/// item from its parent project, per the occurrence index: absent dates are
/// inherited from the parent, a deadline after the parent's is a consistency
/// violation, actionable tasks and waiting items take the earliest deadline
/// imposed by non-actionable sibling tasks (one day earlier when such
/// siblings exist), and a scheduled moment after the final deadline is a
/// consistency violation. Also reports whether non-actionable siblings
/// exist; the returned occurrence's primary timestamp is the parent's.
pub fn compute_from_parent(item: &ActionItem, repeat_idx: usize, map: &ItemMap) -> (r: Result<
    (ActionItemRepeat, bool),
    ConsistencyError,
>)
    requires
        map.wf(),
        map_occs_valid(*map),
        occs_valid(*item),
        repeat_idx < item.base_spec().repeats@.len(),
    ensures
        r == resolve_spec(*item, repeat_idx as int, *map),
{
    let occ = item.base().repeats[repeat_idx];
    let mut scheduled = occ.scheduled;
    let mut deadline = occ.deadline;

    let parent_opt: Option<&ActionItem> = match item.base().parent_id {
        Some(pid) => match map.get(pid) {
            Some(p) => {
                if matches!(p, ActionItem::Project { .. }) {
                    Some(p)
                } else {
                    None
                }
            },
            None => None,
        },
        None => None,
    };

    match parent_opt {
        Some(parent) if repeat_idx < parent.base().repeats.len() => {
            let prepeat = parent.base().repeats[repeat_idx];
            let parent_ts = prepeat.primary;

            if scheduled.is_none() && prepeat.scheduled.is_some() {
                scheduled = prepeat.scheduled;
            }
            if deadline.is_none() && prepeat.deadline.is_some() {
                deadline = prepeat.deadline;
            }

            if let Some(pd) = prepeat.deadline {
                let d = deadline.unwrap();
                if moment_lt_x(&pd, &d) {
                    return Err(ConsistencyError::DeadlineAfterParent { id: item.base().id });
                }
            }

            let applies = match item {
                ActionItem::Task { can_start: true, .. } => true,
                ActionItem::Waiting { .. } => true,
                _ => false,
            };
            let mut has_next_tasks = false;
            if applies {
                let mut earliest: Option<Moment> = prepeat.deadline;
                let empty_kids: Vec<u128> = Vec::new();
                let kids: &Vec<u128> = match parent {
                    ActionItem::Project { child_items, .. } => child_items,
                    _ => &empty_kids,
                };
                proof {
                    assert(kids@ == children_of(*parent));
                    assert(kids@.skip(0) =~= kids@);
                }
                let mut i: usize = 0;
                while i < kids.len()
                    invariant
                        map.wf(),
                        map_occs_valid(*map),
                        i <= kids@.len(),
                        sibling_fold(*map, kids@, repeat_idx as int, (prepeat.deadline, false))
                            == sibling_fold(
                            *map,
                            kids@.skip(i as int),
                            repeat_idx as int,
                            (earliest, has_next_tasks),
                        ),
                    decreases kids@.len() - i,
                {
                    proof {
                        assert(kids@.skip(i as int)[0] == kids@[i as int]);
                        assert(kids@.skip(i as int).drop_first() =~= kids@.skip(i + 1));
                    }
                    let kid = kids[i];
                    match map.get(kid) {
                        Some(child) => {
                            match child {
                                ActionItem::Task { can_start: false, base, .. } => {
                                    has_next_tasks = true;
                                    if repeat_idx < base.repeats.len() {
                                        let kocc = base.repeats[repeat_idx];
                                        earliest = min_dt(earliest, kocc.scheduled);
                                        earliest = min_dt(earliest, kocc.deadline);
                                    }
                                },
                                _ => {},
                            }
                        },
                        None => {},
                    }
                    i = i + 1;
                }
                proof {
                    assert(kids@.skip(kids@.len() as int).len() == 0);
                }

                if let Some(imposed) = earliest {
                    proof {
                        lemma_sibling_fold_valid(
                            *map,
                            kids@,
                            repeat_idx as int,
                            (prepeat.deadline, false),
                        );
                    }
                    deadline = Some(
                        if has_next_tasks {
                            moment_minus_day(&imposed)
                        } else {
                            imposed
                        },
                    );
                }
            }

            if scheduled.is_some() && deadline.is_some() {
                let s = scheduled.unwrap();
                let d = deadline.unwrap();
                if moment_lt_x(&d, &s) {
                    return Err(ConsistencyError::ScheduledAfterDeadline { id: item.base().id });
                }
            }

            Ok((ActionItemRepeat { primary: parent_ts, scheduled, deadline }, has_next_tasks))
        },
        _ => {
            if scheduled.is_some() && deadline.is_some() {
                let s = scheduled.unwrap();
                let d = deadline.unwrap();
                if moment_lt_x(&d, &s) {
                    return Err(ConsistencyError::ScheduledAfterDeadline { id: item.base().id });
                }
            }
            Ok((ActionItemRepeat { primary: None, scheduled, deadline }, false))
        },
    }
}

/// The moments a sibling fold yields are well-formed when the map's and the
/// starting accumulator's are.
pub proof fn lemma_sibling_fold_valid(
    m: ItemMap,
    kids: Seq<u128>,
    idx: int,
    acc: (Option<Moment>, bool),
)
    requires
        map_occs_valid(m),
        opt_moment_valid(acc.0),
    ensures
        opt_moment_valid(sibling_fold(m, kids, idx, acc).0),
    decreases kids.len(),
{
    if kids.len() > 0 {
        let acc2 = sibling_step(m, kids[0], idx, acc);
        assert(opt_moment_valid(acc2.0)) by {
            if m.contains_id(kids[0]) {
                assert(occs_valid(m.at(kids[0])));
            }
        };
        lemma_sibling_fold_valid(m, kids.drop_first(), idx, acc2);
    }
}

} // verus!
