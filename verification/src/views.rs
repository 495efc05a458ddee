//! Views over the extracted data: one filter per output type, a validation
//! of the dates a view asks for, and the grouped collection of views.

use vstd::prelude::*;
use crate::action_item::Priority;
use crate::dates::{date_le, date_le_x, date_lt, Date};
use crate::extractors::daily_notes::DailyNote;
use crate::extractors::events::Event;
use crate::extractors::people_dates::PersonDate;
use crate::extractors::projects::Project;
use crate::extractors::tasks::Task;
use crate::extractors::tickles::Tickle;
use crate::extractors::waiting::Waiting;
use crate::dates::Moment;
use crate::strutil::{parse_u16, seq_has_str, strings_contain, u16_parse};
use crate::timestamps::SimpleTimestamp;
use vstd::string::StrSliceExecFns;

verus! {

/// The dates a view asks for are in the wrong order.
#[derive(Clone, Copy, PartialEq, Eq, Structural, Debug)]
pub enum ViewError {
    /// The until date does not come after the from date.
    UntilBeforeFrom,
    /// The deadline date does not come after the scheduled date.
    DeadlineBeforeScheduled,
}

/// The matching mode for scheduled/deadline criteria.
#[derive(Clone, Copy, PartialEq, Eq, Structural, Debug)]
pub enum PlanningMatchType {
    /// Show every item the date criteria do not exclude, dated or not.
    All,
    /// Show only items with a scheduled moment meeting the criterion.
    ScheduledOnly,
    /// Show only items with a deadline meeting the criterion.
    DeadlineOnly,
    /// Show only items with a scheduled moment or a deadline that matches.
    ScheduledOrDeadline,
}

impl Default for PlanningMatchType {
    fn default() -> (r: PlanningMatchType)
        ensures
            r == PlanningMatchType::All,
    {
        PlanningMatchType::All
    }
}

/// The matching mode for primary timestamps.
#[derive(Clone, Copy, PartialEq, Eq, Structural, Debug)]
pub enum TimestampMatch {
    /// Show items with or without timestamps, filtering the dated ones.
    All,
    /// Show only items with timestamps.
    OnlyWith,
    /// Show only items without timestamps.
    OnlyWithout,
}

impl Default for TimestampMatch {
    fn default() -> (r: TimestampMatch)
        ensures
            r == TimestampMatch::All,
    {
        TimestampMatch::All
    }
}

/// Whether a moment on an item meets an imposed cutoff date: absent cutoffs
/// pass everything, an absent moment passes unless the mode forces one, and
/// a present moment must fall on or before the cutoff.
pub open spec fn meets_dt_spec(
    item_dt: Option<Moment>,
    imposed_date: Option<Date>,
    force_imposed: bool,
) -> bool {
    match imposed_date {
        None => true,
        Some(d) => match item_dt {
            Some(m) => date_le(m.date, d),
            None => !force_imposed,
        },
    }
}

/// Determines whether a moment on an item meets an imposed cutoff date.
pub fn meets_dt(item_dt: Option<Moment>, imposed_date: Option<Date>, force_imposed: bool) -> (r:
    bool)
    ensures
        r == meets_dt_spec(item_dt, imposed_date, force_imposed),
{
    match imposed_date {
        None => true,
        Some(d) => match item_dt {
            Some(m) => date_le_x(&m.date, &d),
            None => !force_imposed,
        },
    }
}

/// The date on which a timestamp ends for filtering purposes: its end date,
/// or its start date lacking an end.
pub open spec fn ts_final_date(ts: SimpleTimestamp) -> Date {
    match ts.end {
        Some(e) => e.date,
        None => ts.start.date,
    }
}

/// Whether a primary timestamp meets the from/until window under the given
/// matching mode.
pub open spec fn timestamp_matches_spec(
    item_timestamp: Option<SimpleTimestamp>,
    imposed_from: Option<Date>,
    imposed_until: Option<Date>,
    match_type: TimestampMatch,
) -> bool {
    match item_timestamp {
        Some(ts) => match match_type {
            TimestampMatch::OnlyWithout => false,
            _ => (match imposed_from {
                None => true,
                Some(f) => date_le(f, ts.start.date),
            }) && (match imposed_until {
                None => true,
                Some(u) => date_le(ts_final_date(ts), u),
            }),
        },
        None => !(match_type is OnlyWith),
    }
}

/// Determines whether the given timestamp matches the given window.
pub fn timestamp_matches(
    item_timestamp: &Option<SimpleTimestamp>,
    imposed_from: Option<Date>,
    imposed_until: Option<Date>,
    match_type: TimestampMatch,
) -> (r: bool)
    ensures
        r == timestamp_matches_spec(*item_timestamp, imposed_from, imposed_until, match_type),
{
    match item_timestamp {
        Some(ts) => match match_type {
            TimestampMatch::OnlyWithout => false,
            _ => {
                let from_ok = match imposed_from {
                    None => true,
                    Some(f) => date_le_x(&f, &ts.start.date),
                };
                let final_date = match &ts.end {
                    Some(e) => e.date,
                    None => ts.start.date,
                };
                let until_ok = match imposed_until {
                    None => true,
                    Some(u) => date_le_x(&final_date, &u),
                };
                from_ok && until_ok
            },
        },
        None => !matches!(match_type, TimestampMatch::OnlyWith),
    }
}

/// Shows dated items up to an until date, from an optional from date.
pub struct EventsFilter {
    /// The date on which to start showing items (inclusive); absent, all
    /// items before the until date are shown.
    pub from: Option<Date>,
    /// The date at which to stop showing items (inclusive).
    pub until: Date,
}

impl EventsFilter {
    /// Whether the given event starts by the until date and, measured by its
    /// end (or start, lacking one), reaches the from date.
    pub fn matches(&self, ev: &Event) -> (r: bool)
        ensures
            r == (date_le(ev.timestamp.start.date, self.until) && match self.from {
                None => true,
                Some(f) => date_le(f, ts_final_date(ev.timestamp)),
            }),
    {
        let final_date = match &ev.timestamp.end {
            Some(e) => e.date,
            None => ev.timestamp.start.date,
        };
        date_le_x(&ev.timestamp.start.date, &self.until) && (match self.from {
            None => true,
            Some(f) => date_le_x(&f, &final_date),
        })
    }
}

/// Shows daily notes within a date window.
pub struct DailyNotesFilter {
    /// The date on which to start showing items (inclusive), if any.
    pub from: Option<Date>,
    /// The date at which to stop showing items (inclusive).
    pub until: Date,
}

impl DailyNotesFilter {
    pub fn matches(&self, dn: &DailyNote) -> (r: bool)
        ensures
            r == (date_le(dn.date, self.until) && match self.from {
                None => true,
                Some(f) => date_le(f, dn.date),
            }),
    {
        date_le_x(&dn.date, &self.until) && (match self.from {
            None => true,
            Some(f) => date_le_x(&f, &dn.date),
        })
    }
}

/// Shows tickles up to an until date; old unhandled ones stay visible.
pub struct TicklesFilter {
    /// The date at which to stop showing tickles (inclusive).
    pub until: Date,
}

impl TicklesFilter {
    pub fn matches(&self, t: &Tickle) -> (r: bool)
        ensures
            r == date_le(t.date, self.until),
    {
        date_le_x(&t.date, &self.until)
    }
}

/// Shows person dates whose notification date has been reached.
pub struct DatesFilter {
    /// The cutoff for notification dates, not for the dates themselves.
    pub until: Date,
}

impl DatesFilter {
    pub fn matches(&self, d: &PersonDate) -> (r: bool)
        ensures
            r == date_le(d.notify_date, self.until),
    {
        date_le_x(&d.notify_date, &self.until)
    }
}

/// Shows waiting items by their scheduled and deadline dates.
pub struct WaitsFilter {
    /// Show items to be surfaced on or before this date, if given.
    pub scheduled: Option<Date>,
    /// Show items to be completed on or before this date, if given.
    pub deadline: Option<Date>,
    /// The mode of matching for the scheduled/deadline criteria.
    pub planning_match: PlanningMatchType,
}

pub open spec fn waits_matches_spec(f: WaitsFilter, w: Waiting) -> bool {
    &&& meets_dt_spec(w.scheduled, f.scheduled, f.planning_match is ScheduledOnly)
    &&& meets_dt_spec(w.deadline, f.deadline, f.planning_match is DeadlineOnly)
    &&& (!(f.planning_match is ScheduledOrDeadline) || w.scheduled is Some || w.deadline is Some)
}

impl WaitsFilter {
    pub fn matches(&self, w: &Waiting) -> (r: bool)
        ensures
            r == waits_matches_spec(*self, *w),
    {
        meets_dt(
            w.scheduled,
            self.scheduled,
            matches!(self.planning_match, PlanningMatchType::ScheduledOnly),
        ) && meets_dt(
            w.deadline,
            self.deadline,
            matches!(self.planning_match, PlanningMatchType::DeadlineOnly),
        ) && (!matches!(self.planning_match, PlanningMatchType::ScheduledOrDeadline)
            || w.scheduled.is_some() || w.deadline.is_some())
    }
}

/// Shows projects by their timestamp window and scheduled/deadline dates.
pub struct ProjectsFilter {
    /// The date from which to show projects with timestamps.
    pub from: Option<Date>,
    /// The date at which to stop showing projects with timestamps.
    pub until: Option<Date>,
    /// How to match on the project's timestamp.
    pub timestamp_match: TimestampMatch,
    /// Show items to be surfaced on or before this date, if given.
    pub scheduled: Option<Date>,
    /// Show items to be completed on or before this date, if given.
    pub deadline: Option<Date>,
    /// The mode of matching for the scheduled/deadline criteria.
    pub planning_match: PlanningMatchType,
}

pub open spec fn projects_matches_spec(f: ProjectsFilter, p: Project) -> bool {
    &&& meets_dt_spec(p.scheduled, f.scheduled, f.planning_match is ScheduledOnly)
    &&& meets_dt_spec(p.deadline, f.deadline, f.planning_match is DeadlineOnly)
    &&& (!(f.planning_match is ScheduledOrDeadline) || p.scheduled is Some || p.deadline is Some)
    &&& timestamp_matches_spec(p.timestamp, f.from, f.until, f.timestamp_match)
}

impl ProjectsFilter {
    pub fn matches(&self, p: &Project) -> (r: bool)
        ensures
            r == projects_matches_spec(*self, *p),
    {
        meets_dt(
            p.scheduled,
            self.scheduled,
            matches!(self.planning_match, PlanningMatchType::ScheduledOnly),
        ) && meets_dt(
            p.deadline,
            self.deadline,
            matches!(self.planning_match, PlanningMatchType::DeadlineOnly),
        ) && (!matches!(self.planning_match, PlanningMatchType::ScheduledOrDeadline)
            || p.scheduled.is_some() || p.deadline.is_some()) && timestamp_matches(
            &p.timestamp,
            self.from,
            self.until,
            self.timestamp_match,
        )
    }
}


/// Every string of `xs` occurs in `cs`.
fn all_strings_in(cs: &Vec<String>, xs: &Vec<String>) -> (r: bool)
    ensures
        r == (forall|i: int| 0 <= i < xs@.len() ==> seq_has_str(cs@, #[trigger] xs@[i]@)),
{
    let mut i: usize = 0;
    while i < xs.len()
        invariant
            i <= xs@.len(),
            forall|j: int| 0 <= j < i ==> seq_has_str(cs@, #[trigger] xs@[j]@),
        decreases xs@.len() - i,
    {
        if !strings_contain(cs, xs[i].as_str()) {
            return false;
        }
        i = i + 1;
    }
    true
}

/// Every name among the identifier/name pairs of `xs` occurs in `ps`.
fn all_names_in(ps: &Vec<String>, xs: &Vec<(u128, String)>) -> (r: bool)
    ensures
        r == (forall|i: int| 0 <= i < xs@.len() ==> seq_has_str(ps@, #[trigger] xs@[i].1@)),
{
    let mut i: usize = 0;
    while i < xs.len()
        invariant
            i <= xs@.len(),
            forall|j: int| 0 <= j < i ==> seq_has_str(ps@, #[trigger] xs@[j].1@),
        decreases xs@.len() - i,
    {
        if !strings_contain(ps, xs[i].1.as_str()) {
            return false;
        }
        i = i + 1;
    }
    true
}

/// Shows tasks by dates, contexts, priorities, people, and timestamps.
pub struct TasksFilter {
    /// The date from which to show tasks with timestamps.
    pub from: Option<Date>,
    /// The date at which to stop showing tasks with timestamps.
    pub until: Option<Date>,
    /// How to match on the task's own timestamp.
    pub timestamp_match: TimestampMatch,
    /// How to match on the parent's timestamp.
    pub parent_timestamp_match: TimestampMatch,
    /// Show items to be surfaced on or before this date, if given.
    pub scheduled: Option<Date>,
    /// Show items to be completed on or before this date, if given.
    pub deadline: Option<Date>,
    /// The mode of matching for the scheduled/deadline criteria.
    pub planning_match: PlanningMatchType,
    /// Whether to show non-actionable tasks.
    pub next_tasks: bool,
    /// The contexts available: tasks must need only these (an empty list
    /// shows only context-free tasks); absent, contexts are not filtered.
    pub contexts: Option<Vec<String>>,
    /// The minimum priority of tasks to show, if given.
    pub min_priority: Option<Priority>,
    /// The maximum priority of tasks to show, if given.
    pub max_priority: Option<Priority>,
    /// The people available, by name, with the same rules as contexts.
    pub people: Option<Vec<String>>,
}

/// The contexts criterion: either no filtering, or a context-free task
/// against an empty context list, or every needed context available.
pub open spec fn contexts_ok_spec(f: TasksFilter, t: Task) -> bool {
    match f.contexts {
        None => true,
        Some(cs) => (cs@.len() == 0 && t.contexts@.len() == 0) || (t.contexts@.len() > 0
            && forall|i: int|
            0 <= i < t.contexts@.len() ==> seq_has_str(cs@, #[trigger] t.contexts@[i]@)),
    }
}

/// The people criterion, with the same rules as contexts, over names.
pub open spec fn people_ok_spec(f: TasksFilter, t: Task) -> bool {
    match f.people {
        None => true,
        Some(ps) => (ps@.len() == 0 && t.people@.len() == 0) || (t.people@.len() > 0 && forall|
            i: int,
        |
            0 <= i < t.people@.len() ==> seq_has_str(ps@, #[trigger] t.people@[i].1@)),
    }
}

pub open spec fn priority_min_ok(f: TasksFilter, t: Task) -> bool {
    match f.min_priority {
        None => true,
        Some(p) => t.priority.rank_spec() >= p.rank_spec(),
    }
}

pub open spec fn priority_max_ok(f: TasksFilter, t: Task) -> bool {
    match f.max_priority {
        None => true,
        Some(p) => t.priority.rank_spec() <= p.rank_spec(),
    }
}

pub open spec fn tasks_matches_spec(f: TasksFilter, t: Task) -> bool {
    &&& meets_dt_spec(t.scheduled, f.scheduled, f.planning_match is ScheduledOnly)
    &&& meets_dt_spec(t.deadline, f.deadline, f.planning_match is DeadlineOnly)
    &&& (!(f.planning_match is ScheduledOrDeadline) || t.scheduled is Some || t.deadline is Some)
    &&& (f.next_tasks || t.can_start)
    &&& contexts_ok_spec(f, t)
    &&& priority_min_ok(f, t)
    &&& priority_max_ok(f, t)
    &&& people_ok_spec(f, t)
    &&& timestamp_matches_spec(t.timestamp, f.from, f.until, f.timestamp_match)
    &&& timestamp_matches_spec(t.parent_timestamp, f.from, f.until, f.parent_timestamp_match)
}

impl TasksFilter {
    #[verifier::rlimit(60)]
    pub fn matches(&self, t: &Task) -> (r: bool)
        ensures
            r == tasks_matches_spec(*self, *t),
    {
        let contexts_ok = match &self.contexts {
            None => true,
            Some(cs) => {
                if cs.len() == 0 {
                    t.contexts.len() == 0
                } else {
                    t.contexts.len() > 0 && all_strings_in(cs, &t.contexts)
                }
            },
        };
        let people_ok = match &self.people {
            None => true,
            Some(ps) => {
                if ps.len() == 0 {
                    t.people.len() == 0
                } else {
                    t.people.len() > 0 && all_names_in(ps, &t.people)
                }
            },
        };
        let min_ok = match self.min_priority {
            None => true,
            Some(p) => t.priority.rank() >= p.rank(),
        };
        let max_ok = match self.max_priority {
            None => true,
            Some(p) => t.priority.rank() <= p.rank(),
        };
        proof {
            if self.contexts is Some {
                let cs = self.contexts.unwrap();
                if cs@.len() == 0 && t.contexts@.len() > 0 {
                    // An empty availability list holds no task's context, so
                    // the universal clause of the criterion has a witness
                    // against it.
                    assert(!seq_has_str(cs@, t.contexts@[0]@));
                }
            }
            if self.people is Some {
                let ps = self.people.unwrap();
                if ps@.len() == 0 && t.people@.len() > 0 {
                    assert(!seq_has_str(ps@, t.people@[0].1@));
                }
            }
        }
        let sd1 = meets_dt(
            t.scheduled,
            self.scheduled,
            matches!(self.planning_match, PlanningMatchType::ScheduledOnly),
        );
        let sd2 = meets_dt(
            t.deadline,
            self.deadline,
            matches!(self.planning_match, PlanningMatchType::DeadlineOnly),
        );
        let sd3 = !matches!(self.planning_match, PlanningMatchType::ScheduledOrDeadline)
            || t.scheduled.is_some() || t.deadline.is_some();
        let tm1 = timestamp_matches(&t.timestamp, self.from, self.until, self.timestamp_match);
        let tm2 = timestamp_matches(
            &t.parent_timestamp,
            self.from,
            self.until,
            self.parent_timestamp_match,
        );
        let result = sd1 && sd2 && sd3 && (self.next_tasks || t.can_start) && contexts_ok
            && min_ok && max_ok && people_ok && tm1 && tm2;
        proof {
            assert(result == tasks_matches_spec(*self, *t));
        }
        result
    }

    /// Creates the task filter that selects the tasks relevant to a target
    /// contexts computation: everything with a deadline by the target date,
    /// non-actionable tasks included, timestamped tasks only as asked.
    pub fn for_target_contexts(filter: &TargetContextsFilter) -> (r: TasksFilter)
        ensures
            r.from is None,
            r.until is None,
            r.timestamp_match == (if filter.include_with_timestamps {
                TimestampMatch::All
            } else {
                TimestampMatch::OnlyWithout
            }),
            r.parent_timestamp_match == (if filter.include_with_parent_timestamps {
                TimestampMatch::All
            } else {
                TimestampMatch::OnlyWithout
            }),
            r.scheduled is None,
            r.deadline == Some(filter.until),
            r.planning_match == PlanningMatchType::DeadlineOnly,
            r.next_tasks == true,
            r.contexts is None,
            r.min_priority is None,
            r.max_priority is None,
            r.people is None,
    {
        TasksFilter {
            from: None,
            until: None,
            timestamp_match: if filter.include_with_timestamps {
                TimestampMatch::All
            } else {
                TimestampMatch::OnlyWithout
            },
            parent_timestamp_match: if filter.include_with_parent_timestamps {
                TimestampMatch::All
            } else {
                TimestampMatch::OnlyWithout
            },
            scheduled: None,
            deadline: Some(filter.until),
            planning_match: PlanningMatchType::DeadlineOnly,
            next_tasks: true,
            contexts: None,
            min_priority: None,
            max_priority: None,
            people: None,
        }
    }
}

/// Asks for the contexts needed to finish all tasks due by a date.
pub struct TargetContextsFilter {
    /// The date by which all the tasks should be completed.
    pub until: Date,
    /// Whether to include tasks with their own primary timestamps.
    pub include_with_timestamps: bool,
    /// Whether to include tasks whose projects have primary timestamps.
    pub include_with_parent_timestamps: bool,
}

/// Asks for the goals of one day.
pub struct GoalsFilter {
    /// The date for which goals should be extracted.
    pub date: Date,
}

/// A single view over the data: one output type with its filter.
pub enum ViewRequest {
    Events(EventsFilter),
    DailyNotes(DailyNotesFilter),
    Tickles(TicklesFilter),
    Dates(DatesFilter),
    Waits(WaitsFilter),
    Projects(ProjectsFilter),
    Tasks(TasksFilter),
    TargetContexts(TargetContextsFilter),
    Goals(GoalsFilter),
}

/// The later of two optional dates.
pub open spec fn opt_date_max(a: Option<Date>, b: Option<Date>) -> Option<Date> {
    match (a, b) {
        (Option::None, Option::None) => None,
        (Option::Some(x), Option::None) => Some(x),
        (Option::None, Option::Some(y)) => Some(y),
        (Option::Some(x), Option::Some(y)) => if date_lt(x, y) {
            Some(y)
        } else {
            Some(x)
        },
    }
}

/// The first of two optional dates, if present, else the second.
pub open spec fn opt_date_or(a: Option<Date>, b: Option<Date>) -> Option<Date> {
    match a {
        Some(x) => Some(x),
        None => b,
    }
}

/// What validating a view yields: the last date the view involves (if it
/// filters on dates at all), or the ordering violation in its dates.
pub open spec fn validate_spec(v: ViewRequest) -> Result<Option<Date>, ViewError> {
    match v {
        ViewRequest::Events(f) => match f.from {
            Some(fr) => if date_le(f.until, fr) {
                Err(ViewError::UntilBeforeFrom)
            } else {
                Ok(Some(f.until))
            },
            None => Ok(Some(f.until)),
        },
        ViewRequest::DailyNotes(f) => match f.from {
            Some(fr) => if date_le(f.until, fr) {
                Err(ViewError::UntilBeforeFrom)
            } else {
                Ok(Some(f.until))
            },
            None => Ok(Some(f.until)),
        },
        ViewRequest::Tickles(f) => Ok(Some(f.until)),
        ViewRequest::Dates(f) => Ok(Some(f.until)),
        ViewRequest::Waits(f) => if matches!((f.deadline, f.scheduled), (Option::Some(_), Option::Some(_)))
            && date_le(f.deadline.unwrap(), f.scheduled.unwrap()) {
            Err(ViewError::DeadlineBeforeScheduled)
        } else {
            Ok(opt_date_or(f.scheduled, f.deadline))
        },
        ViewRequest::Projects(f) => if matches!(
            (f.deadline, f.scheduled),
            (Option::Some(_), Option::Some(_)),
        ) && date_le(f.deadline.unwrap(), f.scheduled.unwrap()) {
            Err(ViewError::DeadlineBeforeScheduled)
        } else if matches!((f.from, f.until), (Option::Some(_), Option::Some(_))) && date_le(
            f.until.unwrap(),
            f.from.unwrap(),
        ) {
            Err(ViewError::UntilBeforeFrom)
        } else {
            Ok(
                opt_date_max(
                    opt_date_or(f.scheduled, f.deadline),
                    opt_date_or(f.until, f.from),
                ),
            )
        },
        ViewRequest::Tasks(f) => if matches!((f.deadline, f.scheduled), (Option::Some(_), Option::Some(_)))
            && date_lt(f.deadline.unwrap(), f.scheduled.unwrap()) {
            Err(ViewError::DeadlineBeforeScheduled)
        } else if matches!((f.from, f.until), (Option::Some(_), Option::Some(_))) && date_le(
            f.until.unwrap(),
            f.from.unwrap(),
        ) {
            Err(ViewError::UntilBeforeFrom)
        } else {
            Ok(
                opt_date_max(
                    opt_date_or(f.scheduled, f.deadline),
                    opt_date_or(f.until, f.from),
                ),
            )
        },
        ViewRequest::TargetContexts(f) => Ok(Some(f.until)),
        ViewRequest::Goals(f) => Ok(Some(f.date)),
    }
}

impl ViewRequest {
    /// Validates the order of the dates passed to this view, and returns the
    /// last date it involves: the point up to which repeating timestamps
    /// must at least be expanded for the view to be complete.
    pub fn validate(&self) -> (r: Result<Option<Date>, ViewError>)
        ensures
            r == validate_spec(*self),
    {
        match self {
            ViewRequest::Events(f) => match f.from {
                Some(fr) => if date_le_x(&f.until, &fr) {
                    Err(ViewError::UntilBeforeFrom)
                } else {
                    Ok(Some(f.until))
                },
                None => Ok(Some(f.until)),
            },
            ViewRequest::DailyNotes(f) => match f.from {
                Some(fr) => if date_le_x(&f.until, &fr) {
                    Err(ViewError::UntilBeforeFrom)
                } else {
                    Ok(Some(f.until))
                },
                None => Ok(Some(f.until)),
            },
            ViewRequest::Tickles(f) => Ok(Some(f.until)),
            ViewRequest::Dates(f) => Ok(Some(f.until)),
            ViewRequest::Waits(f) => {
                if let (Some(d), Some(s)) = (f.deadline, f.scheduled) {
                    if date_le_x(&d, &s) {
                        return Err(ViewError::DeadlineBeforeScheduled);
                    }
                }
                Ok(
                    match f.scheduled {
                        Some(s) => Some(s),
                        None => f.deadline,
                    },
                )
            },
            ViewRequest::Projects(f) => {
                if let (Some(d), Some(s)) = (f.deadline, f.scheduled) {
                    if date_le_x(&d, &s) {
                        return Err(ViewError::DeadlineBeforeScheduled);
                    }
                }
                if let (Some(fr), Some(u)) = (f.from, f.until) {
                    if date_le_x(&u, &fr) {
                        return Err(ViewError::UntilBeforeFrom);
                    }
                }
                let sd = match f.scheduled {
                    Some(s) => Some(s),
                    None => f.deadline,
                };
                let fu = match f.until {
                    Some(u) => Some(u),
                    None => f.from,
                };
                Ok(date_opt_max(sd, fu))
            },
            ViewRequest::Tasks(f) => {
                if let (Some(d), Some(s)) = (f.deadline, f.scheduled) {
                    if crate::dates::date_lt_x(&d, &s) {
                        return Err(ViewError::DeadlineBeforeScheduled);
                    }
                }
                if let (Some(fr), Some(u)) = (f.from, f.until) {
                    if date_le_x(&u, &fr) {
                        return Err(ViewError::UntilBeforeFrom);
                    }
                }
                let sd = match f.scheduled {
                    Some(s) => Some(s),
                    None => f.deadline,
                };
                let fu = match f.until {
                    Some(u) => Some(u),
                    None => f.from,
                };
                Ok(date_opt_max(sd, fu))
            },
            ViewRequest::TargetContexts(f) => Ok(Some(f.until)),
            ViewRequest::Goals(f) => Ok(Some(f.date)),
        }
    }
}

/// Returns the later of two optional dates.
fn date_opt_max(a: Option<Date>, b: Option<Date>) -> (r: Option<Date>)
    ensures
        r == opt_date_max(a, b),
{
    match (a, b) {
        (None, None) => None,
        (Some(x), None) => Some(x),
        (None, Some(y)) => Some(y),
        (Some(x), Some(y)) => if crate::dates::date_lt_x(&x, &y) {
            Some(y)
        } else {
            Some(x)
        },
    }
}

/// The encoding the output is produced in.
#[derive(Clone, Copy, PartialEq, Eq, Structural, Debug)]
pub enum Encoding {
    /// Plain structured text, the default encoding.
    Json,
    /// A compact binary encoding for passing to another program.
    Bincode,
}

/// The time to keep expanding repeating timestamps past the last date the
/// views ask for, in days.
#[derive(Clone, Copy, PartialEq, Eq, Structural, Debug)]
pub struct RepeatBuffer {
    pub days: u64,
}

/// What a repeat-buffer string denotes: a number followed by `w` for weeks
/// or `d` for days.
pub open spec fn repeat_buffer_spec(s: Seq<char>) -> Option<RepeatBuffer> {
    if s.len() == 0 {
        None
    } else {
        match u16_parse(s.drop_last()) {
            Some(n) => if s.last() == 'w' {
                Some(RepeatBuffer { days: (7 * n) as u64 })
            } else if s.last() == 'd' {
                Some(RepeatBuffer { days: n as u64 })
            } else {
                None
            },
            None => None,
        }
    }
}

impl RepeatBuffer {
    /// Parses a repeat buffer such as a number of weeks or days.
    pub fn parse(s: &str) -> (r: Option<RepeatBuffer>)
        ensures
            r == repeat_buffer_spec(s@),
    {
        let n = s.unicode_len();
        if n == 0 {
            return None;
        }
        let spec_c = s.get_char(n - 1);
        let num_str = s.substring_char(0, n - 1);
        proof {
            assert(num_str@ =~= s@.drop_last());
        }
        match parse_u16(num_str) {
            Some(v) => {
                if spec_c == 'w' {
                    Some(RepeatBuffer { days: 7 * (v as u64) })
                } else if spec_c == 'd' {
                    Some(RepeatBuffer { days: v as u64 })
                } else {
                    None
                }
            },
            None => None,
        }
    }
}

/// One view's worth of extracted data.
pub enum ViewData {
    Events(Vec<Event>),
    DailyNotes(Vec<DailyNote>),
    Tickles(Vec<Tickle>),
    PersonDates(Vec<PersonDate>),
    Waitings(Vec<Waiting>),
    Projects(Vec<Project>),
    Tasks(Vec<Task>),
    TargetContexts(Vec<(String, Vec<Task>)>),
}

/// The requested views, grouped by the type of data they show, each with its
/// name, plus the latest date any of them involves.
pub struct AllViews {
    pub events: Vec<(String, EventsFilter)>,
    pub daily_notes: Vec<(String, DailyNotesFilter)>,
    pub tickles: Vec<(String, TicklesFilter)>,
    pub dates: Vec<(String, DatesFilter)>,
    pub waits: Vec<(String, WaitsFilter)>,
    pub projects: Vec<(String, ProjectsFilter)>,
    pub tasks: Vec<(String, TasksFilter)>,
    pub target_contexts: Vec<(String, TargetContextsFilter)>,
    pub goals: Vec<(String, GoalsFilter)>,
    /// The latest date across all the views, if any filters on dates at all;
    /// repeating timestamps stop expanding a buffer after it.
    pub last_date: Option<Date>,
}

/// Entry `e` is an empty events result under `name`.
pub open spec fn empty_events_entry(e: (String, ViewData), name: String) -> bool {
    e.0 == name && (e.1 matches ViewData::Events(v) && v@.len() == 0)
}

pub open spec fn empty_daily_notes_entry(e: (String, ViewData), name: String) -> bool {
    e.0 == name && (e.1 matches ViewData::DailyNotes(v) && v@.len() == 0)
}

pub open spec fn empty_tickles_entry(e: (String, ViewData), name: String) -> bool {
    e.0 == name && (e.1 matches ViewData::Tickles(v) && v@.len() == 0)
}

pub open spec fn empty_person_dates_entry(e: (String, ViewData), name: String) -> bool {
    e.0 == name && (e.1 matches ViewData::PersonDates(v) && v@.len() == 0)
}

pub open spec fn empty_waitings_entry(e: (String, ViewData), name: String) -> bool {
    e.0 == name && (e.1 matches ViewData::Waitings(v) && v@.len() == 0)
}

pub open spec fn empty_projects_entry(e: (String, ViewData), name: String) -> bool {
    e.0 == name && (e.1 matches ViewData::Projects(v) && v@.len() == 0)
}

pub open spec fn empty_tasks_entry(e: (String, ViewData), name: String) -> bool {
    e.0 == name && (e.1 matches ViewData::Tasks(v) && v@.len() == 0)
}

pub open spec fn empty_target_contexts_entry(e: (String, ViewData), name: String) -> bool {
    e.0 == name && (e.1 matches ViewData::TargetContexts(v) && v@.len() == 0)
}

/// The offset of each group's segment in the placeholder list.
pub open spec fn dummies_offset(av: AllViews, k: int) -> int {
    let o1 = av.events@.len() as int;
    let o2 = o1 + av.daily_notes@.len();
    let o3 = o2 + av.tickles@.len();
    let o4 = o3 + av.dates@.len();
    let o5 = o4 + av.waits@.len();
    let o6 = o5 + av.projects@.len();
    let o7 = o6 + av.tasks@.len();
    let o8 = o7 + av.target_contexts@.len();
    if k <= 0 {
        0
    } else if k == 1 {
        o1
    } else if k == 2 {
        o2
    } else if k == 3 {
        o3
    } else if k == 4 {
        o4
    } else if k == 5 {
        o5
    } else if k == 6 {
        o6
    } else if k == 7 {
        o7
    } else {
        o8
    }
}

pub open spec fn seg_events_ok(av: AllViews, r: Seq<(String, ViewData)>) -> bool {
    forall|j: int|
        0 <= j < av.events@.len() ==> empty_events_entry(
            r[dummies_offset(av, 0) + j],
            (#[trigger] av.events@[j]).0,
        )
}

pub open spec fn seg_daily_notes_ok(av: AllViews, r: Seq<(String, ViewData)>) -> bool {
    forall|j: int|
        0 <= j < av.daily_notes@.len() ==> empty_daily_notes_entry(
            r[dummies_offset(av, 1) + j],
            (#[trigger] av.daily_notes@[j]).0,
        )
}

pub open spec fn seg_tickles_ok(av: AllViews, r: Seq<(String, ViewData)>) -> bool {
    forall|j: int|
        0 <= j < av.tickles@.len() ==> empty_tickles_entry(
            r[dummies_offset(av, 2) + j],
            (#[trigger] av.tickles@[j]).0,
        )
}

pub open spec fn seg_dates_ok(av: AllViews, r: Seq<(String, ViewData)>) -> bool {
    forall|j: int|
        0 <= j < av.dates@.len() ==> empty_person_dates_entry(
            r[dummies_offset(av, 3) + j],
            (#[trigger] av.dates@[j]).0,
        )
}

pub open spec fn seg_waits_ok(av: AllViews, r: Seq<(String, ViewData)>) -> bool {
    forall|j: int|
        0 <= j < av.waits@.len() ==> empty_waitings_entry(
            r[dummies_offset(av, 4) + j],
            (#[trigger] av.waits@[j]).0,
        )
}

pub open spec fn seg_projects_ok(av: AllViews, r: Seq<(String, ViewData)>) -> bool {
    forall|j: int|
        0 <= j < av.projects@.len() ==> empty_projects_entry(
            r[dummies_offset(av, 5) + j],
            (#[trigger] av.projects@[j]).0,
        )
}

pub open spec fn seg_tasks_ok(av: AllViews, r: Seq<(String, ViewData)>) -> bool {
    forall|j: int|
        0 <= j < av.tasks@.len() ==> empty_tasks_entry(
            r[dummies_offset(av, 6) + j],
            (#[trigger] av.tasks@[j]).0,
        )
}

pub open spec fn seg_target_contexts_ok(av: AllViews, r: Seq<(String, ViewData)>) -> bool {
    forall|j: int|
        0 <= j < av.target_contexts@.len() ==> empty_target_contexts_entry(
            r[dummies_offset(av, 7) + j],
            (#[trigger] av.target_contexts@[j]).0,
        )
}

/// `r` is exactly one empty placeholder per requested view, in group order,
/// each under its view's name.
pub open spec fn dummies_ok(av: AllViews, r: Seq<(String, ViewData)>) -> bool {
    &&& r.len() == dummies_offset(av, 8)
    &&& seg_events_ok(av, r)
    &&& seg_daily_notes_ok(av, r)
    &&& seg_tickles_ok(av, r)
    &&& seg_dates_ok(av, r)
    &&& seg_waits_ok(av, r)
    &&& seg_projects_ok(av, r)
    &&& seg_tasks_ok(av, r)
    &&& seg_target_contexts_ok(av, r)
}

impl AllViews {
    /// One empty result per requested view, in group order, each under its
    /// view's name: the placeholders that failed or skipped runs report.
    pub fn dummies(&self) -> (r: Vec<(String, ViewData)>)
        ensures
            dummies_ok(*self, r@),
    {
        let mut out: Vec<(String, ViewData)> = Vec::new();
        let mut i: usize = 0;
        while i < self.events.len()
            invariant
                i <= self.events@.len(),
                out@.len() == i,
                forall|j: int|
                    0 <= j < i ==> empty_events_entry(out@[j], (#[trigger] self.events@[j]).0),
            decreases self.events@.len() - i,
        {
            out.push((self.events[i].0.clone(), ViewData::Events(Vec::new())));
            i = i + 1;
        }
        let mut i: usize = 0;
        while i < self.daily_notes.len()
            invariant
                i <= self.daily_notes@.len(),
                out@.len() == dummies_offset(*self, 1) + i,
                seg_events_ok(*self, out@),
                forall|j: int|
                    0 <= j < i ==> empty_daily_notes_entry(
                        out@[dummies_offset(*self, 1) + j],
                        (#[trigger] self.daily_notes@[j]).0,
                    ),
            decreases self.daily_notes@.len() - i,
        {
            out.push((self.daily_notes[i].0.clone(), ViewData::DailyNotes(Vec::new())));
            i = i + 1;
        }
        let mut i: usize = 0;
        while i < self.tickles.len()
            invariant
                i <= self.tickles@.len(),
                out@.len() == dummies_offset(*self, 2) + i,
                seg_events_ok(*self, out@),
                seg_daily_notes_ok(*self, out@),
                forall|j: int|
                    0 <= j < i ==> empty_tickles_entry(
                        out@[dummies_offset(*self, 2) + j],
                        (#[trigger] self.tickles@[j]).0,
                    ),
            decreases self.tickles@.len() - i,
        {
            out.push((self.tickles[i].0.clone(), ViewData::Tickles(Vec::new())));
            i = i + 1;
        }
        let mut i: usize = 0;
        while i < self.dates.len()
            invariant
                i <= self.dates@.len(),
                out@.len() == dummies_offset(*self, 3) + i,
                seg_events_ok(*self, out@),
                seg_daily_notes_ok(*self, out@),
                seg_tickles_ok(*self, out@),
                forall|j: int|
                    0 <= j < i ==> empty_person_dates_entry(
                        out@[dummies_offset(*self, 3) + j],
                        (#[trigger] self.dates@[j]).0,
                    ),
            decreases self.dates@.len() - i,
        {
            out.push((self.dates[i].0.clone(), ViewData::PersonDates(Vec::new())));
            i = i + 1;
        }
        let mut i: usize = 0;
        while i < self.waits.len()
            invariant
                i <= self.waits@.len(),
                out@.len() == dummies_offset(*self, 4) + i,
                seg_events_ok(*self, out@),
                seg_daily_notes_ok(*self, out@),
                seg_tickles_ok(*self, out@),
                seg_dates_ok(*self, out@),
                forall|j: int|
                    0 <= j < i ==> empty_waitings_entry(
                        out@[dummies_offset(*self, 4) + j],
                        (#[trigger] self.waits@[j]).0,
                    ),
            decreases self.waits@.len() - i,
        {
            out.push((self.waits[i].0.clone(), ViewData::Waitings(Vec::new())));
            i = i + 1;
        }
        let mut i: usize = 0;
        while i < self.projects.len()
            invariant
                i <= self.projects@.len(),
                out@.len() == dummies_offset(*self, 5) + i,
                seg_events_ok(*self, out@),
                seg_daily_notes_ok(*self, out@),
                seg_tickles_ok(*self, out@),
                seg_dates_ok(*self, out@),
                seg_waits_ok(*self, out@),
                forall|j: int|
                    0 <= j < i ==> empty_projects_entry(
                        out@[dummies_offset(*self, 5) + j],
                        (#[trigger] self.projects@[j]).0,
                    ),
            decreases self.projects@.len() - i,
        {
            out.push((self.projects[i].0.clone(), ViewData::Projects(Vec::new())));
            i = i + 1;
        }
        let mut i: usize = 0;
        while i < self.tasks.len()
            invariant
                i <= self.tasks@.len(),
                out@.len() == dummies_offset(*self, 6) + i,
                seg_events_ok(*self, out@),
                seg_daily_notes_ok(*self, out@),
                seg_tickles_ok(*self, out@),
                seg_dates_ok(*self, out@),
                seg_waits_ok(*self, out@),
                seg_projects_ok(*self, out@),
                forall|j: int|
                    0 <= j < i ==> empty_tasks_entry(
                        out@[dummies_offset(*self, 6) + j],
                        (#[trigger] self.tasks@[j]).0,
                    ),
            decreases self.tasks@.len() - i,
        {
            out.push((self.tasks[i].0.clone(), ViewData::Tasks(Vec::new())));
            i = i + 1;
        }
        let mut i: usize = 0;
        while i < self.target_contexts.len()
            invariant
                i <= self.target_contexts@.len(),
                out@.len() == dummies_offset(*self, 7) + i,
                seg_events_ok(*self, out@),
                seg_daily_notes_ok(*self, out@),
                seg_tickles_ok(*self, out@),
                seg_dates_ok(*self, out@),
                seg_waits_ok(*self, out@),
                seg_projects_ok(*self, out@),
                seg_tasks_ok(*self, out@),
                forall|j: int|
                    0 <= j < i ==> empty_target_contexts_entry(
                        out@[dummies_offset(*self, 7) + j],
                        (#[trigger] self.target_contexts@[j]).0,
                    ),
            decreases self.target_contexts@.len() - i,
        {
            out.push((self.target_contexts[i].0.clone(), ViewData::TargetContexts(Vec::new())));
            i = i + 1;
        }
        out
    }
}

} // verus!
