//! The view extractors, the filters over their records, and the calendar
//! utilities they rest on.

use polaris::action_item::{ActionItem, BaseActionItem, Effort, ParseError, Priority};
use polaris::dates::{add_days, add_months, sub_days, Date, Moment};
use polaris::extractors::crunch_points::effort_to_numeric;
use polaris::extractors::daily_notes::DailyNote;
use polaris::extractors::events::Event;
use polaris::extractors::people_dates::PersonDate;
use polaris::extractors::projects::Project;
use polaris::extractors::sort::{end_of_time, ScheduledDeadline};
use polaris::extractors::stacks::Stack;
use polaris::extractors::tickles::Tickle;
use polaris::map::ItemMap;
use polaris::repeat::ActionItemRepeat;
use polaris::resolve::{final_ts_point, min_dt, ConsistencyError};
use polaris::strutil::{parse_u16, str_eq, str_lt};
use polaris::target_contexts::target_contexts;
use polaris::timestamps::{OrgTime, SimpleTimestamp};
use polaris::extractors::tasks::Task;
use polaris::extractors::waiting::Waiting;
use polaris::views::{
    EventsFilter, PlanningMatchType, ProjectsFilter, RepeatBuffer, TasksFilter, TicklesFilter,
    TimestampMatch, ViewError, ViewRequest, WaitsFilter,
};

fn d(year: u64, month: u8, day: u8) -> Date {
    Date { year, month, day }
}

fn eod(date: Date) -> Moment {
    Moment { date, secs: 86_399 }
}

fn simple(date: Date) -> SimpleTimestamp {
    SimpleTimestamp { start: OrgTime { date, time: None }, end: None }
}

fn base_with(
    id: u128,
    parent_tags: Vec<String>,
    repeats: Vec<ActionItemRepeat>,
) -> BaseActionItem {
    BaseActionItem {
        id,
        title: vec!["thing".to_string()],
        body: None,
        parent_tags,
        parent_id: None,
        repeats,
    }
}

fn dated_occ(date: Date) -> ActionItemRepeat {
    ActionItemRepeat { primary: Some(simple(date)), scheduled: None, deadline: None }
}

#[test]
fn calendar_arithmetic_handles_rollovers_and_leap_years() {
    assert_eq!(add_days(&d(2024, 2, 28), 1), d(2024, 2, 29));
    assert_eq!(add_days(&d(2025, 2, 28), 1), d(2025, 3, 1));
    assert_eq!(add_days(&d(2025, 12, 31), 1), d(2026, 1, 1));
    assert_eq!(add_days(&d(2025, 1, 1), 365), d(2026, 1, 1));
    assert_eq!(add_months(&d(2025, 1, 31), 1), d(2025, 2, 28));
    assert_eq!(add_months(&d(2024, 11, 30), 3), d(2025, 2, 28));
    assert_eq!(sub_days(&d(2025, 1, 1), 1), Some(d(2024, 12, 31)));
    assert_eq!(sub_days(&d(0, 1, 2), 3), None);
    assert_eq!(Date::new(2025, 2, 29), None);
    assert!(Date::new(2024, 2, 29).is_some());
}

#[test]
fn small_number_and_string_utilities_behave_like_the_standard_ones() {
    assert_eq!(parse_u16("42"), Some(42));
    assert_eq!(parse_u16("+7"), Some(7));
    assert_eq!(parse_u16(""), None);
    assert_eq!(parse_u16("+"), None);
    assert_eq!(parse_u16("65535"), Some(65535));
    assert_eq!(parse_u16("65536"), None);
    assert_eq!(parse_u16("1x"), None);
    assert!(str_eq("abc", "abc"));
    assert!(!str_eq("abc", "abd"));
    assert!(str_lt("abc", "abd"));
    assert!(str_lt("ab", "abc"));
    assert!(!str_lt("b", "abc"));
}

#[test]
fn events_come_from_generic_items_outside_special_trees() {
    let ev_item = ActionItem::Generic {
        base: base_with(1, Vec::new(), vec![dated_occ(d(2025, 3, 3))]),
        properties: vec![("LOCATION".to_string(), "hall".to_string())],
        people: Vec::new(),
    };
    let evs = Event::from_action_item(&ev_item);
    assert_eq!(evs.len(), 1);
    assert_eq!(evs[0].location.as_deref(), Some("hall"));
    assert_eq!(evs[0].timestamp.start.date, d(2025, 3, 3));

    let tickle_item = ActionItem::Generic {
        base: base_with(2, vec!["tickles".to_string()], vec![dated_occ(d(2025, 3, 3))]),
        properties: Vec::new(),
        people: Vec::new(),
    };
    assert_eq!(Event::from_action_item(&tickle_item).len(), 0);
    let ts = Tickle::from_action_item(&tickle_item).unwrap();
    assert_eq!(ts.len(), 1);
    assert_eq!(ts[0].date, d(2025, 3, 3));
}

#[test]
fn day_keyed_views_reject_timed_timestamps() {
    let timed = ActionItemRepeat {
        primary: Some(SimpleTimestamp {
            start: OrgTime { date: d(2025, 3, 3), time: Some(3600) },
            end: None,
        }),
        scheduled: None,
        deadline: None,
    };
    let note = ActionItem::Note { base: base_with(3, Vec::new(), vec![timed]) };
    assert_eq!(
        DailyNote::from_action_item(&note).unwrap_err(),
        ParseError::NotAllDay { id: 3 },
    );
}

#[test]
fn person_dates_compute_the_notification_date_from_the_advance() {
    let item = ActionItem::Generic {
        base: base_with(4, vec!["person_dates".to_string()], vec![dated_occ(d(2025, 1, 10))]),
        properties: vec![("ADVANCE".to_string(), "2w".to_string())],
        people: vec![(77, "Cleo".to_string())],
    };
    let pds = PersonDate::from_action_item(&item).unwrap();
    assert_eq!(pds.len(), 1);
    assert_eq!(pds[0].date, d(2025, 1, 10));
    assert_eq!(pds[0].notify_date, d(2024, 12, 27));
    assert_eq!(pds[0].person, (77, "Cleo".to_string()));

    let no_advance = ActionItem::Generic {
        base: base_with(5, vec!["person_dates".to_string()], vec![dated_occ(d(2025, 1, 10))]),
        properties: Vec::new(),
        people: vec![(77, "Cleo".to_string())],
    };
    assert_eq!(
        PersonDate::from_action_item(&no_advance).unwrap_err(),
        ParseError::MissingAdvance { id: 5 },
    );

    let bad_advance = ActionItem::Generic {
        base: base_with(6, vec!["person_dates".to_string()], vec![dated_occ(d(2025, 1, 10))]),
        properties: vec![("ADVANCE".to_string(), "2h".to_string())],
        people: vec![(77, "Cleo".to_string())],
    };
    assert_eq!(
        PersonDate::from_action_item(&bad_advance).unwrap_err(),
        ParseError::BadAdvance { id: 6 },
    );

    let nobody = ActionItem::Generic {
        base: base_with(7, vec!["person_dates".to_string()], vec![dated_occ(d(2025, 1, 10))]),
        properties: vec![("ADVANCE".to_string(), "1d".to_string())],
        people: Vec::new(),
    };
    assert_eq!(
        PersonDate::from_action_item(&nobody).unwrap_err(),
        ParseError::NoPerson { id: 7 },
    );
}

fn empty_occ() -> ActionItemRepeat {
    ActionItemRepeat { primary: None, scheduled: None, deadline: None }
}

fn plain_task(id: u128, parent: Option<u128>, can_start: bool) -> ActionItem {
    ActionItem::Task {
        base: BaseActionItem {
            id,
            title: vec![format!("task {id}")],
            body: None,
            parent_tags: Vec::new(),
            parent_id: parent,
            repeats: vec![empty_occ()],
        },
        priority: Priority::Medium,
        computed_priority: None,
        effort: Effort::Low,
        contexts: Vec::new(),
        people: Vec::new(),
        can_start,
    }
}

#[test]
fn projects_and_stacks_need_actionable_content() {
    let mut map = ItemMap::new();
    let project = ActionItem::Project {
        base: base_with(1, Vec::new(), vec![empty_occ()]),
        priority: Priority::Medium,
        computed_priority: None,
        child_items: vec![2],
    };
    map.insert(
        1,
        ActionItem::Project {
            base: base_with(1, Vec::new(), vec![empty_occ()]),
            priority: Priority::Medium,
            computed_priority: None,
            child_items: vec![2],
        },
    );
    map.insert(2, plain_task(2, Some(1), false));
    // Only a non-actionable task: structurally empty.
    assert_eq!(
        Project::from_action_item(&project, &map).unwrap_err(),
        ConsistencyError::NoActionableContent { id: 1 },
    );
    assert_eq!(
        Stack::from_action_item(&project, &map).unwrap_err(),
        ConsistencyError::NoActionableContent { id: 1 },
    );

    // An actionable task fixes it, and the children are classified.
    map.insert(3, plain_task(3, Some(1), true));
    let project = ActionItem::Project {
        base: base_with(1, Vec::new(), vec![empty_occ()]),
        priority: Priority::Medium,
        computed_priority: None,
        child_items: vec![2, 3],
    };
    map.insert(
        1,
        ActionItem::Project {
            base: base_with(1, Vec::new(), vec![empty_occ()]),
            priority: Priority::Medium,
            computed_priority: None,
            child_items: vec![2, 3],
        },
    );
    let ps = Project::from_action_item(&project, &map).unwrap();
    assert_eq!(ps.len(), 1);
    assert_eq!(ps[0].actionable_tasks, vec![(3, "task 3".to_string())]);
    assert_eq!(ps[0].next_tasks, vec![(2, "task 2".to_string())]);
    let ss = Stack::from_action_item(&project, &map).unwrap();
    assert_eq!(ss.len(), 1);
    assert_eq!(ss[0].actionable_tasks.len(), 1);
    assert_eq!(ss[0].actionable_tasks[0].id, 3);
    assert_eq!(ss[0].next_tasks.len(), 1);
}

#[test]
fn sort_keys_order_by_dates_then_titles() {
    let sd1 = ScheduledDeadline::new(Some(eod(d(2025, 1, 1))), Some(eod(d(2025, 1, 5))));
    let sd2 = ScheduledDeadline::new(None, Some(eod(d(2025, 1, 5))));
    let sd3 = ScheduledDeadline::new(None, None);
    // A scheduled moment sorts first; lacking one the deadline stands in;
    // lacking both the key goes to the end of time.
    assert!(sd1.lt(&sd2));
    assert!(sd2.lt(&sd3));
    assert_eq!(sd3.first, end_of_time());

    let dn = DailyNote {
        id: 1,
        title: "note".to_string(),
        body: None,
        date: d(2025, 2, 2),
    };
    assert_eq!(dn.sort_key(), (d(2025, 2, 2), "note".to_string()));
}

#[test]
fn min_dt_and_final_ts_point_pick_the_relevant_moments() {
    let a = eod(d(2025, 1, 1));
    let b = eod(d(2025, 1, 2));
    assert_eq!(min_dt(Some(a), Some(b)), Some(a));
    assert_eq!(min_dt(None, Some(b)), Some(b));
    assert_eq!(min_dt(None, None), None);
    let ts = SimpleTimestamp {
        start: OrgTime { date: d(2025, 1, 1), time: Some(60) },
        end: Some(OrgTime { date: d(2025, 1, 2), time: None }),
    };
    assert_eq!(final_ts_point(&ts), eod(d(2025, 1, 2)));
}

#[test]
fn view_validation_returns_the_last_date_or_an_ordering_error() {
    let ok = ViewRequest::Events(EventsFilter { from: Some(d(2025, 1, 1)), until: d(2025, 2, 1) });
    assert_eq!(ok.validate(), Ok(Some(d(2025, 2, 1))));
    let bad = ViewRequest::Events(EventsFilter { from: Some(d(2025, 2, 1)), until: d(2025, 1, 1) });
    assert_eq!(bad.validate(), Err(ViewError::UntilBeforeFrom));
    let tickles = ViewRequest::Tickles(TicklesFilter { until: d(2025, 3, 1) });
    assert_eq!(tickles.validate(), Ok(Some(d(2025, 3, 1))));
}

#[test]
fn view_validation_accepts_ordered_windows_and_rejects_reversed_ones() {
    let tasks_window = |from: Option<Date>, until: Option<Date>| {
        ViewRequest::Tasks(TasksFilter {
            from,
            until,
            timestamp_match: TimestampMatch::All,
            parent_timestamp_match: TimestampMatch::All,
            scheduled: None,
            deadline: None,
            planning_match: PlanningMatchType::All,
            next_tasks: false,
            contexts: None,
            min_priority: None,
            max_priority: None,
            people: None,
        })
    };
    // A correctly ordered window passes and yields its last date.
    assert_eq!(
        tasks_window(Some(d(2025, 1, 1)), Some(d(2025, 2, 1))).validate(),
        Ok(Some(d(2025, 2, 1))),
    );
    // A reversed window is the ordering violation.
    assert_eq!(
        tasks_window(Some(d(2025, 2, 1)), Some(d(2025, 1, 1))).validate(),
        Err(ViewError::UntilBeforeFrom),
    );
    let projects_window = |from: Option<Date>, until: Option<Date>| {
        ViewRequest::Projects(ProjectsFilter {
            from,
            until,
            timestamp_match: TimestampMatch::All,
            scheduled: None,
            deadline: None,
            planning_match: PlanningMatchType::All,
        })
    };
    assert_eq!(
        projects_window(Some(d(2025, 1, 1)), Some(d(2025, 2, 1))).validate(),
        Ok(Some(d(2025, 2, 1))),
    );
    assert_eq!(
        projects_window(Some(d(2025, 2, 1)), Some(d(2025, 1, 1))).validate(),
        Err(ViewError::UntilBeforeFrom),
    );
    // Only a from date: it stands in for the window's last date.
    assert_eq!(tasks_window(Some(d(2025, 1, 1)), None).validate(), Ok(Some(d(2025, 1, 1))));
}

#[test]
fn view_validation_rejects_deadlines_before_scheduled_dates() {
    let bad = ViewRequest::Waits(WaitsFilter {
        scheduled: Some(d(2025, 2, 1)),
        deadline: Some(d(2025, 1, 1)),
        planning_match: PlanningMatchType::All,
    });
    assert_eq!(bad.validate(), Err(ViewError::DeadlineBeforeScheduled));
    let ok = ViewRequest::Waits(WaitsFilter {
        scheduled: None,
        deadline: Some(d(2025, 1, 1)),
        planning_match: PlanningMatchType::All,
    });
    assert_eq!(ok.validate(), Ok(Some(d(2025, 1, 1))));
}

#[test]
fn repeat_buffers_parse_weeks_and_days() {
    assert_eq!(RepeatBuffer::parse("8w"), Some(RepeatBuffer { days: 56 }));
    assert_eq!(RepeatBuffer::parse("10d"), Some(RepeatBuffer { days: 10 }));
    assert_eq!(RepeatBuffer::parse("8h"), None);
    assert_eq!(RepeatBuffer::parse(""), None);
}

#[test]
fn waits_filter_honours_the_planning_match_mode() {
    let w = |sched: Option<Moment>, dead: Option<Moment>| Waiting {
        id: 1,
        title: "w".to_string(),
        body: None,
        sent: d(2025, 1, 1),
        scheduled: sched,
        deadline: dead,
    };
    let f = |pm: PlanningMatchType| WaitsFilter {
        scheduled: Some(d(2025, 2, 1)),
        deadline: None,
        planning_match: pm,
    };
    // An undated item passes unless the mode forces a scheduled date.
    assert!(f(PlanningMatchType::All).matches(&w(None, None)));
    assert!(!f(PlanningMatchType::ScheduledOnly).matches(&w(None, None)));
    assert!(!f(PlanningMatchType::ScheduledOrDeadline).matches(&w(None, None)));
    assert!(f(PlanningMatchType::ScheduledOrDeadline).matches(&w(None, Some(eod(d(2025, 3, 1))))));
    // A dated item must meet the cutoff.
    assert!(f(PlanningMatchType::All).matches(&w(Some(eod(d(2025, 1, 15))), None)));
    assert!(!f(PlanningMatchType::All).matches(&w(Some(eod(d(2025, 2, 2))), None)));
}

#[test]
fn tasks_filter_checks_contexts_people_and_timestamps() {
    let t = |contexts: Vec<&str>, ts: Option<SimpleTimestamp>| Task {
        id: 1,
        title: "t".to_string(),
        body: None,
        can_start: true,
        timestamp: ts,
        parent_timestamp: None,
        scheduled: None,
        deadline: None,
        priority: Priority::Medium,
        project_has_non_actionable: false,
        effort: Effort::Low,
        contexts: contexts.into_iter().map(|s| s.to_string()).collect(),
        people: Vec::new(),
    };
    let mut f = TasksFilter {
        from: None,
        until: None,
        timestamp_match: TimestampMatch::All,
        parent_timestamp_match: TimestampMatch::All,
        scheduled: None,
        deadline: None,
        planning_match: PlanningMatchType::All,
        next_tasks: false,
        contexts: Some(vec!["home".to_string(), "desk".to_string()]),
        min_priority: None,
        max_priority: None,
        people: None,
    };
    // All needed contexts available, and context-free tasks are excluded
    // when a non-empty availability list is given.
    assert!(f.matches(&t(vec!["home"], None)));
    assert!(!f.matches(&t(vec!["home", "shop"], None)));
    assert!(!f.matches(&t(vec![], None)));
    // An empty availability list shows only context-free tasks.
    f.contexts = Some(Vec::new());
    assert!(f.matches(&t(vec![], None)));
    assert!(!f.matches(&t(vec!["home"], None)));
    // Timestamp modes: requiring or forbidding a primary timestamp.
    f.contexts = None;
    f.timestamp_match = TimestampMatch::OnlyWithout;
    assert!(!f.matches(&t(vec![], Some(simple(d(2025, 1, 1))))));
    assert!(f.matches(&t(vec![], None)));
    f.timestamp_match = TimestampMatch::OnlyWith;
    assert!(f.matches(&t(vec![], Some(simple(d(2025, 1, 1))))));
    assert!(!f.matches(&t(vec![], None)));
    // Priority bounds.
    f.timestamp_match = TimestampMatch::All;
    f.min_priority = Some(Priority::High);
    assert!(!f.matches(&t(vec![], None)));
    f.min_priority = None;
    f.max_priority = Some(Priority::High);
    assert!(f.matches(&t(vec![], None)));
}

#[test]
fn effort_scores_match_the_fixed_mapping() {
    assert_eq!(effort_to_numeric(&Effort::Minimal), 0);
    assert_eq!(effort_to_numeric(&Effort::Low), 1);
    assert_eq!(effort_to_numeric(&Effort::Medium), 2);
    assert_eq!(effort_to_numeric(&Effort::High), 4);
    assert_eq!(effort_to_numeric(&Effort::Total), 10);
}

#[test]
fn target_contexts_are_deduplicated_and_sorted() {
    let mk = |id: u128, effort: Effort, deadline: Option<Moment>, contexts: Vec<&str>| {
        polaris::extractors::tasks::Task {
            id,
            title: "t".to_string(),
            body: None,
            can_start: true,
            timestamp: None,
            parent_timestamp: None,
            scheduled: None,
            deadline,
            priority: Priority::Medium,
            project_has_non_actionable: false,
            effort,
            contexts: contexts.into_iter().map(|s| s.to_string()).collect(),
            people: Vec::new(),
        }
    };
    let tasks = vec![
        mk(1, Effort::Low, Some(eod(d(2025, 1, 5))), vec!["home", "errands"]),
        mk(2, Effort::Minimal, Some(eod(d(2025, 1, 3))), vec!["errands", "calls"]),
        // Too much effort: its context is not required.
        mk(3, Effort::High, Some(eod(d(2025, 1, 2))), vec!["office"]),
        // Due too late: not required either.
        mk(4, Effort::Low, Some(eod(d(2025, 2, 1))), vec!["garden"]),
        // No deadline at all.
        mk(5, Effort::Low, None, vec!["garage"]),
    ];
    let cs = target_contexts(&tasks, d(2025, 1, 10));
    assert_eq!(cs, vec!["calls".to_string(), "errands".to_string(), "home".to_string()]);
}
