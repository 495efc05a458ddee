//! Hierarchy resolution: inheritance, the parent/child deadline order, and
//! the sibling buffer.

use polaris::action_item::{ActionItem, BaseActionItem, Effort, Priority};
use polaris::dates::{Date, Moment};
use polaris::extractors::crunch_points::CrunchPoints;
use polaris::extractors::tasks::Task;
use polaris::map::ItemMap;
use polaris::repeat::ActionItemRepeat;
use polaris::resolve::{compute_from_parent, ConsistencyError};
use polaris::views::{PlanningMatchType, TasksFilter, TimestampMatch};

fn d(year: u64, month: u8, day: u8) -> Date {
    Date { year, month, day }
}

fn eod(date: Date) -> Moment {
    Moment { date, secs: 86_399 }
}

fn base(id: u128, title: &str, parent: Option<u128>, occ: ActionItemRepeat) -> BaseActionItem {
    BaseActionItem {
        id,
        title: vec![title.to_string()],
        body: None,
        parent_tags: Vec::new(),
        parent_id: parent,
        repeats: vec![occ],
    }
}

fn occ(scheduled: Option<Moment>, deadline: Option<Moment>) -> ActionItemRepeat {
    ActionItemRepeat { primary: None, scheduled, deadline }
}

fn task(
    id: u128,
    parent: Option<u128>,
    o: ActionItemRepeat,
    can_start: bool,
) -> ActionItem {
    ActionItem::Task {
        base: base(id, "task", parent, o),
        priority: Priority::Medium,
        computed_priority: None,
        effort: Effort::Low,
        contexts: Vec::new(),
        people: Vec::new(),
        can_start,
    }
}

fn project(id: u128, o: ActionItemRepeat, children: Vec<u128>) -> ActionItem {
    ActionItem::Project {
        base: base(id, "project", None, o),
        priority: Priority::Medium,
        computed_priority: None,
        child_items: children,
    }
}

#[test]
fn deadline_after_parent_project_is_a_consistency_error() {
    let mut map = ItemMap::new();
    map.insert(1, project(1, occ(None, Some(eod(d(2025, 3, 5)))), vec![2]));
    map.insert(2, task(2, Some(1), occ(None, Some(eod(d(2025, 3, 10)))), true));
    let item = task(2, Some(1), occ(None, Some(eod(d(2025, 3, 10)))), true);
    let r = compute_from_parent(&item, 0, &map);
    assert_eq!(r, Err(ConsistencyError::DeadlineAfterParent { id: 2 }));
}

#[test]
fn sibling_buffer_puts_actionable_deadline_one_day_before() {
    // A project with an actionable task (no dates of its own) and a
    // non-actionable sibling with a deadline: the actionable task's deadline
    // resolves to the day before the sibling's.
    let mut map = ItemMap::new();
    map.insert(1, project(1, occ(None, None), vec![2, 3]));
    map.insert(2, task(2, Some(1), occ(None, None), true));
    map.insert(3, task(3, Some(1), occ(None, Some(eod(d(2025, 1, 10)))), false));
    let actionable = task(2, Some(1), occ(None, None), true);
    let (resolved, has_next) = compute_from_parent(&actionable, 0, &map).unwrap();
    assert!(has_next);
    assert_eq!(resolved.deadline, Some(eod(d(2025, 1, 9))));
}

#[test]
fn crunch_points_follow_the_task_filter_not_the_resolver() {
    // The non-actionable sibling is excluded by the default task filter, so
    // only the actionable task's buffered deadline accumulates effort.
    let mut map = ItemMap::new();
    map.insert(1, project(1, occ(None, None), vec![2, 3]));
    map.insert(2, task(2, Some(1), occ(None, None), true));
    map.insert(3, task(3, Some(1), occ(None, Some(eod(d(2025, 1, 10)))), false));

    let filter = TasksFilter {
        from: None,
        until: None,
        timestamp_match: TimestampMatch::All,
        parent_timestamp_match: TimestampMatch::All,
        scheduled: None,
        deadline: None,
        planning_match: PlanningMatchType::All,
        next_tasks: false,
        contexts: None,
        min_priority: None,
        max_priority: None,
        people: None,
    };
    let mut shown: Vec<Task> = Vec::new();
    for id in [2u128, 3u128] {
        let ts = Task::from_action_item(map.get(id).unwrap(), &map).unwrap();
        for t in ts {
            if filter.matches(&t) {
                shown.push(t);
            }
        }
    }
    assert_eq!(shown.len(), 1);
    assert_eq!(shown[0].id, 2);

    let mut crunch = CrunchPoints::new();
    for t in &shown {
        crunch = crunch.accumulate(t);
    }
    // The actionable task (low effort, score one) lands on the buffered day.
    assert_eq!(crunch.inner.len(), 1);
    assert_eq!(crunch.inner[0].0, d(2025, 1, 9));
    assert_eq!(crunch.inner[0].1, 1);
}

#[test]
fn absent_dates_inherit_from_the_parent_project() {
    let mut map = ItemMap::new();
    map.insert(
        1,
        project(1, occ(Some(eod(d(2025, 2, 1))), Some(eod(d(2025, 2, 10)))), vec![2]),
    );
    map.insert(2, task(2, Some(1), occ(None, None), false));
    let item = task(2, Some(1), occ(None, None), false);
    let (resolved, has_next) = compute_from_parent(&item, 0, &map).unwrap();
    assert!(!has_next);
    assert_eq!(resolved.scheduled, Some(eod(d(2025, 2, 1))));
    assert_eq!(resolved.deadline, Some(eod(d(2025, 2, 10))));
}

#[test]
fn scheduled_after_deadline_is_a_consistency_error() {
    let mut map = ItemMap::new();
    let item = task(
        7,
        None,
        occ(Some(eod(d(2025, 4, 9))), Some(eod(d(2025, 4, 2)))),
        true,
    );
    map.insert(7, task(7, None, occ(Some(eod(d(2025, 4, 9))), Some(eod(d(2025, 4, 2)))), true));
    let r = compute_from_parent(&item, 0, &map);
    assert_eq!(r, Err(ConsistencyError::ScheduledAfterDeadline { id: 7 }));
}

#[test]
fn occurrences_pair_by_index_and_missing_parent_occurrences_skip_inheritance() {
    let mut map = ItemMap::new();
    map.insert(1, project(1, occ(None, Some(eod(d(2025, 5, 1)))), vec![2]));
    let two_occs = BaseActionItem {
        id: 2,
        title: vec!["task".to_string()],
        body: None,
        parent_tags: Vec::new(),
        parent_id: Some(1),
        repeats: vec![occ(None, None), occ(None, None)],
    };
    let item = ActionItem::Task {
        base: two_occs,
        priority: Priority::Medium,
        computed_priority: None,
        effort: Effort::Low,
        contexts: Vec::new(),
        people: Vec::new(),
        can_start: false,
    };
    // Index zero pairs with the parent's only occurrence and inherits.
    let (r0, _) = compute_from_parent(&item, 0, &map).unwrap();
    assert_eq!(r0.deadline, Some(eod(d(2025, 5, 1))));
    // Index one has no parent occurrence, so inheritance is skipped.
    let (r1, _) = compute_from_parent(&item, 1, &map).unwrap();
    assert_eq!(r1.deadline, None);
}
