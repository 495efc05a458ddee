//! The whole normalisation pipeline: skipping, pruning, expansion, building
//! and the fill pass, plus priority inheritance.

use polaris::action_item::{ActionItem, Priority};
use polaris::dates::Date;
use polaris::node::{prune_inactive_ts, skip_complete, Node, NodeMetadata};
use polaris::normalize::{inherit_priority, normalize_action_items};
use polaris::timestamps::{OrgTime, Repeater, RepeatUnit, Timestamp};

fn d(year: u64, month: u8, day: u8) -> Date {
    Date { year, month, day }
}

fn ts(date: Date, rep: Option<Repeater>, active: bool) -> Timestamp {
    Timestamp { start: OrgTime { date, time: None }, end: None, repeater: rep, active }
}

fn metadata() -> NodeMetadata {
    NodeMetadata {
        level: 1,
        priority: None,
        deadline: None,
        scheduled: None,
        closed: None,
        properties: Vec::new(),
        keyword: None,
        timestamps: Vec::new(),
    }
}

fn node(id: u128, keyword: &str, parent: Option<u128>, md: NodeMetadata) -> Node {
    Node {
        id,
        title: vec![format!("node {id}")],
        path: "plan.md".to_string(),
        tags: Vec::new(),
        parent_tags: Vec::new(),
        parent_id: parent,
        metadata: Some(NodeMetadata { keyword: Some(keyword.to_string()), ..md }),
        body: None,
        children: Vec::new(),
        connections: Vec::new(),
        child_connections: Vec::new(),
        backlinks: Vec::new(),
        child_backlinks: Vec::new(),
    }
}

#[test]
fn completed_nodes_are_skipped() {
    let done = vec!["DONE".to_string(), "CONT".to_string(), "PROB".to_string()];
    assert!(!skip_complete(&node(1, "DONE", None, metadata()), &done));
    assert!(skip_complete(&node(1, "TODO", None, metadata()), &done));

    let map = normalize_action_items(
        vec![node(1, "DONE", None, metadata()), node(2, "TODO", None, metadata())],
        &done,
        d(2025, 1, 1),
    )
    .unwrap();
    assert!(map.get(1).is_none());
    assert!(map.get(2).is_some());
}

#[test]
fn inactive_timestamps_are_discarded_before_expansion() {
    let md = NodeMetadata {
        timestamps: vec![ts(d(2025, 1, 1), None, true), ts(d(2025, 2, 2), None, false)],
        scheduled: Some(ts(d(2025, 1, 5), None, false)),
        deadline: Some(ts(d(2025, 1, 8), None, true)),
        ..metadata()
    };
    let pruned = prune_inactive_ts(node(1, "TODO", None, md));
    let pm = pruned.metadata.unwrap();
    assert_eq!(pm.timestamps.len(), 1);
    assert_eq!(pm.timestamps[0].start.date, d(2025, 1, 1));
    assert!(pm.scheduled.is_none());
    assert!(pm.deadline.is_some());
}

#[test]
fn priority_inherits_from_the_highest_project_ancestor() {
    // A meta-project with top priority, a subproject below it, and a task at
    // the bottom with low declared priority: the task resolves to the top.
    let meta_md = NodeMetadata { priority: Some("1".to_string()), ..metadata() };
    let mut meta = node(1, "PROJ", None, meta_md);
    meta.children = vec![(2, "sub".to_string())];
    let sub_md = NodeMetadata { priority: Some("4".to_string()), ..metadata() };
    let mut sub = node(2, "PROJ", Some(1), sub_md);
    sub.children = vec![(3, "leaf".to_string()), (99, "gone".to_string())];
    let task_md = NodeMetadata { priority: Some("4".to_string()), ..metadata() };
    let task = node(3, "TODO", Some(2), task_md);

    let map = normalize_action_items(vec![meta, sub, task], &Vec::new(), d(2025, 1, 1)).unwrap();

    match map.get(3).unwrap() {
        ActionItem::Task { priority, computed_priority, .. } => {
            assert_eq!(*priority, Priority::Low);
            assert_eq!(*computed_priority, Some(Priority::Important));
        },
        _ => panic!("expected a task"),
    }
    // The walk from the subproject also sees the meta-project's priority.
    assert_eq!(inherit_priority(2, &map), Some(Priority::Important));
    assert_eq!(inherit_priority(404, &map), None);
    // Child lists are pruned to entries still present in the map.
    match map.get(2).unwrap() {
        ActionItem::Project { child_items, .. } => assert_eq!(*child_items, vec![3]),
        _ => panic!("expected a project"),
    }
}

#[test]
fn a_task_never_resolves_below_its_declared_priority() {
    // The parent project's priority is lower than the task's own, so the
    // computed priority stays unset and the declared one stands.
    let proj_md = NodeMetadata { priority: Some("4".to_string()), ..metadata() };
    let mut proj = node(1, "PROJ", None, proj_md);
    proj.children = vec![(2, "leaf".to_string())];
    let task_md = NodeMetadata { priority: Some("2".to_string()), ..metadata() };
    let task = node(2, "TODO", Some(1), task_md);
    let map = normalize_action_items(vec![proj, task], &Vec::new(), d(2025, 1, 1)).unwrap();
    match map.get(2).unwrap() {
        ActionItem::Task { priority, computed_priority, .. } => {
            assert_eq!(*priority, Priority::High);
            assert_eq!(*computed_priority, None);
        },
        _ => panic!("expected a task"),
    }
}

#[test]
fn normalisation_fails_on_the_first_unbuildable_node() {
    let bad_md = NodeMetadata { priority: Some("zero".to_string()), ..metadata() };
    let r = normalize_action_items(
        vec![node(1, "TODO", None, bad_md)],
        &Vec::new(),
        d(2025, 1, 1),
    );
    assert!(r.is_err());
}

#[test]
fn every_item_gets_at_least_one_occurrence_and_repeats_expand() {
    let md = NodeMetadata {
        timestamps: vec![ts(
            d(2025, 1, 1),
            Some(Repeater { unit: RepeatUnit::Week, count: 1 }),
            true,
        )],
        ..metadata()
    };
    let map = normalize_action_items(
        vec![node(1, "NOTE", None, md), node(2, "NOTE", None, metadata())],
        &Vec::new(),
        d(2025, 1, 20),
    )
    .unwrap();
    assert_eq!(map.get(1).unwrap().base().repeats.len(), 4);
    assert_eq!(map.get(2).unwrap().base().repeats.len(), 1);
}
