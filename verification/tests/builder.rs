//! The item builder: keyword dispatch, marker interpretation, the people
//! list, and the delegation date.

use polaris::action_item::{
    node_to_action_item, ActionItem, Effort, ParseError, Priority,
};
use polaris::dates::Date;
use polaris::node::{Node, NodeMetadata};

fn metadata() -> NodeMetadata {
    NodeMetadata {
        level: 1,
        priority: None,
        deadline: None,
        scheduled: None,
        closed: None,
        properties: Vec::new(),
        keyword: None,
        timestamps: Vec::new(),
    }
}

fn node(id: u128, keyword: Option<&str>, md: NodeMetadata) -> Node {
    Node {
        id,
        title: vec!["area".to_string(), "thing".to_string()],
        path: "inbox.md".to_string(),
        tags: vec!["home".to_string()],
        parent_tags: Vec::new(),
        parent_id: Some(9),
        metadata: Some(NodeMetadata { keyword: keyword.map(|k| k.to_string()), ..md }),
        body: Some("body".to_string()),
        children: vec![(5, "kid".to_string())],
        connections: Vec::new(),
        child_connections: Vec::new(),
        backlinks: Vec::new(),
        child_backlinks: Vec::new(),
    }
}

#[test]
fn todo_builds_an_actionable_task() {
    let item = node_to_action_item(node(1, Some("TODO"), metadata()), Vec::new()).unwrap();
    match item {
        ActionItem::Task { base, priority, computed_priority, effort, contexts, can_start, .. } => {
            assert_eq!(base.id, 1);
            assert_eq!(base.parent_id, Some(9));
            assert!(can_start);
            assert_eq!(priority, Priority::Medium);
            assert_eq!(computed_priority, None);
            assert_eq!(effort, Effort::Medium);
            assert_eq!(contexts, vec!["home".to_string()]);
        },
        _ => panic!("expected a task"),
    }
}

#[test]
fn next_builds_a_non_actionable_task() {
    let item = node_to_action_item(node(2, Some("NEXT"), metadata()), Vec::new()).unwrap();
    assert!(matches!(item, ActionItem::Task { can_start: false, .. }));
}

#[test]
fn proj_builds_a_project_with_child_identifiers() {
    let item = node_to_action_item(node(3, Some("PROJ"), metadata()), Vec::new()).unwrap();
    match item {
        ActionItem::Project { child_items, .. } => assert_eq!(child_items, vec![5]),
        _ => panic!("expected a project"),
    }
}

#[test]
fn note_and_no_keyword_build_note_and_generic() {
    let note = node_to_action_item(node(4, Some("NOTE"), metadata()), Vec::new()).unwrap();
    assert!(matches!(note, ActionItem::Note { .. }));
    let generic = node_to_action_item(node(5, None, metadata()), Vec::new()).unwrap();
    assert!(matches!(generic, ActionItem::Generic { .. }));
}

#[test]
fn unknown_keyword_is_rejected() {
    let r = node_to_action_item(node(6, Some("LATER"), metadata()), Vec::new());
    assert_eq!(r.unwrap_err(), ParseError::UnknownKeyword { id: 6 });
}

#[test]
fn priority_markers_map_to_the_four_levels() {
    for (marker, want) in [
        ("1", Priority::Important),
        ("2", Priority::High),
        ("3", Priority::Medium),
        ("4", Priority::Low),
    ] {
        let md = NodeMetadata { priority: Some(marker.to_string()), ..metadata() };
        let item = node_to_action_item(node(7, Some("TODO"), md), Vec::new()).unwrap();
        match item {
            ActionItem::Task { priority, .. } => assert_eq!(priority, want),
            _ => panic!("expected a task"),
        }
    }
    let md = NodeMetadata { priority: Some("A".to_string()), ..metadata() };
    let r = node_to_action_item(node(7, Some("TODO"), md), Vec::new());
    assert_eq!(r.unwrap_err(), ParseError::UnknownPriority { id: 7 });
}

#[test]
fn effort_markers_map_to_the_five_levels() {
    for (marker, want) in [
        ("total", Effort::Total),
        ("high", Effort::High),
        ("medium", Effort::Medium),
        ("med", Effort::Medium),
        ("low", Effort::Low),
        ("minimal", Effort::Minimal),
        ("min", Effort::Minimal),
    ] {
        let md = NodeMetadata {
            properties: vec![("EFFORT".to_string(), marker.to_string())],
            ..metadata()
        };
        let item = node_to_action_item(node(8, Some("TODO"), md), Vec::new()).unwrap();
        match item {
            ActionItem::Task { effort, .. } => assert_eq!(effort, want),
            _ => panic!("expected a task"),
        }
    }
    let md = NodeMetadata {
        properties: vec![("EFFORT".to_string(), "huge".to_string())],
        ..metadata()
    };
    let r = node_to_action_item(node(8, Some("TODO"), md), Vec::new());
    assert_eq!(r.unwrap_err(), ParseError::UnknownEffort { id: 8 });
}

#[test]
fn people_links_parse_to_identifiers_and_names() {
    let md = NodeMetadata {
        properties: vec![(
            "PEOPLE".to_string(),
            "[Alice](67e55044-10b1-426f-9247-bb680e5fe0c8), [(Person) Bob](936da01f-9abd-4d9d-80c7-02af85c822a8)"
                .to_string(),
        )],
        ..metadata()
    };
    let item = node_to_action_item(node(9, Some("TODO"), md), Vec::new()).unwrap();
    match item {
        ActionItem::Task { people, .. } => {
            assert_eq!(people.len(), 2);
            assert_eq!(people[0].0, 0x67e55044_10b1_426f_9247_bb680e5fe0c8u128);
            assert_eq!(people[0].1, "Alice");
            // The person-node prefix on the name is dropped.
            assert_eq!(people[1].0, 0x936da01f_9abd_4d9d_80c7_02af85c822a8u128);
            assert_eq!(people[1].1, "Bob");
        },
        _ => panic!("expected a task"),
    }
}

#[test]
fn malformed_people_lists_are_rejected() {
    for bad in [
        "Alice(67e55044-10b1-426f-9247-bb680e5fe0c8)",
        "[Alice]67e55044-10b1-426f-9247-bb680e5fe0c8",
        "[Alice](not-an-identifier)",
        "[Alice](67e55044-10b1-426f-9247-bb680e5fe0c8",
    ] {
        let md = NodeMetadata {
            properties: vec![("PEOPLE".to_string(), bad.to_string())],
            ..metadata()
        };
        let r = node_to_action_item(node(10, Some("TODO"), md), Vec::new());
        assert_eq!(r.unwrap_err(), ParseError::BadPeople { id: 10 });
    }
}

#[test]
fn waiting_nodes_need_a_parseable_delegation_date() {
    let md = NodeMetadata {
        properties: vec![("SENT".to_string(), "2024-05-06".to_string())],
        ..metadata()
    };
    let item = node_to_action_item(node(11, Some("WAIT"), md), Vec::new()).unwrap();
    match item {
        ActionItem::Waiting { sent, .. } => {
            assert_eq!(sent, Date { year: 2024, month: 5, day: 6 });
        },
        _ => panic!("expected a waiting item"),
    }

    let r = node_to_action_item(node(12, Some("WAIT"), metadata()), Vec::new());
    assert_eq!(r.unwrap_err(), ParseError::MissingSent { id: 12 });

    let md = NodeMetadata {
        properties: vec![("SENT".to_string(), "soon".to_string())],
        ..metadata()
    };
    let r = node_to_action_item(node(13, Some("WAIT"), md), Vec::new());
    assert_eq!(r.unwrap_err(), ParseError::BadSent { id: 13 });

    // An impossible calendar date does not parse either.
    let md = NodeMetadata {
        properties: vec![("SENT".to_string(), "2024-02-30".to_string())],
        ..metadata()
    };
    let r = node_to_action_item(node(14, Some("WAIT"), md), Vec::new());
    assert_eq!(r.unwrap_err(), ParseError::BadSent { id: 14 });
}
