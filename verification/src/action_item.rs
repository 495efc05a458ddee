//! Typed action items and the builder that turns one raw node (plus its
//! expanded occurrences) into its item variant, interpreting the keyword,
//! priority and effort markers, the people list, and the delegation date.

use vstd::prelude::*;
use chrono::Datelike;
use crate::dates::{date_valid, days_in_month, Date};
use crate::node::Node;
use crate::people::{parse_people, people_spec, people_view};
use crate::repeat::ActionItemRepeat;
use crate::strutil::{get_prop, prop_lookup, str_eq};

verus! {

/// The priority of a task or project, lowest to highest.
#[derive(Clone, Copy, PartialEq, Eq, Structural, Debug)]
pub enum Priority {
    Low,
    Medium,
    High,
    Important,
}

impl Priority {
    /// The numeric rank of this priority; higher is more urgent.
    pub open spec fn rank_spec(self) -> int {
        match self {
            Priority::Low => 0,
            Priority::Medium => 1,
            Priority::High => 2,
            Priority::Important => 3,
        }
    }

    pub fn rank(self) -> (r: u8)
        ensures
            r == self.rank_spec(),
    {
        match self {
            Priority::Low => 0,
            Priority::Medium => 1,
            Priority::High => 2,
            Priority::Important => 3,
        }
    }
}

/// The effort a task is estimated to take, lowest to highest.
#[derive(Clone, Copy, PartialEq, Eq, Structural, Debug)]
pub enum Effort {
    Minimal,
    Low,
    Medium,
    High,
    Total,
}

impl Effort {
    /// The numeric rank of this effort level; higher is more work.
    pub open spec fn rank_spec(self) -> int {
        match self {
            Effort::Minimal => 0,
            Effort::Low => 1,
            Effort::Medium => 2,
            Effort::High => 3,
            Effort::Total => 4,
        }
    }

    pub fn rank(self) -> (r: u8)
        ensures
            r == self.rank_spec(),
    {
        match self {
            Effort::Minimal => 0,
            Effort::Low => 1,
            Effort::Medium => 2,
            Effort::High => 3,
            Effort::Total => 4,
        }
    }
}

/// A node's declared fields could not be interpreted; carries the identifier
/// of the offending node.
#[derive(Clone, Copy, PartialEq, Eq, Structural, Debug)]
pub enum ParseError {
    /// The keyword is not one of the recognised action states.
    UnknownKeyword { id: u128 },
    /// A waiting node lacks its delegation-date property.
    MissingSent { id: u128 },
    /// The delegation-date property does not hold a usable date.
    BadSent { id: u128 },
    /// The people property is not a list of `[Name](identifier)` links.
    BadPeople { id: u128 },
    /// The priority marker maps to no known level.
    UnknownPriority { id: u128 },
    /// The effort marker maps to no known level.
    UnknownEffort { id: u128 },
    /// A day-keyed item carries an end or a time and so is not all-day.
    NotAllDay { id: u128 },
    /// A person date lacks its notification-advance property.
    MissingAdvance { id: u128 },
    /// The notification-advance property is malformed, or puts the notify
    /// date out of the representable range.
    BadAdvance { id: u128 },
    /// A person date has nobody listed in its people property.
    NoPerson { id: u128 },
}

/// The base properties all action items share.
#[derive(Debug)]
pub struct BaseActionItem {
    /// The unique identifier of the item.
    pub id: u128,
    /// The title of the item (last element) and the titles of its parents.
    pub title: Vec<String>,
    /// The body of the item, if present.
    pub body: Option<String>,
    /// Tags on the parent nodes of this item.
    pub parent_tags: Vec<String>,
    /// The identifier of the parent node, if there is one.
    pub parent_id: Option<u128>,
    /// The expanded occurrences of this item, in order.
    pub repeats: Vec<ActionItemRepeat>,
}

/// An action item within the system.
#[derive(Debug)]
pub enum ActionItem {
    Project {
        base: BaseActionItem,
        /// The declared priority of this project.
        priority: Priority,
        /// A higher priority computed from parent projects, filled in by the
        /// second pass.
        computed_priority: Option<Priority>,
        /// The identifiers of the child items under this project; pruned to
        /// entries present in the map by the second pass.
        child_items: Vec<u128>,
    },
    Task {
        base: BaseActionItem,
        /// The declared priority of the task.
        priority: Priority,
        /// A higher priority computed from parent projects, filled in by the
        /// second pass.
        computed_priority: Option<Priority>,
        /// The effort required to complete the task.
        effort: Effort,
        /// The contexts required to complete the task.
        contexts: Vec<String>,
        /// The people needed to complete the task, by identifier and name.
        people: Vec<(u128, String)>,
        /// Whether the task can be started immediately (rather than waiting
        /// on other tasks first).
        can_start: bool,
    },
    Waiting {
        base: BaseActionItem,
        /// The date on which the obligation was delegated.
        sent: Date,
    },
    Note { base: BaseActionItem },
    Generic {
        base: BaseActionItem,
        /// The free-form properties of the item.
        properties: Vec<(String, String)>,
        /// The people associated with the item, by identifier and name.
        people: Vec<(u128, String)>,
    },
}

impl ActionItem {
    /// The base properties of this action item.
    pub open spec fn base_spec(&self) -> &BaseActionItem {
        match self {
            ActionItem::Task { base, .. } => base,
            ActionItem::Project { base, .. } => base,
            ActionItem::Waiting { base, .. } => base,
            ActionItem::Note { base, .. } => base,
            ActionItem::Generic { base, .. } => base,
        }
    }

    /// Gets the base properties of this action item.
    #[verifier::when_used_as_spec(base_spec)]
    pub fn base(&self) -> (b: &BaseActionItem)
        ensures
            b == self.base_spec(),
    {
        match self {
            ActionItem::Task { base, .. } => base,
            ActionItem::Project { base, .. } => base,
            ActionItem::Waiting { base, .. } => base,
            ActionItem::Note { base, .. } => base,
            ActionItem::Generic { base, .. } => base,
        }
    }
}

/// What `chrono::NaiveDate::parse_from_str` makes of a string under the
/// `%Y-%m-%d` format, as plain year, month and day values: a function of the
/// characters alone.
pub uninterp spec fn date_parse_ymd(s: Seq<char>) -> Option<(i64, u8, u8)>;

/// Relies on chrono::NaiveDate::parse_from_str with the `%Y-%m-%d` format:
/// which strings parse, and to which date, depends only on the characters of
/// the input; a parsed NaiveDate is documented to be a valid proleptic
/// Gregorian date with a year within about plus or minus 262143.
#[verifier::external_body]
fn parse_date_str(s: &str) -> (r: Option<(i64, u8, u8)>)
    ensures
        r == date_parse_ymd(s@),
        match r {
            Some(d) => 1 <= d.1 <= 12 && 1 <= d.2 && d.2 as int <= days_in_month(
                d.0 as int,
                d.1 as int,
            ) && -262_143 <= d.0 <= 262_143,
            None => true,
        },
{
    chrono::NaiveDate::parse_from_str(s, "%Y-%m-%d").ok().map(
        |d| (d.year() as i64, d.month() as u8, d.day() as u8),
    )
}

/// The priority level a marker denotes, if any; a missing marker means
/// medium priority.
pub open spec fn priority_marker_spec(m: Option<String>) -> Option<Priority> {
    match m {
        None => Some(Priority::Medium),
        Some(p) => if p@ == "1"@ {
            Some(Priority::Important)
        } else if p@ == "2"@ {
            Some(Priority::High)
        } else if p@ == "3"@ {
            Some(Priority::Medium)
        } else if p@ == "4"@ {
            Some(Priority::Low)
        } else {
            None
        },
    }
}

impl Priority {
    /// Parses a priority from the given node's priority marker.
    pub fn from_node(node: &Node) -> (r: Result<Priority, ParseError>)
        requires
            node.metadata is Some,
        ensures
            match priority_marker_spec(node.metadata.unwrap().priority) {
                Some(p) => r == Ok::<Priority, ParseError>(p),
                None => r == Err::<Priority, ParseError>(
                    ParseError::UnknownPriority { id: node.id },
                ),
            },
    {
        match &node.metadata.as_ref().unwrap().priority {
            None => Ok(Priority::Medium),
            Some(p) => {
                if str_eq(p.as_str(), "1") {
                    Ok(Priority::Important)
                } else if str_eq(p.as_str(), "2") {
                    Ok(Priority::High)
                } else if str_eq(p.as_str(), "3") {
                    Ok(Priority::Medium)
                } else if str_eq(p.as_str(), "4") {
                    Ok(Priority::Low)
                } else {
                    Err(ParseError::UnknownPriority { id: node.id })
                }
            },
        }
    }
}

/// The effort level the effort property denotes, if any; a missing property
/// means medium effort.
pub open spec fn effort_marker_spec(props: Seq<(String, String)>) -> Option<Effort> {
    match prop_lookup(props, "EFFORT"@) {
        None => Some(Effort::Medium),
        Some(v) => if v@ == "total"@ {
            Some(Effort::Total)
        } else if v@ == "high"@ {
            Some(Effort::High)
        } else if v@ == "medium"@ || v@ == "med"@ {
            Some(Effort::Medium)
        } else if v@ == "low"@ {
            Some(Effort::Low)
        } else if v@ == "minimal"@ || v@ == "min"@ {
            Some(Effort::Minimal)
        } else {
            None
        },
    }
}

impl Effort {
    /// Parses an effort level from the given node's effort property.
    pub fn from_node(node: &Node) -> (r: Result<Effort, ParseError>)
        requires
            node.metadata is Some,
        ensures
            match effort_marker_spec(node.metadata.unwrap().properties@) {
                Some(e) => r == Ok::<Effort, ParseError>(e),
                None => r == Err::<Effort, ParseError>(ParseError::UnknownEffort { id: node.id }),
            },
    {
        match get_prop(&node.metadata.as_ref().unwrap().properties, "EFFORT") {
            None => Ok(Effort::Medium),
            Some(v) => {
                let s = v.as_str();
                if str_eq(s, "total") {
                    Ok(Effort::Total)
                } else if str_eq(s, "high") {
                    Ok(Effort::High)
                } else if str_eq(s, "medium") || str_eq(s, "med") {
                    Ok(Effort::Medium)
                } else if str_eq(s, "low") {
                    Ok(Effort::Low)
                } else if str_eq(s, "minimal") || str_eq(s, "min") {
                    Ok(Effort::Minimal)
                } else {
                    Err(ParseError::UnknownEffort { id: node.id })
                }
            },
        }
    }
}

/// The node's people property is present but malformed.
pub open spec fn people_error(n: Node) -> bool {
    match prop_lookup(n.metadata.unwrap().properties@, "PEOPLE"@) {
        Some(v) => people_spec(v@) is None,
        None => false,
    }
}

/// The people the node declares (empty without a people property).
pub open spec fn people_of(n: Node) -> Seq<(u128, Seq<char>)> {
    match prop_lookup(n.metadata.unwrap().properties@, "PEOPLE"@) {
        Some(v) => people_spec(v@).unwrap(),
        None => Seq::empty(),
    }
}

/// Parses the list of people, by identifier and name, from the given node's
/// people property.
pub fn people_from_node(node: &Node) -> (r: Result<Vec<(u128, String)>, ParseError>)
    requires
        node.metadata is Some,
    ensures
        match r {
            Ok(ps) => !people_error(*node) && people_view(ps@) == people_of(*node),
            Err(e) => people_error(*node) && e == (ParseError::BadPeople { id: node.id }),
        },
{
    match get_prop(&node.metadata.as_ref().unwrap().properties, "PEOPLE") {
        Some(v) => match parse_people(v.as_str()) {
            Some(ps) => Ok(ps),
            None => Err(ParseError::BadPeople { id: node.id }),
        },
        None => {
            proof {
                assert(people_view(Seq::<(u128, String)>::empty()) =~= Seq::<
                    (u128, Seq<char>),
                >::empty());
            }
            Ok(Vec::new())
        },
    }
}

/// The delegation date a waiting node declares, or the parse error naming
/// why it has none.
pub open spec fn sent_result_spec(n: Node) -> Result<Date, ParseError> {
    match prop_lookup(n.metadata.unwrap().properties@, "SENT"@) {
        None => Err(ParseError::MissingSent { id: n.id }),
        Some(v) => match date_parse_ymd(v@) {
            None => Err(ParseError::BadSent { id: n.id }),
            Some((y, m, d)) => if y >= 0 {
                Ok(Date { year: y as u64, month: m, day: d })
            } else {
                Err(ParseError::BadSent { id: n.id })
            },
        },
    }
}

/// Reads the delegation date of a waiting node. Dates before year 0 are
/// rejected as out of the library's range.
fn sent_from_node(node: &Node) -> (r: Result<Date, ParseError>)
    requires
        node.metadata is Some,
    ensures
        r == sent_result_spec(*node),
        r is Ok ==> date_valid(r.unwrap()),
{
    match get_prop(&node.metadata.as_ref().unwrap().properties, "SENT") {
        None => Err(ParseError::MissingSent { id: node.id }),
        Some(v) => match parse_date_str(v.as_str()) {
            None => Err(ParseError::BadSent { id: node.id }),
            Some((y, m, d)) => {
                if y >= 0 {
                    Ok(Date { year: y as u64, month: m, day: d })
                } else {
                    Err(ParseError::BadSent { id: node.id })
                }
            },
        },
    }
}

/// The first interpretation failure the builder meets on this node, if any.
pub open spec fn build_error_spec(n: Node) -> Option<ParseError> {
    let md = n.metadata.unwrap();
    match md.keyword {
        Some(kw) => if kw@ == "TODO"@ || kw@ == "NEXT"@ {
            if people_error(n) {
                Some(ParseError::BadPeople { id: n.id })
            } else if priority_marker_spec(md.priority) is None {
                Some(ParseError::UnknownPriority { id: n.id })
            } else if effort_marker_spec(md.properties@) is None {
                Some(ParseError::UnknownEffort { id: n.id })
            } else {
                None
            }
        } else if kw@ == "WAIT"@ {
            match sent_result_spec(n) {
                Ok(_) => None,
                Err(e) => Some(e),
            }
        } else if kw@ == "NOTE"@ {
            None
        } else if kw@ == "PROJ"@ {
            if priority_marker_spec(md.priority) is None {
                Some(ParseError::UnknownPriority { id: n.id })
            } else {
                None
            }
        } else {
            Some(ParseError::UnknownKeyword { id: n.id })
        },
        None => if people_error(n) {
            Some(ParseError::BadPeople { id: n.id })
        } else {
            None
        },
    }
}

/// The base record carries the node's own fields and the given occurrences.
pub open spec fn base_ok(n: Node, repeats: Seq<ActionItemRepeat>, b: BaseActionItem) -> bool {
    &&& b.id == n.id
    &&& b.title == n.title
    &&& b.body == n.body
    &&& b.parent_tags == n.parent_tags
    &&& b.parent_id == n.parent_id
    &&& b.repeats@ == repeats
}

/// `item` is the action item that the node and its occurrences denote.
pub open spec fn builds_to(n: Node, repeats: Seq<ActionItemRepeat>, item: ActionItem) -> bool {
    let md = n.metadata.unwrap();
    match md.keyword {
        Some(kw) => if kw@ == "TODO"@ || kw@ == "NEXT"@ {
            match item {
                ActionItem::Task {
                    base,
                    priority,
                    computed_priority,
                    effort,
                    contexts,
                    people,
                    can_start,
                } => {
                    &&& base_ok(n, repeats, base)
                    &&& Some(priority) == priority_marker_spec(md.priority)
                    &&& computed_priority is None
                    &&& Some(effort) == effort_marker_spec(md.properties@)
                    &&& contexts == n.tags
                    &&& people_view(people@) == people_of(n)
                    &&& can_start == (kw@ == "TODO"@)
                },
                _ => false,
            }
        } else if kw@ == "WAIT"@ {
            match item {
                ActionItem::Waiting { base, sent } => {
                    &&& base_ok(n, repeats, base)
                    &&& sent_result_spec(n) == Ok::<Date, ParseError>(sent)
                },
                _ => false,
            }
        } else if kw@ == "NOTE"@ {
            match item {
                ActionItem::Note { base } => base_ok(n, repeats, base),
                _ => false,
            }
        } else if kw@ == "PROJ"@ {
            match item {
                ActionItem::Project { base, priority, computed_priority, child_items } => {
                    &&& base_ok(n, repeats, base)
                    &&& Some(priority) == priority_marker_spec(md.priority)
                    &&& computed_priority is None
                    &&& child_items@ == n.children@.map_values(|c: (u128, String)| c.0)
                },
                _ => false,
            }
        } else {
            false
        },
        None => match item {
            ActionItem::Generic { base, properties, people } => {
                &&& base_ok(n, repeats, base)
                &&& properties == md.properties
                &&& people_view(people@) == people_of(n)
            },
            _ => false,
        },
    }
}

/// Collects the child identifiers of the node, dropping the titles.
fn child_ids(children: &Vec<(u128, String)>) -> (r: Vec<u128>)
    ensures
        r@ == children@.map_values(|c: (u128, String)| c.0),
{
    let mut out: Vec<u128> = Vec::new();
    let mut i: usize = 0;
    while i < children.len()
        invariant
            i <= children@.len(),
            out@ == children@.take(i as int).map_values(|c: (u128, String)| c.0),
        decreases children@.len() - i,
    {
        out.push(children[i].0);
        proof {
            assert(children@.take(i + 1).map_values(|c: (u128, String)| c.0) =~= children@.take(
                i as int,
            ).map_values(|c: (u128, String)| c.0).push(children@[i as int].0));
        }
        i = i + 1;
    }
    proof {
        assert(children@.take(children@.len() as int) =~= children@);
    }
    out
}

/// Converts the given node into its action item, pairing it with its
/// expanded occurrences. This does not fill in computed relative properties;
/// a second pass over the full map does that.
pub fn node_to_action_item(node: Node, repeats: Vec<ActionItemRepeat>) -> (r: Result<
    ActionItem,
    ParseError,
>)
    requires
        node.metadata is Some,
    ensures
        match r {
            Ok(item) => build_error_spec(node) is None && builds_to(node, repeats@, item),
            Err(e) => build_error_spec(node) == Some(e),
        },
{
    // Keyword classes: 0 TODO, 1 NEXT, 2 WAIT, 3 NOTE, 4 PROJ, 5 no keyword.
    let kind: u8 = match &node.metadata.as_ref().unwrap().keyword {
        None => 5,
        Some(kw) => {
            if str_eq(kw.as_str(), "TODO") {
                0
            } else if str_eq(kw.as_str(), "NEXT") {
                1
            } else if str_eq(kw.as_str(), "WAIT") {
                2
            } else if str_eq(kw.as_str(), "NOTE") {
                3
            } else if str_eq(kw.as_str(), "PROJ") {
                4
            } else {
                return Err(ParseError::UnknownKeyword { id: node.id });
            }
        },
    };

    let people_res = people_from_node(&node);
    let priority_res = Priority::from_node(&node);
    let effort_res = Effort::from_node(&node);
    let sent_res = sent_from_node(&node);
    let children_ids = child_ids(&node.children);

    let Node { id, title, tags, parent_tags, parent_id, metadata, body, .. } = node;
    let md = match metadata {
        Some(m) => m,
        None => unreached(),
    };
    let base = BaseActionItem { id, title, body, parent_tags, parent_id, repeats };

    if kind == 0 || kind == 1 {
        let people = match people_res {
            Ok(ps) => ps,
            Err(e) => {
                return Err(e);
            },
        };
        let priority = match priority_res {
            Ok(p) => p,
            Err(e) => {
                return Err(e);
            },
        };
        let effort = match effort_res {
            Ok(e) => e,
            Err(e) => {
                return Err(e);
            },
        };
        Ok(
            ActionItem::Task {
                base,
                priority,
                computed_priority: None,
                effort,
                contexts: tags,
                people,
                can_start: kind == 0,
            },
        )
    } else if kind == 2 {
        let sent = match sent_res {
            Ok(d) => d,
            Err(e) => {
                return Err(e);
            },
        };
        Ok(ActionItem::Waiting { base, sent })
    } else if kind == 3 {
        Ok(ActionItem::Note { base })
    } else if kind == 4 {
        let priority = match priority_res {
            Ok(p) => p,
            Err(e) => {
                return Err(e);
            },
        };
        Ok(ActionItem::Project { base, priority, computed_priority: None, child_items: children_ids })
    } else {
        let people = match people_res {
            Ok(ps) => ps,
            Err(e) => {
                return Err(e);
            },
        };
        Ok(ActionItem::Generic { base, properties: md.properties, people })
    }
}

} // verus!
