//! The event view: generic timestamped items that are neither person dates
//! nor tickles, one record per occurrence that carries a primary timestamp.

use vstd::prelude::*;
use crate::action_item::ActionItem;
use crate::strutil::{
    clone_opt_string, clone_pairs, get_prop, last_title, prop_lookup, seq_has_str, strings_contain,
};
use crate::timestamps::SimpleTimestamp;

verus! {

/// An event, to be held or attended at a specific time.
#[derive(Debug)]
pub struct Event {
    /// The identifier of the corresponding node.
    pub id: u128,
    /// The title of the event.
    pub title: String,
    /// The body of the event, if there is one.
    pub body: Option<String>,
    /// The location, if one is recorded in the properties.
    pub location: Option<String>,
    /// Any people associated with the event.
    pub people: Vec<(u128, String)>,
    /// The timestamp at which the event occurs.
    pub timestamp: SimpleTimestamp,
}

/// The item can produce events at all: a generic item outside the person
/// date and tickle trees.
pub open spec fn event_item(item: ActionItem) -> bool {
    &&& item matches ActionItem::Generic { .. }
    &&& !seq_has_str(item.base_spec().parent_tags@, "person_dates"@)
    &&& !seq_has_str(item.base_spec().parent_tags@, "tickles"@)
}

/// Occurrence `idx` of the item yields an event.
pub open spec fn event_emits(item: ActionItem, idx: int) -> bool {
    event_item(item) && item.base_spec().repeats@[idx].primary is Some
}

/// `ev` is the event of occurrence `idx` of the item.
pub open spec fn event_matches(item: ActionItem, idx: int, ev: Event) -> bool {
    match item {
        ActionItem::Generic { base, properties, people } => {
            &&& ev.id == base.id
            &&& ev.title == base.title@.last()
            &&& ev.body == base.body
            &&& ev.location == prop_lookup(properties@, "LOCATION"@)
            &&& ev.people@ == people@
            &&& Some(ev.timestamp) == base.repeats@[idx].primary
        },
        _ => false,
    }
}

/// `sel` lists, in increasing order, exactly the occurrence indices of the
/// item that yield an event.
pub open spec fn event_selection(item: ActionItem, sel: Seq<int>) -> bool {
    &&& forall|j: int| 0 <= j < sel.len() ==> 0 <= #[trigger] sel[j]
        < item.base_spec().repeats@.len() && event_emits(item, sel[j])
    &&& forall|j1: int, j2: int|
        0 <= j1 < j2 < sel.len() ==> #[trigger] sel[j1] < #[trigger] sel[j2]
    &&& forall|idx: int|
        0 <= idx < item.base_spec().repeats@.len() && event_emits(item, idx) ==> sel.contains(idx)
}

impl Event {
    /// Converts the given action item into its events: one per occurrence
    /// with a primary timestamp, when the item is a generic one outside the
    /// person date and tickle trees; nothing otherwise.
    pub fn from_action_item(item: &ActionItem) -> (r: Vec<Event>)
        requires
            item.base_spec().title@.len() >= 1,
        ensures
            exists|sel: Seq<int>|
                {
                    &&& #[trigger] event_selection(*item, sel)
                    &&& r@.len() == sel.len()
                    &&& forall|j: int|
                        0 <= j < sel.len() ==> event_matches(*item, sel[j], #[trigger] r@[j])
                },
    {
        let ghost mut sel: Seq<int> = Seq::empty();
        let mut out: Vec<Event> = Vec::new();
        let is_event_item: bool = match item {
            ActionItem::Generic { base, .. } => !strings_contain(&base.parent_tags, "person_dates")
                && !strings_contain(&base.parent_tags, "tickles"),
            _ => false,
        };
        if !is_event_item {
            proof {
                assert(event_selection(*item, sel));
            }
            return out;
        }
        match item {
            ActionItem::Generic { base, properties, people } => {
                let mut idx: usize = 0;
                while idx < base.repeats.len()
                    invariant
                        item.base_spec().title@.len() >= 1,
                        base == item.base_spec(),
                        item == (ActionItem::Generic {
                            base: *base,
                            properties: *properties,
                            people: *people,
                        }),
                        event_item(*item),
                        idx <= base.repeats@.len(),
                        out@.len() == sel.len(),
                        forall|j: int| 0 <= j < sel.len() ==> 0 <= #[trigger] sel[j] < idx
                            && event_emits(*item, sel[j]),
                        forall|j1: int, j2: int|
                            0 <= j1 < j2 < sel.len() ==> #[trigger] sel[j1] < #[trigger] sel[j2],
                        forall|i: int|
                            0 <= i < idx && event_emits(*item, i) ==> sel.contains(i),
                        forall|j: int|
                            0 <= j < sel.len() ==> event_matches(*item, sel[j], #[trigger] out@[j]),
                    decreases base.repeats@.len() - idx,
                {
                    match &base.repeats[idx].primary {
                        Some(ts) => {
                            let ghost old_sel = sel;
                            out.push(
                                Event {
                                    id: base.id,
                                    title: last_title(&base.title),
                                    body: clone_opt_string(&base.body),
                                    location: get_prop(properties, "LOCATION"),
                                    people: clone_pairs(people),
                                    timestamp: *ts,
                                },
                            );
                            proof {
                                sel = sel.push(idx as int);
                                assert forall|i: int| 0 <= i < idx + 1 && event_emits(
                                    *item,
                                    i,
                                ) implies sel.contains(i) by {
                                    if i < idx {
                                        let j = choose|j: int|
                                            0 <= j < old_sel.len() && old_sel[j] == i;
                                        assert(sel[j] == i);
                                    } else {
                                        assert(sel[sel.len() - 1] == i);
                                    }
                                };
                            }
                        },
                        None => {
                            proof {
                                assert forall|i: int| 0 <= i < idx + 1 && event_emits(
                                    *item,
                                    i,
                                ) implies sel.contains(i) by {
                                    assert(i < idx);
                                };
                            }
                        },
                    }
                    idx = idx + 1;
                }
                proof {
                    assert(event_selection(*item, sel));
                }
                out
            },
            _ => {
                proof {
                    assert(false);
                }
                out
            },
        }
    }
}

} // verus!
