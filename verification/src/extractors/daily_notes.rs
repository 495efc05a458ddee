//! The daily-note view: note items with a date, to surface on that day.

use vstd::prelude::*;
use crate::action_item::{ActionItem, ParseError};
use crate::dates::Date;
use crate::strutil::{clone_opt_string, last_title};

verus! {

/// A note to be displayed as something to remember on a specific day.
#[derive(Debug)]
pub struct DailyNote {
    /// The identifier of the node corresponding to this daily note.
    pub id: u128,
    /// The title of this note.
    pub title: String,
    /// The body of this note, if one is present.
    pub body: Option<String>,
    /// The date on which this daily note should be displayed.
    pub date: Date,
}

/// Occurrence `idx` of the item yields a daily note.
pub open spec fn note_emits(item: ActionItem, idx: int) -> bool {
    (item matches ActionItem::Note { .. }) && item.base_spec().repeats@[idx].primary is Some
}

/// The occurrence's timestamp is not an all-day one: it carries an end or a
/// time, which a daily note may not.
pub open spec fn note_not_all_day(item: ActionItem, idx: int) -> bool {
    let ts = item.base_spec().repeats@[idx].primary.unwrap();
    ts.end is Some || ts.start.time is Some
}

/// `dn` is the daily note of occurrence `idx` of the item.
pub open spec fn note_matches(item: ActionItem, idx: int, dn: DailyNote) -> bool {
    &&& dn.id == item.base_spec().id
    &&& dn.title == item.base_spec().title@.last()
    &&& dn.body == item.base_spec().body
    &&& dn.date == item.base_spec().repeats@[idx].primary.unwrap().start.date
}

/// `sel` lists, in increasing order, exactly the occurrence indices that
/// yield a daily note.
pub open spec fn note_selection(item: ActionItem, sel: Seq<int>) -> bool {
    &&& forall|j: int| 0 <= j < sel.len() ==> 0 <= #[trigger] sel[j]
        < item.base_spec().repeats@.len() && note_emits(item, sel[j])
    &&& forall|j1: int, j2: int|
        0 <= j1 < j2 < sel.len() ==> #[trigger] sel[j1] < #[trigger] sel[j2]
    &&& forall|idx: int|
        0 <= idx < item.base_spec().repeats@.len() && note_emits(item, idx) ==> sel.contains(idx)
}

impl DailyNote {
    /// Converts the given action item into its daily notes: one per
    /// occurrence with a primary timestamp, when the item is a note; nothing
    /// otherwise. A note whose timestamp is not all-day is rejected.
    pub fn from_action_item(item: &ActionItem) -> (r: Result<Vec<DailyNote>, ParseError>)
        requires
            item.base_spec().title@.len() >= 1,
        ensures
            match r {
                Ok(dns) => exists|sel: Seq<int>|
                    {
                        &&& #[trigger] note_selection(*item, sel)
                        &&& dns@.len() == sel.len()
                        &&& forall|j: int|
                            0 <= j < sel.len() ==> note_matches(*item, sel[j], #[trigger] dns@[j])
                                && !note_not_all_day(*item, sel[j])
                    },
                Err(e) => {
                    &&& exists|idx: int|
                        0 <= idx < item.base_spec().repeats@.len() && #[trigger] note_emits(
                            *item,
                            idx,
                        ) && note_not_all_day(*item, idx)
                    &&& e == (ParseError::NotAllDay { id: item.base_spec().id })
                },
            },
    {
        let ghost mut sel: Seq<int> = Seq::empty();
        let mut out: Vec<DailyNote> = Vec::new();
        let base = item.base();
        let is_note = matches!(item, ActionItem::Note { .. });
        if !is_note {
            proof {
                assert(note_selection(*item, sel));
            }
            return Ok(out);
        }
        let mut idx: usize = 0;
        while idx < base.repeats.len()
            invariant
                item.base_spec().title@.len() >= 1,
                base == item.base_spec(),
                item matches ActionItem::Note { .. },
                idx <= base.repeats@.len(),
                out@.len() == sel.len(),
                forall|j: int| 0 <= j < sel.len() ==> 0 <= #[trigger] sel[j] < idx && note_emits(
                    *item,
                    sel[j],
                ),
                forall|j1: int, j2: int|
                    0 <= j1 < j2 < sel.len() ==> #[trigger] sel[j1] < #[trigger] sel[j2],
                forall|i: int| 0 <= i < idx && note_emits(*item, i) ==> sel.contains(i),
                forall|j: int|
                    0 <= j < sel.len() ==> note_matches(*item, sel[j], #[trigger] out@[j])
                        && !note_not_all_day(*item, sel[j]),
            decreases base.repeats@.len() - idx,
        {
            match &base.repeats[idx].primary {
                Some(ts) => {
                    if ts.end.is_some() || ts.start.time.is_some() {
                        proof {
                            assert(note_emits(*item, idx as int));
                            assert(note_not_all_day(*item, idx as int));
                        }
                        return Err(ParseError::NotAllDay { id: base.id });
                    }
                    let ghost old_sel = sel;
                    out.push(
                        DailyNote {
                            id: base.id,
                            title: last_title(&base.title),
                            body: clone_opt_string(&base.body),
                            date: ts.start.date,
                        },
                    );
                    proof {
                        sel = sel.push(idx as int);
                        assert forall|i: int| 0 <= i < idx + 1 && note_emits(*item, i) implies sel
                            .contains(i) by {
                            if i < idx {
                                let j = choose|j: int| 0 <= j < old_sel.len() && old_sel[j] == i;
                                assert(sel[j] == i);
                            } else {
                                assert(sel[sel.len() - 1] == i);
                            }
                        };
                    }
                },
                None => {
                    proof {
                        assert forall|i: int| 0 <= i < idx + 1 && note_emits(*item, i) implies sel
                            .contains(i) by {
                            assert(i < idx);
                        };
                    }
                },
            }
            idx = idx + 1;
        }
        proof {
            assert(note_selection(*item, sel));
        }
        Ok(out)
    }
}

} // verus!
