//! The tickle view: generic items under the tickle tree with a date, to
//! resurface in that day's review.

use vstd::prelude::*;
use crate::action_item::{ActionItem, ParseError};
use crate::dates::Date;
use crate::strutil::{clone_opt_string, last_title, seq_has_str, strings_contain};

verus! {

/// A note for something that should reappear in a certain day's review.
#[derive(Debug)]
pub struct Tickle {
    /// The identifier of the node associated with this tickle.
    pub id: u128,
    /// The title of the tickle.
    pub title: String,
    /// The body of the tickle, if there is one.
    pub body: Option<String>,
    /// The date on which this tickle should be displayed.
    pub date: Date,
}

/// Occurrence `idx` of the item yields a tickle.
pub open spec fn tickle_emits(item: ActionItem, idx: int) -> bool {
    &&& seq_has_str(item.base_spec().parent_tags@, "tickles"@)
    &&& item matches ActionItem::Generic { .. }
    &&& item.base_spec().repeats@[idx].primary is Some
}

/// The occurrence's timestamp is not an all-day one.
pub open spec fn tickle_not_all_day(item: ActionItem, idx: int) -> bool {
    let ts = item.base_spec().repeats@[idx].primary.unwrap();
    ts.end is Some || ts.start.time is Some
}

/// `t` is the tickle of occurrence `idx` of the item.
pub open spec fn tickle_matches(item: ActionItem, idx: int, t: Tickle) -> bool {
    &&& t.id == item.base_spec().id
    &&& t.title == item.base_spec().title@.last()
    &&& t.body == item.base_spec().body
    &&& t.date == item.base_spec().repeats@[idx].primary.unwrap().start.date
}

/// `sel` lists, in increasing order, exactly the occurrence indices that
/// yield a tickle.
pub open spec fn tickle_selection(item: ActionItem, sel: Seq<int>) -> bool {
    &&& forall|j: int| 0 <= j < sel.len() ==> 0 <= #[trigger] sel[j]
        < item.base_spec().repeats@.len() && tickle_emits(item, sel[j])
    &&& forall|j1: int, j2: int|
        0 <= j1 < j2 < sel.len() ==> #[trigger] sel[j1] < #[trigger] sel[j2]
    &&& forall|idx: int|
        0 <= idx < item.base_spec().repeats@.len() && tickle_emits(item, idx) ==> sel.contains(idx)
}

impl Tickle {
    /// Converts the given action item into its tickles: one per occurrence
    /// with a primary timestamp, when the item is a generic one under the
    /// tickle tree; nothing otherwise. A tickle whose timestamp is not
    /// all-day is rejected.
    pub fn from_action_item(item: &ActionItem) -> (r: Result<Vec<Tickle>, ParseError>)
        requires
            item.base_spec().title@.len() >= 1,
        ensures
            match r {
                Ok(ts) => exists|sel: Seq<int>|
                    {
                        &&& #[trigger] tickle_selection(*item, sel)
                        &&& ts@.len() == sel.len()
                        &&& forall|j: int|
                            0 <= j < sel.len() ==> tickle_matches(*item, sel[j], #[trigger] ts@[j])
                                && !tickle_not_all_day(*item, sel[j])
                    },
                Err(e) => {
                    &&& exists|idx: int|
                        0 <= idx < item.base_spec().repeats@.len() && #[trigger] tickle_emits(
                            *item,
                            idx,
                        ) && tickle_not_all_day(*item, idx)
                    &&& e == (ParseError::NotAllDay { id: item.base_spec().id })
                },
            },
    {
        let ghost mut sel: Seq<int> = Seq::empty();
        let mut out: Vec<Tickle> = Vec::new();
        let base = item.base();
        let is_tickle = strings_contain(&base.parent_tags, "tickles") && matches!(
            item,
            ActionItem::Generic { .. },
        );
        if !is_tickle {
            proof {
                assert(tickle_selection(*item, sel));
            }
            return Ok(out);
        }
        let mut idx: usize = 0;
        while idx < base.repeats.len()
            invariant
                item.base_spec().title@.len() >= 1,
                base == item.base_spec(),
                seq_has_str(item.base_spec().parent_tags@, "tickles"@),
                item matches ActionItem::Generic { .. },
                idx <= base.repeats@.len(),
                out@.len() == sel.len(),
                forall|j: int| 0 <= j < sel.len() ==> 0 <= #[trigger] sel[j] < idx && tickle_emits(
                    *item,
                    sel[j],
                ),
                forall|j1: int, j2: int|
                    0 <= j1 < j2 < sel.len() ==> #[trigger] sel[j1] < #[trigger] sel[j2],
                forall|i: int| 0 <= i < idx && tickle_emits(*item, i) ==> sel.contains(i),
                forall|j: int|
                    0 <= j < sel.len() ==> tickle_matches(*item, sel[j], #[trigger] out@[j])
                        && !tickle_not_all_day(*item, sel[j]),
            decreases base.repeats@.len() - idx,
        {
            match &base.repeats[idx].primary {
                Some(ts) => {
                    if ts.end.is_some() || ts.start.time.is_some() {
                        proof {
                            assert(tickle_emits(*item, idx as int));
                            assert(tickle_not_all_day(*item, idx as int));
                        }
                        return Err(ParseError::NotAllDay { id: base.id });
                    }
                    let ghost old_sel = sel;
                    out.push(
                        Tickle {
                            id: base.id,
                            title: last_title(&base.title),
                            body: clone_opt_string(&base.body),
                            date: ts.start.date,
                        },
                    );
                    proof {
                        sel = sel.push(idx as int);
                        assert forall|i: int| 0 <= i < idx + 1 && tickle_emits(
                            *item,
                            i,
                        ) implies sel.contains(i) by {
                            if i < idx {
                                let j = choose|j: int| 0 <= j < old_sel.len() && old_sel[j] == i;
                                assert(sel[j] == i);
                            } else {
                                assert(sel[sel.len() - 1] == i);
                            }
                        };
                    }
                },
                None => {
                    proof {
                        assert forall|i: int| 0 <= i < idx + 1 && tickle_emits(
                            *item,
                            i,
                        ) implies sel.contains(i) by {
                            assert(i < idx);
                        };
                    }
                },
            }
            idx = idx + 1;
        }
        proof {
            assert(tickle_selection(*item, sel));
        }
        Ok(out)
    }
}

} // verus!
