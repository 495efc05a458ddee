//! The waiting view: one record per occurrence of every waiting item, with
//! its dates resolved like an actionable task's (the sibling buffer applies).

use vstd::prelude::*;
use crate::action_item::ActionItem;
use crate::dates::{Date, Moment};
use crate::map::ItemMap;
use crate::resolve::{
    compute_from_parent, map_occs_valid, occs_valid, resolve_spec, ConsistencyError,
};
use crate::strutil::{clone_opt_string, last_title};

verus! {

/// Something being waited for, with the dates resolved against its parent
/// project.
#[derive(Debug)]
pub struct Waiting {
    /// The identifier of the node corresponding to this waiting item.
    pub id: u128,
    /// The title of the waiting item.
    pub title: String,
    /// The body of the waiting item, if there is one.
    pub body: Option<String>,
    /// The date on which the obligation was delegated.
    pub sent: Date,
    /// When the user should start chasing a response.
    pub scheduled: Option<Moment>,
    /// When the user needs a response by.
    pub deadline: Option<Moment>,
}

/// `w` is the waiting record of occurrence `idx` of the waiting item.
pub open spec fn waiting_matches(item: ActionItem, m: ItemMap, idx: int, w: Waiting) -> bool {
    match item {
        ActionItem::Waiting { base, sent } => match resolve_spec(item, idx, m) {
            Ok(rb) => {
                &&& w.id == base.id
                &&& w.title == base.title@.last()
                &&& w.body == base.body
                &&& w.sent == sent
                &&& w.scheduled == rb.0.scheduled
                &&& w.deadline == rb.0.deadline
            },
            Err(_) => false,
        },
        _ => false,
    }
}

impl Waiting {
    /// Converts the given action item into one waiting record per occurrence,
    /// resolving each against the map; items of other variants yield nothing.
    /// The first consistency violation aborts the conversion.
    pub fn from_action_item(item: &ActionItem, map: &ItemMap) -> (r: Result<
        Vec<Waiting>,
        ConsistencyError,
    >)
        requires
            map.wf(),
            map_occs_valid(*map),
            occs_valid(*item),
            item.base_spec().title@.len() >= 1,
        ensures
            match r {
                Ok(ws) => {
                    &&& (item matches ActionItem::Waiting { .. }) ==> ws@.len()
                        == item.base_spec().repeats@.len() && forall|idx: int|
                        0 <= idx < ws@.len() ==> waiting_matches(
                            *item,
                            *map,
                            idx,
                            #[trigger] ws@[idx],
                        )
                    &&& !(item matches ActionItem::Waiting { .. }) ==> ws@.len() == 0
                },
                Err(e) => (item matches ActionItem::Waiting { .. }) && exists|idx: int|
                    0 <= idx < item.base_spec().repeats@.len() && resolve_spec(*item, idx, *map)
                        == Err::<(crate::repeat::ActionItemRepeat, bool), ConsistencyError>(e),
            },
    {
        match item {
            ActionItem::Waiting { base, sent } => {
                let mut out: Vec<Waiting> = Vec::new();
                let mut idx: usize = 0;
                while idx < base.repeats.len()
                    invariant
                        map.wf(),
                        map_occs_valid(*map),
                        occs_valid(*item),
                        item.base_spec().title@.len() >= 1,
                        base == item.base_spec(),
                        item == (ActionItem::Waiting { base: *base, sent: *sent }),
                        idx <= base.repeats@.len(),
                        out@.len() == idx,
                        forall|j: int|
                            0 <= j < idx ==> waiting_matches(*item, *map, j, #[trigger] out@[j]),
                    decreases base.repeats@.len() - idx,
                {
                    let (rocc, _) = match compute_from_parent(item, idx, map) {
                        Ok(p) => p,
                        Err(e) => {
                            return Err(e);
                        },
                    };
                    out.push(
                        Waiting {
                            id: base.id,
                            title: last_title(&base.title),
                            body: clone_opt_string(&base.body),
                            sent: *sent,
                            scheduled: rocc.scheduled,
                            deadline: rocc.deadline,
                        },
                    );
                    idx = idx + 1;
                }
                Ok(out)
            },
            _ => Ok(Vec::new()),
        }
    }
}

} // verus!
