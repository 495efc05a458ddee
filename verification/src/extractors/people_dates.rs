//! The person-date view: generic items under the person-date tree (such as
//! birthdays), each with a notification date computed from its advance
//! property.

use vstd::prelude::*;
use vstd::string::StrSliceExecFns;
use crate::action_item::{ActionItem, ParseError};
use crate::dates::{date_min, sub_days, sub_days_spec, Date};
use crate::resolve::occs_valid;
use crate::strutil::{
    clone_opt_string, get_prop, last_title, parse_u16, prop_lookup, seq_has_str, strings_contain,
    u16_parse,
};

verus! {

/// A date associated with a person, shown ahead of time.
#[derive(Debug)]
pub struct PersonDate {
    /// The identifier of the node corresponding to this date.
    pub id: u128,
    /// The title of the date.
    pub title: String,
    /// The identifier and name of the person this date belongs to.
    pub person: (u128, String),
    /// The body of the date, if there is one.
    pub body: Option<String>,
    /// The date itself.
    pub date: Date,
    /// The date on which to start showing that this date is coming up.
    pub notify_date: Date,
}

/// How many days ahead an advance property asks for: a number, then `d` for
/// days or `w` for weeks.
pub open spec fn advance_days(adv: Seq<char>) -> Option<u64> {
    if adv.len() == 0 {
        None
    } else {
        match u16_parse(adv.drop_last()) {
            Some(n) => if adv.last() == 'd' {
                Some(n as u64)
            } else if adv.last() == 'w' {
                Some((7 * n) as u64)
            } else {
                None
            },
            None => None,
        }
    }
}

/// Moving `d` back by `n` days stays in the representable range.
pub open spec fn date_sub_ok(d: Date, n: u64) -> bool {
    forall|j: nat| j < n ==> #[trigger] sub_days_spec(d, j) != date_min()
}

/// Occurrence `idx` of the item yields a person date.
pub open spec fn pd_emits(item: ActionItem, idx: int) -> bool {
    &&& seq_has_str(item.base_spec().parent_tags@, "person_dates"@)
    &&& item matches ActionItem::Generic { .. }
    &&& item.base_spec().repeats@[idx].primary is Some
}

/// Why occurrence `idx` cannot be read as a person date, if it cannot: not
/// an all-day timestamp, a missing or malformed advance property, or nobody
/// listed to associate the date with.
pub open spec fn pd_error(item: ActionItem, idx: int) -> Option<ParseError> {
    match item {
        ActionItem::Generic { base, properties, people } => {
            let ts = base.repeats@[idx].primary.unwrap();
            if ts.end is Some || ts.start.time is Some {
                Some(ParseError::NotAllDay { id: base.id })
            } else {
                match prop_lookup(properties@, "ADVANCE"@) {
                    None => Some(ParseError::MissingAdvance { id: base.id }),
                    Some(adv) => match advance_days(adv@) {
                        None => Some(ParseError::BadAdvance { id: base.id }),
                        Some(n) => if !date_sub_ok(ts.start.date, n) {
                            Some(ParseError::BadAdvance { id: base.id })
                        } else if people@.len() == 0 {
                            Some(ParseError::NoPerson { id: base.id })
                        } else {
                            None
                        },
                    },
                }
            }
        },
        _ => Some(ParseError::NoPerson { id: item.base_spec().id }),
    }
}

/// `pd` is the person date of occurrence `idx` of the item.
pub open spec fn pd_matches(item: ActionItem, idx: int, pd: PersonDate) -> bool {
    match item {
        ActionItem::Generic { base, properties, people } => {
            let ts = base.repeats@[idx].primary.unwrap();
            let n = advance_days(prop_lookup(properties@, "ADVANCE"@).unwrap()@).unwrap();
            &&& pd.id == base.id
            &&& pd.title == base.title@.last()
            &&& pd.body == base.body
            &&& pd.date == ts.start.date
            &&& pd.notify_date == sub_days_spec(ts.start.date, n as nat)
            &&& pd.person == people@[0]
        },
        _ => false,
    }
}

/// `sel` lists, in increasing order, exactly the occurrence indices that
/// yield a person date.
pub open spec fn pd_selection(item: ActionItem, sel: Seq<int>) -> bool {
    &&& forall|j: int| 0 <= j < sel.len() ==> 0 <= #[trigger] sel[j]
        < item.base_spec().repeats@.len() && pd_emits(item, sel[j])
    &&& forall|j1: int, j2: int|
        0 <= j1 < j2 < sel.len() ==> #[trigger] sel[j1] < #[trigger] sel[j2]
    &&& forall|idx: int|
        0 <= idx < item.base_spec().repeats@.len() && pd_emits(item, idx) ==> sel.contains(idx)
}

impl PersonDate {
    /// Converts the given action item into its person dates: one per
    /// occurrence with a primary timestamp, when the item is a generic one
    /// under the person-date tree; nothing otherwise. An occurrence that is
    /// not all-day, lacks a usable advance property, or has nobody listed is
    /// rejected.
    pub fn from_action_item(item: &ActionItem) -> (r: Result<Vec<PersonDate>, ParseError>)
        requires
            item.base_spec().title@.len() >= 1,
            occs_valid(*item),
        ensures
            match r {
                Ok(pds) => exists|sel: Seq<int>|
                    {
                        &&& #[trigger] pd_selection(*item, sel)
                        &&& pds@.len() == sel.len()
                        &&& forall|j: int|
                            0 <= j < sel.len() ==> pd_matches(*item, sel[j], #[trigger] pds@[j])
                                && pd_error(*item, sel[j]) is None
                    },
                Err(e) => exists|idx: int|
                    {
                        &&& 0 <= idx < item.base_spec().repeats@.len()
                        &&& #[trigger] pd_emits(*item, idx)
                        &&& pd_error(*item, idx) == Some(e)
                    },
            },
    {
        let ghost mut sel: Seq<int> = Seq::empty();
        let mut out: Vec<PersonDate> = Vec::new();
        let base = item.base();
        let is_pd = strings_contain(&base.parent_tags, "person_dates") && matches!(
            item,
            ActionItem::Generic { .. },
        );
        if !is_pd {
            proof {
                assert(pd_selection(*item, sel));
            }
            return Ok(out);
        }
        match item {
            ActionItem::Generic { base, properties, people } => {
                let mut idx: usize = 0;
                while idx < base.repeats.len()
                    invariant
                        item.base_spec().title@.len() >= 1,
                        occs_valid(*item),
                        base == item.base_spec(),
                        seq_has_str(item.base_spec().parent_tags@, "person_dates"@),
                        item == (ActionItem::Generic {
                            base: *base,
                            properties: *properties,
                            people: *people,
                        }),
                        idx <= base.repeats@.len(),
                        out@.len() == sel.len(),
                        forall|j: int| 0 <= j < sel.len() ==> 0 <= #[trigger] sel[j] < idx
                            && pd_emits(*item, sel[j]),
                        forall|j1: int, j2: int|
                            0 <= j1 < j2 < sel.len() ==> #[trigger] sel[j1] < #[trigger] sel[j2],
                        forall|i: int| 0 <= i < idx && pd_emits(*item, i) ==> sel.contains(i),
                        forall|j: int|
                            0 <= j < sel.len() ==> pd_matches(*item, sel[j], #[trigger] out@[j])
                                && pd_error(*item, sel[j]) is None,
                    decreases base.repeats@.len() - idx,
                {
                    match &base.repeats[idx].primary {
                        Some(ts) => {
                            if ts.end.is_some() || ts.start.time.is_some() {
                                proof {
                                    assert(pd_emits(*item, idx as int));
                                    assert(pd_error(*item, idx as int) == Some(
                                        ParseError::NotAllDay { id: base.id },
                                    ));
                                }
                                return Err(ParseError::NotAllDay { id: base.id });
                            }
                            let adv = match get_prop(properties, "ADVANCE") {
                                Some(a) => a,
                                None => {
                                    proof {
                                        assert(pd_emits(*item, idx as int));
                                        assert(pd_error(*item, idx as int) == Some(
                                            ParseError::MissingAdvance { id: base.id },
                                        ));
                                    }
                                    return Err(ParseError::MissingAdvance { id: base.id });
                                },
                            };
                            let alen = adv.as_str().unicode_len();
                            if alen == 0 {
                                proof {
                                    assert(pd_emits(*item, idx as int));
                                    assert(advance_days(adv@) is None);
                                    assert(pd_error(*item, idx as int) == Some(
                                        ParseError::BadAdvance { id: base.id },
                                    ));
                                }
                                return Err(ParseError::BadAdvance { id: base.id });
                            }
                            let spec_c = adv.as_str().get_char(alen - 1);
                            let num_str = adv.as_str().substring_char(0, alen - 1);
                            proof {
                                assert(num_str@ =~= adv@.drop_last());
                            }
                            let n = match parse_u16(num_str) {
                                Some(n) => n,
                                None => {
                                    proof {
                                        assert(pd_emits(*item, idx as int));
                                        assert(advance_days(adv@) is None);
                                        assert(pd_error(*item, idx as int) == Some(
                                            ParseError::BadAdvance { id: base.id },
                                        ));
                                    }
                                    return Err(ParseError::BadAdvance { id: base.id });
                                },
                            };
                            let days: u64 = if spec_c == 'd' {
                                n as u64
                            } else if spec_c == 'w' {
                                7 * (n as u64)
                            } else {
                                proof {
                                    assert(pd_emits(*item, idx as int));
                                    assert(advance_days(adv@) is None);
                                    assert(pd_error(*item, idx as int) == Some(
                                        ParseError::BadAdvance { id: base.id },
                                    ));
                                }
                                return Err(ParseError::BadAdvance { id: base.id });
                            };
                            proof {
                                assert(crate::resolve::occ_valid(base.repeats@[idx as int]));
                            }
                            let notify = match sub_days(&ts.start.date, days) {
                                Some(d) => d,
                                None => {
                                    proof {
                                        assert(pd_emits(*item, idx as int));
                                        assert(advance_days(adv@) == Some(days));
                                        assert(!date_sub_ok(ts.start.date, days));
                                        assert(pd_error(*item, idx as int) == Some(
                                            ParseError::BadAdvance { id: base.id },
                                        ));
                                    }
                                    return Err(ParseError::BadAdvance { id: base.id });
                                },
                            };
                            if people.len() == 0 {
                                proof {
                                    assert(pd_emits(*item, idx as int));
                                    assert(pd_error(*item, idx as int) == Some(
                                        ParseError::NoPerson { id: base.id },
                                    ));
                                }
                                return Err(ParseError::NoPerson { id: base.id });
                            }
                            let person = (people[0].0, people[0].1.clone());
                            let ghost old_sel = sel;
                            out.push(
                                PersonDate {
                                    id: base.id,
                                    title: last_title(&base.title),
                                    person,
                                    body: clone_opt_string(&base.body),
                                    date: ts.start.date,
                                    notify_date: notify,
                                },
                            );
                            proof {
                                sel = sel.push(idx as int);
                                assert forall|i: int| 0 <= i < idx + 1 && pd_emits(
                                    *item,
                                    i,
                                ) implies sel.contains(i) by {
                                    if i < idx {
                                        let j = choose|j: int|
                                            0 <= j < old_sel.len() && old_sel[j] == i;
                                        assert(sel[j] == i);
                                    } else {
                                        assert(sel[sel.len() - 1] == i);
                                    }
                                };
                            }
                        },
                        None => {
                            proof {
                                assert forall|i: int| 0 <= i < idx + 1 && pd_emits(
                                    *item,
                                    i,
                                ) implies sel.contains(i) by {
                                    assert(i < idx);
                                };
                            }
                        },
                    }
                    idx = idx + 1;
                }
                proof {
                    assert(pd_selection(*item, sel));
                }
                Ok(out)
            },
            _ => {
                proof {
                    assert(false);
                }
                Ok(out)
            },
        }
    }
}

} // verus!
