//! Repeat expansion: turning a (primary, scheduled, deadline) timestamp
//! triple into the finite, chronologically advancing sequence of concrete
//! occurrences bounded by a horizon date.

use vstd::prelude::*;
use crate::dates::{date_le, date_lt, date_ord, date_valid, Date, Moment, END_OF_DAY_SECS};
use crate::timestamps::{
    lemma_ts_next_repeat, ts_next_repeat, ts_next_repeat_spec, ts_valid, ts_year_le,
    SimpleTimestamp, Timestamp, ADVANCE_YEAR_GAIN, EXPAND_YEAR_MAX,
};
use crate::dates::YEAR_MAX;

verus! {

/// One concrete occurrence of an item: an optional primary timestamp with its
/// repeater disconnected, and optional scheduled/deadline moments (date-only
/// values default to the end of the day).
#[derive(Clone, Copy, PartialEq, Eq, Structural, Debug)]
pub struct ActionItemRepeat {
    pub primary: Option<SimpleTimestamp>,
    pub scheduled: Option<Moment>,
    pub deadline: Option<Moment>,
}

/// The raw timestamp triple of one item, each component possibly repeating.
#[derive(Clone, Copy, PartialEq, Eq, Structural, Debug)]
pub struct RepeatData {
    pub primary: Option<Timestamp>,
    pub scheduled: Option<Timestamp>,
    pub deadline: Option<Timestamp>,
}

pub open spec fn opt_ts_valid(c: Option<Timestamp>) -> bool {
    match c {
        Some(ts) => ts_valid(ts),
        None => true,
    }
}

pub open spec fn opt_ts_year_le(c: Option<Timestamp>, bound: int) -> bool {
    match c {
        Some(ts) => ts_year_le(ts, bound),
        None => true,
    }
}

pub open spec fn rd_valid(rd: RepeatData) -> bool {
    opt_ts_valid(rd.primary) && opt_ts_valid(rd.scheduled) && opt_ts_valid(rd.deadline)
}

pub open spec fn rd_year_le(rd: RepeatData, bound: int) -> bool {
    &&& opt_ts_year_le(rd.primary, bound)
    &&& opt_ts_year_le(rd.scheduled, bound)
    &&& opt_ts_year_le(rd.deadline, bound)
}

pub open spec fn opt_has_repeater(c: Option<Timestamp>) -> bool {
    match c {
        Some(ts) => ts.repeater is Some,
        None => false,
    }
}

/// Some component of the triple repeats.
pub open spec fn rd_has_repeater(rd: RepeatData) -> bool {
    opt_has_repeater(rd.primary) || opt_has_repeater(rd.scheduled) || opt_has_repeater(
        rd.deadline,
    )
}

/// The triple advanced one cycle: repeating components move to their next
/// repeat, non-repeating ones are cleared; `None` when nothing repeats.
pub open spec fn rd_next_spec(rd: RepeatData) -> Option<RepeatData> {
    if rd_has_repeater(rd) {
        Some(
            RepeatData {
                primary: if opt_has_repeater(rd.primary) {
                    Some(ts_next_repeat_spec(rd.primary.unwrap()))
                } else {
                    None
                },
                scheduled: if opt_has_repeater(rd.scheduled) {
                    Some(ts_next_repeat_spec(rd.scheduled.unwrap()))
                } else {
                    None
                },
                deadline: if opt_has_repeater(rd.deadline) {
                    Some(ts_next_repeat_spec(rd.deadline.unwrap()))
                } else {
                    None
                },
            },
        )
    } else {
        None
    }
}

pub open spec fn opt_before(c: Option<Timestamp>, date: Date) -> bool {
    match c {
        Some(ts) => date_le(ts.start.date, date),
        None => false,
    }
}

/// Some component of the triple starts on or before `date`.
pub open spec fn rd_has_before_spec(rd: RepeatData, date: Date) -> bool {
    opt_before(rd.primary, date) || opt_before(rd.scheduled, date) || opt_before(
        rd.deadline,
        date,
    )
}

pub open spec fn rd_is_empty_spec(rd: RepeatData) -> bool {
    rd.primary is None && rd.scheduled is None && rd.deadline is None
}

/// A timestamp read as a concrete moment: its start date, at the start time
/// or, lacking one, the end of the day.
pub open spec fn ts_to_moment_spec(ts: Timestamp) -> Moment {
    Moment {
        date: ts.start.date,
        secs: match ts.start.time {
            Some(t) => t,
            None => END_OF_DAY_SECS,
        },
    }
}

/// The concrete occurrence that one cycle of the triple denotes.
pub open spec fn rd_to_occ_spec(rd: RepeatData) -> ActionItemRepeat {
    ActionItemRepeat {
        primary: match rd.primary {
            Some(ts) => Some(SimpleTimestamp { start: ts.start, end: ts.end }),
            None => None,
        },
        scheduled: match rd.scheduled {
            Some(ts) => Some(ts_to_moment_spec(ts)),
            None => None,
        },
        deadline: match rd.deadline {
            Some(ts) => Some(ts_to_moment_spec(ts)),
            None => None,
        },
    }
}

/// The triple after `k` cycles, when that many exist.
pub open spec fn rd_iter(rd: RepeatData, k: nat) -> Option<RepeatData>
    decreases k,
{
    if k == 0 {
        Some(rd)
    } else {
        match rd_iter(rd, (k - 1) as nat) {
            Some(p) => rd_next_spec(p),
            None => None,
        }
    }
}

/// Expansion continues past a cycle while that cycle still has a component
/// on or before the horizon and something repeats.
pub open spec fn rd_continues(rd: RepeatData, until: Date) -> bool {
    rd_has_before_spec(rd, until) && rd_next_spec(rd) is Some
}

/// `s` is exactly the expansion of the triple `rd` up to horizon `until`:
/// the literal occurrence first, then one occurrence per advanced cycle, for
/// as long as the previous cycle still touched the horizon.
pub open spec fn is_expansion_of(rd: RepeatData, until: Date, s: Seq<ActionItemRepeat>) -> bool {
    &&& s.len() >= 1
    &&& forall|k: int|
        0 <= k < s.len() ==> (#[trigger] rd_iter(rd, k as nat)) is Some && s[k] == rd_to_occ_spec(
            rd_iter(rd, k as nat).unwrap(),
        )
    &&& forall|k: int|
        0 <= k < s.len() - 1 ==> rd_continues(#[trigger] rd_iter(rd, k as nat).unwrap(), until)
    &&& !rd_continues(rd_iter(rd, (s.len() - 1) as nat).unwrap(), until)
}

/// Termination measure for expansion: how far each component still is from
/// having passed the horizon, summed.
pub open spec fn comp_measure(c: Option<Timestamp>, h: int) -> nat {
    match c {
        Some(ts) => if date_ord(ts.start.date) <= h {
            (h + 1 - date_ord(ts.start.date)) as nat
        } else {
            0
        },
        None => 0,
    }
}

pub open spec fn rd_measure(rd: RepeatData, h: int) -> nat {
    comp_measure(rd.primary, h) + comp_measure(rd.scheduled, h) + comp_measure(rd.deadline, h)
}

proof fn lemma_comp_advance(c: Option<Timestamp>, h: int, bound: int)
    requires
        opt_ts_valid(c),
        opt_ts_year_le(c, bound),
        bound + ADVANCE_YEAR_GAIN <= YEAR_MAX,
        opt_has_repeater(c),
    ensures
        opt_ts_valid(Some(ts_next_repeat_spec(c.unwrap()))),
        opt_ts_year_le(Some(ts_next_repeat_spec(c.unwrap())), bound + ADVANCE_YEAR_GAIN),
        comp_measure(Some(ts_next_repeat_spec(c.unwrap())), h) <= comp_measure(c, h),
        comp_measure(c, h) >= 1 ==> comp_measure(Some(ts_next_repeat_spec(c.unwrap())), h)
            < comp_measure(c, h),
{
    let ts = c.unwrap();
    lemma_ts_next_repeat(ts, bound);
}

/// Advancing a cycle that still touches the horizon strictly shrinks the
/// measure, keeps the triple well-formed, and grows years boundedly.
pub proof fn lemma_rd_advance(rd: RepeatData, until: Date, bound: int)
    requires
        rd_valid(rd),
        rd_year_le(rd, bound),
        bound + ADVANCE_YEAR_GAIN <= YEAR_MAX,
        date_valid(until),
        rd_has_before_spec(rd, until),
        rd_next_spec(rd) is Some,
    ensures
        rd_valid(rd_next_spec(rd).unwrap()),
        rd_year_le(rd_next_spec(rd).unwrap(), bound + ADVANCE_YEAR_GAIN),
        rd_measure(rd_next_spec(rd).unwrap(), date_ord(until)) < rd_measure(rd, date_ord(until)),
{
    let h = date_ord(until);
    let nx = rd_next_spec(rd).unwrap();
    if opt_has_repeater(rd.primary) {
        lemma_comp_advance(rd.primary, h, bound);
    }
    if opt_has_repeater(rd.scheduled) {
        lemma_comp_advance(rd.scheduled, h, bound);
    }
    if opt_has_repeater(rd.deadline) {
        lemma_comp_advance(rd.deadline, h, bound);
    }
    // The component that is still on or before the horizon contributes a
    // positive measure, and either advances (strict drop) or is cleared.
    if opt_before(rd.primary, until) {
        crate::dates::lemma_date_ord_strict(rd.primary.unwrap().start.date, until);
        assert(comp_measure(rd.primary, h) >= 1);
    } else if opt_before(rd.scheduled, until) {
        crate::dates::lemma_date_ord_strict(rd.scheduled.unwrap().start.date, until);
        assert(comp_measure(rd.scheduled, h) >= 1);
    } else {
        crate::dates::lemma_date_ord_strict(rd.deadline.unwrap().start.date, until);
        assert(comp_measure(rd.deadline, h) >= 1);
    }
}

impl RepeatData {
    /// Produces the next cycle of this triple, if any component repeats.
    pub fn next_repeat(&self) -> (r: Option<RepeatData>)
        requires
            rd_valid(*self),
            rd_year_le(*self, YEAR_MAX - ADVANCE_YEAR_GAIN),
        ensures
            r == rd_next_spec(*self),
    {
        let mut is_next_repeat = false;
        let mut next_repeat = RepeatData { primary: None, scheduled: None, deadline: None };

        if let Some(ts) = &self.primary {
            if ts.repeater.is_some() {
                is_next_repeat = true;
                next_repeat.primary = Some(ts_next_repeat(ts));
            }
        }
        if let Some(ts) = &self.scheduled {
            if ts.repeater.is_some() {
                is_next_repeat = true;
                next_repeat.scheduled = Some(ts_next_repeat(ts));
            }
        }
        if let Some(ts) = &self.deadline {
            if ts.repeater.is_some() {
                is_next_repeat = true;
                next_repeat.deadline = Some(ts_next_repeat(ts));
            }
        }

        if is_next_repeat {
            Some(next_repeat)
        } else {
            None
        }
    }

    /// Whether any component of this triple starts on or before `date`.
    pub fn has_ts_before(&self, date: &Date) -> (r: bool)
        ensures
            r == rd_has_before_spec(*self, *date),
    {
        if let Some(ts) = &self.primary {
            if crate::dates::date_le_x(&ts.start.date, date) {
                return true;
            }
        }
        if let Some(ts) = &self.scheduled {
            if crate::dates::date_le_x(&ts.start.date, date) {
                return true;
            }
        }
        if let Some(ts) = &self.deadline {
            if crate::dates::date_le_x(&ts.start.date, date) {
                return true;
            }
        }
        false
    }

    /// Whether no component of this triple is populated.
    pub fn is_empty(&self) -> (r: bool)
        ensures
            r == rd_is_empty_spec(*self),
    {
        self.primary.is_none() && self.scheduled.is_none() && self.deadline.is_none()
    }

    /// Reads this cycle as one concrete occurrence, disconnecting repeaters
    /// and defaulting date-only scheduled/deadline values to end of day.
    pub fn to_occurrence(&self) -> (r: ActionItemRepeat)
        ensures
            r == rd_to_occ_spec(*self),
    {
        ActionItemRepeat {
            primary: match &self.primary {
                Some(ts) => Some(SimpleTimestamp { start: ts.start, end: ts.end }),
                None => None,
            },
            scheduled: match &self.scheduled {
                Some(ts) => Some(
                    Moment {
                        date: ts.start.date,
                        secs: match ts.start.time {
                            Some(t) => t,
                            None => END_OF_DAY_SECS,
                        },
                    },
                ),
                None => None,
            },
            deadline: match &self.deadline {
                Some(ts) => Some(
                    Moment {
                        date: ts.start.date,
                        secs: match ts.start.time {
                            Some(t) => t,
                            None => END_OF_DAY_SECS,
                        },
                    },
                ),
                None => None,
            },
        }
    }

    /// Expands this triple into its occurrences, bounded by the horizon
    /// `until`. The first occurrence is always the literal, un-advanced
    /// triple; expansion then advances cycle by cycle for as long as the
    /// previous cycle still had a component on or before the horizon, so the
    /// first occurrence past the horizon is the last element produced.
    pub fn repeat_until(self, until: Date) -> (r: Vec<ActionItemRepeat>)
        requires
            rd_valid(self),
            rd_year_le(self, EXPAND_YEAR_MAX as int),
            date_valid(until),
            until.year <= EXPAND_YEAR_MAX,
        ensures
            is_expansion_of(self, until, r@),
            r@[0] == rd_to_occ_spec(self),
    {
        let ghost h = date_ord(until);
        let ghost m0 = rd_measure(self, h);
        proof {
            lemma_expansion_headroom(self, until);
        }
        let mut out: Vec<ActionItemRepeat> = Vec::new();
        let mut cur = self;
        let mut going = true;
        while going
            invariant
                date_valid(until),
                until.year <= EXPAND_YEAR_MAX,
                h == date_ord(until),
                m0 == rd_measure(self, h),
                EXPAND_YEAR_MAX + ADVANCE_YEAR_GAIN * (m0 + 1) <= YEAR_MAX,
                rd_valid(cur),
                rd_measure(cur, h) <= m0,
                rd_year_le(
                    cur,
                    EXPAND_YEAR_MAX + ADVANCE_YEAR_GAIN * (m0 - rd_measure(cur, h)),
                ),
                going ==> rd_iter(self, out@.len() as nat) == Some(cur),
                forall|k: int|
                    0 <= k < out@.len() ==> (#[trigger] rd_iter(self, k as nat)) is Some
                        && out@[k] == rd_to_occ_spec(rd_iter(self, k as nat).unwrap()),
                forall|k: int|
                    0 <= k < out@.len() - (if going {
                        0int
                    } else {
                        1int
                    }) ==> rd_continues(#[trigger] rd_iter(self, k as nat).unwrap(), until),
                !going ==> out@.len() >= 1 && !rd_continues(
                    rd_iter(self, (out@.len() - 1) as nat).unwrap(),
                    until,
                ),
            decreases rd_measure(cur, h) + (if going {
                1int
            } else {
                0int
            }),
        {
            let ghost j = out@.len() as nat;
            out.push(cur.to_occurrence());
            proof {
                assert(rd_iter(self, j) == Some(cur));
                // Each already-emitted index keeps its characterisation.
                assert forall|k: int| 0 <= k < out@.len() implies (#[trigger] rd_iter(
                    self,
                    k as nat,
                )) is Some && out@[k] == rd_to_occ_spec(rd_iter(self, k as nat).unwrap()) by {
                    if k < j {
                        assert(out@[k] == out@.subrange(0, j as int)[k]);
                    }
                };
            }
            proof {
                assert(ADVANCE_YEAR_GAIN * (m0 - rd_measure(cur, h)) <= ADVANCE_YEAR_GAIN * m0)
                    by {
                    vstd::arithmetic::mul::lemma_mul_inequality(
                        m0 - rd_measure(cur, h),
                        m0 as int,
                        ADVANCE_YEAR_GAIN as int,
                    );
                };
            }
            if cur.has_ts_before(&until) {
                match cur.next_repeat() {
                    Some(nx) => {
                        proof {
                            lemma_rd_advance(
                                cur,
                                until,
                                EXPAND_YEAR_MAX + ADVANCE_YEAR_GAIN * (m0 - rd_measure(cur, h)),
                            );
                            assert(rd_iter(self, j + 1) == rd_next_spec(cur));
                            assert(ADVANCE_YEAR_GAIN * (m0 - rd_measure(cur, h)) + ADVANCE_YEAR_GAIN
                                == ADVANCE_YEAR_GAIN * (m0 - rd_measure(cur, h) + 1))
                                by (nonlinear_arith);
                            assert(ADVANCE_YEAR_GAIN * (m0 - rd_measure(cur, h) + 1)
                                <= ADVANCE_YEAR_GAIN * (m0 - rd_measure(nx, h))) by {
                                vstd::arithmetic::mul::lemma_mul_inequality(
                                    m0 - rd_measure(cur, h) + 1,
                                    m0 - rd_measure(nx, h),
                                    ADVANCE_YEAR_GAIN as int,
                                );
                            };
                        }
                        cur = nx;
                    },
                    None => {
                        going = false;
                    },
                }
            } else {
                going = false;
            }
        }
        proof {
            let k0: int = 0;
            assert(rd_iter(self, k0 as nat) is Some && out@[k0] == rd_to_occ_spec(
                rd_iter(self, k0 as nat).unwrap(),
            ));
            assert(rd_iter(self, k0 as nat) == Some(self));
        }
        out
    }
}

/// The year headroom available above the expansion input bound covers one
/// advancement per unit of the initial measure.
proof fn lemma_expansion_headroom(rd: RepeatData, until: Date)
    requires
        rd_valid(rd),
        date_valid(until),
        until.year <= EXPAND_YEAR_MAX,
    ensures
        EXPAND_YEAR_MAX + ADVANCE_YEAR_GAIN * (rd_measure(rd, date_ord(until)) + 1) <= YEAR_MAX,
{
    let h = date_ord(until);
    assert(h <= 37_200_371) by {
        assert(until.year * 372 <= 37_200_000) by (nonlinear_arith)
            requires
                until.year <= EXPAND_YEAR_MAX,
        ;
    };
    assert(rd_measure(rd, h) <= 3 * (h + 1));
    assert(ADVANCE_YEAR_GAIN * (rd_measure(rd, h) + 1) <= ADVANCE_YEAR_GAIN * (3 * (h + 1) + 1))
        by {
        vstd::arithmetic::mul::lemma_mul_inequality(
            rd_measure(rd, h) as int + 1,
            3 * (h + 1) + 1,
            ADVANCE_YEAR_GAIN as int,
        );
    };
    assert(ADVANCE_YEAR_GAIN * (3 * (37_200_371int + 1) + 1) <= 999_999_900_000) by (nonlinear_arith);
}

/// A repeating triple always has a next cycle, and that cycle repeats too.
pub proof fn lemma_next_preserves_repeater(rd: RepeatData)
    requires
        rd_has_repeater(rd),
    ensures
        rd_next_spec(rd) is Some,
        rd_has_repeater(rd_next_spec(rd).unwrap()),
{
}

proof fn lemma_iter_preserves_repeater(rd: RepeatData, k: nat)
    requires
        rd_has_repeater(rd),
        rd_iter(rd, k) is Some,
    ensures
        rd_has_repeater(rd_iter(rd, k).unwrap()),
    decreases k,
{
    if k > 0 {
        lemma_iter_preserves_repeater(rd, (k - 1) as nat);
        lemma_next_preserves_repeater(rd_iter(rd, (k - 1) as nat).unwrap());
    }
}

/// Every dated component of an occurrence lies strictly after `until`.
pub open spec fn occ_past_horizon(occ: ActionItemRepeat, until: Date) -> bool {
    &&& match occ.primary {
        Some(ts) => date_lt(until, ts.start.date),
        None => true,
    }
    &&& match occ.scheduled {
        Some(m) => date_lt(until, m.date),
        None => true,
    }
    &&& match occ.deadline {
        Some(m) => date_lt(until, m.date),
        None => true,
    }
}

/// Expansion termination: when anything in the triple repeats, the expansion
/// is a finite sequence whose last element is the first occurrence dated
/// strictly after the horizon, every earlier element being on or before it.
pub proof fn lemma_expansion_termination(rd: RepeatData, until: Date, s: Seq<ActionItemRepeat>)
    requires
        rd_has_repeater(rd),
        is_expansion_of(rd, until, s),
    ensures
        occ_past_horizon(s[s.len() - 1], until),
        forall|k: int|
            0 <= k < s.len() - 1 ==> !occ_past_horizon(#[trigger] s[k], until),
{
    let last = rd_iter(rd, (s.len() - 1) as nat).unwrap();
    lemma_iter_preserves_repeater(rd, (s.len() - 1) as nat);
    lemma_next_preserves_repeater(last);
    assert(!rd_has_before_spec(last, until));
    assert forall|k: int| 0 <= k < s.len() - 1 implies !occ_past_horizon(
        #[trigger] s[k],
        until,
    ) by {
        let rdk = rd_iter(rd, k as nat).unwrap();
        assert(rd_continues(rdk, until));
    };
}

} // verus!
