//! Timestamps as they appear on raw nodes: a start date with optional time,
//! an optional end, an optional repeater (cadence unit and multiplier), and
//! an activity flag. Repeater advancement is the verified core of expansion.

use vstd::prelude::*;
use crate::dates::{
    add_days, add_days_spec, add_months, add_months_spec, date_ord, date_valid, lemma_add_days,
    lemma_add_months, Date, SECS_PER_DAY, YEAR_MAX,
};

verus! {

/// Largest repeater multiplier the engine accepts. The cap exists only so
/// that expansion provably stays inside the date model: expansion advances a
/// component at most once per unit of its termination measure, the measure
/// starts below 3 * (372 * (EXPAND_YEAR_MAX + 1)), and each advancement
/// raises a year by at most ADVANCE_YEAR_GAIN, so every date reached stays
/// below YEAR_MAX with room to spare. Any realistic cadence is far below it.
pub const REPEAT_COUNT_MAX: u32 = 1_000;

/// Largest year accepted on input timestamps and horizons; expansion needs
/// headroom above it (see `REPEAT_COUNT_MAX` for the arithmetic), and it
/// already exceeds the year range of common calendar libraries.
pub const EXPAND_YEAR_MAX: u64 = 100_000;

/// One repeater advancement moves a date's year up by at most this much: a
/// day or week repeater covers at most 7 * REPEAT_COUNT_MAX days (at most
/// one year each plus a rollover), a month or year repeater at most
/// 12 * REPEAT_COUNT_MAX months.
pub const ADVANCE_YEAR_GAIN: u64 = 7_001;

/// The cadence unit of a repeater.
#[derive(Clone, Copy, PartialEq, Eq, Structural, Debug)]
pub enum RepeatUnit {
    Day,
    Week,
    Month,
    Year,
}

/// A repeater: advance by `count` units per cycle.
#[derive(Clone, Copy, PartialEq, Eq, Structural, Debug)]
pub struct Repeater {
    pub unit: RepeatUnit,
    pub count: u32,
}

/// A date with an optional second-of-day time.
#[derive(Clone, Copy, PartialEq, Eq, Structural, Debug)]
pub struct OrgTime {
    pub date: Date,
    pub time: Option<u32>,
}

/// A raw timestamp: start, optional end, optional repeater, activity flag.
#[derive(Clone, Copy, PartialEq, Eq, Structural, Debug)]
pub struct Timestamp {
    pub start: OrgTime,
    pub end: Option<OrgTime>,
    pub repeater: Option<Repeater>,
    pub active: bool,
}

/// A timestamp with its repeater disconnected: one concrete occurrence.
#[derive(Clone, Copy, PartialEq, Eq, Structural, Debug)]
pub struct SimpleTimestamp {
    pub start: OrgTime,
    pub end: Option<OrgTime>,
}

pub open spec fn org_time_valid(t: OrgTime) -> bool {
    &&& date_valid(t.date)
    &&& match t.time {
        Some(s) => s < SECS_PER_DAY,
        None => true,
    }
}

pub open spec fn repeater_valid(r: Repeater) -> bool {
    1 <= r.count <= REPEAT_COUNT_MAX
}

pub open spec fn ts_valid(ts: Timestamp) -> bool {
    &&& org_time_valid(ts.start)
    &&& match ts.end {
        Some(e) => org_time_valid(e),
        None => true,
    }
    &&& match ts.repeater {
        Some(r) => repeater_valid(r),
        None => true,
    }
}

/// Start and end years of `ts` are at most `bound`.
pub open spec fn ts_year_le(ts: Timestamp, bound: int) -> bool {
    &&& ts.start.date.year <= bound
    &&& match ts.end {
        Some(e) => e.date.year <= bound,
        None => true,
    }
}

pub open spec fn simple_ts_valid(ts: SimpleTimestamp) -> bool {
    &&& org_time_valid(ts.start)
    &&& match ts.end {
        Some(e) => org_time_valid(e),
        None => true,
    }
}

/// A date advanced by one repeater cycle.
pub open spec fn advance_date_spec(d: Date, r: Repeater) -> Date {
    match r.unit {
        RepeatUnit::Day => add_days_spec(d, r.count as nat),
        RepeatUnit::Week => add_days_spec(d, (7 * r.count) as nat),
        RepeatUnit::Month => add_months_spec(d, r.count as nat),
        RepeatUnit::Year => add_months_spec(d, (12 * r.count) as nat),
    }
}

pub proof fn lemma_advance_date(d: Date, r: Repeater)
    requires
        date_valid(d),
        repeater_valid(r),
        d.year + ADVANCE_YEAR_GAIN <= YEAR_MAX,
    ensures
        date_valid(advance_date_spec(d, r)),
        date_ord(advance_date_spec(d, r)) > date_ord(d),
        advance_date_spec(d, r).year <= d.year + ADVANCE_YEAR_GAIN,
{
    match r.unit {
        RepeatUnit::Day => {
            lemma_add_days(d, r.count as nat);
        },
        RepeatUnit::Week => {
            lemma_add_days(d, (7 * r.count) as nat);
        },
        RepeatUnit::Month => {
            lemma_add_months(d, r.count as nat);
        },
        RepeatUnit::Year => {
            lemma_add_months(d, (12 * r.count) as nat);
        },
    }
}

pub fn advance_date(d: &Date, r: &Repeater) -> (res: Date)
    requires
        date_valid(*d),
        repeater_valid(*r),
        d.year + ADVANCE_YEAR_GAIN <= YEAR_MAX,
    ensures
        res == advance_date_spec(*d, *r),
        date_valid(res),
        res.year <= d.year + ADVANCE_YEAR_GAIN,
{
    proof {
        lemma_advance_date(*d, *r);
    }
    match r.unit {
        RepeatUnit::Day => add_days(d, r.count as u64),
        RepeatUnit::Week => add_days(d, 7 * (r.count as u64)),
        RepeatUnit::Month => add_months(d, r.count as u64),
        RepeatUnit::Year => add_months(d, 12 * (r.count as u64)),
    }
}

/// `ts` advanced to its next repeat cycle: start and end move by one cycle,
/// the repeater and the rest stay.
pub open spec fn ts_next_repeat_spec(ts: Timestamp) -> Timestamp {
    let r = ts.repeater.unwrap();
    Timestamp {
        start: OrgTime { date: advance_date_spec(ts.start.date, r), time: ts.start.time },
        end: match ts.end {
            Some(e) => Some(OrgTime { date: advance_date_spec(e.date, r), time: e.time }),
            None => None,
        },
        repeater: ts.repeater,
        active: ts.active,
    }
}

pub proof fn lemma_ts_next_repeat(ts: Timestamp, bound: int)
    requires
        ts_valid(ts),
        ts.repeater is Some,
        ts_year_le(ts, bound),
        bound + ADVANCE_YEAR_GAIN <= YEAR_MAX,
    ensures
        ts_valid(ts_next_repeat_spec(ts)),
        ts_year_le(ts_next_repeat_spec(ts), bound + ADVANCE_YEAR_GAIN),
        date_ord(ts_next_repeat_spec(ts).start.date) > date_ord(ts.start.date),
        ts_next_repeat_spec(ts).repeater == ts.repeater,
{
    let r = ts.repeater.unwrap();
    lemma_advance_date(ts.start.date, r);
    match ts.end {
        Some(e) => {
            lemma_advance_date(e.date, r);
        },
        None => {},
    }
}

pub fn ts_next_repeat(ts: &Timestamp) -> (res: Timestamp)
    requires
        ts_valid(*ts),
        ts.repeater is Some,
        ts_year_le(*ts, YEAR_MAX - ADVANCE_YEAR_GAIN),
    ensures
        res == ts_next_repeat_spec(*ts),
{
    let r = ts.repeater.unwrap();
    let start = OrgTime { date: advance_date(&ts.start.date, &r), time: ts.start.time };
    let end = match &ts.end {
        Some(e) => Some(OrgTime { date: advance_date(&e.date, &r), time: e.time }),
        None => None,
    };
    Timestamp { start, end, repeater: ts.repeater, active: ts.active }
}

} // verus!
