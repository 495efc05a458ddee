//! Repeat expansion: bounded sequences of concrete occurrences.

use polaris::dates::Date;
use polaris::repeat::RepeatData;
use polaris::timestamps::{OrgTime, Repeater, RepeatUnit, Timestamp};

fn d(year: u64, month: u8, day: u8) -> Date {
    Date { year, month, day }
}

fn ts(date: Date, rep: Option<Repeater>) -> Timestamp {
    Timestamp {
        start: OrgTime { date, time: None },
        end: None,
        repeater: rep,
        active: true,
    }
}

#[test]
fn weekly_repeat_until_horizon_keeps_boundary_crossing_occurrence() {
    let rd = RepeatData {
        primary: Some(ts(
            d(2025, 1, 1),
            Some(Repeater { unit: RepeatUnit::Week, count: 1 }),
        )),
        scheduled: None,
        deadline: None,
    };
    let occs = rd.repeat_until(d(2025, 1, 20));
    assert_eq!(occs.len(), 4);
    let dates: Vec<Date> = occs
        .iter()
        .map(|o| o.primary.as_ref().unwrap().start.date)
        .collect();
    assert_eq!(dates[0], d(2025, 1, 1));
    assert_eq!(dates[1], d(2025, 1, 8));
    assert_eq!(dates[2], d(2025, 1, 15));
    assert_eq!(dates[3], d(2025, 1, 22));
}

#[test]
fn first_occurrence_is_the_literal_input() {
    let rd = RepeatData {
        primary: Some(ts(
            d(2025, 6, 10),
            Some(Repeater { unit: RepeatUnit::Day, count: 3 }),
        )),
        scheduled: Some(ts(d(2025, 6, 9), None)),
        deadline: None,
    };
    let occs = rd.repeat_until(d(2025, 6, 30));
    let first = &occs[0];
    assert_eq!(first.primary.as_ref().unwrap().start.date, d(2025, 6, 10));
    let sched = first.scheduled.unwrap();
    assert_eq!(sched.date, d(2025, 6, 9));
    // A date-only scheduled moment defaults to the end of the day.
    assert_eq!(sched.secs, 86_399);
    // The non-repeating component is cleared in later occurrences.
    assert!(occs[1].scheduled.is_none());
}

#[test]
fn no_repeater_yields_exactly_one_occurrence() {
    let rd = RepeatData {
        primary: Some(ts(d(2025, 2, 1), None)),
        scheduled: None,
        deadline: Some(ts(d(2025, 2, 3), None)),
    };
    let occs = rd.repeat_until(d(2030, 1, 1));
    assert_eq!(occs.len(), 1);
}

#[test]
fn empty_triple_yields_one_empty_occurrence() {
    let rd = RepeatData { primary: None, scheduled: None, deadline: None };
    let occs = rd.repeat_until(d(2025, 1, 1));
    assert_eq!(occs.len(), 1);
    assert!(occs[0].primary.is_none());
    assert!(occs[0].scheduled.is_none());
    assert!(occs[0].deadline.is_none());
}

#[test]
fn repeat_past_horizon_on_first_step_yields_two_occurrences() {
    let rd = RepeatData {
        primary: Some(ts(
            d(2025, 1, 1),
            Some(Repeater { unit: RepeatUnit::Year, count: 1 }),
        )),
        scheduled: None,
        deadline: None,
    };
    let occs = rd.repeat_until(d(2025, 1, 2));
    assert_eq!(occs.len(), 2);
    assert_eq!(occs[1].primary.as_ref().unwrap().start.date, d(2026, 1, 1));
}

#[test]
fn literal_past_horizon_is_still_emitted_then_expansion_stops() {
    let rd = RepeatData {
        primary: Some(ts(
            d(2025, 5, 1),
            Some(Repeater { unit: RepeatUnit::Day, count: 1 }),
        )),
        scheduled: None,
        deadline: None,
    };
    let occs = rd.repeat_until(d(2025, 1, 1));
    assert_eq!(occs.len(), 1);
    assert_eq!(occs[0].primary.as_ref().unwrap().start.date, d(2025, 5, 1));
}

#[test]
fn monthly_repeat_clamps_the_day_to_the_target_month() {
    let rd = RepeatData {
        primary: Some(ts(
            d(2025, 1, 31),
            Some(Repeater { unit: RepeatUnit::Month, count: 1 }),
        )),
        scheduled: None,
        deadline: None,
    };
    let occs = rd.repeat_until(d(2025, 2, 15));
    assert_eq!(occs.len(), 2);
    assert_eq!(occs[1].primary.as_ref().unwrap().start.date, d(2025, 2, 28));
}
