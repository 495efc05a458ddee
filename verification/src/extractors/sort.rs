//! Sort keys for the output records: ordered tuples of plain values, with
//! absent dates pushed to the end by a maximum-moment sentinel, and the
//! title as the final tie-break.

use vstd::prelude::*;
use crate::action_item::Priority;
use crate::dates::{moment_lt, moment_le_x, moment_lt_x, Date, Moment, END_OF_DAY_SECS, YEAR_MAX};
use crate::extractors::daily_notes::DailyNote;
use crate::extractors::events::Event;
use crate::extractors::people_dates::PersonDate;
use crate::extractors::projects::Project;
use crate::extractors::tasks::Task;
use crate::extractors::tickles::Tickle;
use crate::extractors::waiting::Waiting;

verus! {

/// The end of representable time, used to push items without dates to the
/// end of a sorted list.
pub open spec fn end_of_time_spec() -> Moment {
    Moment { date: Date { year: YEAR_MAX, month: 12, day: 31 }, secs: END_OF_DAY_SECS }
}

/// Returns the latest representable moment.
pub fn end_of_time() -> (r: Moment)
    ensures
        r == end_of_time_spec(),
{
    Moment { date: Date { year: YEAR_MAX, month: 12, day: 31 }, secs: END_OF_DAY_SECS }
}

/// A sorting key for records with scheduled and deadline moments: the first
/// component is the scheduled moment, or the deadline lacking one, or the
/// end of time lacking both; the second is the deadline or the end of time.
#[derive(Clone, Copy, PartialEq, Eq, Structural, Debug)]
pub struct ScheduledDeadline {
    pub first: Moment,
    pub second: Moment,
}

pub open spec fn sd_spec(scheduled: Option<Moment>, deadline: Option<Moment>) -> ScheduledDeadline {
    let second = match deadline {
        Some(d) => d,
        None => end_of_time_spec(),
    };
    ScheduledDeadline {
        first: match scheduled {
            Some(s) => s,
            None => second,
        },
        second,
    }
}

/// Keys order by their first moment, then by their second.
pub open spec fn sd_lt(a: ScheduledDeadline, b: ScheduledDeadline) -> bool {
    moment_lt(a.first, b.first) || (a.first == b.first && moment_lt(a.second, b.second))
}

pub open spec fn sd_le(a: ScheduledDeadline, b: ScheduledDeadline) -> bool {
    sd_lt(a, b) || a == b
}

impl ScheduledDeadline {
    /// Creates a new sorting key for the given scheduled/deadline moments.
    pub fn new(scheduled: Option<Moment>, deadline: Option<Moment>) -> (r: ScheduledDeadline)
        ensures
            r == sd_spec(scheduled, deadline),
    {
        let second = match deadline {
            Some(d) => d,
            None => end_of_time(),
        };
        ScheduledDeadline {
            first: match scheduled {
                Some(s) => s,
                None => second,
            },
            second,
        }
    }

    /// Whether this key orders strictly before the other.
    pub fn lt(&self, other: &ScheduledDeadline) -> (r: bool)
        ensures
            r == sd_lt(*self, *other),
    {
        moment_lt_x(&self.first, &other.first) || (self.first == other.first && moment_lt_x(
            &self.second,
            &other.second,
        ))
    }

    /// Whether this key orders at or before the other.
    pub fn le(&self, other: &ScheduledDeadline) -> (r: bool)
        ensures
            r == sd_le(*self, *other),
    {
        moment_lt_x(&self.first, &other.first) || (self.first == other.first && moment_le_x(
            &self.second,
            &other.second,
        ))
    }
}

impl Event {
    /// Events sort by start date, start time (date-only first), then title.
    pub fn sort_key(&self) -> (r: (Date, Option<u32>, String))
        ensures
            r.0 == self.timestamp.start.date,
            r.1 == self.timestamp.start.time,
            r.2 == self.title,
    {
        (self.timestamp.start.date, self.timestamp.start.time, self.title.clone())
    }
}

impl DailyNote {
    /// Daily notes sort by date, then title.
    pub fn sort_key(&self) -> (r: (Date, String))
        ensures
            r.0 == self.date,
            r.1 == self.title,
    {
        (self.date, self.title.clone())
    }
}

impl Tickle {
    /// Tickles sort by date, then title.
    pub fn sort_key(&self) -> (r: (Date, String))
        ensures
            r.0 == self.date,
            r.1 == self.title,
    {
        (self.date, self.title.clone())
    }
}

impl PersonDate {
    /// Person dates sort by notification date, the date itself, then title.
    pub fn sort_key(&self) -> (r: (Date, Date, String))
        ensures
            r.0 == self.notify_date,
            r.1 == self.date,
            r.2 == self.title,
    {
        (self.notify_date, self.date, self.title.clone())
    }
}

impl Waiting {
    /// Waiting items sort by their scheduled/deadline key, then title.
    pub fn sort_key(&self) -> (r: (ScheduledDeadline, String))
        ensures
            r.0 == sd_spec(self.scheduled, self.deadline),
            r.1 == self.title,
    {
        (ScheduledDeadline::new(self.scheduled, self.deadline), self.title.clone())
    }
}

impl Project {
    /// Projects with a primary timestamp come first (by its date and time,
    /// date-only timestamps counting as end of day), then the
    /// scheduled/deadline key, the priority, and the title.
    pub fn sort_key(&self) -> (r: (Date, u32, ScheduledDeadline, Priority, String))
        ensures
            r.0 == match self.timestamp {
                Some(ts) => ts.start.date,
                None => end_of_time_spec().date,
            },
            r.1 == match self.timestamp {
                Some(ts) => match ts.start.time {
                    Some(t) => t,
                    None => END_OF_DAY_SECS,
                },
                None => END_OF_DAY_SECS,
            },
            r.2 == sd_spec(self.scheduled, self.deadline),
            r.3 == self.priority,
            r.4 == self.title,
    {
        let d = match &self.timestamp {
            Some(ts) => ts.start.date,
            None => end_of_time().date,
        };
        let t = match &self.timestamp {
            Some(ts) => match ts.start.time {
                Some(t) => t,
                None => END_OF_DAY_SECS,
            },
            None => END_OF_DAY_SECS,
        };
        (
            d,
            t,
            ScheduledDeadline::new(self.scheduled, self.deadline),
            self.priority,
            self.title.clone(),
        )
    }
}

impl Task {
    /// Tasks with their own primary timestamp come first, then ones whose
    /// parent has a primary timestamp, then the scheduled/deadline key, the
    /// priority, and the title.
    pub fn sort_key(&self) -> (r: (Date, u32, Date, u32, ScheduledDeadline, Priority, String))
        ensures
            r.0 == match self.timestamp {
                Some(ts) => ts.start.date,
                None => end_of_time_spec().date,
            },
            r.1 == match self.timestamp {
                Some(ts) => match ts.start.time {
                    Some(t) => t,
                    None => END_OF_DAY_SECS,
                },
                None => END_OF_DAY_SECS,
            },
            r.2 == match self.parent_timestamp {
                Some(ts) => ts.start.date,
                None => end_of_time_spec().date,
            },
            r.3 == match self.parent_timestamp {
                Some(ts) => match ts.start.time {
                    Some(t) => t,
                    None => END_OF_DAY_SECS,
                },
                None => END_OF_DAY_SECS,
            },
            r.4 == sd_spec(self.scheduled, self.deadline),
            r.5 == self.priority,
            r.6 == self.title,
    {
        let d = match &self.timestamp {
            Some(ts) => ts.start.date,
            None => end_of_time().date,
        };
        let t = match &self.timestamp {
            Some(ts) => match ts.start.time {
                Some(t) => t,
                None => END_OF_DAY_SECS,
            },
            None => END_OF_DAY_SECS,
        };
        let pd = match &self.parent_timestamp {
            Some(ts) => ts.start.date,
            None => end_of_time().date,
        };
        let pt = match &self.parent_timestamp {
            Some(ts) => match ts.start.time {
                Some(t) => t,
                None => END_OF_DAY_SECS,
            },
            None => END_OF_DAY_SECS,
        };
        (
            d,
            t,
            pd,
            pt,
            ScheduledDeadline::new(self.scheduled, self.deadline),
            self.priority,
            self.title.clone(),
        )
    }
}

} // verus!
