//! Plain-value calendar model: proleptic Gregorian dates, seconds-of-day
//! times, and datetimes ("moments"), with verified ordering and arithmetic.

use vstd::prelude::*;

verus! {

/// Largest year the library works with; leaves ample headroom for repeat
/// expansion, which can push dates far past any realistic horizon.
pub const YEAR_MAX: u64 = 1_000_000_000_000;

/// Seconds in a civil day.
pub const SECS_PER_DAY: u32 = 86_400;

/// The default time for date-only scheduled/deadline values: 23:59:59.
pub const END_OF_DAY_SECS: u32 = 86_399;

/// A calendar date in the proleptic Gregorian calendar, year 0 onward.
#[derive(Clone, Copy, PartialEq, Eq, Structural, Debug)]
pub struct Date {
    pub year: u64,
    pub month: u8,
    pub day: u8,
}

/// A concrete point in time: a date and a second-of-day.
#[derive(Clone, Copy, PartialEq, Eq, Structural, Debug)]
pub struct Moment {
    pub date: Date,
    pub secs: u32,
}

pub open spec fn is_leap_year(y: int) -> bool {
    y % 4 == 0 && (y % 100 != 0 || y % 400 == 0)
}

pub open spec fn days_in_month(y: int, m: int) -> int {
    if m == 2 {
        if is_leap_year(y) {
            29
        } else {
            28
        }
    } else if m == 4 || m == 6 || m == 9 || m == 11 {
        30
    } else {
        31
    }
}

/// A well-formed date: month and day in calendar range, year bounded.
pub open spec fn date_valid(d: Date) -> bool {
    &&& 1 <= d.month <= 12
    &&& 1 <= d.day <= days_in_month(d.year as int, d.month as int)
    &&& d.year <= YEAR_MAX
}

/// A linearisation of dates: strictly monotone in the calendar order for
/// well-formed dates, used as a termination measure for expansion.
pub open spec fn date_ord(d: Date) -> int {
    d.year * 372 + (d.month - 1) * 31 + (d.day - 1)
}

/// Calendar order on dates (lexicographic on year, month, day).
pub open spec fn date_lt(a: Date, b: Date) -> bool {
    ||| a.year < b.year
    ||| (a.year == b.year && a.month < b.month)
    ||| (a.year == b.year && a.month == b.month && a.day < b.day)
}

pub open spec fn date_le(a: Date, b: Date) -> bool {
    date_lt(a, b) || a == b
}

/// Order on moments: by date, then by second-of-day.
pub open spec fn moment_lt(a: Moment, b: Moment) -> bool {
    date_lt(a.date, b.date) || (a.date == b.date && a.secs < b.secs)
}

pub open spec fn moment_le(a: Moment, b: Moment) -> bool {
    moment_lt(a, b) || a == b
}

pub open spec fn moment_valid(m: Moment) -> bool {
    date_valid(m.date) && m.secs < SECS_PER_DAY
}

/// On well-formed dates the linearisation agrees with the calendar order.
pub proof fn lemma_date_ord_strict(a: Date, b: Date)
    requires
        date_valid(a),
        date_valid(b),
    ensures
        date_lt(a, b) <==> date_ord(a) < date_ord(b),
{
}

impl Date {
    /// Constructs a checked date; `None` when the fields do not form a
    /// well-formed calendar date.
    pub fn new(year: u64, month: u8, day: u8) -> (r: Option<Date>)
        ensures
            match r {
                Some(d) => d == (Date { year, month, day }) && date_valid(d),
                None => !date_valid(Date { year, month, day }),
            },
    {
        let d = Date { year, month, day };
        if 1 <= month && month <= 12 && 1 <= day && day <= days_in_month_of(year, month)
            && year <= YEAR_MAX {
            Some(d)
        } else {
            None
        }
    }
}

/// The number of days in the given month of the given year.
pub fn days_in_month_of(year: u64, month: u8) -> (r: u8)
    requires
        1 <= month <= 12,
    ensures
        r == days_in_month(year as int, month as int),
{
    if month == 2 {
        if year % 4 == 0 && (year % 100 != 0 || year % 400 == 0) {
            29
        } else {
            28
        }
    } else if month == 4 || month == 6 || month == 9 || month == 11 {
        30
    } else {
        31
    }
}

pub fn date_lt_x(a: &Date, b: &Date) -> (r: bool)
    ensures
        r == date_lt(*a, *b),
{
    a.year < b.year || (a.year == b.year && a.month < b.month)
        || (a.year == b.year && a.month == b.month && a.day < b.day)
}

pub fn date_le_x(a: &Date, b: &Date) -> (r: bool)
    ensures
        r == date_le(*a, *b),
{
    a.year < b.year || (a.year == b.year && a.month < b.month)
        || (a.year == b.year && a.month == b.month && a.day <= b.day)
}

pub fn moment_lt_x(a: &Moment, b: &Moment) -> (r: bool)
    ensures
        r == moment_lt(*a, *b),
{
    date_lt_x(&a.date, &b.date) || (a.date == b.date && a.secs < b.secs)
}

pub fn moment_le_x(a: &Moment, b: &Moment) -> (r: bool)
    ensures
        r == moment_le(*a, *b),
{
    date_lt_x(&a.date, &b.date) || (a.date == b.date && a.secs <= b.secs)
}

/// The day after `d`.
pub open spec fn next_day_spec(d: Date) -> Date {
    if d.day < days_in_month(d.year as int, d.month as int) {
        Date { year: d.year, month: d.month, day: (d.day + 1) as u8 }
    } else if d.month < 12 {
        Date { year: d.year, month: (d.month + 1) as u8, day: 1 }
    } else {
        Date { year: (d.year + 1) as u64, month: 1, day: 1 }
    }
}

/// The day before `d`, when one exists in range.
pub open spec fn prev_day_spec(d: Date) -> Date {
    if d.day > 1 {
        Date { year: d.year, month: d.month, day: (d.day - 1) as u8 }
    } else if d.month > 1 {
        Date {
            year: d.year,
            month: (d.month - 1) as u8,
            day: days_in_month(d.year as int, d.month - 1) as u8,
        }
    } else {
        Date { year: (d.year - 1) as u64, month: 12, day: 31 }
    }
}

/// `d` advanced by `n` days.
pub open spec fn add_days_spec(d: Date, n: nat) -> Date
    decreases n,
{
    if n == 0 {
        d
    } else {
        add_days_spec(next_day_spec(d), (n - 1) as nat)
    }
}

/// `d` moved back by `n` days.
pub open spec fn sub_days_spec(d: Date, n: nat) -> Date
    decreases n,
{
    if n == 0 {
        d
    } else {
        sub_days_spec(prev_day_spec(d), (n - 1) as nat)
    }
}

/// `d` advanced by `n` months; the day is clamped to the target month.
pub open spec fn add_months_spec(d: Date, n: nat) -> Date {
    let mi = d.year * 12 + (d.month - 1) + n;
    let y = mi / 12;
    let m = mi % 12 + 1;
    let dim = days_in_month(y, m);
    Date {
        year: y as u64,
        month: m as u8,
        day: if d.day <= dim {
            d.day
        } else {
            dim as u8
        },
    }
}

pub proof fn lemma_next_day(d: Date)
    requires
        date_valid(d),
        d.year < YEAR_MAX,
    ensures
        date_valid(next_day_spec(d)),
        date_ord(next_day_spec(d)) > date_ord(d),
        date_lt(d, next_day_spec(d)),
{
}

pub proof fn lemma_prev_day(d: Date)
    requires
        date_valid(d),
        d != date_min(),
    ensures
        date_valid(prev_day_spec(d)),
        date_lt(prev_day_spec(d), d),
        next_day_spec(prev_day_spec(d)) == d,
{
}

pub proof fn lemma_add_days(d: Date, n: nat)
    requires
        date_valid(d),
        d.year + 1 + n <= YEAR_MAX,
    ensures
        date_valid(add_days_spec(d, n)),
        date_ord(add_days_spec(d, n)) >= date_ord(d) + n,
        add_days_spec(d, n).year <= d.year + 1 + n,
    decreases n,
{
    if n > 0 {
        lemma_next_day(d);
        lemma_add_days(next_day_spec(d), (n - 1) as nat);
    }
}

pub fn next_day(d: &Date) -> (r: Date)
    requires
        date_valid(*d),
        d.year < YEAR_MAX,
    ensures
        r == next_day_spec(*d),
        date_valid(r),
{
    let dim = days_in_month_of(d.year, d.month);
    if d.day < dim {
        Date { year: d.year, month: d.month, day: d.day + 1 }
    } else if d.month < 12 {
        Date { year: d.year, month: d.month + 1, day: 1 }
    } else {
        Date { year: d.year + 1, month: 1, day: 1 }
    }
}

pub fn add_days(d: &Date, n: u64) -> (r: Date)
    requires
        date_valid(*d),
        d.year + 1 + n <= YEAR_MAX,
    ensures
        r == add_days_spec(*d, n as nat),
        date_valid(r),
{
    let mut cur = *d;
    let mut i: u64 = 0;
    while i < n
        invariant
            i <= n,
            date_valid(cur),
            cur == add_days_spec(*d, i as nat),
            date_valid(*d),
            d.year + 1 + n <= YEAR_MAX,
            cur.year <= d.year + 1 + i,
        decreases n - i,
    {
        proof {
            lemma_add_days(*d, i as nat);
            lemma_next_day(cur);
            lemma_add_days_unfold(*d, (i + 1) as nat);
        }
        cur = next_day(&cur);
        i = i + 1;
        proof {
            lemma_add_days(*d, i as nat);
        }
    }
    cur
}

/// Unrolls one step of `add_days_spec` from the far end.
proof fn lemma_add_days_unfold(d: Date, n: nat)
    requires
        n >= 1,
    ensures
        add_days_spec(d, n) == next_day_spec(add_days_spec(d, (n - 1) as nat)),
    decreases n,
{
    if n == 1 {
        assert(add_days_spec(d, 1) == add_days_spec(next_day_spec(d), 0));
        assert(add_days_spec(d, 0) == d);
    } else {
        lemma_add_days_unfold(next_day_spec(d), (n - 1) as nat);
        assert(add_days_spec(d, n) == add_days_spec(next_day_spec(d), (n - 1) as nat));
        assert(add_days_spec(d, (n - 1) as nat) == add_days_spec(
            next_day_spec(d),
            (n - 2) as nat,
        ));
    }
}

/// The earliest representable date.
pub open spec fn date_min() -> Date {
    Date { year: 0, month: 1, day: 1 }
}

proof fn lemma_sub_days_unfold(d: Date, n: nat)
    requires
        n >= 1,
    ensures
        sub_days_spec(d, n) == prev_day_spec(sub_days_spec(d, (n - 1) as nat)),
    decreases n,
{
    if n == 1 {
        assert(sub_days_spec(d, 1) == sub_days_spec(prev_day_spec(d), 0));
        assert(sub_days_spec(d, 0) == d);
    } else {
        lemma_sub_days_unfold(prev_day_spec(d), (n - 1) as nat);
        assert(sub_days_spec(d, n) == sub_days_spec(prev_day_spec(d), (n - 1) as nat));
        assert(sub_days_spec(d, (n - 1) as nat) == sub_days_spec(
            prev_day_spec(d),
            (n - 2) as nat,
        ));
    }
}

pub proof fn lemma_sub_days(d: Date, n: nat)
    requires
        date_valid(d),
        forall|i: nat| i < n ==> #[trigger] sub_days_spec(d, i) != date_min(),
    ensures
        date_valid(sub_days_spec(d, n)),
    decreases n,
{
    if n > 0 {
        assert(sub_days_spec(d, 0) == d);
        lemma_prev_day(d);
        assert forall|i: nat| i < (n - 1) as nat implies #[trigger] sub_days_spec(
            prev_day_spec(d),
            i,
        ) != date_min() by {
            assert(sub_days_spec(d, i + 1) == sub_days_spec(prev_day_spec(d), i));
        };
        lemma_sub_days(prev_day_spec(d), (n - 1) as nat);
        assert(sub_days_spec(d, n) == sub_days_spec(prev_day_spec(d), (n - 1) as nat));
    }
}

pub fn prev_day(d: &Date) -> (r: Date)
    requires
        date_valid(*d),
        *d != date_min(),
    ensures
        r == prev_day_spec(*d),
        date_valid(r),
{
    proof {
        lemma_prev_day(*d);
    }
    if d.day > 1 {
        Date { year: d.year, month: d.month, day: d.day - 1 }
    } else if d.month > 1 {
        Date { year: d.year, month: d.month - 1, day: days_in_month_of(d.year, d.month - 1) }
    } else {
        Date { year: d.year - 1, month: 12, day: 31 }
    }
}

/// Moves `d` back by `n` days; `None` when that would leave the representable
/// range (before the earliest date).
pub fn sub_days(d: &Date, n: u64) -> (r: Option<Date>)
    requires
        date_valid(*d),
    ensures
        match r {
            Some(res) => {
                &&& res == sub_days_spec(*d, n as nat)
                &&& date_valid(res)
                &&& forall|i: nat| i < n ==> #[trigger] sub_days_spec(*d, i) != date_min()
            },
            None => exists|i: nat| i < n && #[trigger] sub_days_spec(*d, i) == date_min(),
        },
{
    let mut cur = *d;
    let mut i: u64 = 0;
    while i < n
        invariant
            i <= n,
            date_valid(cur),
            cur == sub_days_spec(*d, i as nat),
            date_valid(*d),
            forall|j: nat| j < i ==> #[trigger] sub_days_spec(*d, j) != date_min(),
        decreases n - i,
    {
        if cur.year == 0 && cur.month == 1 && cur.day == 1 {
            assert(sub_days_spec(*d, i as nat) == date_min());
            return None;
        }
        proof {
            lemma_prev_day(cur);
            lemma_sub_days_unfold(*d, (i + 1) as nat);
        }
        cur = prev_day(&cur);
        i = i + 1;
    }
    Some(cur)
}

pub fn add_months(d: &Date, n: u64) -> (r: Date)
    requires
        date_valid(*d),
        d.year + (n + 11) / 12 <= YEAR_MAX,
    ensures
        r == add_months_spec(*d, n as nat),
        date_valid(r),
{
    let mi: u64 = d.year * 12 + (d.month as u64 - 1) + n;
    let y: u64 = mi / 12;
    let m: u8 = (mi % 12) as u8 + 1;
    let dim = days_in_month_of(y, m);
    let day = if d.day <= dim {
        d.day
    } else {
        dim
    };
    proof {
        lemma_add_months(*d, n as nat);
    }
    Date { year: y, month: m, day }
}

pub proof fn lemma_add_months(d: Date, n: nat)
    requires
        date_valid(d),
        d.year + (n + 11) / 12 <= YEAR_MAX,
    ensures
        date_valid(add_months_spec(d, n)),
        date_ord(add_months_spec(d, n)) >= date_ord(d) + 31 * n - 30,
        n >= 1 ==> date_ord(add_months_spec(d, n)) > date_ord(d),
        add_months_spec(d, n).year <= d.year + (n + 11) / 12,
{
    let mi = d.year * 12 + (d.month - 1) + n;
    let y = mi / 12;
    let m = mi % 12 + 1;
    assert(mi == 12 * y + (m - 1)) by {
        vstd::arithmetic::div_mod::lemma_fundamental_div_mod(mi as int, 12);
    };
    assert(y * 12 <= mi) by {
        vstd::arithmetic::div_mod::lemma_fundamental_div_mod(mi as int, 12);
    };
    assert(y <= d.year + (n + 11) / 12) by {
        assert(12 * y <= d.year * 12 + 11 + n);
        assert(d.year * 12 + 11 + n == 12 * (d.year + (n + 11) / 12) + ((n + 11) % 12)) by {
            vstd::arithmetic::div_mod::lemma_fundamental_div_mod((n + 11) as int, 12);
        };
    };
}

} // verus!
