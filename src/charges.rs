//! Revenue actually charged: the 30-day total and the daily series.
use crate::calendar::{day_of, utc_date_label, utc_date_text, utc_day, SECONDS_PER_DAY};
use crate::revenue::{Charge, MAX_RECORDS, UNITS_PER_MINOR};
use vstd::prelude::*;
use vstd::string::StringExecFns;

verus! {

/// Days in the daily revenue series.
pub const SERIES_DAYS: usize = 30;

/// The earliest current time, in seconds since the Unix epoch, whose series
/// starts at a representable instant.
pub const EARLIEST_NOW: i64 = -9223372036854775807 + 2592000;

/// Revenue charged on one UTC day.
#[derive(Clone, Debug)]
pub struct DailyRevenue {
    /// The UTC day, counted from 1970-01-01.
    pub day: i64,
    /// The day as `YYYY-MM-DD`.
    pub date: String,
    /// Revenue charged that day, in money units.
    pub revenue: i128,
}

/// The charge went through.
pub open spec fn succeeded(c: Charge) -> bool {
    c.status is Some && c.status->0@ == "succeeded"@
}

/// What the charge counts toward revenue, in minor units.
pub open spec fn charged(c: Charge) -> int {
    if succeeded(c) && c.amount is Some {
        c.amount->0 as int
    } else {
        0
    }
}

/// Sum of the succeeded charges of `s`, in minor units.
pub open spec fn charged_total(s: Seq<Charge>) -> int
    decreases s.len(),
{
    if s.len() == 0 {
        0
    } else {
        charged_total(s.drop_last()) + charged(s.last())
    }
}

/// What the charge counts toward the revenue of UTC day `day`, in minor units.
pub open spec fn charged_on(c: Charge, day: int) -> int {
    if succeeded(c) && c.amount is Some && c.created is Some && day_of(c.created->0 as int) == day {
        c.amount->0 as int
    } else {
        0
    }
}

/// Sum of the succeeded charges of `s` created on UTC day `day`, in minor units.
pub open spec fn charged_on_day(s: Seq<Charge>, day: int) -> int
    decreases s.len(),
{
    if s.len() == 0 {
        0
    } else {
        charged_on_day(s.drop_last(), day) + charged_on(s.last(), day)
    }
}

/// The first day of the series that ends on the UTC day holding `now`.
pub open spec fn series_start(now: int) -> int {
    day_of(now) - (SERIES_DAYS - 1)
}

proof fn lemma_charged_bounds(s: Seq<Charge>, day: int)
    ensures
        -s.len() * 0x8000_0000_0000_0000 <= charged_total(s) <= s.len() * 0x8000_0000_0000_0000,
        -s.len() * 0x8000_0000_0000_0000 <= charged_on_day(s, day) <= s.len() * 0x8000_0000_0000_0000,
    decreases s.len(),
{
    if s.len() > 0 {
        lemma_charged_bounds(s.drop_last(), day);
    }
}

fn is_succeeded(c: &Charge) -> (r: bool)
    ensures
        r == succeeded(*c),
{
    match &c.status {
        Some(s) => {
            let t = String::from_str("succeeded");
            *s == t
        },
        None => false,
    }
}

/// Sum of the succeeded charges, in money units.
pub fn charged_units(charges: &Vec<Charge>) -> (t: i128)
    requires
        charges@.len() <= MAX_RECORDS,
    ensures
        t == UNITS_PER_MINOR * charged_total(charges@),
{
    let mut t: i128 = 0;
    let mut i: usize = 0;
    while i < charges.len()
        invariant
            i <= charges@.len() <= MAX_RECORDS,
            t == UNITS_PER_MINOR * charged_total(charges@.subrange(0, i as int)),
        decreases charges@.len() - i,
    {
        let ghost next = charges@.subrange(0, i as int + 1);
        assert(next.drop_last() =~= charges@.subrange(0, i as int));
        proof {
            lemma_charged_bounds(next, 0);
        }
        let c = &charges[i];
        if is_succeeded(c) {
            match c.amount {
                Some(a) => {
                    t = t + (a as i128) * UNITS_PER_MINOR;
                },
                None => {},
            }
        }
        i = i + 1;
    }
    assert(charges@.subrange(0, i as int) =~= charges@);
    t
}

/// Revenue of the last 30 days, in money units: the succeeded charges when
/// the charge list could be fetched, else the monthly recurring revenue.
pub fn revenue_30d(charges: &Option<Vec<Charge>>, mrr: i128) -> (r: i128)
    requires
        charges is Some ==> charges->0@.len() <= MAX_RECORDS,
    ensures
        r == match *charges {
            Some(c) => UNITS_PER_MINOR * charged_total(c@),
            None => mrr as int,
        },
{
    match charges {
        Some(c) => charged_units(c),
        None => mrr,
    }
}

/// Sum of the succeeded charges created on UTC day `day`, in money units.
pub fn charged_units_on(charges: &Vec<Charge>, day: i64) -> (t: i128)
    requires
        charges@.len() <= MAX_RECORDS,
    ensures
        t == UNITS_PER_MINOR * charged_on_day(charges@, day as int),
{
    let mut t: i128 = 0;
    let mut i: usize = 0;
    while i < charges.len()
        invariant
            i <= charges@.len() <= MAX_RECORDS,
            t == UNITS_PER_MINOR * charged_on_day(charges@.subrange(0, i as int), day as int),
        decreases charges@.len() - i,
    {
        let ghost next = charges@.subrange(0, i as int + 1);
        assert(next.drop_last() =~= charges@.subrange(0, i as int));
        proof {
            lemma_charged_bounds(next, day as int);
        }
        let c = &charges[i];
        if is_succeeded(c) {
            match (c.amount, c.created) {
                (Some(a), Some(created)) => {
                    if utc_day(created) == day {
                        t = t + (a as i128) * UNITS_PER_MINOR;
                    }
                },
                _ => {},
            }
        }
        i = i + 1;
    }
    assert(charges@.subrange(0, i as int) =~= charges@);
    t
}

/// Revenue charged on each of the 30 UTC days that end on the day holding
/// `now` (seconds since the Unix epoch), oldest first; days without charges
/// count zero.
pub fn daily_revenue(charges: &Vec<Charge>, now: i64) -> (r: Vec<DailyRevenue>)
    requires
        charges@.len() <= MAX_RECORDS,
        EARLIEST_NOW <= now,
    ensures
        r@.len() == SERIES_DAYS,
        forall|i: int|
            0 <= i < SERIES_DAYS ==> {
                let e = #[trigger] r@[i];
                &&& e.day == series_start(now as int) + i
                &&& e.date@ == utc_date_text(e.day * SECONDS_PER_DAY)
                &&& e.revenue == UNITS_PER_MINOR * charged_on_day(charges@, e.day as int)
            },
{
    let today = utc_day(now);
    assert(today * 86400 <= now < today * 86400 + 86400) by (nonlinear_arith)
        requires
            today == now as int / 86400,
    ;
    let first = today - 29;
    let mut out: Vec<DailyRevenue> = Vec::new();
    let mut i: usize = 0;
    while i < SERIES_DAYS
        invariant
            i <= SERIES_DAYS,
            first == series_start(now as int),
            EARLIEST_NOW <= now,
            first * 86400 + 29 * 86400 <= now < first * 86400 + 30 * 86400,
            charges@.len() <= MAX_RECORDS,
            out@.len() == i,
            forall|j: int|
                0 <= j < i ==> {
                    let e = #[trigger] out@[j];
                    &&& e.day == series_start(now as int) + j
                    &&& e.date@ == utc_date_text(e.day * SECONDS_PER_DAY)
                    &&& e.revenue == UNITS_PER_MINOR * charged_on_day(charges@, e.day as int)
                },
        decreases SERIES_DAYS - i,
    {
        let day = first + i as i64;
        let date = utc_date_label(day * SECONDS_PER_DAY);
        let revenue = charged_units_on(charges, day);
        out.push(DailyRevenue { day, date, revenue });
        i = i + 1;
    }
    out
}

/// The daily series, whose entry `i` is for day `series_start(now) + i`,
/// ends on the day that holds `now`.
pub proof fn lemma_series_ends_today(now: int)
    ensures
        series_start(now) + (SERIES_DAYS - 1) == day_of(now),
{
}

} // verus!
