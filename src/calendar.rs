//! UTC calendar days, counted from the Unix epoch.
use vstd::prelude::*;

verus! {

/// Seconds in one UTC day.
pub const SECONDS_PER_DAY: i64 = 86400;

/// The UTC day (days since 1970-01-01, rounding down) that holds the instant
/// `secs` seconds after the Unix epoch.
pub open spec fn day_of(secs: int) -> int {
    secs / (SECONDS_PER_DAY as int)
}

/// The `YYYY-MM-DD` text of the UTC date of the instant `secs` seconds after
/// the Unix epoch, empty where chrono cannot represent that instant.
pub uninterp spec fn utc_date_text(secs: int) -> Seq<char>;

/// Relies on chrono's `DateTime::from_timestamp` and its `%Y-%m-%d` format:
/// the text depends on `secs` alone.
#[verifier::external_body]
pub(crate) fn utc_date_label(secs: i64) -> (r: String)
    ensures
        r@ == utc_date_text(secs as int),
{
    match chrono::DateTime::from_timestamp(secs, 0) {
        Some(t) => t.format("%Y-%m-%d").to_string(),
        None => String::new(),
    }
}

/// The UTC day of the instant `secs` seconds after the Unix epoch.
pub fn utc_day(secs: i64) -> (d: i64)
    ensures
        d == day_of(secs as int),
{
    if secs >= 0 {
        let q = (secs as u64) / 86400u64;
        assert(q as int == secs as int / 86400);
        q as i64
    } else {
        let y: u64 = (-1 - secs) as u64;
        let q = y / 86400u64;
        let ghost yi = y as int;
        let ghost qi = q as int;
        let ghost ri = yi % 86400;
        assert(yi == 86400 * qi + ri && 0 <= ri < 86400) by (nonlinear_arith)
            requires
                qi == yi / 86400,
                ri == yi % 86400,
        ;
        assert((secs as int) == 86400 * (-1 - qi) + (86399 - ri));
        assert((secs as int) / 86400 == -1 - qi) by (nonlinear_arith)
            requires
                (secs as int) == 86400 * (-1 - qi) + (86399 - ri),
                0 <= 86399 - ri < 86400,
        ;
        -1 - (q as i64)
    }
}

/// The `YYYY-MM-DD` text of UTC day `day`.
pub fn date_label(day: i64) -> (r: String)
    requires
        i64::MIN <= day * SECONDS_PER_DAY <= i64::MAX,
    ensures
        r@ == utc_date_text(day * SECONDS_PER_DAY),
{
    utc_date_label(day * SECONDS_PER_DAY)
}

} // verus!
