//! Growth, churn and per-subscriber rates.
use crate::ratio::{worth, Ratio};
use crate::revenue::MAX_MONTHLY_UNITS;
use vstd::prelude::*;

verus! {

/// The largest magnitude of a sum of monthly values over one list of records.
pub const MAX_TOTAL_UNITS: i128 = 100 * MAX_MONTHLY_UNITS;

/// Growth in percent of a quantity now at `current` that changed by `net`
/// over the period: `net / (current - net) * 100` when the earlier value is
/// positive; else 100 when `current` is positive; else 0.
pub open spec fn growth_of(current: int, net: int) -> (int, int) {
    let previous = current - net;
    if previous > 0 {
        (net * 100, previous)
    } else if current > 0 {
        (100, 1)
    } else {
        (0, 1)
    }
}

/// Churn in percent: `churned / (active + churned) * 100`, or 0 when both are 0.
pub open spec fn churn_of(active: int, churned: int) -> (int, int) {
    if active + churned > 0 {
        (churned * 100, active + churned)
    } else {
        (0, 1)
    }
}

/// Average revenue per subscription: `mrr / active`, or 0 with no active
/// subscriptions.
pub open spec fn arpu_of(mrr: int, active: int) -> (int, int) {
    if active > 0 {
        (mrr, active)
    } else {
        (0, 1)
    }
}

/// Lifetime value: `arpu / (churn / 100)` when the churn rate is positive,
/// else `arpu * 24`.
pub open spec fn ltv_of(arpu: (int, int), churn: (int, int)) -> (int, int) {
    if churn.0 > 0 {
        (arpu.0 * 100 * churn.1, arpu.1 * churn.0)
    } else {
        (arpu.0 * 24, arpu.1)
    }
}

/// Growth in percent of the monthly recurring revenue `mrr`, which changed by
/// `net_new_mrr` over the period.
pub fn revenue_growth_rate(mrr: i128, net_new_mrr: i128) -> (r: Ratio)
    requires
        -MAX_TOTAL_UNITS <= mrr <= MAX_TOTAL_UNITS,
        -MAX_TOTAL_UNITS <= net_new_mrr <= MAX_TOTAL_UNITS,
    ensures
        r@ == growth_of(mrr as int, net_new_mrr as int),
{
    let previous = mrr - net_new_mrr;
    if previous > 0 {
        Ratio { num: net_new_mrr * 100, den: previous }
    } else if mrr > 0 {
        Ratio::whole(100)
    } else {
        Ratio::whole(0)
    }
}

/// Growth in percent of the number of active subscriptions over the period,
/// from `new_subscribers` gained and `churned_subscribers` lost.
pub fn subscriber_growth_rate(active: u32, new_subscribers: u32, churned_subscribers: u32) -> (r: Ratio)
    ensures
        r@ == growth_of(active as int, new_subscribers - churned_subscribers),
{
    let net = new_subscribers as i128 - churned_subscribers as i128;
    let previous = active as i128 - net;
    if previous > 0 {
        Ratio { num: net * 100, den: previous }
    } else if active > 0 {
        Ratio::whole(100)
    } else {
        Ratio::whole(0)
    }
}

/// Churn rate in percent over the period.
pub fn churn_rate(active: u32, churned_subscribers: u32) -> (r: Ratio)
    ensures
        r@ == churn_of(active as int, churned_subscribers as int),
{
    let total = active as i128 + churned_subscribers as i128;
    if total > 0 {
        Ratio { num: churned_subscribers as i128 * 100, den: total }
    } else {
        Ratio::whole(0)
    }
}

/// Average monthly revenue per active subscription, in money units.
pub fn arpu(mrr: i128, active: u32) -> (r: Ratio)
    ensures
        r@ == arpu_of(mrr as int, active as int),
{
    if active > 0 {
        Ratio { num: mrr, den: active as i128 }
    } else {
        Ratio::whole(0)
    }
}

/// Estimated lifetime value of a subscription, in money units, from the
/// monthly recurring revenue and the subscription counts of the period.
pub fn ltv_estimate(mrr: i128, active: u32, churned_subscribers: u32) -> (r: Ratio)
    requires
        0 <= mrr <= MAX_TOTAL_UNITS,
    ensures
        r@ == ltv_of(arpu_of(mrr as int, active as int), churn_of(active as int, churned_subscribers as int)),
{
    let a = arpu(mrr, active);
    let c = churn_rate(active, churned_subscribers);
    assert(0 <= a.num <= MAX_TOTAL_UNITS && 1 <= a.den <= 4294967295);
    assert(0 <= c.num <= 429496729500 && 1 <= c.den <= 8589934590);
    if c.num > 0 {
        assert(0 <= a.num * 100 <= MAX_TOTAL_UNITS * 100);
        assert(0 <= (a.num * 100) * c.den <= (MAX_TOTAL_UNITS * 100) * 8589934590) by (nonlinear_arith)
            requires
                0 <= a.num * 100 <= MAX_TOTAL_UNITS * 100,
                1 <= c.den <= 8589934590,
        ;
        assert(1 <= a.den * c.num <= 4294967295 * 429496729500) by (nonlinear_arith)
            requires
                1 <= a.den <= 4294967295,
                1 <= c.num <= 429496729500,
        ;
        Ratio { num: a.num * 100 * c.den, den: a.den * c.num }
    } else {
        Ratio { num: a.num * 24, den: a.den }
    }
}

/// With no earlier revenue and some revenue now, revenue growth is exactly
/// 100 percent; with neither, it is exactly 0.
pub proof fn lemma_revenue_growth_without_history(mrr: int, net_new_mrr: int)
    ensures
        mrr - net_new_mrr <= 0 && mrr > 0 ==> worth(growth_of(mrr, net_new_mrr), 100),
        mrr - net_new_mrr == 0 && mrr == 0 ==> worth(growth_of(mrr, net_new_mrr), 0),
{
}

/// With no active subscriptions, churn is 0 percent when nothing churned and
/// 100 percent when anything did.
pub proof fn lemma_churn_without_active(churned: int)
    requires
        churned >= 0,
    ensures
        churned == 0 ==> worth(churn_of(0, churned), 0),
        churned > 0 ==> worth(churn_of(0, churned), 100),
{
}

} // verus!
