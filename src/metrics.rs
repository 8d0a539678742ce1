//! The full set of revenue metrics of one billing integration.
use crate::charges::{charged_on_day, charged_total, daily_revenue, revenue_30d, series_start, DailyRevenue, EARLIEST_NOW, SERIES_DAYS};
use crate::calendar::{utc_date_text, SECONDS_PER_DAY};
use crate::rates::{
    arpu, arpu_of, churn_of, churn_rate, growth_of, ltv_estimate, ltv_of, revenue_growth_rate,
    subscriber_growth_rate, MAX_TOTAL_UNITS,
};
use crate::ratio::Ratio;
use crate::revenue::{
    plan_ids, plans_count, plans_mrr, plans_percent, reports_plan, revenue_by_plan, sum_monthly_units, total_monthly, Charge, PlanRevenue,
    SubscriptionRecord, MAX_MONTHLY_UNITS, MAX_RECORDS, UNITS_PER_MINOR,
};
use vstd::prelude::*;

verus! {

/// How the monthly recurring revenue changed over the last 30 days, in money
/// units. Expansion, contraction and reactivation need the history of each
/// subscription, which a point-in-time fetch does not give: they are zero.
#[derive(Clone, Copy, Debug, PartialEq, Eq, Structural)]
pub struct MrrBridge {
    pub new_mrr: i128,
    pub expansion_mrr: i128,
    pub contraction_mrr: i128,
    pub churned_mrr: i128,
    pub reactivation_mrr: i128,
    pub net_new_mrr: i128,
}

/// Revenue metrics of one billing integration at one point in time. Money is
/// in money units (see `UNITS_PER_DOLLAR`); rates are in percent.
#[derive(Clone, Debug)]
pub struct RevenueMetrics {
    pub mrr: i128,
    pub arr: i128,
    pub active_subscriptions: u32,
    pub revenue_30d: i128,
    pub churn_rate: Ratio,
    pub new_mrr: i128,
    pub expansion_mrr: i128,
    pub churned_mrr: i128,
    pub net_new_mrr: i128,
    pub new_subscribers_30d: u32,
    pub churned_subscribers_30d: u32,
    pub revenue_growth_rate: Ratio,
    pub subscriber_growth_rate: Ratio,
    pub arpu: Ratio,
    pub ltv_estimate: Ratio,
    pub revenue_by_plan: Vec<PlanRevenue>,
    pub mrr_bridge: MrrBridge,
    pub trial_conversion_rate: Ratio,
    pub average_revenue_per_subscription: Ratio,
    pub daily_revenue: Vec<DailyRevenue>,
    pub daily_subscribers: Vec<u32>,
}

/// The charges that the daily series is built from: none when the charge
/// list could not be fetched.
pub open spec fn chart_charges(charges: Option<Vec<Charge>>) -> Seq<Charge> {
    match charges {
        Some(c) => c@,
        None => Seq::empty(),
    }
}

/// Derives the revenue metrics from the product listing `product_names`
/// (identifier, display name), the active subscriptions, the subscriptions
/// canceled and created in the last 30 days, and the charges of the last 30
/// days (`None` when they could not be fetched), at `now` seconds since the
/// Unix epoch.
pub fn derive_metrics(
    product_names: &Vec<(String, String)>,
    active: &Vec<SubscriptionRecord>,
    canceled: &Vec<SubscriptionRecord>,
    created: &Vec<SubscriptionRecord>,
    charges: &Option<Vec<Charge>>,
    now: i64,
) -> (m: RevenueMetrics)
    requires
        active@.len() <= MAX_RECORDS,
        canceled@.len() <= MAX_RECORDS,
        created@.len() <= MAX_RECORDS,
        charges is Some ==> charges->0@.len() <= MAX_RECORDS,
        EARLIEST_NOW <= now,
    ensures
        m.mrr == total_monthly(active@),
        m.arr == 12 * total_monthly(active@),
        m.active_subscriptions == active@.len(),
        m.new_mrr == total_monthly(created@),
        m.churned_mrr == total_monthly(canceled@),
        m.net_new_mrr == total_monthly(created@) - total_monthly(canceled@),
        m.expansion_mrr == 0,
        m.new_subscribers_30d == created@.len(),
        m.churned_subscribers_30d == canceled@.len(),
        m.revenue_30d == match *charges {
            Some(c) => UNITS_PER_MINOR * charged_total(c@),
            None => total_monthly(active@),
        },
        m.churn_rate@ == churn_of(active@.len() as int, canceled@.len() as int),
        m.revenue_growth_rate@ == growth_of(m.mrr as int, m.net_new_mrr as int),
        m.subscriber_growth_rate@ == growth_of(active@.len() as int, created@.len() - canceled@.len()),
        m.arpu@ == arpu_of(m.mrr as int, active@.len() as int),
        m.average_revenue_per_subscription == m.arpu,
        m.ltv_estimate@ == ltv_of(m.arpu@, m.churn_rate@),
        m.revenue_by_plan@.len() == plan_ids(active@).len(),
        forall|g: int|
            0 <= g < m.revenue_by_plan@.len() ==> reports_plan(
                #[trigger] m.revenue_by_plan@[g],
                product_names@,
                active@,
                plan_ids(active@)[g],
            ),
        forall|i: int, j: int|
            0 <= i < j < m.revenue_by_plan@.len() ==> m.revenue_by_plan@[i].plan_id@ != m.revenue_by_plan@[j].plan_id@,
        plans_mrr(m.revenue_by_plan@) == m.mrr,
        plans_count(m.revenue_by_plan@) == m.active_subscriptions,
        m.mrr > 0 ==> plans_percent(m.revenue_by_plan@) == 100 * m.mrr,
        m.mrr_bridge == (MrrBridge {
            new_mrr: m.new_mrr,
            expansion_mrr: 0,
            contraction_mrr: 0,
            churned_mrr: m.churned_mrr,
            reactivation_mrr: 0,
            net_new_mrr: m.net_new_mrr,
        }),
        m.trial_conversion_rate@ == (0int, 1int),
        m.daily_revenue@.len() == SERIES_DAYS,
        forall|i: int|
            0 <= i < SERIES_DAYS ==> {
                let e = #[trigger] m.daily_revenue@[i];
                &&& e.day == series_start(now as int) + i
                &&& e.date@ == utc_date_text(e.day * SECONDS_PER_DAY)
                &&& e.revenue == UNITS_PER_MINOR * charged_on_day(chart_charges(*charges), e.day as int)
            },
        m.daily_subscribers@ == Seq::new(SERIES_DAYS as nat, |i: int| active@.len() as u32),
{
    let mrr = sum_monthly_units(active);
    let new_mrr = sum_monthly_units(created);
    let churned_mrr = sum_monthly_units(canceled);
    proof {
        crate::revenue::lemma_total_bounds(active@);
        crate::revenue::lemma_total_bounds(created@);
        crate::revenue::lemma_total_bounds(canceled@);
    }
    assert(active@.len() * MAX_MONTHLY_UNITS <= MAX_TOTAL_UNITS) by (nonlinear_arith)
        requires
            active@.len() <= 100,
    ;
    assert(created@.len() * MAX_MONTHLY_UNITS <= MAX_TOTAL_UNITS) by (nonlinear_arith)
        requires
            created@.len() <= 100,
    ;
    assert(canceled@.len() * MAX_MONTHLY_UNITS <= MAX_TOTAL_UNITS) by (nonlinear_arith)
        requires
            canceled@.len() <= 100,
    ;
    let net_new_mrr = new_mrr - churned_mrr;
    let active_count = active.len() as u32;
    let churned_count = canceled.len() as u32;
    let new_count = created.len() as u32;
    let churn = churn_rate(active_count, churned_count);
    let per_sub = arpu(mrr, active_count);
    let no_charges: Vec<Charge> = Vec::new();
    let chart: &Vec<Charge> = match charges {
        Some(c) => c,
        None => &no_charges,
    };
    let mut daily_subscribers: Vec<u32> = Vec::new();
    let mut i: usize = 0;
    while i < SERIES_DAYS
        invariant
            i <= SERIES_DAYS,
            daily_subscribers@ == Seq::new(i as nat, |j: int| active_count),
        decreases SERIES_DAYS - i,
    {
        daily_subscribers.push(active_count);
        i = i + 1;
    }
    RevenueMetrics {
        mrr,
        arr: mrr * 12,
        active_subscriptions: active_count,
        revenue_30d: revenue_30d(charges, mrr),
        churn_rate: churn,
        new_mrr,
        expansion_mrr: 0,
        churned_mrr,
        net_new_mrr,
        new_subscribers_30d: new_count,
        churned_subscribers_30d: churned_count,
        revenue_growth_rate: revenue_growth_rate(mrr, net_new_mrr),
        subscriber_growth_rate: subscriber_growth_rate(active_count, new_count, churned_count),
        arpu: per_sub,
        ltv_estimate: ltv_estimate(mrr, active_count, churned_count),
        revenue_by_plan: revenue_by_plan(product_names, active),
        mrr_bridge: MrrBridge {
            new_mrr,
            expansion_mrr: 0,
            contraction_mrr: 0,
            churned_mrr,
            reactivation_mrr: 0,
            net_new_mrr,
        },
        trial_conversion_rate: Ratio::whole(0),
        average_revenue_per_subscription: per_sub,
        daily_revenue: daily_revenue(chart, now),
        daily_subscribers,
    }
}

} // verus!
