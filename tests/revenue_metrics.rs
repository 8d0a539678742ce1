use pulse::charges::{daily_revenue, revenue_30d, DailyRevenue};
use pulse::calendar::{date_label, utc_day};
use pulse::metrics::derive_metrics;
use pulse::rates::{arpu, churn_rate, ltv_estimate, revenue_growth_rate, subscriber_growth_rate};
use pulse::ratio::Ratio;
use pulse::revenue::{
    factor_of_interval, label_of, lookup_name, monthly_units, revenue_by_plan, sum_monthly_units, Charge,
    SubscriptionRecord, UNITS_PER_DOLLAR, UNITS_PER_MINOR,
};

fn blank() -> SubscriptionRecord {
    SubscriptionRecord {
        unit_amount: None,
        plan_amount: None,
        recurring_interval: None,
        plan_interval: None,
        quantity: None,
        price_product: None,
        plan_product: None,
        price_nickname: None,
        plan_nickname: None,
    }
}

fn priced(amount: u32, interval: &str, quantity: u32, product: &str) -> SubscriptionRecord {
    SubscriptionRecord {
        unit_amount: Some(amount),
        recurring_interval: Some(interval.to_string()),
        quantity: Some(quantity),
        price_product: Some(product.to_string()),
        ..blank()
    }
}

fn charge(status: &str, amount: i64, created: i64) -> Charge {
    Charge { status: Some(status.to_string()), amount: Some(amount), created: Some(created) }
}

fn is_worth(r: Ratio, k: i128) -> bool {
    r.den > 0 && r.num == k * r.den
}

// 2023-11-14 22:13:20 UTC
const NOW: i64 = 1_700_000_000;

#[test]
fn yearly_1200_is_one_dollar_a_month() {
    let r = priced(1200, "year", 1, "p");
    assert_eq!(monthly_units(&r), UNITS_PER_DOLLAR);
}

#[test]
fn interval_factors() {
    assert_eq!(factor_of_interval(&"month".to_string()), UNITS_PER_MINOR);
    assert_eq!(factor_of_interval(&"fortnight".to_string()), UNITS_PER_MINOR);
    assert_eq!(factor_of_interval(&"".to_string()), UNITS_PER_MINOR);
    assert_eq!(factor_of_interval(&"year".to_string()), 25);
    // 4.33 months' worth per week, 30 per day
    assert_eq!(monthly_units(&priced(100, "week", 1, "p")), 433 * UNITS_PER_MINOR);
    assert_eq!(monthly_units(&priced(100, "day", 1, "p")), 3000 * UNITS_PER_MINOR);
}

#[test]
fn old_style_plan_fields_and_defaults() {
    let r = SubscriptionRecord {
        plan_amount: Some(1000),
        plan_interval: Some("year".to_string()),
        plan_product: Some("prod_old".to_string()),
        ..blank()
    };
    assert_eq!(monthly_units(&r), 1000 * 25);
    // missing amount is zero, missing interval is a month
    assert_eq!(monthly_units(&blank()), 0);
    let q = SubscriptionRecord { unit_amount: Some(500), quantity: Some(3), ..blank() };
    assert_eq!(monthly_units(&q), 1500 * UNITS_PER_MINOR);
    // the price wins over the plan
    let both = SubscriptionRecord { unit_amount: Some(200), plan_amount: Some(900), ..blank() };
    assert_eq!(monthly_units(&both), 200 * UNITS_PER_MINOR);
}

#[test]
fn plan_names_fall_back() {
    let names = vec![
        ("prod_a".to_string(), "Old Name".to_string()),
        ("prod_a".to_string(), "Pro".to_string()),
    ];
    assert_eq!(lookup_name(&names, &"prod_a".to_string()), Some("Pro".to_string()));
    assert_eq!(lookup_name(&names, &"prod_b".to_string()), None);
    assert_eq!(label_of(&names, &priced(1, "month", 1, "prod_a")), "Pro");
    let nick = SubscriptionRecord { price_nickname: Some("Basic".to_string()), ..priced(1, "month", 1, "prod_x") };
    assert_eq!(label_of(&names, &nick), "Basic");
    let plan_nick = SubscriptionRecord { plan_nickname: Some("Legacy".to_string()), ..blank() };
    assert_eq!(label_of(&names, &plan_nick), "Legacy");
    assert_eq!(label_of(&names, &blank()), "Unknown Plan");
}

#[test]
fn revenue_by_plan_groups_and_shares() {
    let names = vec![("prod_a".to_string(), "Pro".to_string())];
    let subs = vec![
        priced(1000, "month", 1, "prod_a"),
        priced(3000, "month", 1, "prod_b"),
        priced(1000, "month", 2, "prod_a"),
        blank(),
    ];
    let plans = revenue_by_plan(&names, &subs);
    assert_eq!(plans.len(), 3);
    let total = sum_monthly_units(&subs);
    assert_eq!(total, 6000 * UNITS_PER_MINOR);
    let a = plans.iter().find(|p| p.plan_id == "prod_a").unwrap();
    assert_eq!(a.plan_name, "Pro");
    assert_eq!(a.subscriber_count, 2);
    assert_eq!(a.mrr, 3000 * UNITS_PER_MINOR);
    assert!(is_worth(a.percent_of_total, 50));
    let b = plans.iter().find(|p| p.plan_id == "prod_b").unwrap();
    assert_eq!(b.plan_name, "Unknown Plan");
    assert!(is_worth(b.percent_of_total, 50));
    let u = plans.iter().find(|p| p.plan_id == "unknown").unwrap();
    assert_eq!(u.subscriber_count, 1);
    assert!(is_worth(u.percent_of_total, 0));
}

#[test]
fn plan_percentages_sum_to_hundred() {
    let subs = vec![
        priced(999, "month", 1, "a"),
        priced(1200, "year", 1, "b"),
        priced(77, "week", 3, "c"),
        priced(5, "day", 1, "a"),
    ];
    let plans = revenue_by_plan(&vec![], &subs);
    let den = plans[0].percent_of_total.den;
    assert!(plans.iter().all(|p| p.percent_of_total.den == den));
    let sum: i128 = plans.iter().map(|p| p.percent_of_total.num).sum();
    assert_eq!(sum, 100 * den);
    let as_float: f64 = plans.iter().map(|p| p.percent_of_total.num as f64 / p.percent_of_total.den as f64).sum();
    assert!((as_float - 100.0).abs() < 1e-9);
}

#[test]
fn zero_revenue_gives_zero_shares() {
    let subs = vec![priced(0, "month", 1, "free")];
    let plans = revenue_by_plan(&vec![], &subs);
    assert_eq!(plans.len(), 1);
    assert!(is_worth(plans[0].percent_of_total, 0));
}

#[test]
fn revenue_growth_edges() {
    // previous revenue zero, revenue now: 100 percent
    assert!(is_worth(revenue_growth_rate(100, 100), 100));
    // previous revenue negative
    assert!(is_worth(revenue_growth_rate(100, 150), 100));
    // nothing at all
    assert!(is_worth(revenue_growth_rate(0, 0), 0));
    // 150 now, 50 new: 50 / 100 = 50 percent
    assert!(is_worth(revenue_growth_rate(150, 50), 50));
    // shrinking revenue
    assert!(is_worth(revenue_growth_rate(50, -50), -50));
}

#[test]
fn subscriber_growth_edges() {
    assert!(is_worth(subscriber_growth_rate(10, 5, 0), 100));
    assert!(is_worth(subscriber_growth_rate(5, 5, 0), 100));
    assert!(is_worth(subscriber_growth_rate(0, 0, 0), 0));
    assert!(is_worth(subscriber_growth_rate(0, 0, 3), -100));
}

#[test]
fn churn_rate_edges() {
    assert!(is_worth(churn_rate(0, 0), 0));
    assert!(is_worth(churn_rate(0, 5), 100));
    assert!(is_worth(churn_rate(3, 1), 25));
}

#[test]
fn arpu_and_lifetime_value() {
    let mrr = 100 * UNITS_PER_DOLLAR;
    assert!(is_worth(arpu(mrr, 4), 25 * UNITS_PER_DOLLAR));
    assert!(is_worth(arpu(mrr, 0), 0));
    // no churn: 24 months of revenue
    assert!(is_worth(ltv_estimate(mrr, 4, 0), 24 * 25 * UNITS_PER_DOLLAR));
    // churn 20 percent: arpu / 0.2
    assert!(is_worth(ltv_estimate(mrr, 4, 1), 125 * UNITS_PER_DOLLAR));
}

#[test]
fn revenue_30d_from_succeeded_charges() {
    let charges = vec![
        charge("succeeded", 1000, NOW),
        charge("failed", 5000, NOW),
        Charge { status: Some("succeeded".to_string()), amount: None, created: Some(NOW) },
        charge("succeeded", 250, NOW - 86_400 * 40),
    ];
    assert_eq!(revenue_30d(&Some(charges), 7), 1250 * UNITS_PER_MINOR);
    // charges unavailable: revenue defaults to the recurring revenue
    assert_eq!(revenue_30d(&None, 7), 7);
}

#[test]
fn daily_revenue_covers_thirty_days() {
    let charges = vec![
        charge("succeeded", 1000, NOW),
        charge("succeeded", 500, NOW - 3600),
        charge("succeeded", 700, NOW - 86_400 * 29),
        charge("succeeded", 900, NOW - 86_400 * 30),
        charge("pending", 100, NOW),
    ];
    let series: Vec<DailyRevenue> = daily_revenue(&charges, NOW);
    assert_eq!(series.len(), 30);
    let today = utc_day(NOW);
    for (i, e) in series.iter().enumerate() {
        assert_eq!(e.day, today - 29 + i as i64);
    }
    assert_eq!(series[29].date, "2023-11-14");
    assert_eq!(series[0].date, "2023-10-16");
    assert_eq!(series[29].revenue, 1500 * UNITS_PER_MINOR);
    assert_eq!(series[0].revenue, 700 * UNITS_PER_MINOR);
    let total: i128 = series.iter().map(|e| e.revenue).sum();
    assert_eq!(total, 2200 * UNITS_PER_MINOR);
}

#[test]
fn daily_revenue_without_charges() {
    let series = daily_revenue(&vec![], NOW);
    assert_eq!(series.len(), 30);
    assert!(series.iter().all(|e| e.revenue == 0));
    for w in series.windows(2) {
        assert_eq!(w[1].day, w[0].day + 1);
    }
}

#[test]
fn utc_days_and_labels() {
    assert_eq!(utc_day(0), 0);
    assert_eq!(utc_day(86_399), 0);
    assert_eq!(utc_day(86_400), 1);
    assert_eq!(utc_day(-1), -1);
    assert_eq!(utc_day(-86_400), -1);
    assert_eq!(utc_day(-86_401), -2);
    assert_eq!(date_label(0), "1970-01-01");
    assert_eq!(date_label(19_675), "2023-11-14");
    assert_eq!(date_label(-1), "1969-12-31");
}

#[test]
fn end_to_end_single_monthly_subscription() {
    let active = vec![priced(2900, "month", 1, "prod_a")];
    let m = derive_metrics(&vec![], &active, &vec![], &vec![], &None, NOW);
    assert_eq!(m.mrr, 29 * UNITS_PER_DOLLAR);
    assert_eq!(m.arr, 348 * UNITS_PER_DOLLAR);
    assert!(is_worth(m.arpu, 29 * UNITS_PER_DOLLAR));
    assert_eq!(m.active_subscriptions, 1);
    assert_eq!(m.revenue_30d, m.mrr);
    assert!(is_worth(m.churn_rate, 0));
    // no earlier revenue recorded against the current: previous = mrr
    assert!(is_worth(m.revenue_growth_rate, 0));
    assert!(is_worth(m.ltv_estimate, 24 * 29 * UNITS_PER_DOLLAR));
    assert_eq!(m.daily_revenue.len(), 30);
    assert_eq!(m.daily_subscribers, vec![1u32; 30]);
    assert_eq!(m.revenue_by_plan.len(), 1);
    assert!(is_worth(m.revenue_by_plan[0].percent_of_total, 100));
    assert_eq!(m.mrr_bridge.expansion_mrr, 0);
    assert!(is_worth(m.trial_conversion_rate, 0));
}

#[test]
fn derive_with_churn_and_growth() {
    let active = vec![
        priced(1000, "month", 1, "a"),
        priced(1000, "month", 1, "a"),
        priced(1000, "month", 1, "b"),
    ];
    let canceled = vec![priced(1000, "month", 1, "a")];
    let created = vec![priced(1000, "month", 1, "b"), priced(1000, "month", 1, "a")];
    let charges = vec![charge("succeeded", 3000, NOW)];
    let m = derive_metrics(&vec![], &active, &canceled, &created, &Some(charges), NOW);
    assert_eq!(m.new_mrr, 20 * UNITS_PER_DOLLAR);
    assert_eq!(m.churned_mrr, 10 * UNITS_PER_DOLLAR);
    assert_eq!(m.net_new_mrr, 10 * UNITS_PER_DOLLAR);
    assert_eq!(m.mrr_bridge.net_new_mrr, m.net_new_mrr);
    // 10 / (30 - 10) = 50 percent
    assert!(is_worth(m.revenue_growth_rate, 50));
    // 1 / (3 - 1) = 50 percent
    assert!(is_worth(m.subscriber_growth_rate, 50));
    assert!(is_worth(m.churn_rate, 25));
    assert_eq!(m.revenue_30d, 30 * UNITS_PER_DOLLAR);
    assert_eq!(m.daily_revenue[29].revenue, 30 * UNITS_PER_DOLLAR);
    assert_eq!(m.new_subscribers_30d, 2);
    assert_eq!(m.churned_subscribers_30d, 1);
}

#[test]
fn plan_entries_cover_all_subscriptions() {
    let active = vec![
        priced(999, "month", 1, "a"),
        priced(1200, "year", 2, "b"),
        priced(77, "week", 3, "a"),
        blank(),
    ];
    let m = derive_metrics(&vec![], &active, &vec![], &vec![], &None, NOW);
    let plans = &m.revenue_by_plan;
    let count: u32 = plans.iter().map(|p| p.subscriber_count).sum();
    assert_eq!(count, m.active_subscriptions);
    let mrr: i128 = plans.iter().map(|p| p.mrr).sum();
    assert_eq!(mrr, m.mrr);
    let percent: i128 = plans.iter().map(|p| p.percent_of_total.num).sum();
    assert_eq!(percent, 100 * m.mrr);
    for (i, p) in plans.iter().enumerate() {
        assert!(plans[i + 1..].iter().all(|q| q.plan_id != p.plan_id));
    }
}
