use pulse::history::{HistoricalData, MetricSnapshot, PostHogSnapshot, StripeSnapshot, VercelSnapshot};
use pulse::ratio::Ratio;

fn snap(date: i64, mrr: i128) -> MetricSnapshot {
    MetricSnapshot {
        date,
        app_id: "app".to_string(),
        stripe: Some(StripeSnapshot { mrr, active_subscriptions: 1, churn_rate: Ratio { num: 0, den: 1 }, arr: mrr * 12 }),
        vercel: None,
        posthog: None,
        supabase: None,
    }
}

fn dates(h: &HistoricalData) -> Vec<i64> {
    h.snapshots.iter().map(|s| s.date).collect()
}

fn strictly_ascending(h: &HistoricalData) -> bool {
    h.snapshots.windows(2).all(|w| w[0].date < w[1].date)
}

#[test]
fn commit_same_day_replaces() {
    let mut h = HistoricalData::new("app".to_string(), "t0".to_string());
    h.commit(snap(100, 1), "t1".to_string());
    h.commit(snap(100, 2), "t2".to_string());
    assert_eq!(h.snapshots.len(), 1);
    assert_eq!(h.snapshots[0].stripe.unwrap().mrr, 2);
    assert_eq!(h.last_updated, "t2");
    assert_eq!(h.app_id, "app");
}

#[test]
fn ninety_one_daily_commits_keep_latest_ninety() {
    let mut h = HistoricalData::new("app".to_string(), "t".to_string());
    for d in 0..91i64 {
        h.commit(snap(1000 + d, d as i128), "t".to_string());
    }
    assert_eq!(h.snapshots.len(), 90);
    assert_eq!(dates(&h), (1001..1091).collect::<Vec<i64>>());
}

#[test]
fn out_of_order_commits_stay_ascending() {
    let mut h = HistoricalData::new("app".to_string(), "t".to_string());
    for d in [5i64, 3, 9, 1, 3, 7, -2, 9] {
        h.commit(snap(d, 0), "t".to_string());
        assert!(strictly_ascending(&h));
    }
    assert_eq!(dates(&h), vec![-2, 1, 3, 5, 7, 9]);
}

#[test]
fn full_history_drops_the_oldest_day() {
    let mut h = HistoricalData::new("app".to_string(), "t".to_string());
    for d in 0..90i64 {
        h.commit(snap(100 + d, 0), "t".to_string());
    }
    // a day older than all retained ones is itself the oldest: nothing changes
    h.commit(snap(50, 0), "t2".to_string());
    assert_eq!(h.snapshots.len(), 90);
    assert_eq!(dates(&h), (100..190).collect::<Vec<i64>>());
    assert_eq!(h.last_updated, "t2");
    // a day inside the range displaces the oldest retained one
    h.commit(snap(150, 0), "t".to_string());
    assert_eq!(dates(&h), (100..190).collect::<Vec<i64>>());
    h.commit(snap(500, 0), "t".to_string());
    assert_eq!(h.snapshots.len(), 90);
    assert_eq!(h.snapshots[0].date, 101);
    assert_eq!(h.snapshots[89].date, 500);
    assert!(strictly_ascending(&h));
}

#[test]
fn from_snapshots_orders_and_bounds() {
    let kept = HistoricalData::from_snapshots("app".to_string(), &vec![snap(1, 0), snap(2, 0)], "t".to_string());
    assert_eq!(dates(&kept), vec![1, 2]);
    assert_eq!(kept.last_updated, "t");
    let unordered = HistoricalData::from_snapshots("app".to_string(), &vec![snap(2, 0), snap(1, 0)], "t".to_string());
    assert_eq!(dates(&unordered), vec![1, 2]);
    let doubled = HistoricalData::from_snapshots("app".to_string(), &vec![snap(1, 5), snap(1, 7)], "t".to_string());
    assert_eq!(doubled.snapshots.len(), 1);
    assert_eq!(doubled.snapshots[0].stripe.unwrap().mrr, 7);
    let long: Vec<MetricSnapshot> = (0..91).map(|d| snap(d, 0)).collect();
    let trimmed = HistoricalData::from_snapshots("app".to_string(), &long, "t".to_string());
    assert_eq!(dates(&trimmed), (1..91).collect::<Vec<i64>>());
}

#[test]
fn snapshot_projections() {
    let v = VercelSnapshot::of_deployments(7);
    assert_eq!(v.deployments, 7);
    let p = PostHogSnapshot { unique_users: 3, total_events: 40 };
    assert_eq!(p.total_events, 40);
}
