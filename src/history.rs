//! A bounded, date-ordered history of daily metric snapshots for one app.
use crate::metrics::RevenueMetrics;
use crate::ratio::Ratio;
use vstd::prelude::*;

verus! {

/// The most snapshots that a history retains.
pub const MAX_SNAPSHOTS: usize = 90;

/// The billing metrics that a snapshot keeps.
#[derive(Clone, Copy, Debug, PartialEq, Eq, Structural)]
pub struct StripeSnapshot {
    /// Monthly recurring revenue, in money units.
    pub mrr: i128,
    pub active_subscriptions: u32,
    /// Churn rate, in percent.
    pub churn_rate: Ratio,
    /// Annual recurring revenue, in money units.
    pub arr: i128,
}

/// The deployment metrics that a snapshot keeps.
#[derive(Clone, Copy, Debug, PartialEq, Eq, Structural)]
pub struct VercelSnapshot {
    pub deployments: u32,
    /// Success rate in percent. Deployment outcomes are not tracked yet: the
    /// value is a placeholder, not a measurement.
    pub success_rate: u32,
}

/// The analytics metrics that a snapshot keeps, over the last 7 days.
#[derive(Clone, Copy, Debug, PartialEq, Eq, Structural)]
pub struct PostHogSnapshot {
    pub unique_users: i64,
    pub total_events: i64,
}

/// The database metrics that a snapshot keeps.
#[derive(Clone, Copy, Debug, PartialEq, Eq, Structural)]
pub struct SupabaseSnapshot {
    pub total_users: i32,
    /// API requests over the last 24 hours.
    pub api_requests: i64,
}

/// One day's reduced metrics for one app.
#[derive(Clone, Debug)]
pub struct MetricSnapshot {
    /// The UTC day, counted from 1970-01-01.
    pub date: i64,
    pub app_id: String,
    pub stripe: Option<StripeSnapshot>,
    pub vercel: Option<VercelSnapshot>,
    pub posthog: Option<PostHogSnapshot>,
    pub supabase: Option<SupabaseSnapshot>,
}

/// The retained snapshots of one app. Well formed (`wf`): at most
/// `MAX_SNAPSHOTS` snapshots, strictly ascending by date.
#[derive(Clone, Debug)]
pub struct HistoricalData {
    pub app_id: String,
    pub snapshots: Vec<MetricSnapshot>,
    /// When the history was last written, as an RFC 3339 timestamp.
    pub last_updated: String,
}

/// The dates of `s` strictly ascend.
pub open spec fn ascending(s: Seq<MetricSnapshot>) -> bool {
    forall|i: int, j: int| 0 <= i < j < s.len() ==> s[i].date < s[j].date
}

/// `s` is a valid list of retained snapshots.
pub open spec fn valid_history(s: Seq<MetricSnapshot>) -> bool {
    s.len() <= MAX_SNAPSHOTS && ascending(s)
}

/// Some snapshot of `s` is for day `d`.
pub open spec fn has_date(s: Seq<MetricSnapshot>, d: i64) -> bool {
    exists|i: int| 0 <= i < s.len() && s[i].date == d
}

/// The position of the snapshot for day `d` in `s`.
pub open spec fn date_pos(s: Seq<MetricSnapshot>, d: i64) -> int {
    choose|i: int| 0 <= i < s.len() && s[i].date == d
}

/// Position `j` of `s` splits it into the snapshots before day `d` and those
/// after it.
pub open spec fn splits_at(s: Seq<MetricSnapshot>, j: int, d: i64) -> bool {
    &&& 0 <= j <= s.len()
    &&& forall|i: int| 0 <= i < j ==> s[i].date < d
    &&& forall|i: int| j <= i < s.len() ==> s[i].date > d
}

/// Where a snapshot for day `d` goes in `s` to keep it in date order.
pub open spec fn insert_pos(s: Seq<MetricSnapshot>, d: i64) -> int {
    choose|j: int| splits_at(s, j, d)
}

/// `s` with its oldest snapshots dropped so that one more fits.
pub open spec fn evicted(s: Seq<MetricSnapshot>) -> Seq<MetricSnapshot> {
    if s.len() >= MAX_SNAPSHOTS {
        s.subrange(s.len() - MAX_SNAPSHOTS + 1, s.len() as int)
    } else {
        s
    }
}

/// `x` is for a new day older than every snapshot of the full history `s`:
/// it is itself the oldest, so it is not retained.
pub open spec fn too_old(s: Seq<MetricSnapshot>, x: MetricSnapshot) -> bool {
    &&& !has_date(s, x.date)
    &&& s.len() >= MAX_SNAPSHOTS
    &&& x.date < s[0].date
}

/// The retained snapshots after committing `x` to `s`: a snapshot for the
/// same day is replaced in place; otherwise, when the history is full, the
/// oldest of its snapshots and `x` gives way, and `x`, when retained, goes in
/// date order.
pub open spec fn committed(s: Seq<MetricSnapshot>, x: MetricSnapshot) -> Seq<MetricSnapshot> {
    if has_date(s, x.date) {
        s.update(date_pos(s, x.date), x)
    } else if too_old(s, x) {
        s
    } else {
        let r = evicted(s);
        r.insert(insert_pos(r, x.date), x)
    }
}

/// The retained snapshots after committing each of `xs` in turn to `s`.
pub open spec fn committed_all(s: Seq<MetricSnapshot>, xs: Seq<MetricSnapshot>) -> Seq<MetricSnapshot>
    decreases xs.len(),
{
    if xs.len() == 0 {
        s
    } else {
        committed(committed_all(s, xs.drop_last()), xs.last())
    }
}

proof fn lemma_date_pos(s: Seq<MetricSnapshot>, i: int)
    requires
        ascending(s),
        0 <= i < s.len(),
    ensures
        has_date(s, s[i].date),
        date_pos(s, s[i].date) == i,
{
    let p = date_pos(s, s[i].date);
    assert(0 <= p < s.len() && s[p].date == s[i].date);
}

proof fn lemma_insert_pos(s: Seq<MetricSnapshot>, j: int, d: i64)
    requires
        splits_at(s, j, d),
    ensures
        insert_pos(s, d) == j,
{
    let c = insert_pos(s, d);
    assert(splits_at(s, c, d));
    if c < j {
        assert(s[c].date > d);
    } else if c > j {
        assert(s[j].date > d);
    }
}

proof fn lemma_evicted(s: Seq<MetricSnapshot>)
    requires
        valid_history(s),
    ensures
        ascending(evicted(s)),
        evicted(s).len() < MAX_SNAPSHOTS,
        forall|i: int| 0 <= i < evicted(s).len() ==> #[trigger] evicted(s)[i] == s[i + s.len() - evicted(s).len()],
{
}

/// Committing a snapshot to a valid history leaves a valid history: at most
/// `MAX_SNAPSHOTS` snapshots, strictly ascending by date, whatever the order
/// of the commits.
pub proof fn lemma_commit_keeps_history_valid(s: Seq<MetricSnapshot>, x: MetricSnapshot)
    requires
        valid_history(s),
    ensures
        valid_history(committed(s, x)),
{
    if has_date(s, x.date) {
        let p = date_pos(s, x.date);
        assert(0 <= p < s.len() && s[p].date == x.date);
    } else if too_old(s, x) {
    } else {
        let r = evicted(s);
        lemma_evicted(s);
        let j = insert_pos(r, x.date);
        assert(forall|i: int| 0 <= i < r.len() ==> r[i].date != x.date);
        lemma_split_exists(r, x.date);
        let k = choose|k: int| splits_at(r, k, x.date);
        lemma_insert_pos(r, k, x.date);
        let t = r.insert(j, x);
        assert forall|a: int, b: int| 0 <= a < b < t.len() implies t[a].date < t[b].date by {
            if b < j {
            } else if b == j {
            } else if a < j {
            } else if a == j {
                assert(t[b] == r[b - 1]);
            } else {
                assert(t[a] == r[a - 1] && t[b] == r[b - 1]);
            }
        }
    }
}

proof fn lemma_split_exists(r: Seq<MetricSnapshot>, d: i64)
    requires
        ascending(r),
        forall|i: int| 0 <= i < r.len() ==> r[i].date != d,
    ensures
        exists|k: int| splits_at(r, k, d),
    decreases r.len(),
{
    if r.len() == 0 {
        assert(splits_at(r, 0, d));
    } else {
        let q = r.drop_last();
        lemma_split_exists(q, d);
        let k = choose|k: int| splits_at(q, k, d);
        if r.last().date < d {
            assert(splits_at(r, r.len() as int, d)) by {
                assert forall|i: int| 0 <= i < r.len() implies r[i].date < d by {
                    if i < r.len() - 1 {
                        assert(r[i].date < r[r.len() - 1].date);
                    }
                }
            }
        } else {
            assert forall|i: int| k <= i < r.len() implies r[i].date > d by {
                if i < r.len() - 1 {
                    assert(r[i] == q[i]);
                }
            }
            assert forall|i: int| 0 <= i < k implies r[i].date < d by {
                assert(r[i] == q[i]);
            }
            assert(splits_at(r, k, d));
        }
    }
}

impl StripeSnapshot {
    /// The billing metrics of `m` that a snapshot keeps.
    pub fn of(m: &RevenueMetrics) -> (r: StripeSnapshot)
        ensures
            r.mrr == m.mrr,
            r.active_subscriptions == m.active_subscriptions,
            r.churn_rate == m.churn_rate,
            r.arr == m.arr,
    {
        StripeSnapshot {
            mrr: m.mrr,
            active_subscriptions: m.active_subscriptions,
            churn_rate: m.churn_rate,
            arr: m.arr,
        }
    }
}

impl VercelSnapshot {
    /// The deployment metrics that a snapshot keeps, from the number of
    /// deployments listed. The success rate is a placeholder until deployment
    /// outcomes are tracked.
    pub fn of_deployments(deployments: u32) -> (r: VercelSnapshot)
        ensures
            r.deployments == deployments,
    {
        VercelSnapshot { deployments, success_rate: 100 }
    }
}

fn copy_snapshot(x: &MetricSnapshot) -> (r: MetricSnapshot)
    ensures
        r == *x,
{
    MetricSnapshot {
        date: x.date,
        app_id: x.app_id.clone(),
        stripe: x.stripe,
        vercel: x.vercel,
        posthog: x.posthog,
        supabase: x.supabase,
    }
}

impl HistoricalData {
    /// The history is well formed: at most `MAX_SNAPSHOTS` snapshots, strictly
    /// ascending by date.
    pub open spec fn wf(&self) -> bool {
        valid_history(self.snapshots@)
    }

    /// An empty history for `app_id`, written at `now`.
    pub fn new(app_id: String, now: String) -> (h: HistoricalData)
        ensures
            h.wf(),
            h.app_id == app_id,
            h.snapshots@.len() == 0,
            h.last_updated == now,
    {
        HistoricalData { app_id, snapshots: Vec::new(), last_updated: now }
    }

    /// A history read back from storage: the stored snapshots committed in
    /// turn, so that a history in order is kept as it is and any other is
    /// put in order, a later snapshot for a day replacing an earlier one.
    pub fn from_snapshots(app_id: String, snapshots: &Vec<MetricSnapshot>, last_updated: String) -> (h:
        HistoricalData)
        ensures
            h.wf(),
            h.app_id == app_id,
            h.snapshots@ == committed_all(Seq::empty(), snapshots@),
            h.last_updated == last_updated,
    {
        let mut h = HistoricalData::new(app_id, last_updated.clone());
        let mut i: usize = 0;
        assert(snapshots@.take(0) =~= Seq::<MetricSnapshot>::empty());
        while i < snapshots.len()
            invariant
                i <= snapshots@.len(),
                h.wf(),
                h.app_id == app_id,
                h.snapshots@ == committed_all(Seq::empty(), snapshots@.take(i as int)),
            decreases snapshots@.len() - i,
        {
            assert(snapshots@.take(i as int + 1).drop_last() =~= snapshots@.take(i as int));
            assert(snapshots@.take(i as int + 1).last() == snapshots@[i as int]);
            h.commit(copy_snapshot(&snapshots[i]), last_updated.clone());
            i = i + 1;
        }
        assert(snapshots@.take(i as int) =~= snapshots@);
        h.last_updated = last_updated;
        h
    }

    /// Commits the snapshot `x` at `now`: a snapshot for the same day is
    /// replaced in place, otherwise `x` is added in date order; when
    /// `MAX_SNAPSHOTS` are already retained, the oldest of them and `x` gives
    /// way.
    pub fn commit(&mut self, x: MetricSnapshot, now: String)
        requires
            old(self).wf(),
        ensures
            final(self).wf(),
            final(self).snapshots@ == committed(old(self).snapshots@, x),
            final(self).snapshots@.len() == if has_date(old(self).snapshots@, x.date) {
                old(self).snapshots@.len() as int
            } else if old(self).snapshots@.len() == MAX_SNAPSHOTS {
                MAX_SNAPSHOTS as int
            } else {
                old(self).snapshots@.len() + 1int
            },
            too_old(old(self).snapshots@, x) ==> final(self).snapshots@ == old(self).snapshots@,
            !too_old(old(self).snapshots@, x) ==> has_date(final(self).snapshots@, x.date)
                && final(self).snapshots@[date_pos(final(self).snapshots@, x.date)] == x,
            final(self).app_id == old(self).app_id,
            final(self).last_updated == now,
    {
        let ghost s = self.snapshots@;
        proof {
            lemma_commit_keeps_history_valid(s, x);
        }
        let d = x.date;
        let mut j: usize = 0;
        let mut found = false;
        while !found && j < self.snapshots.len()
            invariant
                self.snapshots@ == s,
                j <= s.len(),
                found ==> j < s.len() && s[j as int].date == d,
                !found ==> forall|h: int| 0 <= h < j ==> s[h].date != d,
            decreases s.len() - j + if found { 0int } else { 1int },
        {
            if self.snapshots[j].date == d {
                found = true;
            } else {
                j = j + 1;
            }
        }
        if found {
            proof {
                lemma_date_pos(s, j as int);
            }
            self.snapshots.set(j, x);
            proof {
                lemma_date_pos(self.snapshots@, j as int);
            }
        } else {
            assert(!has_date(s, d));
            if self.snapshots.len() >= MAX_SNAPSHOTS {
                if d < self.snapshots[0].date {
                    self.last_updated = now;
                    return;
                }
                self.snapshots.remove(0);
            }
            let ghost r = self.snapshots@;
            assert(r =~= evicted(s));
            proof {
                lemma_evicted(s);
            }
            let mut k: usize = 0;
            while k < self.snapshots.len() && self.snapshots[k].date < d
                invariant
                    self.snapshots@ == r,
                    ascending(r),
                    forall|i: int| 0 <= i < r.len() ==> r[i].date != d,
                    k <= r.len(),
                    forall|i: int| 0 <= i < k ==> r[i].date < d,
                decreases r.len() - k,
            {
                k = k + 1;
            }
            assert(splits_at(r, k as int, d)) by {
                assert forall|i: int| k <= i < r.len() implies r[i].date > d by {
                    if i > k {
                        assert(r[k as int].date < r[i].date);
                    }
                }
            }
            proof {
                lemma_insert_pos(r, k as int, d);
            }
            self.snapshots.insert(k, x);
            proof {
                lemma_date_pos(self.snapshots@, k as int);
            }
        }
        self.last_updated = now;
    }
}

/// Committing two snapshots for the same day, one after the other, leaves
/// exactly one snapshot for that day, and it is the second.
pub proof fn lemma_same_day_commit_replaces(s: Seq<MetricSnapshot>, x: MetricSnapshot, y: MetricSnapshot)
    requires
        valid_history(s),
        !too_old(s, x),
        x.date == y.date,
    ensures
        ({
            let r = committed(committed(s, x), y);
            &&& has_date(r, y.date)
            &&& r[date_pos(r, y.date)] == y
            &&& forall|i: int| 0 <= i < r.len() && r[i].date == y.date ==> i == date_pos(r, y.date)
        }),
{
    let t = committed(s, x);
    lemma_commit_keeps_history_valid(s, x);
    assert(has_date(t, x.date)) by {
        if has_date(s, x.date) {
            let p = date_pos(s, x.date);
            assert(t[p] == x);
        } else {
            let e = evicted(s);
            let j = insert_pos(e, x.date);
            lemma_evicted(s);
            lemma_split_exists(e, x.date);
            assert(t[j] == x);
        }
    }
    let p = date_pos(t, y.date);
    let r = committed(t, y);
    assert(r == t.update(p, y));
    lemma_commit_keeps_history_valid(t, y);
    lemma_date_pos(r, p);
}

/// Committing snapshots with strictly increasing dates, one per day, to an
/// empty history retains the `MAX_SNAPSHOTS` most recent of them.
pub proof fn lemma_daily_commits_keep_most_recent(xs: Seq<MetricSnapshot>)
    requires
        ascending(xs),
    ensures
        committed_all(Seq::empty(), xs) == xs.subrange(
            if xs.len() > MAX_SNAPSHOTS {
                xs.len() - MAX_SNAPSHOTS
            } else {
                0
            },
            xs.len() as int,
        ),
    decreases xs.len(),
{
    if xs.len() > 0 {
        let n = xs.len() as int;
        let q = xs.drop_last();
        assert(ascending(q));
        lemma_daily_commits_keep_most_recent(q);
        let lo = if n - 1 > MAX_SNAPSHOTS { n - 1 - MAX_SNAPSHOTS } else { 0 };
        let prev = committed_all(Seq::<MetricSnapshot>::empty(), q);
        assert(prev == xs.subrange(lo, n - 1));
        let x = xs.last();
        assert forall|i: int| 0 <= i < prev.len() implies prev[i].date < x.date by {
            assert(prev[i] == xs[lo + i]);
        }
        assert(!has_date(prev, x.date));
        let e = evicted(prev);
        assert(splits_at(e, e.len() as int, x.date));
        lemma_insert_pos(e, e.len() as int, x.date);
        assert(committed(prev, x) =~= xs.subrange(
            if n > MAX_SNAPSHOTS {
                n - MAX_SNAPSHOTS
            } else {
                0
            },
            n,
        ));
    } else {
        assert(xs.subrange(0, 0) =~= Seq::<MetricSnapshot>::empty());
    }
}

/// `r` holds the most recent snapshots of `p`: it is in date order, as
/// long as `p` or `MAX_SNAPSHOTS` allows, drawn from `p`, and every snapshot
/// of `p` that it leaves out is older than all that it holds.
pub open spec fn keeps_most_recent(p: Seq<MetricSnapshot>, r: Seq<MetricSnapshot>) -> bool {
    &&& ascending(r)
    &&& r.len() == if p.len() > MAX_SNAPSHOTS {
        MAX_SNAPSHOTS as int
    } else {
        p.len() as int
    }
    &&& forall|k: int| 0 <= k < r.len() ==> p.contains(#[trigger] r[k])
    &&& forall|i: int|
        0 <= i < p.len() && !r.contains(#[trigger] p[i]) ==> forall|k: int| 0 <= k < r.len() ==> p[i].date < r[k].date
}

/// Committing a snapshot for a new day retains the most recent of the
/// history's snapshots and the new one: when the history is full, the oldest
/// of them all is dropped, never a newer one.
pub proof fn lemma_commit_keeps_most_recent(s: Seq<MetricSnapshot>, x: MetricSnapshot)
    requires
        valid_history(s),
        !has_date(s, x.date),
    ensures
        keeps_most_recent(s.push(x), committed(s, x)),
{
    lemma_commit_keeps_history_valid(s, x);
    let p = s.push(x);
    let n = s.len() as int;
    let r = committed(s, x);
    assert(p[n] == x);
    assert forall|i: int| 0 <= i < n implies p[i] == s[i] by {}
    if too_old(s, x) {
        assert(r == s);
        assert forall|k: int| 0 <= k < r.len() implies p.contains(#[trigger] r[k]) by {
            assert(p[k] == r[k]);
        }
        assert forall|i: int| 0 <= i < p.len() && !r.contains(#[trigger] p[i]) implies forall|k: int|
            0 <= k < r.len() ==> p[i].date < r[k].date by {
            if i < n {
                assert(r[i] == p[i]);
            } else {
                assert forall|k: int| 0 <= k < r.len() implies p[i].date < r[k].date by {
                    if k > 0 {
                        assert(s[0].date < s[k].date);
                    }
                }
            }
        }
    } else {
        lemma_insert_keeps_most_recent(s, x);
    }
}

proof fn lemma_insert_keeps_most_recent(s: Seq<MetricSnapshot>, x: MetricSnapshot)
    requires
        valid_history(s),
        !has_date(s, x.date),
        !too_old(s, x),
    ensures
        keeps_most_recent(s.push(x), committed(s, x)),
{
    lemma_commit_keeps_history_valid(s, x);
    lemma_evicted(s);
    lemma_split_exists(evicted(s), x.date);
    let j = choose|j: int| splits_at(evicted(s), j, x.date);
    lemma_insert_pos(evicted(s), j, x.date);
    lemma_insert_draws_from_appended(s, x);
    lemma_insert_drops_only_oldest(s, x);
}

proof fn lemma_insert_draws_from_appended(s: Seq<MetricSnapshot>, x: MetricSnapshot)
    requires
        valid_history(s),
        !has_date(s, x.date),
        !too_old(s, x),
    ensures
        forall|k: int| 0 <= k < committed(s, x).len() ==> s.push(x).contains(#[trigger] committed(s, x)[k]),
{
    lemma_commit_keeps_history_valid(s, x);
    let p = s.push(x);
    let n = s.len() as int;
    let r = committed(s, x);
    assert(p[n] == x);
    assert forall|i: int| 0 <= i < n implies p[i] == s[i] by {}
    let e = evicted(s);
    lemma_evicted(s);
    lemma_split_exists(e, x.date);
    let j = choose|j: int| splits_at(e, j, x.date);
    lemma_insert_pos(e, j, x.date);
    assert(r == e.insert(j, x));
    let off = n - e.len();
    assert(off == 0 || off == 1);
    assert forall|k: int| 0 <= k < r.len() implies p.contains(#[trigger] r[k]) by {
        if k < j {
            assert(r[k] == e[k] && e[k] == s[k + off] && p[k + off] == r[k]);
        } else if k == j {
            assert(p[n] == r[k]);
        } else {
            assert(r[k] == e[k - 1] && e[k - 1] == s[k - 1 + off] && p[k - 1 + off] == r[k]);
        }
    }
}

proof fn lemma_insert_drops_only_oldest(s: Seq<MetricSnapshot>, x: MetricSnapshot)
    requires
        valid_history(s),
        !has_date(s, x.date),
        !too_old(s, x),
    ensures
        forall|i: int|
            0 <= i < s.push(x).len() && !committed(s, x).contains(#[trigger] s.push(x)[i]) ==> forall|k: int|
                0 <= k < committed(s, x).len() ==> s.push(x)[i].date < committed(s, x)[k].date,
{
    lemma_commit_keeps_history_valid(s, x);
    let p = s.push(x);
    let n = s.len() as int;
    let r = committed(s, x);
    assert(p[n] == x);
    assert forall|i: int| 0 <= i < n implies p[i] == s[i] by {}
    let e = evicted(s);
    lemma_evicted(s);
    lemma_split_exists(e, x.date);
    let j = choose|j: int| splits_at(e, j, x.date);
    lemma_insert_pos(e, j, x.date);
    assert(r == e.insert(j, x));
    let off = n - e.len();
    assert(off == 0 || off == 1);
    assert forall|i: int| 0 <= i < p.len() && !r.contains(#[trigger] p[i]) implies forall|k: int|
        0 <= k < r.len() ==> p[i].date < r[k].date by {
        if i == n {
            assert(r[j] == p[i]);
        } else if i - off < 0 {
            assert(off == 1 && i == 0);
            assert(x.date > s[0].date);
            assert forall|k: int| 0 <= k < r.len() implies p[i].date < r[k].date by {
                if k < j {
                    assert(r[k] == s[k + 1]);
                    assert(s[0].date < s[k + 1].date);
                } else if k > j {
                    assert(r[k] == s[k]);
                    assert(s[0].date < s[k].date);
                }
            }
        } else if i - off < j {
            assert(r[i - off] == e[i - off] && e[i - off] == s[i]);
        } else {
            assert(r[i - off + 1] == e[i - off] && e[i - off] == s[i]);
        }
    }
}

/// Committing any sequence of snapshots, in any order of dates, to a valid
/// history leaves a valid history.
pub proof fn lemma_commits_keep_history_valid(s: Seq<MetricSnapshot>, xs: Seq<MetricSnapshot>)
    requires
        valid_history(s),
    ensures
        valid_history(committed_all(s, xs)),
    decreases xs.len(),
{
    if xs.len() > 0 {
        lemma_commits_keep_history_valid(s, xs.drop_last());
        lemma_commit_keeps_history_valid(committed_all(s, xs.drop_last()), xs.last());
    }
}

} // verus!
