//! Summaries of the deployment and database vendors' responses.
use vstd::prelude::*;
use vstd::string::StringExecFns;

verus! {

/// The most recent deployments that a summary lists.
pub const MAX_DEPLOYMENTS: usize = 5;

/// One deployment of a project.
#[derive(Clone, Debug)]
pub struct Deployment {
    pub id: String,
    pub name: String,
    pub state: String,
    pub created_at: String,
    pub url: String,
}

/// The recent deployments of a project and the state of the latest one.
#[derive(Clone, Debug)]
pub struct VercelMetrics {
    pub deployments: Vec<Deployment>,
    pub last_deployed_at: Option<String>,
    pub status: String,
}

/// The deployments among `s`, skipping the entries that could not be read.
pub open spec fn readable(s: Seq<Option<Deployment>>) -> Seq<Deployment>
    decreases s.len(),
{
    if s.len() == 0 {
        Seq::empty()
    } else {
        let p = readable(s.drop_last());
        match s.last() {
            Some(d) => p.push(d),
            None => p,
        }
    }
}

/// The deployments that a summary of the newest-first listing `s` shows:
/// the readable ones among its first `MAX_DEPLOYMENTS` entries.
pub open spec fn shown(s: Seq<Option<Deployment>>) -> Seq<Deployment> {
    readable(
        if s.len() > MAX_DEPLOYMENTS {
            s.take(MAX_DEPLOYMENTS as int)
        } else {
            s
        },
    )
}

/// Summarises a newest-first listing of deployments, where `None` stands for
/// an entry without an id or a name: the deployments shown, when the latest
/// was created, and its state (`unknown` with none).
pub fn summarize_deployments(listing: &Vec<Option<Deployment>>) -> (m: VercelMetrics)
    ensures
        m.deployments@ == shown(listing@),
        shown(listing@).len() == 0 ==> m.last_deployed_at is None && m.status@ == "unknown"@,
        shown(listing@).len() > 0 ==> m.last_deployed_at == Some(shown(listing@)[0].created_at)
            && m.status == shown(listing@)[0].state,
{
    let n: usize = if listing.len() > MAX_DEPLOYMENTS {
        MAX_DEPLOYMENTS
    } else {
        listing.len()
    };
    let ghost head = listing@.take(n as int);
    assert(head =~= if listing@.len() > MAX_DEPLOYMENTS {
        listing@.take(MAX_DEPLOYMENTS as int)
    } else {
        listing@
    });
    let mut kept: Vec<Deployment> = Vec::new();
    let mut i: usize = 0;
    while i < n
        invariant
            n <= listing@.len(),
            head == listing@.take(n as int),
            i <= n,
            kept@ == readable(listing@.take(i as int)),
        decreases n - i,
    {
        assert(listing@.take(i as int + 1).drop_last() =~= listing@.take(i as int));
        match &listing[i] {
            Some(d) => {
                kept.push(copy_deployment(d));
            },
            None => {},
        }
        i = i + 1;
    }
    if kept.len() > 0 {
        let status = kept[0].state.clone();
        let last = kept[0].created_at.clone();
        VercelMetrics { deployments: kept, last_deployed_at: Some(last), status }
    } else {
        VercelMetrics { deployments: kept, last_deployed_at: None, status: String::from_str("unknown") }
    }
}

fn copy_deployment(d: &Deployment) -> (r: Deployment)
    ensures
        r == *d,
{
    Deployment {
        id: d.id.clone(),
        name: d.name.clone(),
        state: d.state.clone(),
        created_at: d.created_at.clone(),
        url: d.url.clone(),
    }
}

/// The instant that an RFC 3339 timestamp denotes, as whole seconds since the
/// Unix epoch and nanoseconds past them; `None` where it does not parse.
pub uninterp spec fn rfc3339_instant(s: Seq<char>) -> Option<(int, int)>;

/// Relies on chrono's `DateTime::parse_from_rfc3339`, with the parsed
/// instant's `timestamp` and `timestamp_subsec_nanos`: the result depends on
/// the text alone.
#[verifier::external_body]
fn parse_rfc3339(s: &str) -> (r: Option<(i64, u32)>)
    ensures
        match r {
            Some((secs, nanos)) => rfc3339_instant(s@) == Some((secs as int, nanos as int)),
            None => rfc3339_instant(s@) is None,
        },
{
    match chrono::DateTime::parse_from_rfc3339(s) {
        Ok(t) => Some((t.timestamp(), t.timestamp_subsec_nanos())),
        Err(_) => None,
    }
}

/// The instant `(secs, nanos)` comes after `(cutoff_secs, cutoff_nanos)`.
pub open spec fn later(t: (int, int), cutoff: (int, int)) -> bool {
    t.0 > cutoff.0 || (t.0 == cutoff.0 && t.1 > cutoff.1)
}

/// A user created at the text `created_at` is new: the text parses to an
/// instant after the cutoff.
pub open spec fn is_new_user(created_at: Option<String>, cutoff: (int, int)) -> bool {
    match created_at {
        Some(s) => match rfc3339_instant(s@) {
            Some(t) => later(t, cutoff),
            None => false,
        },
        None => false,
    }
}

/// The number of users among `s` that are new.
pub open spec fn new_user_count(s: Seq<Option<String>>, cutoff: (int, int)) -> int
    decreases s.len(),
{
    if s.len() == 0 {
        0
    } else {
        new_user_count(s.drop_last(), cutoff) + if is_new_user(s.last(), cutoff) {
            1int
        } else {
            0
        }
    }
}

/// The parsed instant `t` is after the cutoff; an instant that did not parse
/// is not.
pub fn is_after(t: Option<(i64, u32)>, cutoff_secs: i64, cutoff_nanos: u32) -> (r: bool)
    ensures
        r == match t {
            Some((secs, nanos)) => later((secs as int, nanos as int), (cutoff_secs as int, cutoff_nanos as int)),
            None => false,
        },
{
    match t {
        Some((secs, nanos)) => secs > cutoff_secs || (secs == cutoff_secs && nanos > cutoff_nanos),
        None => false,
    }
}

/// The number of users, by their creation timestamps (`None` where a user has
/// none), created after the cutoff instant.
pub fn count_new_users(created_at: &Vec<Option<String>>, cutoff_secs: i64, cutoff_nanos: u32) -> (n: u64)
    ensures
        n == new_user_count(created_at@, (cutoff_secs as int, cutoff_nanos as int)),
{
    let ghost cutoff = (cutoff_secs as int, cutoff_nanos as int);
    let mut n: u64 = 0;
    let mut i: usize = 0;
    while i < created_at.len()
        invariant
            i <= created_at@.len(),
            cutoff == (cutoff_secs as int, cutoff_nanos as int),
            n == new_user_count(created_at@.take(i as int), cutoff),
            n <= i,
        decreases created_at@.len() - i,
    {
        assert(created_at@.take(i as int + 1).drop_last() =~= created_at@.take(i as int));
        let fresh = match &created_at[i] {
            Some(s) => is_after(parse_rfc3339(s.as_str()), cutoff_secs, cutoff_nanos),
            None => false,
        };
        assert(created_at@.take(i as int + 1).last() == created_at@[i as int]);
        assert(fresh == is_new_user(created_at@[i as int], cutoff));
        if fresh {
            n = n + 1;
        }
        i = i + 1;
    }
    assert(created_at@.take(i as int) =~= created_at@);
    n
}

} // verus!
