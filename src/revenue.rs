//! Derivation of revenue metrics from subscription and charge records.
//!
//! Money is counted in exact units of 1/300 of the currency's minor unit
//! (1/30000 of a dollar), so that every billing interval converts to a
//! monthly figure without rounding.
use crate::ratio::Ratio;
use crate::text::copy_text;
use vstd::prelude::*;
use vstd::string::StringExecFns;

verus! {

/// Money units in one minor currency unit (one cent).
pub const UNITS_PER_MINOR: i128 = 300;

/// Money units in one major currency unit (one dollar).
pub const UNITS_PER_DOLLAR: i128 = 30000;

/// The most records of one kind that one derivation looks at: the page size
/// of a single fetch from the billing vendor.
pub const MAX_RECORDS: usize = 100;

/// The largest monthly value, in money units, that one subscription can have.
pub const MAX_MONTHLY_UNITS: i128 = 4294967295 * 4294967295 * 9000;

/// A subscription as the billing vendor reports it, reduced to the fields of
/// its first item. New-style records carry a price, old-style ones a plan;
/// any field may be missing.
#[derive(Clone, Debug)]
pub struct SubscriptionRecord {
    /// The price's unit amount, in minor units.
    pub unit_amount: Option<u32>,
    /// The plan's amount, in minor units.
    pub plan_amount: Option<u32>,
    /// The price's recurring interval.
    pub recurring_interval: Option<String>,
    /// The plan's interval.
    pub plan_interval: Option<String>,
    pub quantity: Option<u32>,
    pub price_product: Option<String>,
    pub plan_product: Option<String>,
    pub price_nickname: Option<String>,
    pub plan_nickname: Option<String>,
}

/// A charge as the billing vendor reports it.
#[derive(Clone, Debug)]
pub struct Charge {
    pub status: Option<String>,
    /// The amount, in minor units.
    pub amount: Option<i64>,
    /// When the charge was created, in seconds since the Unix epoch.
    pub created: Option<i64>,
}

/// The amount of a subscription: the price's unit amount, else the plan's
/// amount, else zero.
pub open spec fn resolved_amount(r: SubscriptionRecord) -> int {
    match r.unit_amount {
        Some(a) => a as int,
        None => match r.plan_amount {
            Some(a) => a as int,
            None => 0,
        },
    }
}

/// The billing interval: the price's, else the plan's, else `month`.
pub open spec fn resolved_interval(r: SubscriptionRecord) -> Seq<char> {
    match r.recurring_interval {
        Some(s) => s@,
        None => match r.plan_interval {
            Some(s) => s@,
            None => "month"@,
        },
    }
}

/// The quantity, one when missing.
pub open spec fn resolved_quantity(r: SubscriptionRecord) -> int {
    match r.quantity {
        Some(q) => q as int,
        None => 1,
    }
}

/// The product identifier: the price's, else the plan's, else `unknown`.
pub open spec fn resolved_product(r: SubscriptionRecord) -> Seq<char> {
    match r.price_product {
        Some(s) => s@,
        None => match r.plan_product {
            Some(s) => s@,
            None => "unknown"@,
        },
    }
}

/// Money units per minor unit billed once per `interval`, over one month:
/// a year is a twelfth, a week 4.33 times, a day 30 times, and a month or any
/// other interval once.
pub open spec fn interval_factor(interval: Seq<char>) -> int {
    if interval == "year"@ {
        25
    } else if interval == "week"@ {
        1299
    } else if interval == "day"@ {
        9000
    } else {
        300
    }
}

/// The monthly-equivalent revenue of one subscription, in money units.
pub open spec fn monthly_value(r: SubscriptionRecord) -> int {
    resolved_amount(r) * resolved_quantity(r) * interval_factor(resolved_interval(r))
}

/// Sum of the monthly values of a list of subscriptions.
pub open spec fn total_monthly(s: Seq<SubscriptionRecord>) -> int
    decreases s.len(),
{
    if s.len() == 0 {
        0
    } else {
        total_monthly(s.drop_last()) + monthly_value(s.last())
    }
}

proof fn lemma_monthly_bounds(r: SubscriptionRecord)
    ensures
        0 <= monthly_value(r) <= MAX_MONTHLY_UNITS,
{
    let a = resolved_amount(r);
    let q = resolved_quantity(r);
    let f = interval_factor(resolved_interval(r));
    assert(0 <= a <= 4294967295);
    assert(0 <= q <= 4294967295);
    assert(0 <= f <= 9000);
    assert(0 <= a * q <= 4294967295 * 4294967295) by (nonlinear_arith)
        requires
            0 <= a <= 4294967295,
            0 <= q <= 4294967295,
    ;
    assert(0 <= (a * q) * f <= (4294967295 * 4294967295) * 9000) by (nonlinear_arith)
        requires
            0 <= a * q <= 4294967295 * 4294967295,
            0 <= f <= 9000,
    ;
}

/// The monthly revenue of `s` is between zero and `MAX_MONTHLY_UNITS` per
/// subscription.
pub proof fn lemma_total_bounds(s: Seq<SubscriptionRecord>)
    ensures
        0 <= total_monthly(s) <= s.len() * MAX_MONTHLY_UNITS,
    decreases s.len(),
{
    if s.len() > 0 {
        lemma_total_bounds(s.drop_last());
        lemma_monthly_bounds(s.last());
        let n = s.len() as int;
        assert((n - 1) * MAX_MONTHLY_UNITS + MAX_MONTHLY_UNITS == n * MAX_MONTHLY_UNITS) by (nonlinear_arith);
    }
}

fn text_equals(s: &String, lit: &str) -> (r: bool)
    ensures
        r == (s@ == lit@),
{
    let t = String::from_str(lit);
    *s == t
}

/// The interval factor of a resolved interval name.
pub fn factor_of_interval(interval: &String) -> (f: i128)
    ensures
        f == interval_factor(interval@),
{
    if text_equals(interval, "year") {
        25
    } else if text_equals(interval, "week") {
        1299
    } else if text_equals(interval, "day") {
        9000
    } else {
        300
    }
}

/// The monthly-equivalent revenue of one subscription, in money units.
pub fn monthly_units(r: &SubscriptionRecord) -> (u: i128)
    ensures
        u == monthly_value(*r),
{
    let amount: u32 = match r.unit_amount {
        Some(a) => a,
        None => match r.plan_amount {
            Some(a) => a,
            None => 0,
        },
    };
    let month = String::from_str("month");
    let interval: &String = match &r.recurring_interval {
        Some(s) => s,
        None => match &r.plan_interval {
            Some(s) => s,
            None => &month,
        },
    };
    let quantity: u32 = match r.quantity {
        Some(q) => q,
        None => 1,
    };
    let f = factor_of_interval(interval);
    proof {
        lemma_monthly_bounds(*r);
    }
    assert(0 <= amount as int * quantity as int <= 4294967295 * 4294967295) by (nonlinear_arith)
        requires
            0 <= amount <= 4294967295,
            0 <= quantity <= 4294967295,
    ;
    assert(0 <= (amount as int * quantity as int) * f <= (4294967295 * 4294967295) * 9000) by (nonlinear_arith)
        requires
            0 <= amount as int * quantity as int <= 4294967295 * 4294967295,
            0 <= f <= 9000,
    ;
    (amount as i128) * (quantity as i128) * f
}

/// Sum of the monthly values of a list of subscriptions, in money units.
pub fn sum_monthly_units(subs: &Vec<SubscriptionRecord>) -> (t: i128)
    requires
        subs@.len() <= MAX_RECORDS,
    ensures
        t == total_monthly(subs@),
{
    let mut t: i128 = 0;
    let mut i: usize = 0;
    while i < subs.len()
        invariant
            i <= subs@.len() <= MAX_RECORDS,
            t == total_monthly(subs@.subrange(0, i as int)),
        decreases subs@.len() - i,
    {
        let ghost prefix = subs@.subrange(0, i as int + 1);
        assert(prefix.drop_last() =~= subs@.subrange(0, i as int));
        proof {
            lemma_total_bounds(prefix);
        }
        assert(prefix.len() * MAX_MONTHLY_UNITS <= MAX_RECORDS * MAX_MONTHLY_UNITS) by (nonlinear_arith)
            requires
                prefix.len() <= MAX_RECORDS,
        ;
        t = t + monthly_units(&subs[i]);
        i = i + 1;
    }
    assert(subs@.subrange(0, i as int) =~= subs@);
    t
}

/// The display name that a product listing gives `id`: the last entry for it,
/// as later entries of a listing replace earlier ones.
pub open spec fn listed_name(names: Seq<(String, String)>, id: Seq<char>) -> Option<Seq<char>>
    decreases names.len(),
{
    if names.len() == 0 {
        None
    } else if names.last().0@ == id {
        Some(names.last().1@)
    } else {
        listed_name(names.drop_last(), id)
    }
}

/// The plan name of a subscription: the listed name of its product, else the
/// price's nickname, else the plan's nickname, else `Unknown Plan`.
pub open spec fn plan_label(names: Seq<(String, String)>, r: SubscriptionRecord) -> Seq<char> {
    match listed_name(names, resolved_product(r)) {
        Some(n) => n,
        None => match r.price_nickname {
            Some(n) => n@,
            None => match r.plan_nickname {
                Some(n) => n@,
                None => "Unknown Plan"@,
            },
        },
    }
}

/// The display name that the product listing `names` gives `id`, if any.
pub fn lookup_name(names: &Vec<(String, String)>, id: &String) -> (r: Option<String>)
    ensures
        match listed_name(names@, id@) {
            Some(n) => r is Some && r->0@ == n,
            None => r is None,
        },
{
    let mut i: usize = names.len();
    assert(names@.subrange(0, i as int) =~= names@);
    while i > 0
        invariant
            i <= names@.len(),
            listed_name(names@, id@) == listed_name(names@.subrange(0, i as int), id@),
        decreases i,
    {
        let ghost prefix = names@.subrange(0, i as int);
        assert(prefix.drop_last() =~= names@.subrange(0, i as int - 1));
        i = i - 1;
        if names[i].0 == *id {
            return Some(names[i].1.clone());
        }
    }
    None
}

/// The product identifier of a subscription.
pub fn product_of(r: &SubscriptionRecord) -> (p: String)
    ensures
        p@ == resolved_product(*r),
{
    match &r.price_product {
        Some(s) => s.clone(),
        None => match &r.plan_product {
            Some(s) => s.clone(),
            None => String::from_str("unknown"),
        },
    }
}

/// The plan name of a subscription, given the product listing `names`.
pub fn label_of(names: &Vec<(String, String)>, r: &SubscriptionRecord) -> (n: String)
    ensures
        n@ == plan_label(names@, *r),
{
    let id = product_of(r);
    match lookup_name(names, &id) {
        Some(n) => n,
        None => match copy_text(&r.price_nickname) {
            Some(n) => n,
            None => match copy_text(&r.plan_nickname) {
                Some(n) => n,
                None => String::from_str("Unknown Plan"),
            },
        },
    }
}

/// Revenue of one plan (one product) among the active subscriptions.
#[derive(Clone, Debug)]
pub struct PlanRevenue {
    pub plan_id: String,
    pub plan_name: String,
    /// Monthly recurring revenue of the plan, in money units.
    pub mrr: i128,
    pub subscriber_count: u32,
    /// The plan's share of the total monthly recurring revenue, in percent.
    pub percent_of_total: Ratio,
}

/// The distinct product identifiers of `s`, in order of first appearance.
pub open spec fn plan_ids(s: Seq<SubscriptionRecord>) -> Seq<Seq<char>>
    decreases s.len(),
{
    if s.len() == 0 {
        Seq::empty()
    } else {
        let p = plan_ids(s.drop_last());
        let k = resolved_product(s.last());
        if p.contains(k) {
            p
        } else {
            p.push(k)
        }
    }
}

/// Sum of the monthly values of the subscriptions of `s` to product `k`.
pub open spec fn plan_units(s: Seq<SubscriptionRecord>, k: Seq<char>) -> int
    decreases s.len(),
{
    if s.len() == 0 {
        0
    } else {
        plan_units(s.drop_last(), k) + if resolved_product(s.last()) == k {
            monthly_value(s.last())
        } else {
            0
        }
    }
}

/// The number of subscriptions of `s` to product `k`.
pub open spec fn plan_count(s: Seq<SubscriptionRecord>, k: Seq<char>) -> int
    decreases s.len(),
{
    if s.len() == 0 {
        0
    } else {
        plan_count(s.drop_last(), k) + if resolved_product(s.last()) == k {
            1int
        } else {
            0
        }
    }
}

/// The name of plan `k`: the plan name of its first subscription in `s`.
pub open spec fn plan_name(names: Seq<(String, String)>, s: Seq<SubscriptionRecord>, k: Seq<char>) -> Seq<char>
    decreases s.len(),
{
    if s.len() == 0 {
        "Unknown Plan"@
    } else if plan_ids(s.drop_last()).contains(k) {
        plan_name(names, s.drop_last(), k)
    } else {
        plan_label(names, s.last())
    }
}

/// `part` as a percentage of `total`, or zero when `total` is not positive.
pub open spec fn share(part: int, total: int) -> (int, int) {
    if total > 0 {
        (part * 100, total)
    } else {
        (0, 1)
    }
}

/// `e` reports plan `k` of the subscriptions `s`, its share aside.
pub open spec fn tallies(e: PlanRevenue, names: Seq<(String, String)>, s: Seq<SubscriptionRecord>, k: Seq<char>) -> bool {
    &&& e.plan_id@ == k
    &&& e.plan_name@ == plan_name(names, s, k)
    &&& e.mrr == plan_units(s, k)
    &&& e.subscriber_count == plan_count(s, k)
}

/// `e` reports plan `k` of the subscriptions `s`.
pub open spec fn reports_plan(e: PlanRevenue, names: Seq<(String, String)>, s: Seq<SubscriptionRecord>, k: Seq<char>) -> bool {
    &&& tallies(e, names, s, k)
    &&& e.percent_of_total@ == share(plan_units(s, k), total_monthly(s))
}

proof fn lemma_plan_ids_grow(s: Seq<SubscriptionRecord>)
    requires
        s.len() > 0,
    ensures
        plan_ids(s).contains(resolved_product(s.last())),
        forall|k: Seq<char>| plan_ids(s.drop_last()).contains(k) ==> plan_ids(s).contains(k),
{
    let p = plan_ids(s.drop_last());
    let k = resolved_product(s.last());
    if !p.contains(k) {
        assert(p.push(k)[p.len() as int] == k);
        assert forall|j: Seq<char>| p.contains(j) implies p.push(k).contains(j) by {
            let i = choose|i: int| 0 <= i < p.len() && p[i] == j;
            assert(p.push(k)[i] == j);
        }
    }
}

proof fn lemma_plan_ids_distinct(s: Seq<SubscriptionRecord>)
    ensures
        plan_ids(s).no_duplicates(),
    decreases s.len(),
{
    if s.len() > 0 {
        lemma_plan_ids_distinct(s.drop_last());
    }
}

proof fn lemma_absent_plan(s: Seq<SubscriptionRecord>, k: Seq<char>)
    requires
        !plan_ids(s).contains(k),
    ensures
        plan_units(s, k) == 0,
        plan_count(s, k) == 0,
    decreases s.len(),
{
    if s.len() > 0 {
        lemma_plan_ids_grow(s);
        lemma_absent_plan(s.drop_last(), k);
    }
}

proof fn lemma_plan_bounds(s: Seq<SubscriptionRecord>, k: Seq<char>)
    ensures
        0 <= plan_units(s, k) <= total_monthly(s),
        0 <= plan_count(s, k) <= s.len(),
    decreases s.len(),
{
    if s.len() > 0 {
        lemma_plan_bounds(s.drop_last(), k);
        lemma_monthly_bounds(s.last());
    }
}

fn tally_plans(names: &Vec<(String, String)>, subs: &Vec<SubscriptionRecord>) -> (r: Vec<PlanRevenue>)
    requires
        subs@.len() <= MAX_RECORDS,
    ensures
        r@.len() == plan_ids(subs@).len(),
        forall|g: int| 0 <= g < r@.len() ==> tallies(#[trigger] r@[g], names@, subs@, plan_ids(subs@)[g]),
{
    let mut groups: Vec<PlanRevenue> = Vec::new();
    let mut i: usize = 0;
    while i < subs.len()
        invariant
            i <= subs@.len() <= MAX_RECORDS,
            groups@.len() == plan_ids(subs@.subrange(0, i as int)).len(),
            forall|g: int|
                0 <= g < groups@.len() ==> tallies(
                    #[trigger] groups@[g],
                    names@,
                    subs@.subrange(0, i as int),
                    plan_ids(subs@.subrange(0, i as int))[g],
                ),
        decreases subs@.len() - i,
    {
        let ghost prefix = subs@.subrange(0, i as int);
        let ghost next = subs@.subrange(0, i as int + 1);
        let ghost ids = plan_ids(prefix);
        assert(next.drop_last() =~= prefix);
        assert(next.last() == subs@[i as int]);
        let rec = &subs[i];
        let k = product_of(rec);
        let m = monthly_units(rec);
        proof {
            lemma_plan_ids_distinct(prefix);
            lemma_plan_ids_grow(next);
            lemma_total_bounds(prefix);
            lemma_monthly_bounds(*rec);
        }
        let mut j: usize = 0;
        let mut found = false;
        while !found && j < groups.len()
            invariant
                j <= groups@.len(),
                groups@.len() == ids.len(),
                forall|g: int| 0 <= g < groups@.len() ==> (#[trigger] groups@[g]).plan_id@ == ids[g],
                found ==> j < groups@.len() && groups@[j as int].plan_id@ == k@,
                !found ==> forall|h: int| 0 <= h < j ==> groups@[h].plan_id@ != k@,
            decreases groups@.len() - j + if found { 0int } else { 1int },
        {
            if groups[j].plan_id == k {
                found = true;
            } else {
                j = j + 1;
            }
        }
        if found {
            assert(ids.contains(k@)) by {
                assert(ids[j as int] == k@);
            }
            assert(plan_ids(next) == ids);
            proof {
                lemma_plan_bounds(prefix, k@);
            }
            assert(prefix.len() * MAX_MONTHLY_UNITS <= MAX_RECORDS * MAX_MONTHLY_UNITS) by (nonlinear_arith)
                requires
                    prefix.len() <= MAX_RECORDS,
            ;
            let old_entry = &groups[j];
            let entry = PlanRevenue {
                plan_id: old_entry.plan_id.clone(),
                plan_name: old_entry.plan_name.clone(),
                mrr: old_entry.mrr + m,
                subscriber_count: old_entry.subscriber_count + 1,
                percent_of_total: Ratio::whole(0),
            };
            groups.set(j, entry);
            assert forall|g: int| 0 <= g < groups@.len() implies tallies(
                #[trigger] groups@[g],
                names@,
                next,
                plan_ids(next)[g],
            ) by {
                if g != j {
                    assert(ids[g] != ids[j as int]);
                }
            }
        } else {
            assert(!ids.contains(k@)) by {
                if ids.contains(k@) {
                    let h = choose|h: int| 0 <= h < ids.len() && ids[h] == k@;
                    assert(groups@[h].plan_id@ == k@);
                }
            }
            assert(plan_ids(next) == ids.push(k@));
            proof {
                lemma_absent_plan(prefix, k@);
            }
            let name = label_of(names, rec);
            let entry = PlanRevenue {
                plan_id: k,
                plan_name: name,
                mrr: m,
                subscriber_count: 1,
                percent_of_total: Ratio::whole(0),
            };
            groups.push(entry);
            assert forall|g: int| 0 <= g < groups@.len() implies tallies(
                #[trigger] groups@[g],
                names@,
                next,
                plan_ids(next)[g],
            ) by {
                if g < ids.len() {
                    assert(ids.contains(ids[g]));
                }
            }
        }
        i = i + 1;
    }
    assert(subs@.subrange(0, i as int) =~= subs@);
    groups
}

/// Revenue by plan of the active subscriptions `subs`, one entry per distinct
/// product identifier, in order of first appearance.
pub fn revenue_by_plan(names: &Vec<(String, String)>, subs: &Vec<SubscriptionRecord>) -> (r: Vec<PlanRevenue>)
    requires
        subs@.len() <= MAX_RECORDS,
    ensures
        r@.len() == plan_ids(subs@).len(),
        forall|g: int| 0 <= g < r@.len() ==> reports_plan(#[trigger] r@[g], names@, subs@, plan_ids(subs@)[g]),
        forall|i: int, j: int| 0 <= i < j < r@.len() ==> r@[i].plan_id@ != r@[j].plan_id@,
        plans_mrr(r@) == total_monthly(subs@),
        plans_count(r@) == subs@.len(),
        total_monthly(subs@) > 0 ==> plans_percent(r@) == 100 * total_monthly(subs@),
{
    let total = sum_monthly_units(subs);
    let groups = tally_plans(names, subs);
    let ghost ids = plan_ids(subs@);
    proof {
        lemma_total_bounds(subs@);
    }
    assert(subs@.len() * MAX_MONTHLY_UNITS <= MAX_RECORDS * MAX_MONTHLY_UNITS) by (nonlinear_arith)
        requires
            subs@.len() <= MAX_RECORDS,
    ;
    let mut out: Vec<PlanRevenue> = Vec::new();
    let mut i: usize = 0;
    while i < groups.len()
        invariant
            i <= groups@.len() == ids.len(),
            total == total_monthly(subs@),
            0 <= total <= MAX_RECORDS * MAX_MONTHLY_UNITS,
            out@.len() == i,
            forall|g: int| 0 <= g < groups@.len() ==> tallies(#[trigger] groups@[g], names@, subs@, ids[g]),
            forall|g: int| 0 <= g < i ==> reports_plan(#[trigger] out@[g], names@, subs@, ids[g]),
        decreases groups@.len() - i,
    {
        let t = &groups[i];
        proof {
            lemma_plan_bounds(subs@, ids[i as int]);
        }
        let percent = if total > 0 {
            Ratio { num: t.mrr * 100, den: total }
        } else {
            Ratio::whole(0)
        };
        out.push(
            PlanRevenue {
                plan_id: t.plan_id.clone(),
                plan_name: t.plan_name.clone(),
                mrr: t.mrr,
                subscriber_count: t.subscriber_count,
                percent_of_total: percent,
            },
        );
        i = i + 1;
    }
    proof {
        lemma_plan_entries_cover_all(out@, names@, subs@);
    }
    out
}

/// A yearly subscription of 1200 minor units, quantity one, is worth exactly
/// one dollar a month.
pub proof fn lemma_yearly_twelve_dollars_is_one_a_month(r: SubscriptionRecord)
    requires
        resolved_interval(r) == "year"@,
        resolved_amount(r) == 1200,
        resolved_quantity(r) == 1,
    ensures
        monthly_value(r) == UNITS_PER_DOLLAR,
{
}

/// An interval other than `day`, `week`, `month` and `year` converts as a
/// month does.
pub proof fn lemma_unknown_interval_is_monthly(interval: Seq<char>)
    requires
        interval != "day"@,
        interval != "week"@,
        interval != "month"@,
        interval != "year"@,
    ensures
        interval_factor(interval) == interval_factor("month"@),
{
    reveal_strlit("month");
    reveal_strlit("year");
    reveal_strlit("week");
    reveal_strlit("day");
    assert("month"@ != "year"@) by {
        assert("month"@[0] != "year"@[0]);
    }
    assert("month"@ != "week"@) by {
        assert("month"@[0] != "week"@[0]);
    }
    assert("month"@ != "day"@) by {
        assert("month"@.len() != "day"@.len());
    }
}

/// Sum of the revenue of the plans `ids` among the subscriptions `s`.
pub open spec fn sum_plan_units(s: Seq<SubscriptionRecord>, ids: Seq<Seq<char>>) -> int
    decreases ids.len(),
{
    if ids.len() == 0 {
        0
    } else {
        sum_plan_units(s, ids.drop_last()) + plan_units(s, ids.last())
    }
}

/// Sum of the subscriber counts of the plans `ids` among `s`.
pub open spec fn sum_plan_count(s: Seq<SubscriptionRecord>, ids: Seq<Seq<char>>) -> int
    decreases ids.len(),
{
    if ids.len() == 0 {
        0
    } else {
        sum_plan_count(s, ids.drop_last()) + plan_count(s, ids.last())
    }
}

/// Sum of the percentage numerators of the plans `ids` among `s`.
pub open spec fn sum_plan_shares(s: Seq<SubscriptionRecord>, ids: Seq<Seq<char>>) -> int
    decreases ids.len(),
{
    if ids.len() == 0 {
        0
    } else {
        sum_plan_shares(s, ids.drop_last()) + share(plan_units(s, ids.last()), total_monthly(s)).0
    }
}

proof fn lemma_sum_plan_units_step(s: Seq<SubscriptionRecord>, ids: Seq<Seq<char>>)
    requires
        s.len() > 0,
        ids.no_duplicates(),
    ensures
        sum_plan_units(s, ids) == sum_plan_units(s.drop_last(), ids) + if ids.contains(
            resolved_product(s.last()),
        ) {
            monthly_value(s.last())
        } else {
            0
        },
        sum_plan_count(s, ids) == sum_plan_count(s.drop_last(), ids) + if ids.contains(
            resolved_product(s.last()),
        ) {
            1int
        } else {
            0
        },
    decreases ids.len(),
{
    if ids.len() > 0 {
        let q = ids.drop_last();
        assert(q.no_duplicates());
        lemma_sum_plan_units_step(s, q);
        let k = resolved_product(s.last());
        if q.contains(k) {
            let i = choose|i: int| 0 <= i < q.len() && q[i] == k;
            assert(ids[i] == k);
            assert(ids.contains(k));
            assert(ids.last() != k);
        } else if ids.last() == k {
            assert(ids.contains(k));
        } else {
            assert(!ids.contains(k)) by {
                if ids.contains(k) {
                    let i = choose|i: int| 0 <= i < ids.len() && ids[i] == k;
                    assert(q[i] == k);
                }
            }
        }
    }
}

proof fn lemma_plans_cover_total(s: Seq<SubscriptionRecord>)
    ensures
        sum_plan_units(s, plan_ids(s)) == total_monthly(s),
        sum_plan_count(s, plan_ids(s)) == s.len(),
    decreases s.len(),
{
    if s.len() > 0 {
        let q = s.drop_last();
        let k = resolved_product(s.last());
        lemma_plans_cover_total(q);
        lemma_plan_ids_distinct(s);
        lemma_plan_ids_distinct(q);
        lemma_plan_ids_grow(s);
        let p = plan_ids(q);
        lemma_sum_plan_units_step(s, plan_ids(s));
        if !p.contains(k) {
            lemma_sum_plan_units_step(s, p);
            lemma_absent_plan(q, k);
            assert(plan_ids(s).drop_last() == p);
        }
    }
}

proof fn lemma_shares_scale(s: Seq<SubscriptionRecord>, ids: Seq<Seq<char>>)
    requires
        total_monthly(s) > 0,
    ensures
        sum_plan_shares(s, ids) == 100 * sum_plan_units(s, ids),
    decreases ids.len(),
{
    if ids.len() > 0 {
        lemma_shares_scale(s, ids.drop_last());
    }
}

/// When the total monthly revenue is positive, the plans' percentages of the
/// total, all over that same total, add up to exactly 100.
pub proof fn lemma_plan_percentages_sum_to_hundred(s: Seq<SubscriptionRecord>)
    requires
        total_monthly(s) > 0,
    ensures
        sum_plan_shares(s, plan_ids(s)) == 100 * total_monthly(s),
        forall|g: int|
            0 <= g < plan_ids(s).len() ==> (#[trigger] share(plan_units(s, plan_ids(s)[g]), total_monthly(s))).1
                == total_monthly(s),
{
    lemma_plans_cover_total(s);
    lemma_shares_scale(s, plan_ids(s));
}

/// Sum of the monthly revenue of the plan entries `r`.
pub open spec fn plans_mrr(r: Seq<PlanRevenue>) -> int
    decreases r.len(),
{
    if r.len() == 0 {
        0
    } else {
        plans_mrr(r.drop_last()) + r.last().mrr
    }
}

/// Sum of the subscriber counts of the plan entries `r`.
pub open spec fn plans_count(r: Seq<PlanRevenue>) -> int
    decreases r.len(),
{
    if r.len() == 0 {
        0
    } else {
        plans_count(r.drop_last()) + r.last().subscriber_count
    }
}

/// Sum of the percentage numerators of the plan entries `r`.
pub open spec fn plans_percent(r: Seq<PlanRevenue>) -> int
    decreases r.len(),
{
    if r.len() == 0 {
        0
    } else {
        plans_percent(r.drop_last()) + r.last().percent_of_total.num
    }
}

proof fn lemma_entries_sum(
    r: Seq<PlanRevenue>,
    names: Seq<(String, String)>,
    s: Seq<SubscriptionRecord>,
    ids: Seq<Seq<char>>,
)
    requires
        r.len() == ids.len(),
        forall|g: int| 0 <= g < r.len() ==> reports_plan(#[trigger] r[g], names, s, ids[g]),
    ensures
        plans_mrr(r) == sum_plan_units(s, ids),
        plans_count(r) == sum_plan_count(s, ids),
        plans_percent(r) == sum_plan_shares(s, ids),
    decreases r.len(),
{
    if r.len() > 0 {
        let n = r.len() - 1;
        assert(reports_plan(r[n], names, s, ids[n]));
        let q = r.drop_last();
        assert forall|g: int| 0 <= g < q.len() implies reports_plan(#[trigger] q[g], names, s, ids.drop_last()[g]) by {
            assert(q[g] == r[g]);
            assert(reports_plan(r[g], names, s, ids[g]));
        }
        lemma_entries_sum(q, names, s, ids.drop_last());
    }
}

/// The plan entries of the subscriptions `s` (one per distinct product, each
/// as `reports_plan` says) have distinct ids, account for every subscription
/// and the whole monthly revenue, and, when that revenue is positive, have
/// percentages over that same total that add up to exactly 100.
pub proof fn lemma_plan_entries_cover_all(r: Seq<PlanRevenue>, names: Seq<(String, String)>, s: Seq<SubscriptionRecord>)
    requires
        r.len() == plan_ids(s).len(),
        forall|g: int| 0 <= g < r.len() ==> reports_plan(#[trigger] r[g], names, s, plan_ids(s)[g]),
    ensures
        forall|i: int, j: int| 0 <= i < j < r.len() ==> r[i].plan_id@ != r[j].plan_id@,
        plans_mrr(r) == total_monthly(s),
        plans_count(r) == s.len(),
        total_monthly(s) > 0 ==> plans_percent(r) == 100 * total_monthly(s),
        total_monthly(s) > 0 ==> forall|g: int| 0 <= g < r.len() ==> (#[trigger] r[g]).percent_of_total.den == total_monthly(s),
{
    let ids = plan_ids(s);
    lemma_plan_ids_distinct(s);
    assert forall|i: int, j: int| 0 <= i < j < r.len() implies r[i].plan_id@ != r[j].plan_id@ by {
        assert(reports_plan(r[i], names, s, ids[i]));
        assert(reports_plan(r[j], names, s, ids[j]));
    }
    lemma_entries_sum(r, names, s, ids);
    lemma_plans_cover_total(s);
    if total_monthly(s) > 0 {
        lemma_shares_scale(s, ids);
        assert forall|g: int| 0 <= g < r.len() implies (#[trigger] r[g]).percent_of_total.den == total_monthly(s) by {
            assert(reports_plan(r[g], names, s, ids[g]));
        }
    }
}

} // verus!
