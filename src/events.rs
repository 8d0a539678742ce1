//! The recent billing events shown beside the metrics.
use crate::text::copy_text;
use vstd::prelude::*;
use vstd::string::StringExecFns;

verus! {

/// The fields of a billing event's object that an event summary may use.
#[derive(Clone, Debug)]
pub struct EventObject {
    pub amount_paid: Option<i64>,
    pub amount_due: Option<i64>,
    pub amount: Option<i64>,
    pub customer_email: Option<String>,
    /// The billing email of a charge.
    pub billing_email: Option<String>,
    pub currency: Option<String>,
    /// The nickname of the first item's price, for a subscription.
    pub price_nickname: Option<String>,
    /// The product of the first item's price, for a subscription.
    pub price_product: Option<String>,
}

/// A billing event, summarised for display.
#[derive(Clone, Debug)]
pub struct StripeEvent {
    pub id: String,
    pub event_type: String,
    /// When the event happened, in seconds since the Unix epoch.
    pub created: i64,
    pub description: String,
    /// The amount involved, in minor units.
    pub amount: Option<i64>,
    pub customer_email: Option<String>,
    pub plan_name: Option<String>,
    pub currency: Option<String>,
}

/// `prefix` followed by the email, or by `customer` when there is none.
pub open spec fn addressed(prefix: Seq<char>, email: Option<String>) -> Seq<char> {
    prefix + match email {
        Some(e) => e@,
        None => "customer"@,
    }
}

/// The summary of an event of type `t` with object `o`: its description,
/// amount, customer email, plan name and currency.
pub open spec fn summary_of(t: Seq<char>, o: EventObject) -> (
    Seq<char>,
    Option<i64>,
    Option<String>,
    Option<String>,
    Option<String>,
) {
    if t == "invoice.paid"@ {
        (addressed("Invoice paid for "@, o.customer_email), o.amount_paid, o.customer_email, None, o.currency)
    } else if t == "invoice.payment_failed"@ {
        (addressed("Payment failed for "@, o.customer_email), o.amount_due, o.customer_email, None, None)
    } else if t == "customer.subscription.created"@ {
        (
            "New subscription created"@,
            None,
            None,
            if o.price_nickname is Some {
                o.price_nickname
            } else {
                o.price_product
            },
            None,
        )
    } else if t == "customer.subscription.deleted"@ {
        ("Subscription canceled"@, None, None, None, None)
    } else if t == "charge.succeeded"@ {
        (addressed("Payment received from "@, o.billing_email), o.amount, o.billing_email, None, o.currency)
    } else {
        (t, None, None, None, None)
    }
}

fn address(prefix: &str, email: &Option<String>) -> (r: String)
    ensures
        r@ == addressed(prefix@, *email),
{
    let mut r = String::from_str(prefix);
    match email {
        Some(e) => r.append(e.as_str()),
        None => r.append("customer"),
    }
    r
}

/// Summarises the event `id` of type `event_type`, created at `created`, whose
/// object is `o`.
pub fn summarize_event(id: String, event_type: String, created: i64, o: &EventObject) -> (e: StripeEvent)
    ensures
        e.id == id,
        e.event_type == event_type,
        e.created == created,
        ({
            let s = summary_of(event_type@, *o);
            &&& e.description@ == s.0
            &&& e.amount == s.1
            &&& e.customer_email == s.2
            &&& e.plan_name == s.3
            &&& e.currency == s.4
        }),
{
    let (description, amount, customer_email, plan_name, currency) = if event_type == String::from_str(
        "invoice.paid",
    ) {
        (
            address("Invoice paid for ", &o.customer_email),
            o.amount_paid,
            copy_text(&o.customer_email),
            None,
            copy_text(&o.currency),
        )
    } else if event_type == String::from_str("invoice.payment_failed") {
        (
            address("Payment failed for ", &o.customer_email),
            o.amount_due,
            copy_text(&o.customer_email),
            None,
            None,
        )
    } else if event_type == String::from_str("customer.subscription.created") {
        let plan = match &o.price_nickname {
            Some(n) => Some(n.clone()),
            None => copy_text(&o.price_product),
        };
        (String::from_str("New subscription created"), None, None, plan, None)
    } else if event_type == String::from_str("customer.subscription.deleted") {
        (String::from_str("Subscription canceled"), None, None, None, None)
    } else if event_type == String::from_str("charge.succeeded") {
        (
            address("Payment received from ", &o.billing_email),
            o.amount,
            copy_text(&o.billing_email),
            None,
            copy_text(&o.currency),
        )
    } else {
        (event_type.clone(), None, None, None, None)
    };
    StripeEvent { id, event_type, created, description, amount, customer_email, plan_name, currency }
}

} // verus!
