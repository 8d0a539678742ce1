use pulse::events::{summarize_event, EventObject};
use pulse::vendors::{count_new_users, is_after, summarize_deployments, Deployment};

fn object() -> EventObject {
    EventObject {
        amount_paid: Some(1000),
        amount_due: Some(2000),
        amount: Some(3000),
        customer_email: Some("a@example.com".to_string()),
        billing_email: Some("b@example.com".to_string()),
        currency: Some("usd".to_string()),
        price_nickname: None,
        price_product: Some("prod_1".to_string()),
    }
}

#[test]
fn event_summaries() {
    let e = summarize_event("ev1".to_string(), "invoice.paid".to_string(), 5, &object());
    assert_eq!(e.description, "Invoice paid for a@example.com");
    assert_eq!(e.amount, Some(1000));
    assert_eq!(e.currency.as_deref(), Some("usd"));
    assert_eq!(e.id, "ev1");
    assert_eq!(e.created, 5);

    let e = summarize_event("ev2".to_string(), "invoice.payment_failed".to_string(), 5, &object());
    assert_eq!(e.description, "Payment failed for a@example.com");
    assert_eq!(e.amount, Some(2000));
    assert_eq!(e.currency, None);

    let e = summarize_event("ev3".to_string(), "charge.succeeded".to_string(), 5, &object());
    assert_eq!(e.description, "Payment received from b@example.com");
    assert_eq!(e.amount, Some(3000));

    let anonymous = EventObject { billing_email: None, ..object() };
    let e = summarize_event("ev4".to_string(), "charge.succeeded".to_string(), 5, &anonymous);
    assert_eq!(e.description, "Payment received from customer");

    let e = summarize_event("ev5".to_string(), "customer.subscription.created".to_string(), 5, &object());
    assert_eq!(e.description, "New subscription created");
    assert_eq!(e.plan_name.as_deref(), Some("prod_1"));
    assert_eq!(e.amount, None);

    let e = summarize_event("ev6".to_string(), "customer.subscription.deleted".to_string(), 5, &object());
    assert_eq!(e.description, "Subscription canceled");

    let e = summarize_event("ev7".to_string(), "payout.paid".to_string(), 5, &object());
    assert_eq!(e.description, "payout.paid");
    assert_eq!(e.customer_email, None);
}

fn deployment(id: &str, state: &str) -> Option<Deployment> {
    Some(Deployment {
        id: id.to_string(),
        name: "web".to_string(),
        state: state.to_string(),
        created_at: format!("{}-time", id),
        url: String::new(),
    })
}

#[test]
fn deployment_summaries() {
    let listing = vec![
        None,
        deployment("d1", "READY"),
        deployment("d2", "ERROR"),
        deployment("d3", "READY"),
        deployment("d4", "READY"),
        deployment("d5", "READY"),
    ];
    let m = summarize_deployments(&listing);
    assert_eq!(m.deployments.len(), 4);
    assert_eq!(m.status, "READY");
    assert_eq!(m.last_deployed_at.as_deref(), Some("d1-time"));
    assert_eq!(m.deployments[3].id, "d4");

    let empty = summarize_deployments(&vec![None]);
    assert!(empty.deployments.is_empty());
    assert_eq!(empty.status, "unknown");
    assert_eq!(empty.last_deployed_at, None);
}

#[test]
fn new_users_after_cutoff() {
    let created = vec![
        Some("2024-01-10T00:00:00Z".to_string()),
        Some("2024-01-01T00:00:00.5+00:00".to_string()),
        Some("2024-01-01T00:00:00Z".to_string()),
        Some("not a date".to_string()),
        None,
        Some("2024-01-01T02:00:00+03:00".to_string()),
    ];
    // cutoff: 2024-01-01T00:00:00Z
    let cutoff = 1_704_067_200;
    assert_eq!(count_new_users(&created, cutoff, 0), 2);
    assert_eq!(count_new_users(&created, cutoff - 1, 0), 3);
    assert!(is_after(Some((cutoff, 1)), cutoff, 0));
    assert!(!is_after(Some((cutoff, 0)), cutoff, 0));
    assert!(!is_after(None, cutoff, 0));
}
