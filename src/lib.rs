//! Revenue metrics for a subscription business and a bounded daily history
//! of those metrics per app.

pub mod calendar;
pub mod charges;
pub mod events;
pub mod history;
pub mod integrations;
pub mod metrics;
pub mod paths;
pub mod rates;
pub mod ratio;
pub mod revenue;
pub mod text;
pub mod vendors;
