//! Which vendor fetch an app's integration asks for.
use crate::text::copy_text;
use vstd::prelude::*;
use vstd::string::StringExecFns;

verus! {

/// One vendor integration configured on an app.
#[derive(Clone, Debug)]
pub struct Integration {
    /// The vendor: `stripe`, `vercel`, `posthog` or `supabase`.
    pub integration_type: String,
    pub api_key: Option<String>,
    pub project_id: Option<String>,
    pub team_id: Option<String>,
    pub enabled: bool,
    /// The platform of the app that the integration belongs to.
    pub platform: Option<String>,
}

/// A metrics fetch from one vendor, with the credentials that it needs.
#[derive(Clone, Debug)]
pub enum FetchRequest {
    Stripe { api_key: String },
    Vercel { api_key: String, project_id: String, team_id: Option<String> },
    PostHog { api_key: String, project_id: String },
    Supabase { api_key: String, project_id: String },
}

/// The fetch that integration `i` asks for: none when it is disabled, of an
/// unknown vendor, or lacks its API key or (but for billing) its project.
pub open spec fn requested(i: Integration) -> Option<FetchRequest> {
    if !i.enabled {
        None
    } else if i.integration_type@ == "stripe"@ {
        match i.api_key {
            Some(k) => Some(FetchRequest::Stripe { api_key: k }),
            None => None,
        }
    } else if i.api_key is None || i.project_id is None {
        None
    } else if i.integration_type@ == "vercel"@ {
        Some(
            FetchRequest::Vercel {
                api_key: i.api_key->0,
                project_id: i.project_id->0,
                team_id: i.team_id,
            },
        )
    } else if i.integration_type@ == "posthog"@ {
        Some(FetchRequest::PostHog { api_key: i.api_key->0, project_id: i.project_id->0 })
    } else if i.integration_type@ == "supabase"@ {
        Some(FetchRequest::Supabase { api_key: i.api_key->0, project_id: i.project_id->0 })
    } else {
        None
    }
}

/// The fetch that integration `i` asks for.
pub fn fetch_request(i: &Integration) -> (r: Option<FetchRequest>)
    ensures
        r == requested(*i),
{
    if !i.enabled {
        return None;
    }
    if i.integration_type == String::from_str("stripe") {
        return match &i.api_key {
            Some(k) => Some(FetchRequest::Stripe { api_key: k.clone() }),
            None => None,
        };
    }
    let (api_key, project_id) = match (&i.api_key, &i.project_id) {
        (Some(k), Some(p)) => (k.clone(), p.clone()),
        _ => {
            return None;
        },
    };
    if i.integration_type == String::from_str("vercel") {
        Some(FetchRequest::Vercel { api_key, project_id, team_id: copy_text(&i.team_id) })
    } else if i.integration_type == String::from_str("posthog") {
        Some(FetchRequest::PostHog { api_key, project_id })
    } else if i.integration_type == String::from_str("supabase") {
        Some(FetchRequest::Supabase { api_key, project_id })
    } else {
        None
    }
}

} // verus!
