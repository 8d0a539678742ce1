use pulse::integrations::{fetch_request, FetchRequest, Integration};
use pulse::paths::{get_history_path, get_pulse_dir, get_settings_path};

fn integration(kind: &str, key: Option<&str>, project: Option<&str>, enabled: bool) -> Integration {
    Integration {
        integration_type: kind.to_string(),
        api_key: key.map(|s| s.to_string()),
        project_id: project.map(|s| s.to_string()),
        team_id: None,
        enabled,
        platform: None,
    }
}

#[test]
fn paths_under_data_dir() {
    let dir = get_pulse_dir("/home/u");
    assert_eq!(dir, "/home/u/.pulse");
    assert_eq!(get_settings_path(&dir), "/home/u/.pulse/settings.json");
    assert_eq!(get_history_path(&dir, "app1"), "/home/u/.pulse/history/app1.json");
}

#[test]
fn fetch_requests_by_vendor() {
    match fetch_request(&integration("stripe", Some("sk"), None, true)) {
        Some(FetchRequest::Stripe { api_key }) => assert_eq!(api_key, "sk"),
        other => panic!("unexpected {:?}", other),
    }
    assert!(fetch_request(&integration("stripe", None, None, true)).is_none());
    assert!(fetch_request(&integration("stripe", Some("sk"), None, false)).is_none());
    assert!(fetch_request(&integration("vercel", Some("k"), None, true)).is_none());
    match fetch_request(&integration("vercel", Some("k"), Some("p"), true)) {
        Some(FetchRequest::Vercel { api_key, project_id, team_id }) => {
            assert_eq!(api_key, "k");
            assert_eq!(project_id, "p");
            assert!(team_id.is_none());
        }
        other => panic!("unexpected {:?}", other),
    }
    assert!(matches!(
        fetch_request(&integration("posthog", Some("k"), Some("p"), true)),
        Some(FetchRequest::PostHog { .. })
    ));
    assert!(matches!(
        fetch_request(&integration("supabase", Some("k"), Some("p"), true)),
        Some(FetchRequest::Supabase { .. })
    ));
    assert!(fetch_request(&integration("github", Some("k"), Some("p"), true)).is_none());
}
