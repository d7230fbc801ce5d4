use shapeshifter::domain::{AuthTokens, ChatgptPlanType, OAuthSession};
use shapeshifter::limits::{
    map_plan, map_usage_payload, map_window, normalize_base_url, window_label,
    AdditionalUsageLimit, CodexLimitsClient, LimitsError, UsagePayload, UsageRateLimitDetails,
    UsageWindow,
};

fn window(percent: f64, seconds: Option<i64>, reset_at: i64) -> UsageWindow {
    UsageWindow { used_percent_bits: percent.to_bits(), limit_window_seconds: seconds, reset_at }
}

#[test]
fn maps_plans() {
    assert_eq!(map_plan(Some("free")), ChatgptPlanType::Free);
    assert_eq!(map_plan(Some("plus")), ChatgptPlanType::Plus);
    assert_eq!(map_plan(Some("pro")), ChatgptPlanType::Pro);
    assert_eq!(map_plan(Some("team")), ChatgptPlanType::Team);
    assert_eq!(map_plan(Some("enterprise")), ChatgptPlanType::Enterprise);
    assert_eq!(map_plan(Some("Team")), ChatgptPlanType::Unknown);
    assert_eq!(map_plan(None), ChatgptPlanType::Unknown);
}

#[test]
fn labels_windows() {
    assert_eq!(window_label(Some(18_000)), "5h");
    assert_eq!(window_label(Some(604_800)), "weekly");
    assert_eq!(window_label(Some(3_600)), "60m");
    assert_eq!(window_label(Some(119)), "1m");
    assert_eq!(window_label(Some(-90)), "-1m");
    assert_eq!(window_label(Some(i64::MIN)), format!("{}m", i64::MIN / 60));
    assert_eq!(window_label(None), "window");
}

#[test]
fn maps_windows_with_reset_instants() {
    let w = map_window(&window(13.5, Some(18_000), 1_776_330_882));
    assert_eq!(w.label, "5h");
    assert_eq!(f64::from_bits(w.used_percent_bits), 13.5);
    assert_eq!(w.limit_window_seconds, Some(18_000));
    assert_eq!(w.resets_at, Some(1_776_330_882));
    let far = map_window(&window(0.0, None, i64::MAX));
    assert_eq!(far.resets_at, None);
}

#[test]
fn fetched_shape_maps_to_snapshots() {
    let payload = UsagePayload {
        account_id: Some("acct-1".to_string()),
        email: Some("user@example.com".to_string()),
        plan_type: Some("team".to_string()),
        rate_limit: Some(UsageRateLimitDetails {
            primary_window: Some(window(13.0, Some(18_000), 1_776_330_882)),
            secondary_window: Some(window(75.0, Some(604_800), 1_776_719_679)),
        }),
        additional_rate_limits: None,
    };
    let limits = map_usage_payload(payload);
    assert_eq!(limits.plan_type, ChatgptPlanType::Team);
    assert_eq!(limits.primary_limit.limit_id, "codex");
    assert_eq!(limits.primary_limit.limit_name, None);
    assert_eq!(limits.primary_limit.primary.as_ref().unwrap().label, "5h");
    assert_eq!(limits.primary_limit.secondary.as_ref().unwrap().label, "weekly");
    assert_eq!(limits.email.as_deref(), Some("user@example.com"));
    assert_eq!(limits.account_id.as_deref(), Some("acct-1"));
    assert!(limits.additional_limits.is_empty());
}

#[test]
fn additional_limits_keep_their_order_and_plan() {
    let payload = UsagePayload {
        account_id: None,
        email: None,
        plan_type: Some("pro".to_string()),
        rate_limit: None,
        additional_rate_limits: Some(vec![
            AdditionalUsageLimit {
                metered_feature: "review".to_string(),
                limit_name: "Code review".to_string(),
                rate_limit: Some(UsageRateLimitDetails {
                    primary_window: Some(window(1.0, Some(600), 0)),
                    secondary_window: None,
                }),
            },
            AdditionalUsageLimit {
                metered_feature: "cloud".to_string(),
                limit_name: "Cloud".to_string(),
                rate_limit: None,
            },
        ]),
    };
    let limits = map_usage_payload(payload);
    assert!(limits.primary_limit.primary.is_none());
    assert_eq!(limits.additional_limits.len(), 2);
    assert_eq!(limits.additional_limits[0].limit_id, "review");
    assert_eq!(limits.additional_limits[0].limit_name.as_deref(), Some("Code review"));
    assert_eq!(limits.additional_limits[0].plan_type, ChatgptPlanType::Pro);
    assert_eq!(limits.additional_limits[0].primary.as_ref().unwrap().label, "10m");
    assert_eq!(limits.additional_limits[1].limit_id, "cloud");
    assert!(limits.additional_limits[1].primary.is_none());
}

#[test]
fn normalizes_base_urls() {
    assert_eq!(normalize_base_url("https://chatgpt.com".to_string()), "https://chatgpt.com/backend-api");
    assert_eq!(normalize_base_url("https://chatgpt.com///".to_string()), "https://chatgpt.com/backend-api");
    assert_eq!(
        normalize_base_url("https://chat.openai.com/".to_string()),
        "https://chat.openai.com/backend-api"
    );
    assert_eq!(
        normalize_base_url("http://127.0.0.1:9/backend-api/".to_string()),
        "http://127.0.0.1:9/backend-api"
    );
    assert_eq!(normalize_base_url("http://example.test/".to_string()), "http://example.test");
    let once = normalize_base_url("https://chatgpt.com/".to_string());
    assert_eq!(normalize_base_url(once.clone()), once);
}

#[test]
fn usage_url_and_headers() {
    let client = CodexLimitsClient::new("https://chatgpt.com".to_string());
    assert_eq!(client.usage_url(), "https://chatgpt.com/backend-api/codex/usage");
    let mut session = OAuthSession {
        issuer: "https://auth.openai.com".to_string(),
        client_id: "client".to_string(),
        email: None,
        chatgpt_account_id: Some("acct-1".to_string()),
        plan: ChatgptPlanType::Unknown,
        tokens: AuthTokens { access_token: "token".to_string(), ..AuthTokens::default() },
    };
    let headers = client.headers(&session).unwrap();
    assert_eq!(
        headers,
        vec![
            ("user-agent".to_string(), "codex_cli_rs/0.120.0 shapeshifter".to_string()),
            ("originator".to_string(), "codex_cli_rs".to_string()),
            ("authorization".to_string(), "Bearer token".to_string()),
            ("chatgpt-account-id".to_string(), "acct-1".to_string()),
        ]
    );
    session.chatgpt_account_id = Some("bad\nid".to_string());
    assert_eq!(client.headers(&session), Err(LimitsError::InvalidAccountIdHeader));
    session.chatgpt_account_id = None;
    assert_eq!(client.headers(&session).unwrap().len(), 3);
    session.tokens.access_token = "to\u{7f}ken".to_string();
    assert_eq!(client.headers(&session), Err(LimitsError::InvalidAccessTokenHeader));
    assert_eq!(LimitsError::InvalidAccessTokenHeader.message(), "invalid access token header");
    assert_eq!(LimitsError::InvalidAccountIdHeader.message(), "invalid account id header");
}
