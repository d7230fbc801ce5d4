use shapeshifter::auth::DeviceCodePrompt;
use shapeshifter::domain::{
    AccountProfile, AuthFile, AuthTokens, ChatgptPlanType, HostTarget, LimitsSnapshot,
    LimitsSnapshotSet, ManagedHost, OAuthSession, RemoteHost,
};
use shapeshifter::host_ops::RemoteHostSnapshot;
use shapeshifter::session::{
    default_profile_name, find_local_host, find_profile, import_message, named_message,
    needs_auto_import, AppSnapshot, BusyOperation, Job, LimitsCache, MarkSet, NoticeKind,
    OperationNotice, SessionCore, WorkerMessage,
};

pub fn auth(token: &str) -> AuthFile {
    AuthFile {
        openai_api_key: None,
        auth_mode: Some("chatgpt".to_string()),
        last_refresh: None,
        tokens: AuthTokens { access_token: token.to_string(), ..AuthTokens::default() },
    }
}

pub fn profile(id: &str, token: &str) -> AccountProfile {
    AccountProfile {
        id: id.to_string(),
        label: id.to_string(),
        source_path: format!("/m/accounts/{id}.json"),
        auth_file: auth(token),
    }
}

pub fn local_host() -> ManagedHost {
    ManagedHost {
        id: "local".to_string(),
        label: "local".to_string(),
        target: HostTarget::Local { auth_file_path: "/a/auth.json".to_string() },
    }
}

pub fn remote_host(alias: &str) -> ManagedHost {
    ManagedHost {
        id: alias.to_string(),
        label: alias.to_string(),
        target: HostTarget::Remote(RemoteHost {
            ssh_alias: alias.to_string(),
            auth_file_path: ".codex/auth.json".to_string(),
            managed_data_dir: "m".to_string(),
        }),
    }
}

fn limits(email: &str) -> LimitsSnapshotSet {
    LimitsSnapshotSet {
        email: Some(email.to_string()),
        account_id: None,
        plan_type: ChatgptPlanType::Plus,
        primary_limit: LimitsSnapshot {
            limit_id: "codex".to_string(),
            limit_name: None,
            plan_type: ChatgptPlanType::Plus,
            primary: None,
            secondary: None,
        },
        additional_limits: vec![],
    }
}

fn notice(msg: &str) -> OperationNotice {
    OperationNotice::new(NoticeKind::Success, msg.to_string(), 10)
}

fn snapshot(profiles: Vec<AccountProfile>, hosts: Vec<ManagedHost>, cache: LimitsCache) -> AppSnapshot {
    AppSnapshot {
        current_auth: Some(auth("t-bob")),
        current_session: None,
        profiles,
        hosts,
        limits_by_profile: cache,
    }
}

#[test]
fn limits_cache_get_after_insert() {
    let mut cache = LimitsCache::new();
    assert!(cache.is_empty());
    cache.insert("alice".to_string(), limits("a@x"));
    cache.insert("bob".to_string(), limits("b@x"));
    cache.insert("alice".to_string(), limits("a2@x"));
    assert_eq!(cache.get("alice").unwrap().email.as_deref(), Some("a2@x"));
    assert_eq!(cache.get("bob").unwrap().email.as_deref(), Some("b@x"));
    assert!(cache.get("carol").is_none());
    cache.retain_ids(&vec!["bob".to_string()]);
    assert!(cache.get("alice").is_none());
    assert_eq!(cache.get("bob").unwrap().email.as_deref(), Some("b@x"));
    assert!(!cache.is_empty());
}

#[test]
fn mark_set_operations() {
    let mut marks = MarkSet::new();
    assert!(marks.is_empty());
    marks.insert("a".to_string());
    marks.insert("a".to_string());
    assert!(marks.contains("a"));
    assert!(!marks.remove("b"));
    assert!(marks.remove("a"));
    assert!(!marks.contains("a"));
    assert!(marks.is_empty());
    marks.insert("c".to_string());
    marks.clear();
    assert!(marks.is_empty());
}

#[test]
fn profile_names_and_messages() {
    let mut session = OAuthSession {
        issuer: "i".to_string(),
        client_id: "c".to_string(),
        email: Some("e@x".to_string()),
        chatgpt_account_id: None,
        plan: ChatgptPlanType::Unknown,
        tokens: AuthTokens::default(),
    };
    let mut file = auth("t");
    assert_eq!(default_profile_name(&session, &file), "e@x");
    session.email = None;
    file.tokens.account_id = Some("acct".to_string());
    assert_eq!(default_profile_name(&session, &file), "acct");
    file.tokens.account_id = None;
    assert_eq!(default_profile_name(&session, &file), "new-account");

    assert_eq!(import_message(&vec!["alice".to_string()]), "Imported account `alice`.");
    assert_eq!(import_message(&vec!["a".to_string(), "b".to_string()]), "Imported 2 accounts.");
    assert_eq!(named_message("Synced to ", "vd", "."), "Synced to `vd`.");
}

#[test]
fn auto_import_needs_an_unsaved_nonempty_token() {
    let profiles = vec![profile("alice", "t-alice")];
    assert!(!needs_auto_import(&profiles, &auth("t-alice")));
    assert!(needs_auto_import(&profiles, &auth("t-new")));
    assert!(!needs_auto_import(&profiles, &auth("")));
}

#[test]
fn finds_profiles_and_local_hosts() {
    let profiles = vec![profile("alice", "1"), profile("bob", "2")];
    assert_eq!(find_profile(&profiles, "bob"), Some(1));
    assert_eq!(find_profile(&profiles, "carol"), None);
    assert_eq!(find_local_host(&vec![remote_host("vd"), local_host()]), Some(1));
    assert_eq!(find_local_host(&vec![remote_host("vd")]), None);
    assert_eq!(BusyOperation::InspectHost.label(), "Loading host");
    assert_eq!(BusyOperation::RefreshLimits.label(), "Refreshing limits");
}

#[test]
fn reload_keeps_selected_host_and_prunes_limits() {
    let mut core = SessionCore::new();
    core.hosts = vec![local_host(), remote_host("vd")];
    core.selected_host_index = 1;
    core.limits_by_profile.insert("gone".to_string(), limits("g@x"));
    core.limits_by_profile.insert("alice".to_string(), limits("a@x"));
    let snap = snapshot(
        vec![profile("alice", "t-alice"), profile("bob", "t-bob")],
        vec![remote_host("vd"), local_host()],
        LimitsCache::new(),
    );
    core.apply_snapshot(snap);
    assert_eq!(core.selected_host_index, 0);
    assert!(core.limits_by_profile.get("gone").is_none());
    assert_eq!(core.limits_by_profile.get("alice").unwrap().email.as_deref(), Some("a@x"));
    assert!(core.selected_host_profiles.is_empty());

    let snap = snapshot(vec![profile("bob", "t-bob")], vec![local_host()], LimitsCache::new());
    core.apply_snapshot(snap);
    assert_eq!(core.selected_host_index, 0);
    assert_eq!(core.selected_host_profiles.len(), 1);
    assert_eq!(core.active_profile_label(), "bob");
    assert!(core.limits_by_profile.get("alice").is_none());
}

#[test]
fn worker_messages_update_the_state() {
    let mut core = SessionCore::new();
    let job = core.run_background(Job::RefreshLimits);
    assert!(matches!(job, Job::RefreshLimits));
    assert_eq!(core.busy_operation, Some(BusyOperation::RefreshLimits));

    let snap = snapshot(vec![profile("bob", "t-bob")], vec![local_host(), remote_host("vd")], LimitsCache::new());
    let next = core.apply_worker_message(WorkerMessage::Snapshot { snapshot: snap, notice: notice("Refreshed limits.") }, 20);
    assert!(next.is_none());
    assert_eq!(core.busy_operation, None);
    assert_eq!(core.notice.as_ref().unwrap().message, "Refreshed limits.");

    let next = core.apply_worker_message(
        WorkerMessage::ProfileLimits { profile_id: "bob".to_string(), limits: limits("b@x"), notice: notice("ok") },
        30,
    );
    assert!(next.is_none());
    assert_eq!(core.profile_limits("bob").unwrap().email.as_deref(), Some("b@x"));

    let snap = snapshot(vec![profile("bob", "t-bob")], vec![local_host()], LimitsCache::new());
    match core.apply_worker_message(WorkerMessage::ActivatedLocal { snapshot: snap, profile_id: "bob".to_string() }, 40) {
        Some(Job::RefreshProfileLimits { profile_id, success_message }) => {
            assert_eq!(profile_id, "bob");
            assert_eq!(success_message, "Activated account and refreshed limits.");
        }
        _ => panic!("expected a limits refresh"),
    }
    assert_eq!(core.busy_operation, Some(BusyOperation::RefreshLimits));
    assert!(core.notice.is_none());

    core.hosts = vec![local_host(), remote_host("vd")];
    core.selected_host_index = 1;
    core.apply_worker_message(
        WorkerMessage::HostInspection {
            host_index: 1,
            snapshot: RemoteHostSnapshot { profiles: vec![profile("r", "t-r")], active_auth: auth("t-r") },
            notice: None,
        },
        50,
    );
    assert_eq!(core.selected_host_profiles.len(), 1);
    assert!(core.is_profile_active(&profile("r", "t-r")));
    assert_eq!(core.active_profile_label(), "r");

    let prompt = DeviceCodePrompt {
        verification_url: "u".to_string(),
        user_code: "c".to_string(),
        device_auth_id: "d".to_string(),
        interval_seconds: 5,
    };
    core.apply_worker_message(WorkerMessage::DevicePrompt { prompt, notice: notice("Visit") }, 60);
    assert_eq!(core.device_prompt.as_ref().unwrap().user_code, "c");

    core.apply_worker_message(WorkerMessage::Disconnected, 70);
    let n = core.notice.as_ref().unwrap();
    assert_eq!(n.kind, NoticeKind::Error);
    assert_eq!(n.message, "background worker disconnected");
    assert_eq!(n.created_at, 70);
}

#[test]
fn snapshot_on_remote_host_starts_inspection() {
    let mut core = SessionCore::new();
    core.hosts = vec![local_host(), remote_host("vd")];
    core.selected_host_index = 1;
    let snap = snapshot(vec![], vec![local_host(), remote_host("vd")], LimitsCache::new());
    match core.apply_worker_message(WorkerMessage::Snapshot { snapshot: snap, notice: notice("n") }, 5) {
        Some(Job::InspectHost { host_index, host_label, show_notice, .. }) => {
            assert_eq!(host_index, 1);
            assert_eq!(host_label, "vd");
            assert!(!show_notice);
        }
        _ => panic!("expected an inspection"),
    }
    assert_eq!(core.busy_operation, Some(BusyOperation::InspectHost));
    assert!(core.notice.is_none());
}

#[test]
fn notices_expire() {
    let mut core = SessionCore::new();
    core.notice = Some(notice("x"));
    core.expire_notice(14, 5);
    assert!(core.notice.is_some());
    core.expire_notice(15, 5);
    assert!(core.notice.is_none());
    assert!(notice("y").expired(1_000, 5));
    assert!(!notice("y").expired(5, 5));
}
