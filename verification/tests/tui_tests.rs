use shapeshifter::domain::{AccountProfile, AuthFile, AuthTokens, HostTarget, ManagedHost, RemoteHost};
use shapeshifter::session::{BusyOperation, Job, NoticeKind};
use shapeshifter::tui::{host_display_label, hostname_from, App, Modal, UpdateMessage};
use shapeshifter::updater::ReleaseInfo;

fn profile(id: &str, token: &str) -> AccountProfile {
    AccountProfile {
        id: id.to_string(),
        label: id.to_string(),
        source_path: format!("/m/accounts/{id}.json"),
        auth_file: AuthFile {
            openai_api_key: None,
            auth_mode: None,
            last_refresh: None,
            tokens: AuthTokens { access_token: token.to_string(), ..AuthTokens::default() },
        },
    }
}

fn local_host() -> ManagedHost {
    ManagedHost {
        id: "local".to_string(),
        label: "local".to_string(),
        target: HostTarget::Local { auth_file_path: "/a/auth.json".to_string() },
    }
}

fn remote_host(alias: &str) -> ManagedHost {
    ManagedHost {
        id: alias.to_string(),
        label: alias.to_string(),
        target: HostTarget::Remote(RemoteHost {
            ssh_alias: alias.to_string(),
            auth_file_path: ".codex/auth.json".to_string(),
            managed_data_dir: "m".to_string(),
        }),
    }
}

fn app_with(labels: &[&str]) -> App {
    let mut app = App::new();
    let profiles: Vec<AccountProfile> = labels.iter().map(|l| profile(l, &format!("t-{l}"))).collect();
    app.core.profiles = profiles.clone();
    app.core.selected_host_profiles = profiles;
    app.core.hosts = vec![local_host(), remote_host("vd")];
    app
}

#[test]
fn moves_through_profiles_with_wraparound() {
    let mut app = app_with(&["alice", "bob", "carol"]);
    assert_eq!(app.visible_profiles(), vec![0, 1, 2]);
    app.next_profile();
    assert_eq!(app.selected_profile_index, 1);
    app.next_profile();
    app.next_profile();
    assert_eq!(app.selected_profile_index, 0);
    app.prev_profile();
    assert_eq!(app.selected_profile_index, 2);
    assert_eq!(app.selected_profile().unwrap().label, "carol");
}

#[test]
fn previous_profile_undoes_next_profile() {
    let mut app = app_with(&["Alice", "bob", "ALINA", "al"]);
    for start in 0..4 {
        app.selected_profile_index = start;
        app.next_profile();
        app.prev_profile();
        assert_eq!(app.selected_profile_index, start);
        app.prev_profile();
        app.next_profile();
        assert_eq!(app.selected_profile_index, start);
    }
    app.start_search();
    app.search_push('a');
    app.search_push('l');
    assert_eq!(app.visible_profiles(), vec![0, 2, 3]);
    for start in [0, 2, 3] {
        app.selected_profile_index = start;
        app.next_profile();
        app.prev_profile();
        assert_eq!(app.selected_profile_index, start);
    }
}

#[test]
fn search_filters_case_insensitively_and_moves_selection() {
    let mut app = app_with(&["Alice", "bob", "ALINA"]);
    app.selected_profile_index = 1;
    app.start_search();
    assert!(app.search_active);
    assert_eq!(app.visible_profiles(), vec![0, 1, 2]);
    app.search_push('a');
    app.search_push('L');
    assert_eq!(app.filtered_indices, vec![0, 2]);
    assert_eq!(app.visible_profiles(), vec![0, 2]);
    assert_eq!(app.selected_profile_index, 0);
    app.next_profile();
    assert_eq!(app.selected_profile_index, 2);
    app.search_pop();
    assert_eq!(app.search_query, "a");
    assert_eq!(app.filtered_indices, vec![0, 2]);
    app.finish_search();
    assert!(!app.search_active);
    assert_eq!(app.search_query, "a");
    app.cancel_search();
    assert!(app.search_query.is_empty());
    assert!(app.filtered_indices.is_empty());
}

#[test]
fn marks_and_export_targets() {
    let mut app = app_with(&["alice", "bob", "carol"]);
    assert_eq!(app.export_targets(), vec![0]);
    app.toggle_mark();
    assert!(app.marked_profiles.contains("alice"));
    app.toggle_mark();
    assert!(!app.marked_profiles.contains("alice"));
    app.selected_profile_index = 2;
    app.toggle_mark();
    app.selected_profile_index = 1;
    app.toggle_mark();
    assert_eq!(app.export_targets(), vec![1, 2]);
    assert_eq!(app.export_label(&vec![1, 2]), "2 accounts");
    assert_eq!(app.export_label(&vec![2]), "carol");
    app.mark_all_visible();
    assert!(app.marked_profiles.contains("alice"));
    assert!(app.marked_profiles.contains("bob"));
    app.mark_all_visible();
    assert!(app.marked_profiles.is_empty());
    app.toggle_mark();
    app.clear_marks();
    assert!(app.marked_profiles.is_empty());
}

#[test]
fn host_selection_refreshes_views() {
    let mut app = app_with(&["alice"]);
    app.selected_profile_index = 0;
    assert!(app.set_selected_host_index(0, 1).is_none());
    match app.next_host(2) {
        Some(Job::InspectHost { host_index, .. }) => assert_eq!(host_index, 1),
        _ => panic!("expected inspection of the remote host"),
    }
    assert_eq!(app.core.selected_host_index, 1);
    assert_eq!(app.core.busy_operation, Some(BusyOperation::InspectHost));
    assert!(app.selected_host_is_remote());
    assert_eq!(app.selected_host_label(None), "vd *R");
    assert!(app.next_host(3).is_none());
    assert_eq!(app.core.selected_host_index, 0);
    assert_eq!(app.selected_host_label(Some("box")), "box *L");
    assert_eq!(app.selected_host_label(None), "local *L");
    app.prev_host(4);
    assert_eq!(app.core.selected_host_index, 1);
}

#[test]
fn activation_and_deletion_jobs() {
    let mut app = app_with(&["alice"]);
    match app.activate_selected_profile() {
        Some(Job::ActivateLocal { profile_id }) => assert_eq!(profile_id, "alice"),
        _ => panic!("expected local activation"),
    }
    app.core.selected_host_index = 1;
    match app.activate_selected_profile() {
        Some(Job::ActivateRemote { profile_id, host_index }) => {
            assert_eq!(profile_id, "alice");
            assert_eq!(host_index, 1);
        }
        _ => panic!("expected remote activation"),
    }
    app.delete_selected_profile();
    assert_eq!(app.modal, Some(Modal::DeleteConfirm));
    match app.confirm_delete() {
        Some(Job::DeleteProfile { profile_id }) => assert_eq!(profile_id, "alice"),
        _ => panic!("expected deletion"),
    }
    assert!(app.modal.is_none());
    assert!(app.confirm_delete().is_none());
}

#[test]
fn import_and_device_login_checks() {
    let mut app = app_with(&[]);
    app.open_import_modal();
    assert_eq!(app.modal, Some(Modal::Import));
    app.import_text = "   ".to_string();
    assert!(app.import_from_text(7).is_none());
    assert_eq!(app.core.notice.as_ref().unwrap().message, "import payload is empty");
    app.import_text = "  {\"tokens\":{}} ".to_string();
    match app.import_from_text(8) {
        Some(Job::Import { payload }) => assert_eq!(payload, "{\"tokens\":{}}"),
        _ => panic!("expected import"),
    }
    assert!(app.import_text.is_empty());
    assert!(app.finish_device_login(9).is_none());
    assert_eq!(app.core.notice.as_ref().unwrap().message, "no pending device login");
    assert!(matches!(app.login_browser(), Job::BrowserLogin));
    assert!(matches!(app.start_device_login(), Job::DeviceLoginStart));
    assert!(matches!(app.refresh_all_limits(), Job::RefreshLimits));
    assert!(matches!(app.reload_accounts(), Job::Reload { fetch_limits: false }));
    assert!(matches!(app.sync_selected_remote(), Job::SyncHost { host_index: 0 }));
}

#[test]
fn updates_and_ticks() {
    let mut app = app_with(&[]);
    app.open_update_modal();
    assert!(app.modal.is_none());
    let release = ReleaseInfo { tag: "v1".to_string(), name: "One".to_string(), download_url: None };
    app.apply_update_message(UpdateMessage::CheckResult(Some(release)), 1);
    app.open_update_modal();
    assert_eq!(app.modal, Some(Modal::UpdateConfirm));
    let r = app.confirm_update().unwrap();
    assert_eq!(r.tag, "v1");
    assert!(app.update_in_progress);
    app.apply_update_message(UpdateMessage::DownloadComplete(Err("disk full".to_string())), 2);
    assert!(!app.update_in_progress);
    let n = app.core.notice.as_ref().unwrap();
    assert_eq!(n.kind, NoticeKind::Error);
    assert_eq!(n.message, "Update failed: disk full");
    app.tick(5_001);
    assert!(app.core.notice.is_some());
    app.tick(5_002);
    assert!(app.core.notice.is_none());
    assert_eq!(app.tick, 2);
}

#[test]
fn host_labels() {
    assert_eq!(host_display_label(&local_host(), Some("devbox")), "devbox *L");
    assert_eq!(host_display_label(&remote_host("vd"), None), "vd *R");
    assert_eq!(hostname_from(Some("  devbox\n")).as_deref(), Some("devbox"));
    assert_eq!(hostname_from(Some(" \n")), None);
    assert_eq!(hostname_from(None), None);
}

use shapeshifter::tui::{card_scroll_offset, Effect, FocusArea, KeyAction, KeyInput};

fn press(app: &mut App, key: KeyInput) -> Vec<Effect> {
    let reaches = app.reaches_focus(key);
    let first = app.first_action(key);
    let mut effects = vec![app.apply_action(first, 100)];
    if reaches {
        let second = app.focus_action(key);
        effects.push(app.apply_action(second, 100));
    }
    effects
}

#[test]
fn keys_route_through_modes() {
    let mut app = app_with(&["alice", "bob"]);
    assert_eq!(app.first_action(KeyInput::CtrlC), KeyAction::Quit);
    assert_eq!(app.first_action(KeyInput::Char('q')), KeyAction::Quit);
    assert!(!app.reaches_focus(KeyInput::Char('q')));
    assert_eq!(app.first_action(KeyInput::Char('j')), KeyAction::Nothing);
    assert_eq!(app.focus_action(KeyInput::Char('j')), KeyAction::NextProfile);
    press(&mut app, KeyInput::Char('j'));
    assert_eq!(app.selected_profile_index, 1);
    press(&mut app, KeyInput::Char('/'));
    assert!(app.search_active);
    assert_eq!(app.first_action(KeyInput::Char('q')), KeyAction::SearchPush('q'));
    press(&mut app, KeyInput::Esc);
    assert!(!app.search_active);
    press(&mut app, KeyInput::Tab);
    assert_eq!(app.focus, FocusArea::ActionBar);
    press(&mut app, KeyInput::Right);
    assert_eq!(app.action_bar_index, 1);
    press(&mut app, KeyInput::Right);
    press(&mut app, KeyInput::Right);
    assert_eq!(app.action_bar_index, 2);
    let effects = press(&mut app, KeyInput::Enter);
    assert!(matches!(effects[1], Effect::Nothing));
    assert_eq!(app.modal, Some(Modal::DeleteConfirm));
    let effects = press(&mut app, KeyInput::Enter);
    assert!(matches!(effects[0], Effect::Run(Job::DeleteProfile { .. })));
    press(&mut app, KeyInput::Char('?'));
    assert_eq!(app.modal, Some(Modal::Help));
    press(&mut app, KeyInput::Enter);
    assert!(app.modal.is_none());
    press(&mut app, KeyInput::Char('H'));
    assert!(app.host_selector_open);
    assert_eq!(app.focus, FocusArea::HostSelector);
    assert_eq!(app.first_action(KeyInput::Char('j')), KeyAction::NextHost);
    press(&mut app, KeyInput::Esc);
    assert!(!app.host_selector_open);
    assert_eq!(app.first_action(KeyInput::Char('s')), KeyAction::SyncRemote);
    assert_eq!(app.first_action(KeyInput::Char('u')), KeyAction::OpenUpdate);
}

#[test]
fn export_and_marks_by_key() {
    let mut app = app_with(&["alice", "bob"]);
    let effects = press(&mut app, KeyInput::Char('e'));
    assert!(matches!(effects[1], Effect::Export));
    press(&mut app, KeyInput::Char('x'));
    assert!(app.marked_profiles.contains("alice"));
    assert_eq!(app.selected_profile_index, 1);
    press(&mut app, KeyInput::Char('X'));
    assert!(app.marked_profiles.contains("bob"));
    press(&mut app, KeyInput::Esc);
    assert!(app.marked_profiles.is_empty());
    let effects = press(&mut app, KeyInput::Char(' '));
    assert!(matches!(effects[1], Effect::Run(Job::ActivateLocal { .. })));
}

#[test]
fn scroll_keeps_the_selected_card_visible() {
    assert_eq!(card_scroll_offset(0, 3), 0);
    assert_eq!(card_scroll_offset(2, 3), 0);
    assert_eq!(card_scroll_offset(5, 3), 3);
    assert_eq!(card_scroll_offset(4, 0), 0);
}
