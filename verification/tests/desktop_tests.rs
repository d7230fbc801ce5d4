use shapeshifter::desktop::{host_display_label, AppState};
use shapeshifter::domain::{AccountProfile, AuthFile, HostTarget, ManagedHost, RemoteHost};
use shapeshifter::session::{BusyOperation, Job};

fn local_host(id: &str) -> ManagedHost {
    ManagedHost {
        id: id.to_string(),
        label: id.to_string(),
        target: HostTarget::Local { auth_file_path: "/a/auth.json".to_string() },
    }
}

fn remote_host(alias: &str) -> ManagedHost {
    ManagedHost {
        id: alias.to_string(),
        label: alias.to_string(),
        target: HostTarget::Remote(RemoteHost {
            ssh_alias: alias.to_string(),
            auth_file_path: ".codex/auth.json".to_string(),
            managed_data_dir: "m".to_string(),
        }),
    }
}

#[test]
fn load_starts_a_refresh() {
    let (state, job) = AppState::load();
    assert!(matches!(job, Job::RefreshLimits));
    assert!(state.is_busy(BusyOperation::RefreshLimits));
    assert!(!state.is_busy(BusyOperation::SyncHost));
}

#[test]
fn host_choices_skip_repeated_ids() {
    let (mut state, _) = AppState::load();
    state.core.hosts = vec![local_host("local"), remote_host("vd"), remote_host("vd"), remote_host("neo")];
    assert_eq!(
        state.host_choices(),
        vec![(0, "local".to_string()), (1, "vd".to_string()), (3, "neo".to_string())]
    );
    assert_eq!(state.selected_remote_host_label(), "local");
    state.core.selected_host_index = 9;
    assert_eq!(state.selected_remote_host_label(), "none");
    assert_eq!(host_display_label(&remote_host("box")), "box");
}

#[test]
fn dialogs_and_jobs() {
    let (mut state, _) = AppState::load();
    state.core.profiles = vec![AccountProfile {
        id: "alice".to_string(),
        label: "Alice".to_string(),
        source_path: "/m/accounts/alice.json".to_string(),
        auth_file: AuthFile::default(),
    }];
    assert_eq!(state.open_export_profile("alice", 1), Some(0));
    assert_eq!(state.open_export_profile("bob", 2), None);
    assert_eq!(state.core.notice.as_ref().unwrap().message, "profile not found");
    state.show_export("Alice".to_string(), "{}".to_string());
    assert_eq!(state.export_profile_label.as_deref(), Some("Alice"));
    state.close_export_modal();
    assert!(state.export_profile_label.is_none());
    assert!(state.export_text.is_empty());

    state.open_import_modal();
    assert!(state.import_modal_open);
    state.import_text = "{}".to_string();
    assert!(matches!(state.import_profile_from_text(3), Some(Job::Import { .. })));
    assert!(!state.import_modal_open);
    state.close_import_modal();

    assert!(state.confirm_delete_profile(4).is_none());
    assert_eq!(state.core.notice.as_ref().unwrap().message, "no profile selected for deletion");
    state.prompt_delete_profile("alice".to_string());
    state.cancel_delete_profile();
    assert!(state.pending_delete_profile.is_none());
    state.prompt_delete_profile("alice".to_string());
    assert!(matches!(state.confirm_delete_profile(5), Some(Job::DeleteProfile { .. })));

    state.core.hosts = vec![local_host("local"), remote_host("vd")];
    assert!(matches!(state.activate_profile_for_selected_host("alice"), Job::ActivateLocal { .. }));
    assert!(matches!(state.set_selected_host_index(1, 6), Some(Job::InspectHost { .. })));
    assert!(state.selected_host_is_remote());
    assert!(matches!(
        state.activate_profile_for_selected_host("alice"),
        Job::ActivateRemote { host_index: 1, .. }
    ));
    assert!(state.finish_device_login(7).is_none());
    assert_eq!(state.core.notice.as_ref().unwrap().message, "no pending device login challenge");
    state.clear_notice();
    assert!(state.core.notice.is_none());
    assert_eq!(state.selected_host_active_profile_label(), "none");
}
