use shapeshifter::domain::{AuthFile, HostTarget};
use shapeshifter::profile_store::{
    candidate_auth_storage_dirs, dedup_paths, default_remote_auth_path,
    default_remote_managed_data_dir, is_profile_file, parse_remote_host_with_home,
    profile_file_paths, profile_from_file, remote_auth_path_with_home, sort_profiles_by_label,
    unix_default_storage_dir, windows_default_storage_dir, auth_storage_dir_for,
    managed_data_dir_for, ProfileStore, StorageEnvironment, StoreError,
};
use std::path::Path;

#[test]
fn includes_codex_and_opencode_candidates() {
    let candidates =
        candidate_auth_storage_dirs(Some("/home/demo"), Some("/home/demo/.local/share"));

    assert!(candidates.contains(&"/home/demo/.codex".to_string()));
    assert!(candidates.contains(&"/home/demo/.local/share/opencode".to_string()));
}

#[test]
fn derives_remote_auth_path_relative_to_home() {
    let home_dir = dirs::home_dir().unwrap_or_else(|| Path::new("/tmp/home").to_path_buf());
    let storage_dir = home_dir.join(".local").join("share").join("opencode");
    let path = default_remote_auth_path(&storage_dir.to_string_lossy());

    assert!(Path::new(&path).ends_with(Path::new(".local/share/opencode/auth.json")));
}

#[test]
fn unix_default_prefers_dot_codex() {
    let path = unix_default_storage_dir(Some("/home/demo"));
    assert_eq!(path, "/home/demo/.codex");
}

#[test]
fn derives_remote_managed_dir_from_opencode_path() {
    let path = default_remote_managed_data_dir(
        "/home/local/.local/share/shapeshifter",
        ".local/share/opencode/auth.json",
    );
    assert_eq!(path, ".local/share/shapeshifter");
}

#[test]
fn candidates_are_deduplicated_in_order() {
    let candidates = candidate_auth_storage_dirs(Some("/h"), Some("/h/.local/share"));
    assert_eq!(
        candidates,
        vec!["/h/.codex".to_string(), "/h/.local/share/opencode".to_string()]
    );
    let none = candidate_auth_storage_dirs(None, None);
    assert!(none.is_empty());
}

#[test]
fn dedup_keeps_first_occurrences() {
    let v = vec!["a".to_string(), "b".to_string(), "a".to_string(), "c".to_string(), "b".to_string()];
    assert_eq!(dedup_paths(v), vec!["a".to_string(), "b".to_string(), "c".to_string()]);
}

#[test]
fn windows_default_prefers_opencode_under_home() {
    assert_eq!(
        windows_default_storage_dir(Some("/u"), Some("/u/AppData/Local")),
        "/u/.local/share/opencode"
    );
    assert_eq!(windows_default_storage_dir(None, Some("/d")), "/d/opencode");
    assert_eq!(windows_default_storage_dir(None, None), "./opencode");
    assert_eq!(unix_default_storage_dir(None), "./.codex");
}

#[test]
fn remote_auth_path_relative_to_given_home() {
    assert_eq!(
        remote_auth_path_with_home("/home/a/.codex", Some("/home/a")),
        ".codex/auth.json"
    );
    assert_eq!(
        remote_auth_path_with_home("/srv/codex", Some("/home/a")),
        "/srv/codex/auth.json"
    );
    assert_eq!(remote_auth_path_with_home("/srv/codex", None), "/srv/codex/auth.json");
}

#[test]
fn remote_managed_dir_falls_back_to_local() {
    assert_eq!(
        default_remote_managed_data_dir("/local/managed", "AppData/Local/opencode/auth.json"),
        "AppData/Local/shapeshifter"
    );
    assert_eq!(
        default_remote_managed_data_dir("/local/managed", "/srv/auth.json"),
        "/local/managed"
    );
}

fn env(codex: Option<&str>, data: Option<&str>, existing: Vec<&str>) -> StorageEnvironment {
    StorageEnvironment {
        codex_dir_var: codex.map(|s| s.to_string()),
        data_dir_var: data.map(|s| s.to_string()),
        home_dir: Some("/home/demo".to_string()),
        data_local_dir: Some("/home/demo/.local/share".to_string()),
        windows: false,
        existing_dirs: existing.into_iter().map(|s| s.to_string()).collect(),
    }
}

#[test]
fn storage_dirs_follow_overrides_and_existing_dirs() {
    assert_eq!(auth_storage_dir_for(&env(Some("  /custom  "), None, vec![])), "/custom");
    assert_eq!(auth_storage_dir_for(&env(Some("   "), None, vec![])), "/home/demo/.codex");
    assert_eq!(
        auth_storage_dir_for(&env(None, None, vec!["/home/demo/.local/share/opencode"])),
        "/home/demo/.local/share/opencode"
    );
    assert_eq!(managed_data_dir_for(&env(None, Some("/data"), vec![])), "/data");
    assert_eq!(
        managed_data_dir_for(&env(None, None, vec![])),
        "/home/demo/.local/share/shapeshifter"
    );
}

#[test]
fn store_paths() {
    let store = ProfileStore::from_dirs("/a/.codex".to_string(), "/m".to_string());
    assert_eq!(store.auth_storage_dir(), "/a/.codex");
    assert_eq!(store.managed_data_dir(), "/m");
    assert_eq!(store.auth_file_path(), "/a/.codex/auth.json");
    assert_eq!(store.accounts_dir(), "/m/accounts");
    assert_eq!(store.hosts_file_path(), "/m/accounts/.hosts");
    assert_eq!(store.profile_file_path("  alice ").unwrap(), "/m/accounts/alice.json");
    assert!(matches!(store.profile_file_path("   "), Err(StoreError::EmptyProfileName)));
    assert_eq!(StoreError::EmptyProfileName.message(), "profile name cannot be empty");
}

#[test]
fn store_from_environment() {
    let store = ProfileStore::new(&env(Some("/c"), Some("/d"), vec![]));
    assert_eq!(store.auth_storage_dir(), "/c");
    assert_eq!(store.managed_data_dir(), "/d");
}

#[test]
fn loads_hosts_with_local_first() {
    let auth_dir = "/tmp/t/.codex";
    let store = ProfileStore::from_dirs(auth_dir.to_string(), "/tmp/t/shapeshifter".to_string());
    let hosts = store.hosts_from_contents_with_home(Some("vd\nneo\n"), Some("/home/u"));
    assert_eq!(hosts[0].label, "local");
    assert_eq!(hosts[1].label, "vd");
    assert_eq!(hosts[2].label, "neo");
    match &hosts[0].target {
        HostTarget::Local { auth_file_path } => assert_eq!(auth_file_path, "/tmp/t/.codex/auth.json"),
        HostTarget::Remote(_) => panic!("expected local host"),
    }
}

#[test]
fn host_lines_skip_blanks_and_comments() {
    let store = ProfileStore::from_dirs("/home/u/.codex".to_string(), "/m".to_string());
    let hosts = store.hosts_from_contents_with_home(Some("vd\n\n# comment\n  neo  \n"), Some("/home/u"));
    assert_eq!(hosts.len(), 3);
    assert_eq!(hosts[0].id, "local");
    assert_eq!(hosts[1].id, "vd");
    assert_eq!(hosts[2].label, "neo");
    match &hosts[2].target {
        HostTarget::Remote(r) => {
            assert_eq!(r.ssh_alias, "neo");
            assert_eq!(r.auth_file_path, ".codex/auth.json");
            assert_eq!(r.managed_data_dir, "/m");
        }
        _ => panic!("expected remote host"),
    }
    let only_local = store.hosts_from_contents(None);
    assert_eq!(only_local.len(), 1);
}

#[test]
fn loads_remote_hosts_with_custom_auth_paths() {
    let user_profile = "C:\\Users\\demo";
    let auth_path = format!("{user_profile}\\.local\\share\\opencode\\auth.json");
    let managed_dir = format!("{user_profile}\\AppData\\Local\\shapeshifter");
    let store = ProfileStore::from_dirs("/tmp/t/.codex".to_string(), "/tmp/t/shapeshifter".to_string());
    let contents = format!("vd\nwinbox {auth_path} {managed_dir}\n");
    let hosts = store.hosts_from_contents_with_home(Some(&contents), Some(user_profile));
    assert_eq!(hosts[1].label, "vd");
    let remote = match &hosts[2].target {
        HostTarget::Remote(remote) => remote,
        HostTarget::Local { .. } => panic!("expected remote host"),
    };
    assert_eq!(remote.ssh_alias, "winbox");
    assert_eq!(remote.auth_file_path, auth_path);
    assert_eq!(remote.managed_data_dir, managed_dir);
}

#[test]
fn windows_default_prefers_xdg_style_opencode_under_home() {
    let home_dir = "/home/demo";
    let path = windows_default_storage_dir(Some(home_dir), Some("/home/demo/AppData/Local"));
    assert_eq!(path, "/home/demo/.local/share/opencode");
}

#[test]
fn migrates_legacy_accounts_when_managed_store_empty() {
    let store = ProfileStore::from_dirs("/tmp/t/.codex".to_string(), "/tmp/t/appdata".to_string());
    let names = vec!["alice.json".to_string(), ".hosts".to_string()];
    let copies = store.legacy_migration(true, true, &names);
    let destinations: Vec<&str> = copies.iter().map(|c| c.1.as_str()).collect();
    assert!(destinations.contains(&"/tmp/t/appdata/accounts/alice.json"));
    assert!(destinations.contains(&"/tmp/t/appdata/accounts/.hosts"));
    assert_eq!(copies[0].0, "/tmp/t/.codex/accounts/alice.json");
}

#[test]
fn saves_and_lists_profiles() {
    let store = ProfileStore::from_dirs("/tmp/t/.codex".to_string(), "/tmp/t/shapeshifter".to_string());
    let saved: Vec<String> =
        ["alice", "bob"].iter().map(|n| store.profile_file_path(n).unwrap()).collect();
    let listed = profile_file_paths(&saved);
    let profiles = sort_profiles_by_label(
        listed.into_iter().map(|p| profile_from_file(p, AuthFile::default())).collect(),
    );
    let labels = profiles.into_iter().map(|profile| profile.label).collect::<Vec<_>>();
    assert_eq!(labels, vec!["alice".to_string(), "bob".to_string()]);
}

#[test]
fn parses_remote_hosts_with_custom_paths() {
    let host = parse_remote_host_with_home(
        "winbox  C:/Users/me/.local/share/opencode/auth.json   D:/managed ",
        "/home/u/.codex",
        "/m",
        Some("/home/u"),
    );
    match host.target {
        HostTarget::Remote(r) => {
            assert_eq!(r.ssh_alias, "winbox");
            assert_eq!(r.auth_file_path, "C:/Users/me/.local/share/opencode/auth.json");
            assert_eq!(r.managed_data_dir, "D:/managed");
        }
        _ => panic!("expected remote host"),
    }
    let host = parse_remote_host_with_home("box .local/share/opencode/auth.json", "/x", "/m", None);
    match host.target {
        HostTarget::Remote(r) => {
            assert_eq!(r.auth_file_path, ".local/share/opencode/auth.json");
            assert_eq!(r.managed_data_dir, ".local/share/shapeshifter");
        }
        _ => panic!("expected remote host"),
    }
}

#[test]
fn profile_files_are_json_entries() {
    assert!(is_profile_file("/m/accounts/alice.json"));
    assert!(!is_profile_file("/m/accounts/.hosts"));
    assert!(!is_profile_file("/m/accounts/notes.txt"));
    let entries = vec![
        "/m/accounts/b.json".to_string(),
        "/m/accounts/.hosts".to_string(),
        "/m/accounts/a.json".to_string(),
    ];
    assert_eq!(
        profile_file_paths(&entries),
        vec!["/m/accounts/b.json".to_string(), "/m/accounts/a.json".to_string()]
    );
}

#[test]
fn profiles_are_named_by_stem_and_sorted() {
    let b = profile_from_file("/m/accounts/bob.json".to_string(), AuthFile::default());
    let a = profile_from_file("/m/accounts/alice.json".to_string(), AuthFile::default());
    assert_eq!(a.id, "alice");
    assert_eq!(a.label, "alice");
    assert_eq!(a.source_path, "/m/accounts/alice.json");
    let sorted = sort_profiles_by_label(vec![b, a]);
    let labels: Vec<&str> = sorted.iter().map(|p| p.label.as_str()).collect();
    assert_eq!(labels, vec!["alice", "bob"]);
}

#[test]
fn sorting_keeps_equal_labels_in_order() {
    let b = profile_from_file("/x/bob.json".to_string(), AuthFile::default());
    let a1 = profile_from_file("/x/alice.json".to_string(), AuthFile::default());
    let a2 = profile_from_file("/y/alice.json".to_string(), AuthFile::default());
    let sorted = sort_profiles_by_label(vec![b, a1, a2]);
    let paths: Vec<&str> = sorted.iter().map(|p| p.source_path.as_str()).collect();
    assert_eq!(paths, vec!["/x/alice.json", "/y/alice.json", "/x/bob.json"]);
    let upper = profile_from_file("/x/Zed.json".to_string(), AuthFile::default());
    let lower = profile_from_file("/x/adam.json".to_string(), AuthFile::default());
    let sorted = sort_profiles_by_label(vec![lower, upper]);
    assert_eq!(sorted[0].label, "Zed");
}

#[test]
fn migrates_legacy_accounts_only_into_empty_store() {
    let store = ProfileStore::from_dirs("/a/.codex".to_string(), "/m".to_string());
    let names = vec!["alice.json".to_string(), ".hosts".to_string()];
    let copies = store.legacy_migration(true, true, &names);
    assert_eq!(
        copies,
        vec![
            ("/a/.codex/accounts/alice.json".to_string(), "/m/accounts/alice.json".to_string()),
            ("/a/.codex/accounts/.hosts".to_string(), "/m/accounts/.hosts".to_string()),
        ]
    );
    assert!(store.legacy_migration(false, true, &names).is_empty());
    assert!(store.legacy_migration(true, false, &names).is_empty());
    assert_eq!(
        store.legacy_hosts_copy(),
        ("/a/.codex/accounts/.hosts".to_string(), "/m/accounts/.hosts".to_string())
    );
}

#[test]
fn saved_profile_is_listed_under_its_name() {
    let store = ProfileStore::from_dirs("/a".to_string(), "/m/".to_string());
    for name in ["alice", " bob.smith ", ".hidden"] {
        let path = store.profile_file_path(name).unwrap();
        assert!(is_profile_file(&path));
        let profile = profile_from_file(path, AuthFile::default());
        assert_eq!(profile.label, name.trim());
        assert_eq!(profile.id, name.trim());
    }
}
