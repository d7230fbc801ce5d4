use shapeshifter::domain::{AuthFile, HostTarget, ManagedHost, RemoteHost};
use shapeshifter::host_ops::{
    failure_line, looks_like_windows_absolute_path, remote_auth_candidates, remote_bash,
    remote_managed_accounts_dir_expr, remote_managed_data_dir_expr, remote_path_expr,
    remote_path_expr_for, remote_profile_paths, shell_quote, shell_quote_inner,
    with_extension_str, AuthReadStep, HostOperator, WritePlan,
};

fn remote(alias: &str, auth: &str, managed: &str) -> RemoteHost {
    RemoteHost {
        ssh_alias: alias.to_string(),
        auth_file_path: auth.to_string(),
        managed_data_dir: managed.to_string(),
    }
}

#[test]
fn recognises_windows_absolute_paths() {
    assert!(looks_like_windows_absolute_path("C:\\Users"));
    assert!(looks_like_windows_absolute_path("d:/data"));
    assert!(!looks_like_windows_absolute_path("C:"));
    assert!(!looks_like_windows_absolute_path("1:/x"));
    assert!(!looks_like_windows_absolute_path("/home"));
}

#[test]
fn remote_paths_are_home_relative_unless_absolute() {
    assert_eq!(remote_path_expr_for(".codex/auth.json"), "~/.codex/auth.json");
    assert_eq!(remote_path_expr_for("~/.codex/auth.json"), "~/.codex/auth.json");
    assert_eq!(remote_path_expr_for("/etc/auth.json"), "/etc/auth.json");
    assert_eq!(remote_path_expr_for("C:/auth.json"), "C:/auth.json");
    let r = remote("box", ".codex/auth.json", ".local/share/shapeshifter");
    assert_eq!(remote_path_expr(&r), "~/.codex/auth.json");
    assert_eq!(remote_managed_data_dir_expr(&r), "~/.local/share/shapeshifter");
    assert_eq!(remote_managed_accounts_dir_expr(&r), "~/.local/share/shapeshifter/accounts");
}

#[test]
fn auth_candidates_skip_duplicates() {
    let r = remote("box", ".codex/auth.json", "m");
    assert_eq!(
        remote_auth_candidates(&r),
        vec![
            "~/.codex/auth.json".to_string(),
            "~/.local/share/opencode/auth.json".to_string(),
            "~/AppData/Local/opencode/auth.json".to_string(),
        ]
    );
    let r = remote("box", "/srv/auth.json", "m");
    assert_eq!(remote_auth_candidates(&r).len(), 4);
}

#[test]
fn quotes_for_the_shell() {
    assert_eq!(shell_quote_inner("it's"), "'it'\"'\"'s'");
    assert_eq!(shell_quote("~/a b"), "~/'a b'");
    assert_eq!(shell_quote("/x"), "'/x'");
    assert_eq!(remote_bash("echo 'hi'"), "bash -lc 'echo '\"'\"'hi'\"'\"''");
}

#[test]
fn local_write_plan_paths() {
    let op = HostOperator::new();
    let plan = op.local_write_plan("/home/u/.codex/auth.json", 1700000000);
    assert_eq!(plan.parent_dir.as_deref(), Some("/home/u/.codex"));
    assert_eq!(plan.backup_path, "/home/u/.codex/auth.bak.1700000000");
    assert_eq!(plan.temp_path, "/home/u/.codex/auth.shapeshifter.tmp");
    assert_eq!(with_extension_str("/a/b.tar.gz", "x"), "/a/b.tar.x");
    assert_eq!(with_extension_str("/a/noext", "x"), "/a/noext.x");
}

#[test]
fn remote_write_plan_commands() {
    let op = HostOperator::new();
    let host = ManagedHost {
        id: "box".to_string(),
        label: "box".to_string(),
        target: HostTarget::Remote(remote("box", ".codex/auth.json", "m")),
    };
    match op.write_auth(&host, 42) {
        WritePlan::Remote(plan) => {
            assert_eq!(plan.ssh_alias, "box");
            assert_eq!(
                plan.prepare_script,
                "bash -lc 'mkdir -p $(dirname ~/.codex/auth.json) && if [ -f ~/.codex/auth.json ]; then cp ~/.codex/auth.json ~/.codex/auth.json.bak.42; fi'"
            );
            assert_eq!(plan.upload_destination, "box:~/.codex/auth.json.shapeshifter.tmp");
            assert_eq!(
                plan.replace_script,
                "bash -lc 'mv ~/.codex/auth.json.shapeshifter.tmp ~/.codex/auth.json'"
            );
        }
        WritePlan::Local(_) => panic!("expected remote plan"),
    }
    let local = ManagedHost {
        id: "local".to_string(),
        label: "local".to_string(),
        target: HostTarget::Local { auth_file_path: "/a/auth.json".to_string() },
    };
    assert!(matches!(op.write_auth(&local, 1), WritePlan::Local(_)));
}

#[test]
fn sync_plan_commands() {
    let op = HostOperator::new();
    let plan = op.sync_managed_data_dir(&remote("box", "a", ".local/share/shapeshifter"), "/m");
    assert_eq!(plan.prepare_script, "bash -lc 'mkdir -p ~/.local/share/shapeshifter'");
    assert_eq!(plan.rsync_source, "/m/");
    assert_eq!(plan.rsync_destination, "box:~/.local/share/shapeshifter/");
}

#[test]
fn remote_reads() {
    let op = HostOperator::new();
    let r = remote("box", ".codex/auth.json", "m");
    assert_eq!(op.cat_script("~/.codex/auth.json"), "cat ~/'.codex/auth.json'");
    assert_eq!(
        op.list_profiles_script(&r),
        "if [ -d ~/'m/accounts' ]; then find ~/'m/accounts' -maxdepth 1 -type f -name '*.json' | sort; fi"
    );
    match op.read_remote_auth_step(&r, &vec![]) {
        AuthReadStep::Try { path, script } => {
            assert_eq!(path, "~/.codex/auth.json");
            assert_eq!(script, "cat ~/'.codex/auth.json'");
        }
        AuthReadStep::Fail { .. } => panic!("expected a try"),
    }
    let failures = vec![
        failure_line("~/.codex/auth.json", "no such file"),
        failure_line("~/.local/share/opencode/auth.json", "no such file"),
        failure_line("~/AppData/Local/opencode/auth.json", "no such file"),
    ];
    match op.read_remote_auth_step(&r, &failures) {
        AuthReadStep::Fail { message } => assert_eq!(
            message,
            "failed to locate remote auth file for box. tried:\n~/.codex/auth.json: no such file\n~/.local/share/opencode/auth.json: no such file\n~/AppData/Local/opencode/auth.json: no such file"
        ),
        AuthReadStep::Try { .. } => panic!("expected failure"),
    }
    assert_eq!(
        remote_profile_paths("/m/accounts/a.json\n\n  /m/accounts/b.json \n"),
        vec!["/m/accounts/a.json".to_string(), "/m/accounts/b.json".to_string()]
    );
}

#[test]
fn remote_read_tries_the_written_path_first() {
    let op = HostOperator::new();
    let r = remote("box", "/srv/codex/auth.json", "m");
    let plan = op.remote_write_plan(&r, 7);
    match op.read_remote_auth_step(&r, &vec![]) {
        AuthReadStep::Try { path, .. } => {
            assert_eq!(path, "/srv/codex/auth.json");
            assert_eq!(
                plan.replace_script,
                format!("bash -lc 'mv {path}.shapeshifter.tmp {path}'")
            );
        }
        AuthReadStep::Fail { .. } => panic!("expected a try"),
    }
}

#[test]
fn inspection_names_profiles_by_file_stem() {
    let op = HostOperator::new();
    let mut active = AuthFile::default();
    active.tokens.access_token = "t".to_string();
    let snapshot = op.inspect_remote_host(
        active,
        vec![
            ("~/m/accounts/alice.json".to_string(), AuthFile::default()),
            ("~/m/accounts/bob.json".to_string(), AuthFile::default()),
        ],
    );
    assert_eq!(snapshot.active_auth.tokens.access_token, "t");
    let labels: Vec<&str> = snapshot.profiles.iter().map(|p| p.label.as_str()).collect();
    assert_eq!(labels, vec!["alice", "bob"]);
    assert_eq!(snapshot.profiles[1].source_path, "~/m/accounts/bob.json");
}

/// Reads a word made of single- and double-quoted segments as a POSIX shell
/// does (double-quoted segments here hold no `$`, backquote or backslash).
fn shell_read(word: &str) -> Option<String> {
    let chars: Vec<char> = word.chars().collect();
    let mut out = String::new();
    let mut i = 0;
    while i < chars.len() {
        let q = chars[i];
        if q != '\'' && q != '"' {
            return None;
        }
        let close = chars[i + 1..].iter().position(|c| *c == q)? + i + 1;
        for c in &chars[i + 1..close] {
            if q == '"' && matches!(c, '$' | '`' | '\\') {
                return None;
            }
            out.push(*c);
        }
        i = close + 1;
    }
    Some(out)
}

#[test]
fn quoted_words_read_back_as_the_text() {
    for text in ["", "plain", "it's", "''", "a'b'c", "x \"y\" $z", "'"] {
        assert_eq!(shell_read(&shell_quote_inner(text)).as_deref(), Some(text));
    }
    let script = "echo 'hi'";
    let command = remote_bash(script);
    assert_eq!(shell_read(command.strip_prefix("bash -lc ").unwrap()).as_deref(), Some(script));
}
