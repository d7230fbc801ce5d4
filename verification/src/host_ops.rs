//! What is run to read and replace auth files on hosts: remote path
//! expressions, shell quoting, and the commands of each operation.
use vstd::prelude::*;
use crate::domain::{AccountProfile, AuthFile, HostTarget, ManagedHost, RemoteHost};
use crate::path::{
    file_name, file_stem, file_stem_chars, join, join_str, last_name, parent, parent_chars,
    drop_name_len, lemma_drop_name_shape, lemma_trim_end_char_shape, trim_back, trim_back_chars,
    lemma_trim_back_shape, extension, extension_chars,
};
use crate::profile_store::{views, profile_from_file, profile_label};
use crate::text::{
    chars_of, push_all, slice_chars, split_chars, split_on, starts_with, starts_with_chars,
    string_from, text, trim, trim_chars, trim_end_char, trim_end_char_chars, decimal, u64_decimal,
    index_of, lemma_index_of_at, lemma_index_of_bounds,
};

verus! {

/// The first three characters of `v` are a drive letter, `:` and a separator
/// (`C:\` or `C:/`).
pub open spec fn windows_absolute(v: Seq<char>) -> bool {
    &&& v.len() >= 3
    &&& (('a' <= v[0] && v[0] <= 'z') || ('A' <= v[0] && v[0] <= 'Z'))
    &&& v[1] == ':'
    &&& (v[2] == '\\' || v[2] == '/')
}

/// The path as the remote shell should see it: absolute paths and `~/` paths as
/// they are, anything else under `~/`.
pub open spec fn remote_expr(p: Seq<char>) -> Seq<char> {
    if starts_with(p, "~/"@) || starts_with(p, "/"@) || windows_absolute(p) {
        p
    } else {
        "~/"@ + p
    }
}

/// `s` with every `'` replaced by `'"'"'`.
pub open spec fn escape_quotes(s: Seq<char>) -> Seq<char>
    decreases s.len(),
{
    if s.len() == 0 {
        Seq::<char>::empty()
    } else {
        escape_quotes(s.drop_last()) + if s.last() == '\'' {
            "'\"'\"'"@
        } else {
            seq![s.last()]
        }
    }
}

/// `s` as one single-quoted shell word.
pub open spec fn quoted(s: Seq<char>) -> Seq<char> {
    "'"@ + escape_quotes(s) + "'"@
}

/// `s` quoted for the shell, keeping a leading `~/` outside the quotes so that
/// the shell still expands it.
pub open spec fn shell_quoted(s: Seq<char>) -> Seq<char> {
    if starts_with(s, "~/"@) {
        "~/"@ + quoted(s.skip(2))
    } else {
        quoted(s)
    }
}

/// The argument that runs `script` in a login bash on the remote side.
pub open spec fn bash_command(script: Seq<char>) -> Seq<char> {
    "bash -lc '"@ + escape_quotes(script) + "'"@
}

/// The places where a remote auth file is looked for, in order: the configured
/// path, then the usual locations not already listed.
pub open spec fn auth_candidates(configured: Seq<char>) -> Seq<Seq<char>> {
    let a = seq![configured];
    let b = if a.contains("~/.local/share/opencode/auth.json"@) {
        a
    } else {
        a.push("~/.local/share/opencode/auth.json"@)
    };
    let c = if b.contains("~/.codex/auth.json"@) {
        b
    } else {
        b.push("~/.codex/auth.json"@)
    };
    if c.contains("~/AppData/Local/opencode/auth.json"@) {
        c
    } else {
        c.push("~/AppData/Local/opencode/auth.json"@)
    }
}

/// `PathBuf::set_extension(ext)` for a non-empty `ext`: the path cut right after
/// its file stem, then `.` and `ext`; a path without a file name is left as it
/// is.
pub open spec fn set_extension(p: Seq<char>, ext: Seq<char>) -> Seq<char> {
    match file_name(p) {
        Some(name) => {
            let t = trim_back(p);
            let stem = file_stem(p)->0;
            t.take(t.len() - name.len() + stem.len()) + "."@ + ext
        },
        None => p,
    }
}

/// `Path::with_extension(ext)` for a non-empty `ext`, as std computes it: the
/// text of the path with as many characters cut from its end as the current
/// extension has, then `set_extension`. For a path that ends in its file name
/// this replaces the extension; for one that does not (`a.b/.`, `x/..y`) the cut
/// falls elsewhere, as it does in std.
pub open spec fn with_extension(p: Seq<char>, ext: Seq<char>) -> Seq<char> {
    let q = match extension(p) {
        Some(e) => p.take(p.len() - e.len()),
        None => p,
    };
    set_extension(q, ext)
}

/// The remote profile files named in a directory listing: its non-empty lines,
/// trimmed.
pub open spec fn listed_paths(pieces: Seq<Seq<char>>) -> Seq<Seq<char>>
    decreases pieces.len(),
{
    if pieces.len() == 0 {
        Seq::<Seq<char>>::empty()
    } else {
        let prev = listed_paths(pieces.drop_last());
        let t = trim(pieces.last());
        if t.len() > 0 {
            prev.push(t)
        } else {
            prev
        }
    }
}

// ---------------------------------------------------------------------------
proof fn lemma_escape_quotes_append(a: Seq<char>, c: char)
    ensures
        escape_quotes(a.push(c)) == escape_quotes(a) + if c == '\'' {
            "'\"'\"'"@
        } else {
            seq![c]
        },
{
    assert(a.push(c).drop_last() =~= a);
}

/// Whether `value` starts like a Windows absolute path (`C:\` or `C:/`).
pub fn looks_like_windows_absolute_path(value: &str) -> (r: bool)
    ensures
        r == windows_absolute(value@),
{
    let v = chars_of(value);
    v.len() >= 3 && (('a' <= v[0] && v[0] <= 'z') || ('A' <= v[0] && v[0] <= 'Z')) && v[1] == ':'
        && (v[2] == '\\' || v[2] == '/')
}

/// `path` as the remote shell should see it.
pub fn remote_path_expr_for(path: &str) -> (r: String)
    ensures
        r@ == remote_expr(path@),
{
    let pc = chars_of(path);
    let tilde = chars_of("~/");
    let slash = chars_of("/");
    proof {
        reveal_strlit("~/");
        reveal_strlit("/");
    }
    if starts_with_chars(pc.as_slice(), tilde.as_slice()) || starts_with_chars(
        pc.as_slice(),
        slash.as_slice(),
    ) || looks_like_windows_absolute_path(path) {
        string_from(pc.as_slice())
    } else {
        let mut out = tilde;
        push_all(&mut out, pc.as_slice());
        string_from(out.as_slice())
    }
}

/// The remote shell expression of a host's auth file.
pub fn remote_path_expr(remote: &RemoteHost) -> (r: String)
    ensures
        r@ == remote_expr(remote.auth_file_path@),
{
    remote_path_expr_for(remote.auth_file_path.as_str())
}

/// The remote shell expression of a host's managed data directory.
pub fn remote_managed_data_dir_expr(remote: &RemoteHost) -> (r: String)
    ensures
        r@ == remote_expr(remote.managed_data_dir@),
{
    remote_path_expr_for(remote.managed_data_dir.as_str())
}

/// The remote shell expression of a host's saved-profile directory.
pub fn remote_managed_accounts_dir_expr(remote: &RemoteHost) -> (r: String)
    ensures
        r@ == remote_expr(join(remote.managed_data_dir@, "accounts"@)),
{
    proof {
        reveal_strlit("accounts");
    }
    let dir = join_str(remote.managed_data_dir.as_str(), "accounts");
    remote_path_expr_for(dir.as_str())
}

fn contains_text(list: &Vec<String>, s: &str) -> (r: bool)
    ensures
        r == views(list@).contains(s@),
{
    let sc = text(s);
    let ghost lv = views(list@);
    let mut k: usize = 0;
    while k < list.len()
        invariant
            k <= list@.len(),
            lv == views(list@),
            sc@ == s@,
            forall|m: int| 0 <= m < k ==> lv[m] != s@,
        decreases list@.len() - k,
    {
        if list[k] == sc {
            assert(lv[k as int] == s@);
            return true;
        }
        k = k + 1;
    }
    false
}

/// Where the active auth file of a remote host is looked for, in order.
pub fn remote_auth_candidates(remote: &RemoteHost) -> (r: Vec<String>)
    ensures
        views(r@) == auth_candidates(remote_expr(remote.auth_file_path@)),
{
    proof {
        reveal_strlit("~/.local/share/opencode/auth.json");
        reveal_strlit("~/.codex/auth.json");
        reveal_strlit("~/AppData/Local/opencode/auth.json");
    }
    let mut candidates: Vec<String> = Vec::new();
    candidates.push(remote_path_expr(remote));
    let ghost a = views(candidates@);
    assert(a =~= seq![remote_expr(remote.auth_file_path@)]);
    if !contains_text(&candidates, "~/.local/share/opencode/auth.json") {
        candidates.push(text("~/.local/share/opencode/auth.json"));
    }
    assert(views(candidates@) =~= if a.contains("~/.local/share/opencode/auth.json"@) {
        a
    } else {
        a.push("~/.local/share/opencode/auth.json"@)
    });
    let ghost b = views(candidates@);
    if !contains_text(&candidates, "~/.codex/auth.json") {
        candidates.push(text("~/.codex/auth.json"));
    }
    assert(views(candidates@) =~= if b.contains("~/.codex/auth.json"@) {
        b
    } else {
        b.push("~/.codex/auth.json"@)
    });
    let ghost c = views(candidates@);
    if !contains_text(&candidates, "~/AppData/Local/opencode/auth.json") {
        candidates.push(text("~/AppData/Local/opencode/auth.json"));
    }
    assert(views(candidates@) =~= if c.contains("~/AppData/Local/opencode/auth.json"@) {
        c
    } else {
        c.push("~/AppData/Local/opencode/auth.json"@)
    });
    candidates
}

/// `value` with every `'` replaced by `'"'"'`.
pub fn escape_single_quotes(value: &[char]) -> (r: Vec<char>)
    ensures
        r@ == escape_quotes(value@),
{
    let mut out: Vec<char> = Vec::new();
    let mut i: usize = 0;
    while i < value.len()
        invariant
            i <= value@.len(),
            out@ == escape_quotes(value@.take(i as int)),
        decreases value@.len() - i,
    {
        proof {
            lemma_escape_quotes_append(value@.take(i as int), value@[i as int]);
            assert(value@.take(i as int).push(value@[i as int]) =~= value@.take(i + 1));
        }
        if value[i] == '\'' {
            let rep = chars_of("'\"'\"'");
            proof {
                reveal_strlit("'\"'\"'");
            }
            push_all(&mut out, rep.as_slice());
        } else {
            out.push(value[i]);
        }
        i = i + 1;
    }
    assert(value@.take(i as int) =~= value@);
    out
}

/// `value` as one single-quoted shell word.
pub fn shell_quote_inner(value: &str) -> (r: String)
    ensures
        r@ == quoted(value@),
{
    proof {
        reveal_strlit("'");
    }
    let vc = chars_of(value);
    let mut out = chars_of("'");
    let esc = escape_single_quotes(vc.as_slice());
    push_all(&mut out, esc.as_slice());
    out.push('\'');
    assert(out@ =~= quoted(value@));
    string_from(out.as_slice())
}

/// `value` quoted for the shell, a leading `~/` left outside the quotes.
pub fn shell_quote(value: &str) -> (r: String)
    ensures
        r@ == shell_quoted(value@),
{
    proof {
        reveal_strlit("~/");
    }
    let vc = chars_of(value);
    let tilde = chars_of("~/");
    if starts_with_chars(vc.as_slice(), tilde.as_slice()) {
        let rest = string_from(slice_chars(vc.as_slice(), 2, vc.len()).as_slice());
        assert(rest@ =~= value@.skip(2));
        let q = shell_quote_inner(rest.as_str());
        let mut out = tilde;
        push_all(&mut out, chars_of(q.as_str()).as_slice());
        string_from(out.as_slice())
    } else {
        shell_quote_inner(value)
    }
}

/// The ssh argument that runs `script` in a login bash.
pub fn remote_bash(script: &str) -> (r: String)
    ensures
        r@ == bash_command(script@),
{
    proof {
        reveal_strlit("bash -lc '");
        reveal_strlit("'");
    }
    let mut out = chars_of("bash -lc '");
    let esc = escape_single_quotes(chars_of(script).as_slice());
    push_all(&mut out, esc.as_slice());
    out.push('\'');
    assert(out@ =~= bash_command(script@));
    string_from(out.as_slice())
}

/// `a` followed by `b`, as a string.
pub fn cat(a: &str, b: &str) -> (r: String)
    ensures
        r@ == a@ + b@,
{
    let mut out = chars_of(a);
    push_all(&mut out, chars_of(b).as_slice());
    string_from(out.as_slice())
}

/// `Path::with_extension` for a non-empty extension.
pub fn with_extension_str(path: &str, ext: &str) -> (r: String)
    requires
        ext@.len() > 0,
    ensures
        r@ == with_extension(path@, ext@),
{
    let pc = chars_of(path);
    let q = match extension_chars(pc.as_slice()) {
        Some(e) => {
            proof {
                crate::path::lemma_extension_len(path@);
            }
            slice_chars(pc.as_slice(), 0, pc.len() - e.len())
        },
        None => slice_chars(pc.as_slice(), 0, pc.len()),
    };
    proof {
        assert(pc@.subrange(0, pc@.len() as int) =~= pc@);
        assert(q@ =~= match extension(path@) {
            Some(e) => path@.take(path@.len() - e.len()),
            None => path@,
        });
    }
    let r = set_extension_chars(q.as_slice(), ext);
    string_from(r.as_slice())
}

/// `PathBuf::set_extension` for a non-empty extension.
fn set_extension_chars(pc: &[char], ext: &str) -> (r: Vec<char>)
    requires
        ext@.len() > 0,
    ensures
        r@ == set_extension(pc@, ext@),
{
    let t = trim_back_chars(pc);
    if t.len() == 0 {
        return slice_chars(pc, 0, pc.len());
    }
    proof {
        lemma_trim_back_shape(pc@);
        lemma_drop_name_shape(t@);
    }
    let n = drop_name_len(t.as_slice());
    let stem = match file_stem_chars(pc) {
        Some(s) => s,
        None => {
            return slice_chars(pc, 0, pc.len());
        },
    };
    let name_len = t.len() - n;
    proof {
        crate::path::lemma_last_dot_bounds(last_name(t@));
        assert(stem@.len() <= name_len);
    }
    let end = n + stem.len();
    let mut out = slice_chars(t.as_slice(), 0, end);
    out.push('.');
    push_all(&mut out, chars_of(ext).as_slice());
    proof {
        reveal_strlit(".");
        assert(t@.take(end as int) =~= t@.subrange(0, end as int));
        assert(out@ =~= t@.take(end as int) + "."@ + ext@);
    }
    out
}

/// The remote profile files named in a directory listing.
pub fn remote_profile_paths(listing: &str) -> (r: Vec<String>)
    ensures
        views(r@) == listed_paths(split_on(listing@, '\n')),
{
    let cs = chars_of(listing);
    let pieces = split_chars(cs.as_slice(), '\n');
    let ghost pv = split_on(listing@, '\n');
    let mut out: Vec<String> = Vec::new();
    let mut i: usize = 0;
    while i < pieces.len()
        invariant
            i <= pieces@.len(),
            pieces@.len() == pv.len(),
            forall|k: int| 0 <= k < pieces@.len() ==> #[trigger] pieces@[k]@ == pv[k],
            views(out@) == listed_paths(pv.take(i as int)),
        decreases pieces@.len() - i,
    {
        proof {
            assert(pv.take(i + 1).drop_last() =~= pv.take(i as int));
            assert(pv.take(i + 1).last() == pieces@[i as int]@);
        }
        let t = trim_chars(pieces[i].as_slice());
        if t.len() > 0 {
            let ghost before = views(out@);
            out.push(string_from(t.as_slice()));
            assert(views(out@) =~= before.push(t@));
        }
        i = i + 1;
    }
    assert(pv.take(i as int) =~= pv);
    out
}

/// The commands that replace the auth file of a remote host: a backup on the
/// remote side, a copy of the new file next to the target, and a rename over it.
pub struct RemoteWritePlan {
    pub ssh_alias: String,
    pub prepare_script: String,
    pub upload_destination: String,
    pub replace_script: String,
}

/// The paths used when replacing a local auth file: the directory to create,
/// the backup of the previous file and the temporary file renamed over it.
pub struct LocalWritePlan {
    pub parent_dir: Option<String>,
    pub backup_path: String,
    pub temp_path: String,
}

/// How an auth file is written to a host.
pub enum WritePlan {
    Local(LocalWritePlan),
    Remote(RemoteWritePlan),
}

/// The commands that mirror the local managed data directory to a remote host.
pub struct SyncPlan {
    pub ssh_alias: String,
    pub prepare_script: String,
    pub rsync_source: String,
    pub rsync_destination: String,
}

/// What one inspection of a remote host found.
pub struct RemoteHostSnapshot {
    pub profiles: Vec<AccountProfile>,
    pub active_auth: AuthFile,
}

pub open spec fn backup_suffix(timestamp: u64) -> Seq<char> {
    "bak."@ + decimal(timestamp as nat)
}

pub open spec fn opt_view(o: Option<Vec<char>>) -> Option<Seq<char>> {
    match o {
        Some(v) => Some(v@),
        None => None,
    }
}

/// `r` holds the paths that replace the local auth file at `path` at time
/// `timestamp`: its directory, the backup named by the timestamp, and the
/// temporary file.
pub open spec fn local_plan_made(r: LocalWritePlan, path: Seq<char>, timestamp: u64) -> bool {
    &&& match parent(path) {
        Some(p) => r.parent_dir matches Some(d) && d@ == p,
        None => r.parent_dir is None,
    }
    &&& r.backup_path@ == with_extension(path, backup_suffix(timestamp))
    &&& r.temp_path@ == with_extension(path, "shapeshifter.tmp"@)
}

/// `r` holds the commands that replace the auth file of `remote` at time
/// `timestamp`: back the old file up next to it, copy the new one to a temporary
/// name, and move it over the old one.
pub open spec fn remote_plan_made(r: RemoteWritePlan, remote: RemoteHost, timestamp: u64) -> bool {
    let path = remote_expr(remote.auth_file_path@);
    let backup = path + ".bak."@ + decimal(timestamp as nat);
    let tmp = path + ".shapeshifter.tmp"@;
    &&& r.ssh_alias == remote.ssh_alias
    &&& r.prepare_script@ == bash_command(
        "mkdir -p $(dirname "@ + path + ") && if [ -f "@ + path + " ]; then cp "@ + path + " "@
            + backup + "; fi"@,
    )
    &&& r.upload_destination@ == remote.ssh_alias@ + ":"@ + tmp
    &&& r.replace_script@ == bash_command("mv "@ + tmp + " "@ + path)
}

/// Reads and writes the active auth file of hosts.
pub struct HostOperator;

impl HostOperator {
    /// An operator.
    pub fn new() -> (r: HostOperator) {
        HostOperator
    }

    /// The paths used to replace the local auth file at `path`.
    pub fn local_write_plan(&self, path: &str, timestamp: u64) -> (r: LocalWritePlan)
        ensures
            local_plan_made(r, path@, timestamp),
    {
        let pc = chars_of(path);
        let parent_dir = match parent_chars(pc.as_slice()) {
            Some(p) => Some(string_from(p.as_slice())),
            None => None,
        };
        let suffix = cat("bak.", string_from(u64_decimal(timestamp).as_slice()).as_str());
        proof {
            reveal_strlit("bak.");
            reveal_strlit("shapeshifter.tmp");
        }
        LocalWritePlan {
            parent_dir,
            backup_path: with_extension_str(path, suffix.as_str()),
            temp_path: with_extension_str(path, "shapeshifter.tmp"),
        }
    }

    /// The commands that replace the auth file of `remote`.
    pub fn remote_write_plan(&self, remote: &RemoteHost, timestamp: u64) -> (r: RemoteWritePlan)
        ensures
            remote_plan_made(r, *remote, timestamp),
    {
        proof {
            reveal_strlit(".bak.");
            reveal_strlit(".shapeshifter.tmp");
            reveal_strlit("mkdir -p $(dirname ");
            reveal_strlit(") && if [ -f ");
            reveal_strlit(" ]; then cp ");
            reveal_strlit(" ");
            reveal_strlit("; fi");
            reveal_strlit(":");
            reveal_strlit("mv ");
        }
        let path = remote_path_expr(remote);
        let ts = string_from(u64_decimal(timestamp).as_slice());
        let backup = cat(cat(path.as_str(), ".bak.").as_str(), ts.as_str());
        let tmp = cat(path.as_str(), ".shapeshifter.tmp");
        let s1 = cat("mkdir -p $(dirname ", path.as_str());
        let s2 = cat(s1.as_str(), ") && if [ -f ");
        let s3 = cat(s2.as_str(), path.as_str());
        let s4 = cat(s3.as_str(), " ]; then cp ");
        let s5 = cat(s4.as_str(), path.as_str());
        let s6 = cat(s5.as_str(), " ");
        let s7 = cat(s6.as_str(), backup.as_str());
        let s8 = cat(s7.as_str(), "; fi");
        let dest = cat(cat(remote.ssh_alias.as_str(), ":").as_str(), tmp.as_str());
        let m1 = cat("mv ", tmp.as_str());
        let m2 = cat(m1.as_str(), " ");
        let m3 = cat(m2.as_str(), path.as_str());
        let r = RemoteWritePlan {
            ssh_alias: remote.ssh_alias.clone(),
            prepare_script: remote_bash(s8.as_str()),
            upload_destination: dest,
            replace_script: remote_bash(m3.as_str()),
        };
        proof {
            assert(s8@ =~= "mkdir -p $(dirname "@ + path@ + ") && if [ -f "@ + path@ + " ]; then cp "@
                + path@ + " "@ + backup@ + "; fi"@);
            assert(m3@ =~= "mv "@ + tmp@ + " "@ + path@);
        }
        r
    }

    /// How an auth file is written to `host` at time `timestamp` (Unix seconds,
    /// which name the backup of the previous file).
    pub fn write_auth(&self, host: &ManagedHost, timestamp: u64) -> (r: WritePlan)
        ensures
            match host.target {
                HostTarget::Local { auth_file_path } => r matches WritePlan::Local(p)
                    && local_plan_made(p, auth_file_path@, timestamp),
                HostTarget::Remote(remote) => r matches WritePlan::Remote(p) && remote_plan_made(
                    p,
                    remote,
                    timestamp,
                ),
            },
    {
        match &host.target {
            HostTarget::Local { auth_file_path } => WritePlan::Local(
                self.local_write_plan(auth_file_path.as_str(), timestamp),
            ),
            HostTarget::Remote(remote) => WritePlan::Remote(
                self.remote_write_plan(remote, timestamp),
            ),
        }
    }

    /// The commands that mirror `local_managed_data_dir` to `remote`.
    pub fn sync_managed_data_dir(&self, remote: &RemoteHost, local_managed_data_dir: &str) -> (r: SyncPlan)
        ensures
            ({
                let dir = remote_expr(remote.managed_data_dir@);
                &&& r.ssh_alias == remote.ssh_alias
                &&& r.prepare_script@ == bash_command("mkdir -p "@ + dir)
                &&& r.rsync_source@ == local_managed_data_dir@ + "/"@
                &&& r.rsync_destination@ == remote.ssh_alias@ + ":"@ + dir + "/"@
            }),
    {
        proof {
            reveal_strlit("mkdir -p ");
            reveal_strlit("/");
            reveal_strlit(":");
        }
        let dir = remote_managed_data_dir_expr(remote);
        let script = cat("mkdir -p ", dir.as_str());
        let dest = cat(cat(cat(remote.ssh_alias.as_str(), ":").as_str(), dir.as_str()).as_str(), "/");
        SyncPlan {
            ssh_alias: remote.ssh_alias.clone(),
            prepare_script: remote_bash(script.as_str()),
            rsync_source: cat(local_managed_data_dir, "/"),
            rsync_destination: dest,
        }
    }

    /// The remote script that prints the file at `remote_path`.
    pub fn cat_script(&self, remote_path: &str) -> (r: String)
        ensures
            r@ == "cat "@ + shell_quoted(remote_path@),
    {
        proof {
            reveal_strlit("cat ");
        }
        cat("cat ", shell_quote(remote_path).as_str())
    }

    /// The remote script that lists the saved profiles of `remote`, sorted.
    pub fn list_profiles_script(&self, remote: &RemoteHost) -> (r: String)
        ensures
            ({
                let dir = shell_quoted(remote_expr(join(remote.managed_data_dir@, "accounts"@)));
                r@ == "if [ -d "@ + dir + " ]; then find "@ + dir
                    + " -maxdepth 1 -type f -name '*.json' | sort; fi"@
            }),
    {
        proof {
            reveal_strlit("if [ -d ");
            reveal_strlit(" ]; then find ");
            reveal_strlit(" -maxdepth 1 -type f -name '*.json' | sort; fi");
        }
        let dir_expr = remote_managed_accounts_dir_expr(remote);
        let dir = shell_quote(dir_expr.as_str());
        let a = cat("if [ -d ", dir.as_str());
        let b = cat(a.as_str(), " ]; then find ");
        let c = cat(b.as_str(), dir.as_str());
        let r = cat(c.as_str(), " -maxdepth 1 -type f -name '*.json' | sort; fi");
        assert(r@ =~= "if [ -d "@ + dir@ + " ]; then find "@ + dir@
            + " -maxdepth 1 -type f -name '*.json' | sort; fi"@);
        r
    }

    /// The error text when no auth file could be read from `remote`: the host and
    /// each path tried with its failure, one per line.
    pub fn locate_failure_message(&self, remote: &RemoteHost, failures: &Vec<String>) -> (r: String)
        ensures
            r@ == "failed to locate remote auth file for "@ + remote.ssh_alias@ + ". tried:\n"@
                + joined_lines(views(failures@)),
    {
        proof {
            reveal_strlit("failed to locate remote auth file for ");
            reveal_strlit(". tried:\n");
            reveal_strlit("\n");
        }
        let head = cat(
            cat("failed to locate remote auth file for ", remote.ssh_alias.as_str()).as_str(),
            ". tried:\n",
        );
        let mut out = chars_of(head.as_str());
        let ghost fv = views(failures@);
        let ghost h = out@;
        let mut i: usize = 0;
        while i < failures.len()
            invariant
                i <= failures@.len(),
                fv == views(failures@),
                out@ == h + joined_lines(fv.take(i as int)),
            decreases failures@.len() - i,
        {
            let ghost before = out@;
            proof {
                assert(fv.take(i + 1).drop_last() =~= fv.take(i as int));
                assert(fv.take(i + 1).last() == fv[i as int]);
                assert(fv[i as int] == failures@[i as int]@);
            }
            if i > 0 {
                out.push('\n');
            }
            let line = chars_of(failures[i].as_str());
            push_all(&mut out, line.as_slice());
            proof {
                if i == 0 {
                    assert(fv.take(1).len() == 1);
                    assert(joined_lines(fv.take(1)) == fv.take(1)[0]);
                    assert(before =~= h);
                    assert(out@ =~= h + joined_lines(fv.take(1)));
                } else {
                    reveal_strlit("\n");
                    assert(joined_lines(fv.take(i + 1)) == joined_lines(fv.take(i as int)) + "\n"@
                        + fv[i as int]);
                    assert(out@ =~= before + "\n"@ + fv[i as int]);
                }
            }
            i = i + 1;
        }
        assert(fv.take(i as int) =~= fv);
        string_from(out.as_slice())
    }
}

/// The lines of `items` joined by newlines (`[..].join("\n")`).
pub open spec fn joined_lines(items: Seq<Seq<char>>) -> Seq<char>
    decreases items.len(),
{
    if items.len() == 0 {
        Seq::<char>::empty()
    } else if items.len() == 1 {
        items[0]
    } else {
        joined_lines(items.drop_last()) + "\n"@ + items.last()
    }
}

/// One failure line: the path tried and what went wrong.
pub fn failure_line(path: &str, error: &str) -> (r: String)
    ensures
        r@ == path@ + ": "@ + error@,
{
    proof {
        reveal_strlit(": ");
    }
    cat(cat(path, ": ").as_str(), error)
}

/// The next step of reading the active auth file of a remote host.
pub enum AuthReadStep {
    /// Run `script` on the host; it prints the candidate file at `path`.
    Try { path: String, script: String },
    /// Every candidate failed; `message` says where it looked.
    Fail { message: String },
}

/// The failure text of a remote host whose candidate files all failed.
pub open spec fn locate_failure_text(alias: Seq<char>, failures: Seq<Seq<char>>) -> Seq<char> {
    "failed to locate remote auth file for "@ + alias + ". tried:\n"@ + joined_lines(failures)
}

impl HostOperator {
    /// What to do next when reading the active auth file of `remote`, once the
    /// first `failures.len()` candidates failed with the given lines: try the
    /// next candidate, or give up naming every failure.
    pub fn read_remote_auth_step(&self, remote: &RemoteHost, failures: &Vec<String>) -> (r: AuthReadStep)
        ensures
            ({
                let c = auth_candidates(remote_expr(remote.auth_file_path@));
                if failures@.len() < c.len() {
                    r matches AuthReadStep::Try { path, script } && path@ == c[failures@.len() as int]
                        && script@ == "cat "@ + shell_quoted(path@)
                } else {
                    r matches AuthReadStep::Fail { message } && message@ == locate_failure_text(
                        remote.ssh_alias@,
                        views(failures@),
                    )
                }
            }),
    {
        let candidates = remote_auth_candidates(remote);
        proof {
            assert(views(candidates@).len() == candidates@.len());
        }
        if failures.len() < candidates.len() {
            let path = candidates[failures.len()].clone();
            proof {
                assert(views(candidates@)[failures@.len() as int] == candidates@[failures@.len() as int]@);
            }
            let script = self.cat_script(path.as_str());
            AuthReadStep::Try { path, script }
        } else {
            AuthReadStep::Fail { message: self.locate_failure_message(remote, failures) }
        }
    }
}

/// A remote path expression is its own expression: applying the rule twice
/// changes nothing.
pub proof fn lemma_remote_expr_idempotent(p: Seq<char>)
    ensures
        remote_expr(remote_expr(p)) == remote_expr(p),
{
    reveal_strlit("~/");
    let e = remote_expr(p);
    if !(starts_with(p, "~/"@) || starts_with(p, "/"@) || windows_absolute(p)) {
        assert(e.take(2) =~= "~/"@);
    }
}

/// What a POSIX shell reads from a word made only of quoted segments: a
/// single-quoted segment `'...'` stands for its contents, and so does a
/// double-quoted segment `"..."` holding none of `$`, `` ` `` and `\`. Any
/// other word, for which the shell would do more, reads as `None`.
pub open spec fn quoted_word_value(w: Seq<char>) -> Option<Seq<char>>
    decreases w.len(),
{
    if w.len() == 0 {
        Some(Seq::<char>::empty())
    } else {
        let body = w.drop_first();
        let j = index_of(body, w[0]);
        if (w[0] == '\'' || w[0] == '"') && j < body.len() && (w[0] == '"' ==> forall|k: int|
            0 <= k < j ==> !(#[trigger] body[k] == '$' || body[k] == '`' || body[k] == '\\')) {
            proof {
                lemma_index_of_bounds(body, w[0]);
            }
            match quoted_word_value(body.skip(j + 1)) {
                Some(rest) => Some(body.take(j) + rest),
                None => None,
            }
        } else {
            None
        }
    }
}

proof fn lemma_escape_quotes_concat(a: Seq<char>, b: Seq<char>)
    ensures
        escape_quotes(a + b) == escape_quotes(a) + escape_quotes(b),
    decreases b.len(),
{
    if b.len() == 0 {
        assert(a + b =~= a);
        assert(escape_quotes(a) + escape_quotes(b) =~= escape_quotes(a));
    } else {
        lemma_escape_quotes_concat(a, b.drop_last());
        assert((a + b).drop_last() =~= a + b.drop_last());
        assert((a + b).last() == b.last());
        let tail = if b.last() == '\'' {
            "'\"'\"'"@
        } else {
            seq![b.last()]
        };
        assert(escape_quotes(a) + escape_quotes(b.drop_last()) + tail =~= escape_quotes(a) + (
        escape_quotes(b.drop_last()) + tail));
    }
}

proof fn lemma_escape_quotes_plain(a: Seq<char>)
    requires
        forall|k: int| 0 <= k < a.len() ==> #[trigger] a[k] != '\'',
    ensures
        escape_quotes(a) == a,
    decreases a.len(),
{
    if a.len() > 0 {
        lemma_escape_quotes_plain(a.drop_last());
        assert(a.drop_last().push(a.last()) =~= a);
    }
}

/// Quoting keeps the text: the shell reads a quoted word back as the text that
/// was quoted, whatever quotes the text holds. So the script `bash -lc` runs is
/// the script given, and a path quoted for a command is the path itself (after
/// a leading `~/`, which is left outside the quotes for the shell to expand).
#[verifier::spinoff_prover]
#[verifier::rlimit(40)]
pub proof fn lemma_quoted_word_reads_back(s: Seq<char>)
    ensures
        quoted_word_value(quoted(s)) == Some(s),
        bash_command(s) == "bash -lc "@ + quoted(s),
        starts_with(s, "~/"@) ==> shell_quoted(s) == "~/"@ + quoted(s.skip(2)),
        !starts_with(s, "~/"@) ==> shell_quoted(s) == quoted(s),
    decreases s.len(),
{
    reveal_strlit("'");
    reveal_strlit("'\"'\"'");
    reveal_strlit("bash -lc '");
    reveal_strlit("bash -lc ");
    assert("bash -lc '"@ + escape_quotes(s) + "'"@ =~= "bash -lc "@ + ("'"@ + escape_quotes(s)
        + "'"@));
    lemma_index_of_bounds(s, '\'');
    let k = index_of(s, '\'');
    let w = quoted(s);
    let body = w.drop_first();
    assert(w =~= seq!['\''] + escape_quotes(s) + seq!['\'']);
    assert(w[0] == '\'');
    assert(quoted_word_value(Seq::<char>::empty()) == Some(Seq::<char>::empty()));
    if k == s.len() {
        lemma_escape_quotes_plain(s);
        assert(body =~= s.push('\''));
        lemma_index_of_at(body, '\'', s.len() as int);
        assert(body.take(s.len() as int) =~= s);
        assert(body.skip(s.len() as int + 1) =~= Seq::<char>::empty());
        assert(s + Seq::<char>::empty() =~= s);
        assert(quoted_word_value(w) == Some(s));
    } else {
        let a = s.take(k);
        let b = s.skip(k + 1);
        assert(s =~= a + (seq!['\''] + b));
        assert forall|i: int| 0 <= i < a.len() implies #[trigger] a[i] != '\'' by {
            assert(a[i] == s[i]);
        }
        lemma_escape_quotes_plain(a);
        lemma_escape_quotes_concat(a, seq!['\''] + b);
        lemma_escape_quotes_concat(seq!['\''], b);
        assert(seq!['\''].drop_last() =~= Seq::<char>::empty());
        assert(seq!['\''].last() == '\'');
        assert(escape_quotes(Seq::<char>::empty()) == Seq::<char>::empty());
        assert("'\"'\"'"@ =~= seq!['\'', '"', '\'', '"', '\'']);
        assert(escape_quotes(seq!['\'']) =~= seq!['\'', '"', '\'', '"', '\'']);
        let eb = escape_quotes(b);
        assert(body =~= a + (seq!['\'', '"', '\'', '"', '\''] + eb + seq!['\'']));
        lemma_index_of_at(body, '\'', a.len() as int);
        assert(body.take(a.len() as int) =~= a);
        let w2 = body.skip(a.len() as int + 1);
        assert(w2 =~= seq!['"', '\'', '"'] + quoted(b));
        let body2 = w2.drop_first();
        lemma_index_of_at(body2, '"', 1);
        assert(body2.take(1) =~= seq!['\'']);
        assert(body2.skip(2) =~= quoted(b));
        lemma_quoted_word_reads_back(b);
        assert(w2[0] == '"');
        assert(body2[0] == '\'');
        assert(quoted_word_value(w2) == Some(seq!['\''] + b));
        assert(a + (seq!['\''] + b) =~= s);
        assert(quoted_word_value(w) == Some(s));
    }
}

impl HostOperator {
    /// What an inspection of a remote host found, from its active auth file and
    /// the saved profile files read from it (path and contents, in listing
    /// order): each profile is named by its file stem.
    pub fn inspect_remote_host(
        &self,
        active_auth: AuthFile,
        profile_files: Vec<(String, AuthFile)>,
    ) -> (r: RemoteHostSnapshot)
        ensures
            r.active_auth == active_auth,
            r.profiles@.len() == profile_files@.len(),
            forall|i: int|
                0 <= i < profile_files@.len() ==> {
                    let p = #[trigger] r.profiles@[i];
                    &&& p.id@ == profile_label(profile_files@[i].0@)
                    &&& p.label@ == profile_label(profile_files@[i].0@)
                    &&& p.source_path == profile_files@[i].0
                    &&& p.auth_file == profile_files@[i].1
                },
    {
        let ghost files = profile_files@;
        let mut profiles: Vec<AccountProfile> = Vec::new();
        let mut rest = profile_files;
        let total = rest.len();
        let mut i: usize = 0;
        while rest.len() > 0
            invariant
                i + rest@.len() == files.len(),
                files.len() == total,
                rest@ == files.skip(i as int),
                profiles@.len() == i,
                forall|k: int|
                    0 <= k < i ==> {
                        let p = #[trigger] profiles@[k];
                        &&& p.id@ == profile_label(files[k].0@)
                        &&& p.label@ == profile_label(files[k].0@)
                        &&& p.source_path == files[k].0
                        &&& p.auth_file == files[k].1
                    },
            decreases rest@.len(),
        {
            let (path, auth) = rest.remove(0);
            proof {
                assert(files.skip(i as int)[0] == files[i as int]);
                assert(rest@ =~= files.skip(i + 1));
            }
            profiles.push(profile_from_file(path, auth));
            i = i + 1;
        }
        RemoteHostSnapshot { profiles, active_auth }
    }
}

/// A remote read looks first where a remote write puts the file: the write
/// moves the new file onto the host's path expression, and the first candidate
/// a read tries is that expression.
pub proof fn lemma_remote_read_tries_written_path_first(
    remote: RemoteHost,
    plan: RemoteWritePlan,
    timestamp: u64,
)
    requires
        remote_plan_made(plan, remote, timestamp),
    ensures
        ({
            let first = auth_candidates(remote_expr(remote.auth_file_path@))[0];
            plan.replace_script@ == bash_command(
                "mv "@ + remote_expr(remote.auth_file_path@) + ".shapeshifter.tmp"@ + " "@ + first,
            )
        }),
{
    let c = remote_expr(remote.auth_file_path@);
    let a = seq![c];
    assert(a.push("~/.local/share/opencode/auth.json"@)[0] == c);
    let b = auth_candidates(c);
    assert(b[0] == c);
    assert("mv "@ + (c + ".shapeshifter.tmp"@) + " "@ + c =~= "mv "@ + c + ".shapeshifter.tmp"@ + " "@
        + b[0]);
}

} // verus!
