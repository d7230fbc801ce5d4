//! Where accounts and hosts are kept: the default directories, the `.hosts` file
//! format, and the file names of saved profiles.
use vstd::prelude::*;
use crate::domain::{AccountProfile, AuthFile, HostTarget, ManagedHost, RemoteHost};
use crate::path::{
    ends_with_relative, ends_with_relative_chars, extension, extension_chars, file_stem,
    file_stem_chars, join, join_chars, join_str, parent, parent_chars, strip_prefix,
    strip_prefix_chars, drop_name, last_dot, is_absolute, file_name, lemma_trim_back_plain,
};
use crate::text::{
    chars_eq, chars_le, chars_le_exec, chars_of, lemma_chars_le_total, lemma_chars_le_trans,
    push_all, split_chars, split_on, split_once_ws, split_once_ws_chars, string_from, text, trim,
    trim_chars, trim_end_char, index_of, lemma_index_of_at, lemma_index_of_bounds, trim_start_char,
};
use crate::path::{strip_relative, trim_front, after_first_name, first_name};

verus! {

/// A missing or unusable directory override leaves the default in place.
pub open spec fn override_value(var: Option<Seq<char>>) -> Option<Seq<char>> {
    match var {
        Some(v) => if trim(v).len() > 0 {
            Some(trim(v))
        } else {
            None
        },
        None => None,
    }
}

/// The directories the tool looks in: the environment overrides, the user's home
/// and local-data directories, the platform, and which candidate auth
/// directories exist on disk.
pub struct StorageEnvironment {
    pub codex_dir_var: Option<String>,
    pub data_dir_var: Option<String>,
    pub home_dir: Option<String>,
    pub data_local_dir: Option<String>,
    pub windows: bool,
    pub existing_dirs: Vec<String>,
}

/// The character sequences of a sequence of strings.
pub open spec fn views(s: Seq<String>) -> Seq<Seq<char>> {
    s.map_values(|x: String| x@)
}

pub open spec fn opt_chars(o: Option<String>) -> Option<Seq<char>> {
    match o {
        Some(s) => Some(s@),
        None => None,
    }
}

pub open spec fn opt_str_chars(o: Option<&str>) -> Option<Seq<char>> {
    match o {
        Some(s) => Some(s@),
        None => None,
    }
}

/// `.local/share/opencode` under `home`.
pub open spec fn opencode_under(home: Seq<char>) -> Seq<char> {
    join(join(join(home, ".local"@), "share"@), "opencode"@)
}

/// Candidate auth directories, in order, before duplicates are dropped.
pub open spec fn raw_candidates(home: Option<Seq<char>>, data_local: Option<Seq<char>>) -> Seq<
    Seq<char>,
> {
    let from_home = match home {
        Some(h) => seq![join(h, ".codex"@), opencode_under(h)],
        None => Seq::<Seq<char>>::empty(),
    };
    let from_local = match data_local {
        Some(d) => seq![join(d, "opencode"@)],
        None => Seq::<Seq<char>>::empty(),
    };
    from_home + from_local
}

/// `s` with each element kept only at its first occurrence.
pub open spec fn dedup(s: Seq<Seq<char>>) -> Seq<Seq<char>>
    decreases s.len(),
{
    if s.len() == 0 {
        Seq::<Seq<char>>::empty()
    } else {
        let d = dedup(s.drop_last());
        if d.contains(s.last()) {
            d
        } else {
            d.push(s.last())
        }
    }
}

pub open spec fn candidate_dirs(home: Option<Seq<char>>, data_local: Option<Seq<char>>) -> Seq<
    Seq<char>,
> {
    dedup(raw_candidates(home, data_local))
}

pub open spec fn windows_default_dir(home: Option<Seq<char>>, data_local: Option<Seq<char>>) -> Seq<
    char,
> {
    match home {
        Some(h) => opencode_under(h),
        None => match data_local {
            Some(d) => join(d, "opencode"@),
            None => join("."@, "opencode"@),
        },
    }
}

pub open spec fn unix_default_dir(home: Option<Seq<char>>) -> Seq<char> {
    match home {
        Some(h) => join(h, ".codex"@),
        None => join("."@, ".codex"@),
    }
}

/// The first of `cands` that occurs in `existing`.
pub open spec fn first_existing(cands: Seq<Seq<char>>, existing: Seq<Seq<char>>) -> Option<
    Seq<char>,
>
    decreases cands.len(),
{
    if cands.len() == 0 {
        None
    } else if existing.contains(cands[0]) {
        Some(cands[0])
    } else {
        first_existing(cands.drop_first(), existing)
    }
}

pub open spec fn existing_view(env: StorageEnvironment) -> Seq<Seq<char>> {
    views(env.existing_dirs@)
}

/// The active auth directory: the override, else the first candidate that
/// exists, else the platform's default.
pub open spec fn default_auth_storage_dir(env: StorageEnvironment) -> Seq<char> {
    match override_value(opt_chars(env.codex_dir_var)) {
        Some(v) => v,
        None => match first_existing(
            candidate_dirs(opt_chars(env.home_dir), opt_chars(env.data_local_dir)),
            existing_view(env),
        ) {
            Some(c) => c,
            None => if env.windows {
                windows_default_dir(opt_chars(env.home_dir), opt_chars(env.data_local_dir))
            } else {
                unix_default_dir(opt_chars(env.home_dir))
            },
        },
    }
}

/// The managed data directory: the override, else `shapeshifter` in the local
/// data directory (or in `.`).
pub open spec fn default_managed_data_dir(env: StorageEnvironment) -> Seq<char> {
    match override_value(opt_chars(env.data_dir_var)) {
        Some(v) => v,
        None => match opt_chars(env.data_local_dir) {
            Some(d) => join(d, "shapeshifter"@),
            None => join("."@, "shapeshifter"@),
        },
    }
}

/// The remote auth path assumed when a `.hosts` line names none: the local auth
/// file, made relative to the home directory when it lies inside it.
pub open spec fn remote_auth_path_for(local_storage_dir: Seq<char>, home: Option<Seq<char>>) -> Seq<
    char,
> {
    let auth_path = join(local_storage_dir, "auth.json"@);
    match home {
        Some(h) => match strip_prefix(auth_path, h) {
            Some(rel) => rel,
            None => auth_path,
        },
        None => auth_path,
    }
}

/// The managed data directory assumed for a remote host from its auth file path.
pub open spec fn remote_managed_dir_for(local_managed_data_dir: Seq<char>, remote_auth: Seq<char>) -> Seq<
    char,
> {
    let auth_parent = match parent(remote_auth) {
        Some(p) => p,
        None => remote_auth,
    };
    if ends_with_relative(auth_parent, ".local/share/opencode"@) {
        match parent(auth_parent) {
            Some(pp) => join(pp, "shapeshifter"@),
            None => ".local/share/shapeshifter"@,
        }
    } else if ends_with_relative(auth_parent, "AppData/Local/opencode"@) {
        match parent(auth_parent) {
            Some(pp) => join(pp, "shapeshifter"@),
            None => "AppData/Local/shapeshifter"@,
        }
    } else {
        local_managed_data_dir
    }
}

/// The alias, auth file path and managed data directory that a `.hosts` line
/// describes: `alias [auth_path [managed_dir]]`, fields separated by whitespace.
pub open spec fn parse_host_line(
    line: Seq<char>,
    local_auth_dir: Seq<char>,
    local_managed_dir: Seq<char>,
    home: Option<Seq<char>>,
) -> (Seq<char>, Seq<char>, Seq<char>) {
    match split_once_ws(line) {
        Some((alias, rest)) if trim(rest).len() > 0 => {
            let r = trim(rest);
            match split_once_ws(r) {
                Some((auth, managed)) if trim(managed).len() > 0 => (
                    trim(alias),
                    trim(auth),
                    trim(managed),
                ),
                _ => (trim(alias), r, remote_managed_dir_for(local_managed_dir, r)),
            }
        },
        _ => {
            let auth = remote_auth_path_for(local_auth_dir, home);
            (trim(line), auth, remote_managed_dir_for(local_managed_dir, auth))
        },
    }
}

/// `h` is the remote host with the given alias, auth path and managed directory.
pub open spec fn is_remote_host(h: ManagedHost, fields: (Seq<char>, Seq<char>, Seq<char>)) -> bool {
    &&& h.id@ == fields.0
    &&& h.label@ == fields.0
    &&& h.target matches HostTarget::Remote(r) && r.ssh_alias@ == fields.0
        && r.auth_file_path@ == fields.1 && r.managed_data_dir@ == fields.2
}

/// `h` is the local host whose auth file is `auth_file`.
pub open spec fn is_local_host(h: ManagedHost, auth_file: Seq<char>) -> bool {
    &&& h.id@ == "local"@
    &&& h.label@ == "local"@
    &&& h.target matches HostTarget::Local { auth_file_path } && auth_file_path@ == auth_file
}

/// The lines of a `.hosts` file that name hosts: trimmed, neither empty nor
/// starting with `#`.
pub open spec fn host_lines(pieces: Seq<Seq<char>>) -> Seq<Seq<char>>
    decreases pieces.len(),
{
    if pieces.len() == 0 {
        Seq::<Seq<char>>::empty()
    } else {
        let prev = host_lines(pieces.drop_last());
        let t = trim(pieces.last());
        if t.len() > 0 && t[0] != '#' {
            prev.push(t)
        } else {
            prev
        }
    }
}

/// `r` lists, after the local host, one remote host per host line of `contents`,
/// read against the store directories `dirs` and the home directory `home`.
pub open spec fn remote_hosts_listed(
    r: Seq<ManagedHost>,
    dirs: (Seq<char>, Seq<char>),
    contents: Seq<char>,
    home: Option<Seq<char>>,
) -> bool {
    let lines = host_lines(split_on(contents, '\n'));
    &&& r.len() == 1 + lines.len()
    &&& forall|i: int|
        0 <= i < lines.len() ==> #[trigger] is_remote_host(
            r[i + 1],
            parse_host_line(lines[i], dirs.0, dirs.1, home),
        )
}

/// The label of a profile file: its stem, or `unknown`.
pub open spec fn profile_label(path: Seq<char>) -> Seq<char> {
    match file_stem(path) {
        Some(s) => s,
        None => "unknown"@,
    }
}

/// The directory entries that are profile files: those with extension `json`.
pub open spec fn profile_files(entries: Seq<Seq<char>>) -> Seq<Seq<char>>
    decreases entries.len(),
{
    if entries.len() == 0 {
        Seq::<Seq<char>>::empty()
    } else {
        let prev = profile_files(entries.drop_last());
        if extension(entries.last()) == Some("json"@) {
            prev.push(entries.last())
        } else {
            prev
        }
    }
}

/// Profiles ordered by label.
pub open spec fn sorted_by_label(s: Seq<AccountProfile>) -> bool {
    forall|i: int, j: int| 0 <= i < j < s.len() ==> chars_le(s[i].label@, s[j].label@)
}

/// Why a profile file name cannot be formed.
#[derive(Debug)]
pub enum StoreError {
    EmptyProfileName,
}

impl StoreError {
    /// The message shown for this error.
    pub fn message(&self) -> (r: String)
        ensures
            r@ == "profile name cannot be empty"@,
    {
        proof {
            reveal_strlit("profile name cannot be empty");
        }
        match self {
            StoreError::EmptyProfileName => text("profile name cannot be empty"),
        }
    }
}

// ---------------------------------------------------------------------------
/// The user's home directory, from `dirs::home_dir` (dirs 7), as text; a path
/// that is not valid UTF-8 is converted lossily. Nothing is claimed of the
/// result: it comes from the environment and the password database.
#[verifier::external_body]
fn home_dir() -> (r: Option<String>) {
    dirs::home_dir().map(|p| p.to_string_lossy().into_owned())
}

/// An optional text as an optional owned string.
pub fn opt_text(o: Option<&str>) -> (r: Option<String>)
    ensures
        opt_chars(r) == opt_str_chars(o),
{
    match o {
        Some(s) => Some(text(s)),
        None => None,
    }
}

/// Drops later duplicates, keeping the first occurrence of each path.
pub fn dedup_paths(paths: Vec<String>) -> (r: Vec<String>)
    ensures
        views(r@) == dedup(views(paths@)),
{
    let ghost pv = views(paths@);
    let mut deduped: Vec<String> = Vec::new();
    let mut i: usize = 0;
    while i < paths.len()
        invariant
            i <= paths@.len(),
            pv == views(paths@),
            views(deduped@) == dedup(pv.take(i as int)),
        decreases paths@.len() - i,
    {
        let ghost dv = views(deduped@);
        let mut found = false;
        let mut k: usize = 0;
        while k < deduped.len()
            invariant
                k <= deduped@.len(),
                i < paths@.len(),
                dv == views(deduped@),
                found == (exists|m: int| 0 <= m < k && dv[m] == paths@[i as int]@),
            decreases deduped@.len() - k,
        {
            if deduped[k] == paths[i] {
                assert(dv[k as int] == paths@[i as int]@);
                found = true;
            } else {
                assert(dv[k as int] != paths@[i as int]@);
            }
            k = k + 1;
        }
        proof {
            assert(pv.take(i + 1).drop_last() =~= pv.take(i as int));
            assert(pv.take(i + 1).last() == paths@[i as int]@);
            if found {
                let m = choose|m: int| 0 <= m < k && dv[m] == paths@[i as int]@;
                assert(dv.contains(paths@[i as int]@));
            } else {
                assert(!dv.contains(paths@[i as int]@));
            }
        }
        if !found {
            deduped.push(paths[i].clone());
            proof {
                assert(views(deduped@) =~= dv.push(paths@[i as int]@));
            }
        }
        i = i + 1;
    }
    proof {
        assert(pv.take(i as int) =~= pv);
    }
    deduped
}

/// `.local/share/opencode` under `home`.
fn opencode_dir(home: &str) -> (r: String)
    ensures
        r@ == opencode_under(home@),
{
    let a = join_str(home, ".local");
    let b = join_str(a.as_str(), "share");
    join_str(b.as_str(), "opencode")
}

/// The directories where an existing auth file is looked for, in order.
pub fn candidate_auth_storage_dirs(home_dir: Option<&str>, data_local_dir: Option<&str>) -> (r: Vec<
    String,
>)
    ensures
        views(r@) == candidate_dirs(
            opt_str_chars(home_dir),
            opt_str_chars(data_local_dir),
        ),
{
    let mut candidates: Vec<String> = Vec::new();
    if let Some(home) = home_dir {
        candidates.push(join_str(home, ".codex"));
        candidates.push(opencode_dir(home));
    }
    if let Some(local) = data_local_dir {
        candidates.push(join_str(local, "opencode"));
    }
    proof {
        reveal_strlit(".codex");
        reveal_strlit("opencode");
        assert(views(candidates@) =~= raw_candidates(
            opt_str_chars(home_dir),
            opt_str_chars(data_local_dir),
        ));
    }
    dedup_paths(candidates)
}

/// The auth directory used on Windows when none of the candidates exists.
pub fn windows_default_storage_dir(home_dir: Option<&str>, data_local_dir: Option<&str>) -> (r:
    String)
    ensures
        r@ == windows_default_dir(opt_str_chars(home_dir), opt_str_chars(data_local_dir)),
{
    if let Some(home) = home_dir {
        return opencode_dir(home);
    }
    if let Some(local) = data_local_dir {
        return join_str(local, "opencode");
    }
    join_str(".", "opencode")
}

/// The auth directory used elsewhere when none of the candidates exists.
pub fn unix_default_storage_dir(home_dir: Option<&str>) -> (r: String)
    ensures
        r@ == unix_default_dir(opt_str_chars(home_dir)),
{
    match home_dir {
        Some(home) => join_str(home, ".codex"),
        None => join_str(".", ".codex"),
    }
}

/// The trimmed override, unless it is empty.
fn override_of(var: &Option<String>) -> (r: Option<String>)
    ensures
        opt_chars(r) == override_value(opt_chars(*var)),
{
    match var {
        Some(v) => {
            let t = trim_chars(chars_of(v.as_str()).as_slice());
            if t.len() > 0 {
                Some(string_from(t.as_slice()))
            } else {
                None
            }
        },
        None => None,
    }
}

fn contains_string(list: &Vec<String>, s: &String) -> (r: bool)
    ensures
        r == views(list@).contains(s@),
{
    let ghost lv = views(list@);
    let mut k: usize = 0;
    while k < list.len()
        invariant
            k <= list@.len(),
            lv == views(list@),
            forall|m: int| 0 <= m < k ==> lv[m] != s@,
        decreases list@.len() - k,
    {
        if list[k] == *s {
            assert(lv[k as int] == s@);
            return true;
        }
        k = k + 1;
    }
    false
}

/// The active auth directory chosen for `env`.
pub fn auth_storage_dir_for(env: &StorageEnvironment) -> (r: String)
    ensures
        r@ == default_auth_storage_dir(*env),
{
    if let Some(v) = override_of(&env.codex_dir_var) {
        return v;
    }
    let home = match &env.home_dir {
        Some(h) => Some(h.as_str()),
        None => None,
    };
    let local = match &env.data_local_dir {
        Some(d) => Some(d.as_str()),
        None => None,
    };
    let candidates = candidate_auth_storage_dirs(home, local);
    let ghost cv = views(candidates@);
    assert(cv.skip(0) =~= cv);
    assert(opt_str_chars(home) == opt_chars(env.home_dir));
    assert(opt_str_chars(local) == opt_chars(env.data_local_dir));
    let mut i: usize = 0;
    while i < candidates.len()
        invariant
            opt_str_chars(home) == opt_chars(env.home_dir),
            opt_str_chars(local) == opt_chars(env.data_local_dir),
            override_value(opt_chars(env.codex_dir_var)) is None,
            cv == candidate_dirs(opt_str_chars(home), opt_str_chars(local)),
            i <= candidates@.len(),
            cv == views(candidates@),
            first_existing(cv, existing_view(*env)) == first_existing(
                cv.skip(i as int),
                existing_view(*env),
            ),
        decreases candidates@.len() - i,
    {
        assert(cv.skip(i as int).drop_first() =~= cv.skip(i + 1));
        assert(cv.skip(i as int)[0] == candidates@[i as int]@);
        if contains_string(&env.existing_dirs, &candidates[i]) {
            assert(existing_view(*env).contains(cv.skip(i as int)[0]));
            assert(first_existing(cv.skip(i as int), existing_view(*env)) == Some(cv[i as int]));
            let r = candidates[i].clone();
            assert(r@ == cv[i as int]);
            return r;
        }
        i = i + 1;
    }
    assert(cv.skip(i as int) =~= Seq::<Seq<char>>::empty());
    if env.windows {
        windows_default_storage_dir(home, local)
    } else {
        unix_default_storage_dir(home)
    }
}

/// The managed data directory chosen for `env`.
pub fn managed_data_dir_for(env: &StorageEnvironment) -> (r: String)
    ensures
        r@ == default_managed_data_dir(*env),
{
    if let Some(v) = override_of(&env.data_dir_var) {
        return v;
    }
    match &env.data_local_dir {
        Some(d) => join_str(d.as_str(), "shapeshifter"),
        None => join_str(".", "shapeshifter"),
    }
}

/// The remote auth path assumed for a local storage directory, given the home
/// directory.
pub fn remote_auth_path_with_home(local_storage_dir: &str, home: Option<&str>) -> (r: String)
    ensures
        r@ == remote_auth_path_for(local_storage_dir@, opt_str_chars(home)),
{
    let auth_path = join_str(local_storage_dir, "auth.json");
    match home {
        Some(h) => {
            let ap = chars_of(auth_path.as_str());
            let hc = chars_of(h);
            match strip_prefix_chars(ap.as_slice(), hc.as_slice()) {
                Some(rel) => string_from(rel.as_slice()),
                None => auth_path,
            }
        },
        None => auth_path,
    }
}

/// The remote auth path assumed for a local storage directory: relative to the
/// current home directory when it lies inside it.
pub fn default_remote_auth_path(local_storage_dir: &str) -> (r: String)
    ensures
        exists|home: Option<Seq<char>>| r@ == #[trigger] remote_auth_path_for(local_storage_dir@, home),
{
    let home = home_dir();
    let h = match &home {
        Some(s) => Some(s.as_str()),
        None => None,
    };
    remote_auth_path_with_home(local_storage_dir, h)
}

/// The managed data directory assumed for a remote host whose auth file is at
/// `remote_auth_file_path`.
pub fn default_remote_managed_data_dir(local_managed_data_dir: &str, remote_auth_file_path: &str) -> (r:
    String)
    ensures
        r@ == remote_managed_dir_for(local_managed_data_dir@, remote_auth_file_path@),
{
    let auth = chars_of(remote_auth_file_path);
    let auth_parent = match parent_chars(auth.as_slice()) {
        Some(p) => p,
        None => auth,
    };
    let opencode = chars_of(".local/share/opencode");
    let appdata = chars_of("AppData/Local/opencode");
    if ends_with_relative_chars(auth_parent.as_slice(), opencode.as_slice()) {
        match parent_chars(auth_parent.as_slice()) {
            Some(pp) => {
                let sh = chars_of("shapeshifter");
                proof {
                    reveal_strlit("shapeshifter");
                }
                string_from(join_chars(pp.as_slice(), sh.as_slice()).as_slice())
            },
            None => text(".local/share/shapeshifter"),
        }
    } else if ends_with_relative_chars(auth_parent.as_slice(), appdata.as_slice()) {
        match parent_chars(auth_parent.as_slice()) {
            Some(pp) => {
                let sh = chars_of("shapeshifter");
                string_from(join_chars(pp.as_slice(), sh.as_slice()).as_slice())
            },
            None => text("AppData/Local/shapeshifter"),
        }
    } else {
        text(local_managed_data_dir)
    }
}

fn remote_host(alias: &[char], auth: &[char], managed: &[char]) -> (r: ManagedHost)
    ensures
        is_remote_host(r, (alias@, auth@, managed@)),
{
    ManagedHost {
        id: string_from(alias),
        label: string_from(alias),
        target: HostTarget::Remote(
            RemoteHost {
                ssh_alias: string_from(alias),
                auth_file_path: string_from(auth),
                managed_data_dir: string_from(managed),
            },
        ),
    }
}

/// Reads one `.hosts` line, with `home` standing for the current home directory.
pub fn parse_remote_host_with_home(
    line: &str,
    local_auth_storage_dir: &str,
    local_managed_data_dir: &str,
    home: Option<&str>,
) -> (r: ManagedHost)
    ensures
        is_remote_host(
            r,
            parse_host_line(
                line@,
                local_auth_storage_dir@,
                local_managed_data_dir@,
                opt_str_chars(home),
            ),
        ),
{
    let lc = chars_of(line);
    if let Some((alias, rest)) = split_once_ws_chars(lc.as_slice()) {
        let r = trim_chars(rest.as_slice());
        if r.len() > 0 {
            let a = trim_chars(alias.as_slice());
            if let Some((auth, managed)) = split_once_ws_chars(r.as_slice()) {
                let m = trim_chars(managed.as_slice());
                if m.len() > 0 {
                    let au = trim_chars(auth.as_slice());
                    return remote_host(a.as_slice(), au.as_slice(), m.as_slice());
                }
            }
            let rs = string_from(r.as_slice());
            let md = default_remote_managed_data_dir(local_managed_data_dir, rs.as_str());
            let mdc = chars_of(md.as_str());
            return remote_host(a.as_slice(), r.as_slice(), mdc.as_slice());
        }
    }
    let auth = remote_auth_path_with_home(local_auth_storage_dir, home);
    let md = default_remote_managed_data_dir(local_managed_data_dir, auth.as_str());
    let t = trim_chars(lc.as_slice());
    let ac = chars_of(auth.as_str());
    let mdc = chars_of(md.as_str());
    remote_host(t.as_slice(), ac.as_slice(), mdc.as_slice())
}

/// Reads one `.hosts` line. Where the line names no auth path, the current home
/// directory decides it.
pub fn parse_remote_host(line: &str, local_auth_storage_dir: &str, local_managed_data_dir: &str) -> (r:
    ManagedHost)
    ensures
        exists|home: Option<Seq<char>>|
            is_remote_host(
                r,
                #[trigger] parse_host_line(line@, local_auth_storage_dir@, local_managed_data_dir@, home),
            ),
{
    let home = home_dir();
    let h = match &home {
        Some(s) => Some(s.as_str()),
        None => None,
    };
    parse_remote_host_with_home(line, local_auth_storage_dir, local_managed_data_dir, h)
}

/// Stores of saved profiles and of the hosts they can be activated on.
pub struct ProfileStore {
    active_auth_dir: String,
    managed_data_dir: String,
}

impl View for ProfileStore {
    type V = (Seq<char>, Seq<char>);

    closed spec fn view(&self) -> (Seq<char>, Seq<char>) {
        (self.active_auth_dir@, self.managed_data_dir@)
    }
}

pub open spec fn accounts_dir_of(managed: Seq<char>) -> Seq<char> {
    join(managed, "accounts"@)
}

impl ProfileStore {
    /// The store in the directories that `env` selects.
    pub fn new(env: &StorageEnvironment) -> (r: ProfileStore)
        ensures
            r@.0 == default_auth_storage_dir(*env),
            r@.1 == default_managed_data_dir(*env),
    {
        ProfileStore {
            active_auth_dir: auth_storage_dir_for(env),
            managed_data_dir: managed_data_dir_for(env),
        }
    }

    /// The store in the given directories.
    pub fn from_dirs(active_auth_dir: String, managed_data_dir: String) -> (r: ProfileStore)
        ensures
            r@ == (active_auth_dir@, managed_data_dir@),
    {
        ProfileStore { active_auth_dir, managed_data_dir }
    }

    /// The directory of the active auth file.
    pub fn auth_storage_dir(&self) -> (r: &str)
        ensures
            r@ == self@.0,
    {
        self.active_auth_dir.as_str()
    }

    /// The directory of the managed data.
    pub fn managed_data_dir(&self) -> (r: &str)
        ensures
            r@ == self@.1,
    {
        self.managed_data_dir.as_str()
    }

    /// The active `auth.json`.
    pub fn auth_file_path(&self) -> (r: String)
        ensures
            r@ == join(self@.0, "auth.json"@),
    {
        proof {
            reveal_strlit("auth.json");
        }
        join_str(self.active_auth_dir.as_str(), "auth.json")
    }

    /// The directory of saved profiles.
    pub fn accounts_dir(&self) -> (r: String)
        ensures
            r@ == accounts_dir_of(self@.1),
    {
        proof {
            reveal_strlit("accounts");
        }
        join_str(self.managed_data_dir.as_str(), "accounts")
    }

    /// The `.hosts` file listing remote hosts.
    pub fn hosts_file_path(&self) -> (r: String)
        ensures
            r@ == join(accounts_dir_of(self@.1), ".hosts"@),
    {
        proof {
            reveal_strlit(".hosts");
        }
        let a = self.accounts_dir();
        join_str(a.as_str(), ".hosts")
    }

    /// The local host, whose auth file is the active `auth.json`.
    pub fn local_host(&self) -> (r: ManagedHost)
        ensures
            is_local_host(r, join(self@.0, "auth.json"@)),
    {
        proof {
            reveal_strlit("local");
        }
        ManagedHost {
            id: text("local"),
            label: text("local"),
            target: HostTarget::Local { auth_file_path: self.auth_file_path() },
        }
    }

    /// The hosts: the local one first, then one per host line of the `.hosts`
    /// file (`None` when the file does not exist), with `home` standing for the
    /// current home directory.
    pub fn hosts_from_contents_with_home(&self, contents: Option<&str>, home: Option<&str>) -> (r:
        Vec<ManagedHost>)
        ensures
            r@.len() >= 1,
            is_local_host(r@[0], join(self@.0, "auth.json"@)),
            contents is None ==> r@.len() == 1,
            contents matches Some(c) ==> remote_hosts_listed(r@, self@, c@, opt_str_chars(home)),
    {
        let mut hosts: Vec<ManagedHost> = Vec::new();
        hosts.push(self.local_host());
        let c = match contents {
            Some(c) => c,
            None => return hosts,
        };
        let cs = chars_of(c);
        let pieces = split_chars(cs.as_slice(), '\n');
        let ghost pv = split_on(c@, '\n');
        let mut i: usize = 0;
        while i < pieces.len()
            invariant
                i <= pieces@.len(),
                pieces@.len() == pv.len(),
                pv == split_on(c@, '\n'),
                forall|k: int| 0 <= k < pieces@.len() ==> #[trigger] pieces@[k]@ == pv[k],
                hosts@.len() == 1 + host_lines(pv.take(i as int)).len(),
                is_local_host(hosts@[0], join(self@.0, "auth.json"@)),
                forall|k: int|
                    0 <= k < host_lines(pv.take(i as int)).len() ==> #[trigger] is_remote_host(
                        hosts@[k + 1],
                        parse_host_line(
                            host_lines(pv.take(i as int))[k],
                            self@.0,
                            self@.1,
                            opt_str_chars(home),
                        ),
                    ),
            decreases pieces@.len() - i,
        {
            proof {
                assert(pv.take(i + 1).drop_last() =~= pv.take(i as int));
                assert(pv.take(i + 1).last() == pieces@[i as int]@);
            }
            let t = trim_chars(pieces[i].as_slice());
            if t.len() > 0 && t[0] != '#' {
                let line = string_from(t.as_slice());
                let h = parse_remote_host_with_home(
                    line.as_str(),
                    self.active_auth_dir.as_str(),
                    self.managed_data_dir.as_str(),
                    home,
                );
                hosts.push(h);
            }
            i = i + 1;
        }
        proof {
            assert(pv.take(i as int) =~= pv);
        }
        hosts
    }

    /// The hosts listed by the `.hosts` file contents (`None` when the file does
    /// not exist), after the local host.
    pub fn hosts_from_contents(&self, contents: Option<&str>) -> (r: Vec<ManagedHost>)
        ensures
            r@.len() >= 1,
            is_local_host(r@[0], join(self@.0, "auth.json"@)),
            contents is None ==> r@.len() == 1,
            contents matches Some(c) ==> exists|home: Option<Seq<char>>|
                #[trigger] remote_hosts_listed(r@, self@, c@, home),
    {
        let home = home_dir();
        let h = match &home {
            Some(s) => Some(s.as_str()),
            None => None,
        };
        let r = self.hosts_from_contents_with_home(contents, h);
        proof {
            if let Some(c) = contents {
                assert(remote_hosts_listed(r@, self@, c@, opt_str_chars(h)));
            }
        }
        r
    }

    /// The file a profile named `profile_name` is saved in: `<name>.json` in the
    /// accounts directory, the name trimmed. An empty name is refused.
    pub fn profile_file_path(&self, profile_name: &str) -> (r: Result<String, StoreError>)
        ensures
            trim(profile_name@).len() == 0 <==> r is Err,
            r matches Ok(p) ==> p@ == join(accounts_dir_of(self@.1), trim(profile_name@) + ".json"@),
    {
        let t = trim_chars(chars_of(profile_name).as_slice());
        if t.len() == 0 {
            return Err(StoreError::EmptyProfileName);
        }
        let mut name = t;
        let ext = chars_of(".json");
        push_all(&mut name, ext.as_slice());
        let dir = self.accounts_dir();
        let dc = chars_of(dir.as_str());
        Ok(string_from(join_chars(dc.as_slice(), name.as_slice()).as_slice()))
    }
}

/// Whether a directory entry is a profile file: its extension is `json`.
pub fn is_profile_file(path: &str) -> (r: bool)
    ensures
        r == (extension(path@) == Some("json"@)),
{
    let pc = chars_of(path);
    let json = chars_of("json");
    proof {
        reveal_strlit("json");
    }
    match extension_chars(pc.as_slice()) {
        Some(e) => chars_eq(e.as_slice(), json.as_slice()),
        None => false,
    }
}

/// The entries of the accounts directory that are profile files, in order.
pub fn profile_file_paths(entries: &Vec<String>) -> (r: Vec<String>)
    ensures
        views(r@) == profile_files(views(entries@)),
{
    let ghost ev = views(entries@);
    let mut out: Vec<String> = Vec::new();
    let mut i: usize = 0;
    while i < entries.len()
        invariant
            i <= entries@.len(),
            ev == views(entries@),
            views(out@) == profile_files(ev.take(i as int)),
        decreases entries@.len() - i,
    {
        proof {
            assert(ev.take(i + 1).drop_last() =~= ev.take(i as int));
            assert(ev.take(i + 1).last() == entries@[i as int]@);
        }
        if is_profile_file(entries[i].as_str()) {
            let ghost before = views(out@);
            out.push(entries[i].clone());
            assert(views(out@) =~= before.push(entries@[i as int]@));
        }
        i = i + 1;
    }
    assert(ev.take(i as int) =~= ev);
    out
}

/// The profile saved in the file at `path`: its id and label are the file stem.
pub fn profile_from_file(path: String, auth_file: AuthFile) -> (r: AccountProfile)
    ensures
        r.id@ == profile_label(path@),
        r.label@ == profile_label(path@),
        r.source_path == path,
        r.auth_file == auth_file,
{
    let pc = chars_of(path.as_str());
    let label = match file_stem_chars(pc.as_slice()) {
        Some(stem) => string_from(stem.as_slice()),
        None => text("unknown"),
    };
    AccountProfile { id: label.clone(), label, source_path: path, auth_file }
}

proof fn lemma_insert_multiset<A>(s: Seq<A>, pos: int, x: A)
    requires
        0 <= pos <= s.len(),
    ensures
        s.insert(pos, x).to_multiset() == s.to_multiset().insert(x),
{
    broadcast use vstd::seq_lib::group_to_multiset_ensures;
    let a = s.take(pos);
    let b = s.skip(pos);
    assert(s.insert(pos, x) =~= a.push(x) + b);
    assert(s =~= a + b);
    vstd::seq_lib::lemma_multiset_commutative(a.push(x), b);
    vstd::seq_lib::lemma_multiset_commutative(a, b);
    assert(a.push(x).to_multiset() =~= a.to_multiset().insert(x));
}

/// The profiles of `s` whose label is `l`, in their order in `s`.
pub open spec fn with_label(s: Seq<AccountProfile>, l: Seq<char>) -> Seq<AccountProfile>
    decreases s.len(),
{
    if s.len() == 0 {
        Seq::empty()
    } else if s.last().label@ == l {
        with_label(s.drop_last(), l).push(s.last())
    } else {
        with_label(s.drop_last(), l)
    }
}

proof fn lemma_with_label_append(a: Seq<AccountProfile>, b: Seq<AccountProfile>, l: Seq<char>)
    ensures
        with_label(a + b, l) == with_label(a, l) + with_label(b, l),
    decreases b.len(),
{
    if b.len() == 0 {
        assert(a + b =~= a);
        assert(with_label(a, l) + with_label(b, l) =~= with_label(a, l));
    } else {
        lemma_with_label_append(a, b.drop_last(), l);
        assert((a + b).drop_last() =~= a + b.drop_last());
        assert((a + b).last() == b.last());
        if b.last().label@ == l {
            assert(with_label(a, l) + with_label(b.drop_last(), l).push(b.last()) =~= (with_label(
                a,
                l,
            ) + with_label(b.drop_last(), l)).push(b.last()));
        }
    }
}

proof fn lemma_with_label_none(s: Seq<AccountProfile>, l: Seq<char>)
    requires
        forall|k: int| 0 <= k < s.len() ==> (#[trigger] s[k]).label@ != l,
    ensures
        with_label(s, l) == Seq::<AccountProfile>::empty(),
    decreases s.len(),
{
    if s.len() > 0 {
        lemma_with_label_none(s.drop_last(), l);
    }
}

/// Inserting the first of `rest` into `out` at `pos`, where no later profile of
/// `out` has its label, keeps each label's profiles in their order.
proof fn lemma_with_label_step(
    out: Seq<AccountProfile>,
    pos: int,
    rest: Seq<AccountProfile>,
    l: Seq<char>,
)
    requires
        0 <= pos <= out.len(),
        rest.len() > 0,
        forall|k: int| pos <= k < out.len() ==> (#[trigger] out[k]).label@ != rest[0].label@,
    ensures
        with_label(out.insert(pos, rest[0]), l) + with_label(rest.drop_first(), l) == with_label(
            out,
            l,
        ) + with_label(rest, l),
{
    let p = rest[0];
    let a = out.take(pos);
    let b = out.skip(pos);
    let one = seq![p];
    assert(out =~= a + b);
    assert(out.insert(pos, p) =~= (a + one) + b);
    assert(rest =~= one + rest.drop_first());
    lemma_with_label_append(a + one, b, l);
    lemma_with_label_append(a, one, l);
    lemma_with_label_append(a, b, l);
    lemma_with_label_append(one, rest.drop_first(), l);
    assert(one.drop_last() =~= Seq::<AccountProfile>::empty());
    assert(with_label(one.drop_last(), l) == Seq::<AccountProfile>::empty());
    assert(one.last() == p);
    if p.label@ == l {
        assert forall|k: int| 0 <= k < b.len() implies (#[trigger] b[k]).label@ != l by {
            assert(b[k] == out[pos + k]);
        }
        lemma_with_label_none(b, l);
        assert(with_label(one, l) =~= Seq::<AccountProfile>::empty().push(p));
    } else {
        assert(with_label(one, l) =~= Seq::<AccountProfile>::empty());
    }
    let wa = with_label(a, l);
    let wb = with_label(b, l);
    let wo = with_label(one, l);
    let wr = with_label(rest.drop_first(), l);
    assert((wa + wo) + wb + wr =~= (wa + wb) + (wo + wr));
}

/// The profiles ordered by label, as `str::cmp` orders them. The sort is
/// stable: profiles with the same label keep their order.
pub fn sort_profiles_by_label(profiles: Vec<AccountProfile>) -> (r: Vec<AccountProfile>)
    ensures
        sorted_by_label(r@),
        r@.to_multiset() == profiles@.to_multiset(),
        forall|l: Seq<char>| #[trigger] with_label(r@, l) == with_label(profiles@, l),
{
    broadcast use vstd::seq_lib::group_to_multiset_ensures;
    let mut out: Vec<AccountProfile> = Vec::new();
    let mut rest = profiles;
    assert(out@.to_multiset() =~= vstd::multiset::Multiset::empty());
    while rest.len() > 0
        invariant
            sorted_by_label(out@),
            out@.to_multiset().add(rest@.to_multiset()) == profiles@.to_multiset(),
            forall|l: Seq<char>|
                #[trigger] with_label(out@, l) + with_label(rest@, l) == with_label(profiles@, l),
        decreases rest@.len(),
    {
        let ghost rest_before = rest@;
        let p = rest.remove(0);
        proof {
            rest_before.to_multiset_ensures();
            assert(rest_before.remove(0).to_multiset() =~= rest_before.to_multiset().remove(p));
        }
        let mut pos: usize = 0;
        while pos < out.len() && chars_le_exec(
            chars_of(out[pos].label.as_str()).as_slice(),
            chars_of(p.label.as_str()).as_slice(),
        )
            invariant
                pos <= out@.len(),
                forall|k: int| 0 <= k < pos ==> chars_le(#[trigger] out@[k].label@, p.label@),
            decreases out@.len() - pos,
        {
            pos = pos + 1;
        }
        let ghost out_before = out@;
        proof {
            if pos < out@.len() {
                lemma_chars_le_total(out@[pos as int].label@, p.label@);
                assert forall|k: int| pos <= k < out_before.len() implies (
                #[trigger] out_before[k]).label@ != p.label@ by {
                    if k > pos {
                        assert(chars_le(out_before[pos as int].label@, out_before[k].label@));
                    }
                }
            }
            assert forall|l: Seq<char>|
                #[trigger] with_label(out_before.insert(pos as int, p), l) + with_label(rest@, l)
                    == with_label(profiles@, l) by {
                lemma_with_label_step(out_before, pos as int, rest_before, l);
                assert(rest@ == rest_before.drop_first());
                assert(with_label(out_before, l) + with_label(rest_before, l) == with_label(
                    profiles@,
                    l,
                ));
            }
        }
        out.insert(pos, p);
        proof {
            lemma_insert_multiset(out_before, pos as int, p);
            assert forall|i: int, j: int| 0 <= i < j < out@.len() implies chars_le(
                out@[i].label@,
                out@[j].label@,
            ) by {
                if j < pos {
                } else if j == pos {
                } else if i < pos {
                } else if i == pos {
                    if pos < j - 1 {
                        lemma_chars_le_trans(
                            p.label@,
                            out_before[pos as int].label@,
                            out_before[j - 1].label@,
                        );
                    }
                } else {
                }
            }
            assert(out@.to_multiset().add(rest@.to_multiset()) =~= profiles@.to_multiset());
        }
    }
    assert(rest@.to_multiset() =~= vstd::multiset::Multiset::empty());
    assert(out@.to_multiset().add(rest@.to_multiset()) =~= out@.to_multiset());
    assert forall|l: Seq<char>| #[trigger] with_label(out@, l) == with_label(profiles@, l) by {
        assert(with_label(rest@, l) =~= Seq::<AccountProfile>::empty());
        assert(with_label(out@, l) + with_label(rest@, l) =~= with_label(out@, l));
    }
    out
}

/// The copies that fill an empty managed store from the legacy accounts
/// directory under the auth directory: each file name, from the legacy
/// directory into the managed accounts directory.
pub open spec fn legacy_copies(store: (Seq<char>, Seq<char>), names: Seq<Seq<char>>) -> Seq<
    (Seq<char>, Seq<char>),
> {
    Seq::new(
        names.len(),
        |i: int|
            (join(join(store.0, "accounts"@), names[i]), join(accounts_dir_of(store.1), names[i])),
    )
}

impl ProfileStore {
    /// The legacy accounts directory, under the auth directory.
    pub fn legacy_accounts_dir(&self) -> (r: String)
        ensures
            r@ == join(self@.0, "accounts"@),
    {
        proof {
            reveal_strlit("accounts");
        }
        join_str(self.active_auth_dir.as_str(), "accounts")
    }

    /// The copies that move the legacy profiles into the managed store, given
    /// whether the managed accounts directory is empty, whether the legacy one
    /// exists, and the names of the files in it: none unless the managed store
    /// is empty and the legacy directory exists.
    pub fn legacy_migration(
        &self,
        managed_is_empty: bool,
        legacy_exists: bool,
        legacy_file_names: &Vec<String>,
    ) -> (r: Vec<(String, String)>)
        ensures
            r@.map_values(|c: (String, String)| (c.0@, c.1@)) == if managed_is_empty
                && legacy_exists {
                legacy_copies(self@, views(legacy_file_names@))
            } else {
                Seq::empty()
            },
    {
        let mut out: Vec<(String, String)> = Vec::new();
        if !(managed_is_empty && legacy_exists) {
            assert(out@.map_values(|c: (String, String)| (c.0@, c.1@)) =~= Seq::<
                (Seq<char>, Seq<char>),
            >::empty());
            return out;
        }
        let legacy = self.legacy_accounts_dir();
        let managed = self.accounts_dir();
        let ghost names = views(legacy_file_names@);
        let mut i: usize = 0;
        while i < legacy_file_names.len()
            invariant
                i <= legacy_file_names@.len(),
                names == views(legacy_file_names@),
                legacy@ == join(self@.0, "accounts"@),
                managed@ == accounts_dir_of(self@.1),
                out@.map_values(|c: (String, String)| (c.0@, c.1@)) == legacy_copies(
                    self@,
                    names,
                ).take(i as int),
            decreases legacy_file_names@.len() - i,
        {
            let name = legacy_file_names[i].as_str();
            let ghost before = out@.map_values(|c: (String, String)| (c.0@, c.1@));
            out.push((join_str(legacy.as_str(), name), join_str(managed.as_str(), name)));
            proof {
                let lc = legacy_copies(self@, names);
                assert(names[i as int] == legacy_file_names@[i as int]@);
                assert(lc.take(i + 1) =~= lc.take(i as int).push(lc[i as int]));
                assert(out@.map_values(|c: (String, String)| (c.0@, c.1@)) =~= before.push(
                    lc[i as int],
                ));
                assert(out@.map_values(|c: (String, String)| (c.0@, c.1@)) =~= legacy_copies(
                    self@,
                    names,
                ).take(i + 1));
            }
            i = i + 1;
        }
        assert(legacy_copies(self@, names).take(i as int) =~= legacy_copies(self@, names));
        out
    }

    /// The legacy `.hosts` file and where it goes in the managed store.
    pub fn legacy_hosts_copy(&self) -> (r: (String, String))
        ensures
            r.0@ == join(join(self@.0, "accounts"@), ".hosts"@),
            r.1@ == join(accounts_dir_of(self@.1), ".hosts"@),
    {
        proof {
            reveal_strlit(".hosts");
        }
        let legacy = self.legacy_accounts_dir();
        (join_str(legacy.as_str(), ".hosts"), self.hosts_file_path())
    }
}

/// Dropping duplicates keeps every path once: the result has no repeats and
/// holds exactly the paths of the input.
pub proof fn lemma_dedup_paths(s: Seq<Seq<char>>)
    ensures
        forall|i: int, j: int| 0 <= i < j < dedup(s).len() ==> dedup(s)[i] != dedup(s)[j],
        forall|x: Seq<char>| dedup(s).contains(x) <==> s.contains(x),
    decreases s.len(),
{
    if s.len() > 0 {
        lemma_dedup_paths(s.drop_last());
        let d = dedup(s.drop_last());
        assert forall|x: Seq<char>| dedup(s).contains(x) <==> s.contains(x) by {
            vstd::seq_lib::lemma_seq_contains_after_push(d, s.last(), x);
            vstd::seq_lib::lemma_seq_contains_after_push(s.drop_last(), s.last(), x);
            assert(s.drop_last().push(s.last()) =~= s);
        }
        if !d.contains(s.last()) {
            assert forall|i: int, j: int| 0 <= i < j < dedup(s).len() implies dedup(s)[i] != dedup(
                s,
            )[j] by {
                if j == d.len() {
                    assert(d.contains(d[i]));
                }
            }
        }
    } else {
        assert(s =~= Seq::<Seq<char>>::empty());
    }
}

/// A name with no trailing separator keeps its last name when a directory with a
/// trailing separator (or none) stands before it.
proof fn lemma_drop_name_after_dir(a: Seq<char>, b: Seq<char>)
    requires
        a.len() == 0 || a.last() == '/',
        forall|i: int| 0 <= i < b.len() ==> b[i] != '/',
    ensures
        drop_name(a + b) == a,
    decreases b.len(),
{
    if b.len() == 0 {
        assert(a + b =~= a);
    } else {
        assert((a + b).drop_last() =~= a + b.drop_last());
        lemma_drop_name_after_dir(a, b.drop_last());
    }
}

/// The last `.` of `a.b` is the one between them when `b` has none.
proof fn lemma_last_dot_before(a: Seq<char>, b: Seq<char>)
    requires
        forall|i: int| 0 <= i < b.len() ==> b[i] != '.',
    ensures
        last_dot(a + seq!['.'] + b) == a.len(),
    decreases b.len(),
{
    if b.len() == 0 {
        assert(a + seq!['.'] + b =~= a.push('.'));
    } else {
        assert((a + seq!['.'] + b).drop_last() =~= a + seq!['.'] + b.drop_last());
        lemma_last_dot_before(a, b.drop_last());
    }
}

/// A profile saved under a name is listed under that name: the file the store
/// writes for it has the extension `json`, so listing picks it up, and its stem,
/// the label it is listed with, is the trimmed name. This holds for every name
/// that is not blank and holds no path separator.
pub proof fn lemma_saved_profile_listed_by_name(managed: Seq<char>, name: Seq<char>)
    requires
        trim(name).len() > 0,
        forall|i: int| 0 <= i < trim(name).len() ==> trim(name)[i] != '/',
    ensures
        extension(join(accounts_dir_of(managed), trim(name) + ".json"@)) == Some("json"@),
        profile_label(join(accounts_dir_of(managed), trim(name) + ".json"@)) == trim(name),
{
    reveal_strlit(".json");
    reveal_strlit("json");
    let n = trim(name);
    let dir = accounts_dir_of(managed);
    let part = n + ".json"@;
    let d = if dir.len() == 0 || dir.last() == '/' {
        dir
    } else {
        dir + seq!['/']
    };
    assert(!is_absolute(part));
    let p = join(dir, part);
    assert(p =~= d + part);
    assert forall|i: int| 0 <= i < part.len() implies part[i] != '/' by {
        if i >= n.len() {
            assert(part[i] == ".json"@[i - n.len()]);
        }
    }
    lemma_drop_name_after_dir(d, part);
    assert(p.last() == 'n');
    lemma_trim_back_plain(p);
    assert(part.len() >= 5);
    assert(part != seq!['.'] && part != seq!['.', '.']);
    assert(p.skip(d.len() as int) =~= part);
    assert(file_name(p) == Some(part));
    assert(part =~= n + seq!['.'] + "json"@);
    lemma_last_dot_before(n, "json"@);
    assert(part.take(n.len() as int) =~= n);
    assert(part.skip(n.len() as int + 1) =~= "json"@);
}

} // verus!

verus! {

/// `b` is a run of names, each after a single separator: no empty component,
/// no `.` component, no trailing separator. `/home/u` is one; so is the empty
/// path.
pub open spec fn slash_names(b: Seq<char>) -> bool
    decreases b.len(),
{
    if b.len() == 0 {
        true
    } else {
        let rest = b.drop_first();
        let n = index_of(rest, '/');
        proof {
            lemma_index_of_bounds(rest, '/');
        }
        &&& b[0] == '/'
        &&& n > 0
        &&& rest.take(n) != seq!['.']
        &&& slash_names(rest.skip(n))
    }
}

/// `x` is a relative path that reads as it stands: it starts with neither a
/// separator nor a `.` component and ends with neither a separator nor a `.`
/// component.
pub open spec fn plain_relative(x: Seq<char>) -> bool {
    &&& x.len() > 0
    &&& x[0] != '/'
    &&& !(x[0] == '.' && (x.len() == 1 || x[1] == '/'))
    &&& x.last() != '/'
    &&& !(x.len() >= 2 && x.last() == '.' && x[x.len() - 2] == '/')
}

proof fn lemma_slash_names_last(b: Seq<char>)
    requires
        slash_names(b),
        b.len() > 0,
    ensures
        b.last() != '/',
    decreases b.len(),
{
    let rest = b.drop_first();
    let n = index_of(rest, '/');
    lemma_index_of_bounds(rest, '/');
    let b2 = rest.skip(n);
    if b2.len() > 0 {
        lemma_slash_names_last(b2);
        assert(b.last() == b2.last());
    } else {
        assert(n == rest.len());
        assert(b.last() == rest[n - 1]);
    }
}

proof fn lemma_strip_names(b: Seq<char>, x: Seq<char>)
    requires
        slash_names(b),
        plain_relative(x),
    ensures
        strip_relative(b + seq!['/'] + x, b) == Some(x),
    decreases b.len(),
{
    let p = b + seq!['/'] + x;
    if b.len() == 0 {
        assert(p =~= seq!['/'] + x);
        assert(trim_start_char(Seq::<char>::empty(), '/') == Seq::<char>::empty());
        assert(trim_front(b) == Seq::<char>::empty());
        assert(p.drop_first() =~= x);
        assert(trim_start_char(x, '/') == x);
        assert(trim_start_char(p, '/') == x);
        assert(trim_front(p) == x);
        crate::path::lemma_trim_back_plain(x);
    } else {
        let rest = b.drop_first();
        let n = index_of(rest, '/');
        lemma_index_of_bounds(rest, '/');
        let b2 = rest.skip(n);
        let prest = p.drop_first();
        assert(prest =~= rest + seq!['/'] + x);
        assert(rest[0] != '/');
        assert(trim_start_char(rest, '/') == rest);
        assert(trim_start_char(b, '/') == rest);
        assert(rest.take(n) != seq!['.']);
        if rest[0] == '.' && (rest.len() == 1 || rest[1] == '/') {
            assert(n == 1);
            assert(rest.take(n) =~= seq!['.']);
        }
        assert(trim_front(b) == rest);
        assert(prest[0] == rest[0]);
        assert(trim_start_char(prest, '/') == prest);
        assert(trim_start_char(p, '/') == prest);
        if prest[0] == '.' && (prest.len() == 1 || prest[1] == '/') {
            if rest.len() > 1 {
                assert(prest[1] == rest[1]);
            }
            assert(n == 1);
            assert(rest.take(n) =~= seq!['.']);
        }
        assert(trim_front(p) == prest);
        assert forall|k: int| 0 <= k < n implies #[trigger] prest[k] != '/' by {
            assert(prest[k] == rest[k]);
        }
        lemma_index_of_at(prest, '/', n);
        assert(first_name(prest) =~= rest.take(n));
        assert(first_name(rest) == rest.take(n));
        assert(after_first_name(rest) == b2);
        assert(after_first_name(prest) =~= b2 + seq!['/'] + x);
        lemma_strip_names(b2, x);
    }
}

/// An auth directory inside the home directory is read on a remote host
/// relative to that home: for a home made of plain names and an auth directory
/// `home/rel`, the auth file assumed for a host line that names only an alias
/// is `rel/auth.json`, which the remote shell finds under its own home.
pub proof fn lemma_auth_path_relative_to_home(
    home: Seq<char>,
    rel: Seq<char>,
    line: Seq<char>,
    local_managed_dir: Seq<char>,
)
    requires
        home.len() > 0,
        slash_names(home),
        plain_relative(rel),
        split_once_ws(line) is None,
    ensures
        remote_auth_path_for(join(home, rel), Some(home)) == rel + seq!['/'] + "auth.json"@,
        parse_host_line(line, join(home, rel), local_managed_dir, Some(home)).1 == rel + seq!['/']
            + "auth.json"@,
{
    reveal_strlit("auth.json");
    lemma_slash_names_last(home);
    let dir = join(home, rel);
    assert(dir == home + seq!['/'] + rel);
    let x = rel + seq!['/'] + "auth.json"@;
    assert(join(dir, "auth.json"@) =~= home + seq!['/'] + x);
    assert(x.last() == 'n');
    assert(x[0] == rel[0]);
    if rel.len() == 1 {
        assert(x[1] == '/');
    } else {
        assert(x[1] == rel[1]);
    }
    assert(plain_relative(x));
    lemma_strip_names(home, x);
    assert(home[0] == '/');
    assert(strip_prefix(join(dir, "auth.json"@), home) == Some(x));
}

} // verus!
