//! Self-update decisions: version comparison, the release asset for this
//! platform, and what an available release offers.
use vstd::prelude::*;
use crate::text::{
    chars_of, parse_u64, parse_u64_chars, split_chars, split_on, str_eq, string_from, text,
    trim_start_char, trim_start_char_chars, lemma_split_on_len,
};

verus! {

/// A release that is newer than the running program.
pub struct ReleaseInfo {
    pub tag: String,
    pub name: String,
    pub download_url: Option<String>,
}

impl Clone for ReleaseInfo {
    fn clone(&self) -> (r: Self)
        ensures
            r == *self,
    {
        ReleaseInfo {
            tag: self.tag.clone(),
            name: self.name.clone(),
            download_url: match &self.download_url {
                Some(u) => Some(u.clone()),
                None => None,
            },
        }
    }
}

/// One downloadable file of a GitHub release.
pub struct GhAsset {
    pub name: String,
    pub browser_download_url: String,
}

/// The latest GitHub release as the API reports it.
pub struct GhRelease {
    pub tag_name: String,
    pub name: Option<String>,
    pub assets: Vec<GhAsset>,
}

/// The version of this program.
pub fn current_version() -> (r: &'static str)
    ensures
        r@ == "0.1.0"@,
{
    "0.1.0"
}

/// The name of the release asset that holds the terminal program for the
/// platform (`windows` or not).
pub open spec fn asset_name_for(windows: bool) -> Seq<char> {
    if windows {
        "shapeshifter-windows-x86_64-tui.exe"@
    } else {
        "shapeshifter-linux-x86_64-tui"@
    }
}

/// The name of the release asset for the platform.
pub fn tui_asset_name(windows: bool) -> (r: String)
    ensures
        r@ == asset_name_for(windows),
{
    proof {
        reveal_strlit("shapeshifter-windows-x86_64-tui.exe");
        reveal_strlit("shapeshifter-linux-x86_64-tui");
    }
    if windows {
        text("shapeshifter-windows-x86_64-tui.exe")
    } else {
        text("shapeshifter-linux-x86_64-tui")
    }
}

/// The part of a version before its first `-`.
pub open spec fn version_core(s: Seq<char>) -> Seq<char> {
    split_on(s, '-')[0]
}

/// A version read as up to three dot-separated numbers, missing ones zero;
/// `None` when a part is not a number or there are more than three.
pub open spec fn parse_version(s: Seq<char>) -> Option<(u64, u64, u64)> {
    let parts = split_on(version_core(s), '.');
    if parts.len() == 1 {
        match parse_u64(parts[0]) {
            Some(a) => Some((a, 0u64, 0u64)),
            None => None,
        }
    } else if parts.len() == 2 {
        match (parse_u64(parts[0]), parse_u64(parts[1])) {
            (Some(a), Some(b)) => Some((a, b, 0u64)),
            _ => None,
        }
    } else if parts.len() == 3 {
        match (parse_u64(parts[0]), parse_u64(parts[1]), parse_u64(parts[2])) {
            (Some(a), Some(b), Some(c)) => Some((a, b, c)),
            _ => None,
        }
    } else {
        None
    }
}

/// `a > b` in the lexicographic order of triples.
pub open spec fn triple_gt(a: (u64, u64, u64), b: (u64, u64, u64)) -> bool {
    a.0 > b.0 || (a.0 == b.0 && (a.1 > b.1 || (a.1 == b.1 && a.2 > b.2)))
}

/// `remote` is newer than `current`: by number where both read as versions,
/// else whenever they differ.
pub open spec fn newer(remote: Seq<char>, current: Seq<char>) -> bool {
    match (parse_version(remote), parse_version(current)) {
        (Some(r), Some(c)) => triple_gt(r, c),
        _ => remote != current,
    }
}

/// A version read as up to three numbers.
pub fn parse_version_of(s: &str) -> (r: Option<(u64, u64, u64)>)
    ensures
        r == parse_version(s@),
{
    let pieces = split_chars(chars_of(s).as_slice(), '-');
    proof {
        lemma_split_on_len(s@, '-');
    }
    let core = &pieces[0];
    let parts = split_chars(core.as_slice(), '.');
    proof {
        lemma_split_on_len(core@, '.');
    }
    let n = parts.len();
    if n == 1 {
        match parse_u64_chars(parts[0].as_slice()) {
            Some(a) => Some((a, 0, 0)),
            None => None,
        }
    } else if n == 2 {
        let a = parse_u64_chars(parts[0].as_slice());
        let b = parse_u64_chars(parts[1].as_slice());
        match (a, b) {
            (Some(a), Some(b)) => Some((a, b, 0)),
            _ => None,
        }
    } else if n == 3 {
        let a = parse_u64_chars(parts[0].as_slice());
        let b = parse_u64_chars(parts[1].as_slice());
        let c = parse_u64_chars(parts[2].as_slice());
        match (a, b, c) {
            (Some(a), Some(b), Some(c)) => Some((a, b, c)),
            _ => None,
        }
    } else {
        None
    }
}

/// Whether `remote` is newer than `current`.
pub fn is_newer(remote: &str, current: &str) -> (r: bool)
    ensures
        r == newer(remote@, current@),
{
    match (parse_version_of(remote), parse_version_of(current)) {
        (Some(r), Some(c)) => r.0 > c.0 || (r.0 == c.0 && (r.1 > c.1 || (r.1 == c.1 && r.2 > c.2))),
        _ => !str_eq(remote, current),
    }
}

/// The first asset named `name`, as an index.
pub open spec fn first_asset_named(assets: Seq<GhAsset>, name: Seq<char>) -> Option<int>
    decreases assets.len(),
{
    if assets.len() == 0 {
        None
    } else {
        match first_asset_named(assets.drop_last(), name) {
            Some(i) => Some(i),
            None => if assets.last().name@ == name {
                Some(assets.len() - 1)
            } else {
                None
            },
        }
    }
}

/// What the latest release offers to a program at version `current` on the
/// platform: nothing unless its tag (leading `v`s removed) is newer, else its
/// tag, its name (empty if none) and the address of the platform's asset.
pub open spec fn offered_release(r: Option<ReleaseInfo>, release: GhRelease, current: Seq<char>, windows: bool) -> bool {
    if !newer(trim_start_char(release.tag_name@, 'v'), current) {
        r is None
    } else {
        r matches Some(info) && info.tag == release.tag_name && info.name@ == match release.name {
            Some(n) => n@,
            None => Seq::<char>::empty(),
        } && match first_asset_named(release.assets@, asset_name_for(windows)) {
            Some(i) => info.download_url matches Some(u) && u@
                == release.assets@[i].browser_download_url@,
            None => info.download_url is None,
        }
    }
}

/// What the latest release offers to a program at version `current`.
pub fn release_update(release: GhRelease, current: &str, windows: bool) -> (r: Option<ReleaseInfo>)
    ensures
        offered_release(r, release, current@, windows),
{
    let remote_ver = string_from(
        trim_start_char_chars(chars_of(release.tag_name.as_str()).as_slice(), 'v').as_slice(),
    );
    if !is_newer(remote_ver.as_str(), current) {
        return None;
    }
    let asset_name = tui_asset_name(windows);
    let ghost assets = release.assets@;
    let mut download_url: Option<String> = None;
    let mut i: usize = 0;
    while i < release.assets.len()
        invariant
            i <= assets.len(),
            assets == release.assets@,
            asset_name@ == asset_name_for(windows),
            match first_asset_named(assets.take(i as int), asset_name@) {
                Some(k) => download_url matches Some(u) && u@ == assets[k].browser_download_url@,
                None => download_url is None,
            },
            first_asset_named(assets.take(i as int), asset_name@) matches Some(k) ==> 0 <= k < i,
        decreases assets.len() - i,
    {
        proof {
            assert(assets.take(i + 1).drop_last() =~= assets.take(i as int));
        }
        if download_url.is_none() && str_eq(
            release.assets[i].name.as_str(),
            asset_name.as_str(),
        ) {
            download_url = Some(release.assets[i].browser_download_url.clone());
        }
        i = i + 1;
    }
    assert(assets.take(i as int) =~= assets);
    let name = match release.name {
        Some(n) => n,
        None => String::new(),
    };
    Some(ReleaseInfo { tag: release.tag_name, name, download_url })
}

/// No version is newer than itself.
pub proof fn lemma_is_newer_irreflexive(v: Seq<char>)
    ensures
        !newer(v, v),
{
}

/// Of two versions that both read as numbers, at most one is newer than the
/// other.
pub proof fn lemma_is_newer_asymmetric(a: Seq<char>, b: Seq<char>)
    requires
        parse_version(a) is Some,
        parse_version(b) is Some,
    ensures
        newer(a, b) ==> !newer(b, a),
{
}

/// Among versions that read as numbers, being newer is transitive.
pub proof fn lemma_is_newer_transitive(a: Seq<char>, b: Seq<char>, c: Seq<char>)
    requires
        parse_version(a) is Some,
        parse_version(b) is Some,
        parse_version(c) is Some,
        newer(a, b),
        newer(b, c),
    ensures
        newer(a, c),
{
}

/// Versions that read as numbers are ordered totally: of two different
/// readings, one is newer.
pub proof fn lemma_is_newer_total(a: Seq<char>, b: Seq<char>)
    requires
        parse_version(a) is Some,
        parse_version(b) is Some,
        parse_version(a) != parse_version(b),
    ensures
        newer(a, b) || newer(b, a),
{
}

} // verus!
