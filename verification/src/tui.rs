//! The state of the terminal interface: selection, search, marks, modals, and
//! the jobs its commands start.
use vstd::prelude::*;
use crate::domain::{AccountProfile, HostTarget, LimitsSnapshotSet, ManagedHost};
use crate::interop::{lowercase, to_lowercase_text};
use crate::session::{
    is_remote_at, job_operation, message_applied, BusyOperation, Job, MarkSet, NoticeKind,
    OperationNotice, SessionCore, WorkerMessage, AppSnapshot, snapshot_applied, host_view_refreshed,
    toggled,
};
use crate::text::{
    chars_of, contains, contains_chars, push_all, string_from, text, trim, trim_chars, decimal,
    u64_decimal,
};
use crate::updater::ReleaseInfo;

verus! {

/// A dialog over the main view.
#[derive(Debug, Clone, Copy, PartialEq, Eq, Structural)]
pub enum Modal {
    DeleteConfirm,
    Import,
    Help,
    UpdateConfirm,
}

/// The part of the screen that takes the keys.
#[derive(Debug, Clone, Copy, PartialEq, Eq, Structural)]
pub enum FocusArea {
    HostSelector,
    ProfileList,
    ActionBar,
}

/// What the update worker reports.
pub enum UpdateMessage {
    /// The check finished: a newer release, or none.
    CheckResult(Option<ReleaseInfo>),
    /// The download finished, or failed with the given message.
    DownloadComplete(Result<(), String>),
}

/// The first position of `x` in `v`.
pub open spec fn position_in(v: Seq<usize>, x: usize) -> Option<int>
    decreases v.len(),
{
    if v.len() == 0 {
        None
    } else if v[0] == x {
        Some(0)
    } else {
        match position_in(v.drop_first(), x) {
            Some(i) => Some(i + 1),
            None => None,
        }
    }
}

/// The selection after moving down the visible list `v` from `sel` (from the
/// top when `sel` is not visible), wrapping around.
pub open spec fn next_selection(v: Seq<usize>, sel: usize) -> usize {
    if v.len() == 0 {
        sel
    } else {
        let p = match position_in(v, sel) {
            Some(i) => i,
            None => 0,
        };
        v[(p + 1) % (v.len() as int)]
    }
}

/// The selection after moving up the visible list `v` from `sel` (from the top
/// when `sel` is not visible), wrapping around.
pub open spec fn prev_selection(v: Seq<usize>, sel: usize) -> usize {
    if v.len() == 0 {
        sel
    } else {
        let p = match position_in(v, sel) {
            Some(i) => i,
            None => 0,
        };
        if p == 0 {
            v[v.len() - 1]
        } else {
            v[p - 1]
        }
    }
}

/// The indices below `n`, in order.
pub open spec fn in_bounds(f: Seq<usize>, n: int) -> Seq<usize>
    decreases f.len(),
{
    if f.len() == 0 {
        f
    } else if f.last() < n {
        in_bounds(f.drop_last(), n).push(f.last())
    } else {
        in_bounds(f.drop_last(), n)
    }
}

/// The profiles shown: all of them without a search, else those the search
/// matched.
pub open spec fn visible_of(query: Seq<char>, filtered: Seq<usize>, n: int) -> Seq<usize> {
    if query.len() == 0 {
        Seq::new(n as nat, |i: int| i as usize)
    } else {
        in_bounds(filtered, n)
    }
}

/// The indices among the first `n` profiles whose lowercased label contains
/// `lq`.
pub open spec fn matching(profiles: Seq<AccountProfile>, lq: Seq<char>, n: int) -> Seq<usize>
    decreases n,
{
    if n <= 0 {
        Seq::empty()
    } else if contains(lowercase(profiles[n - 1].label@), lq) {
        matching(profiles, lq, n - 1).push((n - 1) as usize)
    } else {
        matching(profiles, lq, n - 1)
    }
}

/// The indices a search for `query` matches, none for an empty query.
pub open spec fn filter_for(profiles: Seq<AccountProfile>, query: Seq<char>) -> Seq<usize> {
    let lq = lowercase(query);
    if lq.len() == 0 {
        Seq::empty()
    } else {
        matching(profiles, lq, profiles.len() as int)
    }
}

/// The label shown for a host: the machine's name (or the host's label) marked
/// `*L` for the local host, the SSH alias marked `*R` for a remote one.
pub open spec fn tui_host_label(host: ManagedHost, hostname: Option<Seq<char>>) -> Seq<char> {
    match host.target {
        HostTarget::Local { .. } => {
            let name = match hostname {
                Some(n) => n,
                None => host.label@,
            };
            name + " *L"@
        },
        HostTarget::Remote(r) => r.ssh_alias@ + " *R"@,
    }
}

/// The label shown for a host; `hostname` is the machine's name where known.
pub fn host_display_label(host: &ManagedHost, hostname: Option<&str>) -> (r: String)
    ensures
        r@ == tui_host_label(*host, match hostname {
            Some(n) => Some(n@),
            None => None,
        }),
{
    proof {
        reveal_strlit(" *L");
        reveal_strlit(" *R");
    }
    match &host.target {
        HostTarget::Local { .. } => {
            let mut out = match hostname {
                Some(n) => chars_of(n),
                None => chars_of(host.label.as_str()),
            };
            push_all(&mut out, chars_of(" *L").as_slice());
            string_from(out.as_slice())
        },
        HostTarget::Remote(remote) => {
            let mut out = chars_of(remote.ssh_alias.as_str());
            push_all(&mut out, chars_of(" *R").as_slice());
            string_from(out.as_slice())
        },
    }
}

/// The machine's name from the contents of `/etc/hostname`: trimmed, and none
/// when that leaves nothing.
pub fn hostname_from(contents: Option<&str>) -> (r: Option<String>)
    ensures
        match contents {
            Some(c) => if trim(c@).len() > 0 {
                r matches Some(n) && n@ == trim(c@)
            } else {
                r is None
            },
            None => r is None,
        },
{
    match contents {
        Some(c) => {
            let t = trim_chars(chars_of(c).as_slice());
            if t.len() > 0 {
                Some(string_from(t.as_slice()))
            } else {
                None
            }
        },
        None => None,
    }
}

proof fn lemma_position_in_at(v: Seq<usize>, x: usize, i: int)
    requires
        0 <= i <= v.len(),
        forall|k: int| 0 <= k < i ==> #[trigger] v[k] != x,
    ensures
        i < v.len() && v[i] == x ==> position_in(v, x) == Some(i),
        i == v.len() ==> position_in(v, x) is None,
    decreases i,
{
    if i > 0 {
        assert forall|k: int| 0 <= k < i - 1 implies #[trigger] v.drop_first()[k] != x by {
            assert(v.drop_first()[k] == v[k + 1]);
        }
        lemma_position_in_at(v.drop_first(), x, i - 1);
    }
}

/// In a list without repeats, the position of the element at `i` is `i`.
proof fn lemma_position_in_distinct(v: Seq<usize>, i: int)
    requires
        0 <= i < v.len(),
        forall|a: int, b: int| 0 <= a < b < v.len() ==> v[a] != v[b],
    ensures
        position_in(v, v[i]) == Some(i),
{
    assert forall|k: int| 0 <= k < i implies #[trigger] v[k] != v[i] by {}
    lemma_position_in_at(v, v[i], i);
}

/// Moving down and then up the visible list (or up and then down) comes back
/// to a visible selection, when the list has no repeats.
pub proof fn lemma_next_prev_selection(v: Seq<usize>, sel: usize)
    requires
        v.contains(sel),
        forall|a: int, b: int| 0 <= a < b < v.len() ==> v[a] != v[b],
    ensures
        prev_selection(v, next_selection(v, sel)) == sel,
        next_selection(v, prev_selection(v, sel)) == sel,
{
    let j = choose|j: int| 0 <= j < v.len() && v[j] == sel;
    lemma_position_in_distinct(v, j);
    let n = v.len() as int;
    let nx = (j + 1) % n;
    lemma_position_in_distinct(v, nx);
    let pv = if j == 0 {
        n - 1
    } else {
        j - 1
    };
    lemma_position_in_distinct(v, pv);
    assert((pv + 1) % n == j) by (nonlinear_arith)
        requires
            pv == (if j == 0 {
                n - 1
            } else {
                j - 1
            }),
            0 <= j < n,
    ;
    assert(nx == 0 ==> j == n - 1) by (nonlinear_arith)
        requires
            nx == (j + 1) % n,
            0 <= j < n,
    ;
    assert(nx != 0 ==> nx - 1 == j) by (nonlinear_arith)
        requires
            nx == (j + 1) % n,
            0 <= j < n,
    ;
}

proof fn lemma_in_bounds_increasing(f: Seq<usize>, n: int)
    requires
        forall|a: int, b: int| 0 <= a < b < f.len() ==> f[a] < f[b],
    ensures
        forall|a: int, b: int|
            0 <= a < b < in_bounds(f, n).len() ==> in_bounds(f, n)[a] < in_bounds(f, n)[b],
        forall|k: int|
            #![trigger in_bounds(f, n)[k]]
            0 <= k < in_bounds(f, n).len() ==> exists|j: int|
                0 <= j < f.len() && #[trigger] f[j] == in_bounds(f, n)[k],
    decreases f.len(),
{
    if f.len() > 0 {
        let d = f.drop_last();
        assert forall|a: int, b: int| 0 <= a < b < d.len() implies d[a] < d[b] by {
            assert(d[a] == f[a] && d[b] == f[b]);
        }
        lemma_in_bounds_increasing(d, n);
        let p = in_bounds(d, n);
        assert forall|k: int| #![trigger p[k]] 0 <= k < p.len() implies exists|j: int|
            0 <= j < f.len() - 1 && #[trigger] f[j] == p[k] by {
            let j = choose|j: int| 0 <= j < d.len() && #[trigger] d[j] == p[k];
            assert(f[j] == d[j]);
        }
        if f.last() < n {
            let g = p.push(f.last());
            assert forall|a: int, b: int| 0 <= a < b < g.len() implies g[a] < g[b] by {
                if b == p.len() {
                    assert(g[a] == p[a]);
                    let j = choose|j: int| 0 <= j < f.len() - 1 && #[trigger] f[j] == p[a];
                    assert(f[j] < f[f.len() - 1]);
                } else {
                    assert(g[a] == p[a] && g[b] == p[b]);
                }
            }
            assert forall|k: int| #![trigger g[k]] 0 <= k < g.len() implies exists|j: int|
                0 <= j < f.len() && #[trigger] f[j] == g[k] by {
                if k == p.len() {
                    assert(f[f.len() - 1] == g[k]);
                } else {
                    assert(g[k] == p[k]);
                    let j = choose|j: int| 0 <= j < f.len() - 1 && #[trigger] f[j] == p[k];
                    assert(f[j] == g[k]);
                }
            }
        } else {
            assert forall|k: int| #![trigger p[k]] 0 <= k < p.len() implies exists|j: int|
                0 <= j < f.len() && #[trigger] f[j] == p[k] by {
                let j = choose|j: int| 0 <= j < f.len() - 1 && #[trigger] f[j] == p[k];
            }
        }
    }
}

proof fn lemma_matching_increasing(profiles: Seq<AccountProfile>, lq: Seq<char>, n: int)
    requires
        0 <= n <= usize::MAX,
    ensures
        forall|a: int, b: int|
            0 <= a < b < matching(profiles, lq, n).len() ==> matching(profiles, lq, n)[a]
                < matching(profiles, lq, n)[b],
        forall|k: int|
            0 <= k < matching(profiles, lq, n).len() ==> #[trigger] matching(profiles, lq, n)[k]
                < n,
    decreases n,
{
    if n > 0 {
        lemma_matching_increasing(profiles, lq, n - 1);
        let p = matching(profiles, lq, n - 1);
        if contains(lowercase(profiles[n - 1].label@), lq) {
            let g = p.push((n - 1) as usize);
            assert forall|a: int, b: int| 0 <= a < b < g.len() implies g[a] < g[b] by {
                assert(g[a] == p[a]);
                if b < p.len() {
                    assert(g[b] == p[b]);
                }
            }
            assert forall|k: int| 0 <= k < g.len() implies #[trigger] g[k] < n by {
                if k < p.len() {
                    assert(g[k] == p[k]);
                }
            }
        }
    }
}

proof fn lemma_matching_members(profiles: Seq<AccountProfile>, lq: Seq<char>, n: int)
    requires
        0 <= n <= usize::MAX,
    ensures
        forall|i: int|
            0 <= i < n ==> (#[trigger] matching(profiles, lq, n).contains(i as usize) <==> contains(
                lowercase(profiles[i].label@),
                lq,
            )),
        forall|k: int|
            0 <= k < matching(profiles, lq, n).len() ==> #[trigger] matching(profiles, lq, n)[k]
                < n,
    decreases n,
{
    lemma_matching_increasing(profiles, lq, n);
    if n > 0 {
        lemma_matching_members(profiles, lq, n - 1);
        let p = matching(profiles, lq, n - 1);
        let m = matching(profiles, lq, n);
        assert forall|i: int| 0 <= i < n implies (#[trigger] m.contains(i as usize) <==> contains(
            lowercase(profiles[i].label@),
            lq,
        )) by {
            if contains(lowercase(profiles[n - 1].label@), lq) {
                assert(m == p.push((n - 1) as usize));
                if i < n - 1 {
                    if m.contains(i as usize) {
                        let k = choose|k: int| 0 <= k < m.len() && m[k] == i as usize;
                        assert(k < p.len());
                        assert(p[k] == i as usize);
                    }
                    if p.contains(i as usize) {
                        let k = choose|k: int| 0 <= k < p.len() && p[k] == i as usize;
                        assert(m[k] == i as usize);
                    }
                } else {
                    assert(m[p.len() as int] == i as usize);
                }
            } else {
                assert(m == p);
                if i == n - 1 && p.contains(i as usize) {
                    let k = choose|k: int| 0 <= k < p.len() && p[k] == i as usize;
                    assert(p[k] < n - 1);
                }
            }
        }
    }
}

proof fn lemma_in_bounds_all(f: Seq<usize>, n: int)
    requires
        forall|k: int| 0 <= k < f.len() ==> #[trigger] f[k] < n,
    ensures
        in_bounds(f, n) == f,
    decreases f.len(),
{
    if f.len() > 0 {
        assert forall|k: int| 0 <= k < f.drop_last().len() implies #[trigger] f.drop_last()[k] < n by {
            assert(f.drop_last()[k] == f[k]);
        }
        lemma_in_bounds_all(f.drop_last(), n);
        assert(f.drop_last().push(f.last()) =~= f);
    }
}

/// A search shows exactly the profiles whose lowercased label holds the
/// lowercased query somewhere (at its start or further in), and an empty query
/// shows every profile.
pub proof fn lemma_search_shows_labels_containing_query(
    profiles: Seq<AccountProfile>,
    query: Seq<char>,
)
    requires
        profiles.len() <= usize::MAX,
    ensures
        forall|i: int|
            0 <= i < profiles.len() ==> (#[trigger] filter_for(profiles, query).contains(i as usize)
                <==> (lowercase(query).len() > 0 && exists|k: int|
                0 <= k && k + lowercase(query).len() <= lowercase(profiles[i].label@).len()
                    && #[trigger] lowercase(profiles[i].label@).subrange(
                    k,
                    k + lowercase(query).len(),
                ) == lowercase(query))),
        forall|i: int|
            0 <= i < profiles.len() ==> (#[trigger] visible_of(
                query,
                filter_for(profiles, query),
                profiles.len() as int,
            ).contains(i as usize) <==> (query.len() == 0 || (lowercase(query).len() > 0
                && exists|k: int|
                0 <= k && k + lowercase(query).len() <= lowercase(profiles[i].label@).len()
                    && #[trigger] lowercase(profiles[i].label@).subrange(
                    k,
                    k + lowercase(query).len(),
                ) == lowercase(query)))),
        forall|x: usize|
            #[trigger] visible_of(query, filter_for(profiles, query), profiles.len() as int).contains(
                x,
            ) ==> x < profiles.len(),
{
    let n = profiles.len() as int;
    let lq = lowercase(query);
    let f = filter_for(profiles, query);
    let v = visible_of(query, f, n);
    if lq.len() > 0 {
        lemma_matching_members(profiles, lq, n);
    }
    assert forall|k: int| 0 <= k < f.len() implies #[trigger] f[k] < n by {
        if lq.len() > 0 {
            lemma_matching_members(profiles, lq, n);
        }
    }
    lemma_in_bounds_all(f, n);
    assert forall|i: int| 0 <= i < n implies (#[trigger] v.contains(i as usize) <==> (query.len()
        == 0 || f.contains(i as usize))) by {
        if query.len() == 0 {
            assert(v[i] == i as usize);
        }
    }
    assert forall|x: usize| #[trigger] v.contains(x) implies x < n by {
        let k = choose|k: int| 0 <= k < v.len() && v[k] == x;
        if query.len() != 0 {
            assert(f[k] == x);
        }
    }
}

/// The visible list never shows a profile twice: it is in increasing order,
/// whether it lists every profile or those that a search matched.
pub proof fn lemma_visible_has_no_repeats(profiles: Seq<AccountProfile>, query: Seq<char>)
    requires
        profiles.len() <= usize::MAX,
    ensures
        ({
            let v = visible_of(query, filter_for(profiles, query), profiles.len() as int);
            forall|a: int, b: int| 0 <= a < b < v.len() ==> v[a] < v[b]
        }),
{
    let n = profiles.len() as int;
    let f = filter_for(profiles, query);
    if query.len() != 0 {
        if lowercase(query).len() != 0 {
            lemma_matching_increasing(profiles, lowercase(query), n);
        }
        lemma_in_bounds_increasing(f, n);
    }
}

/// Where `x` first stands in `v`.
fn position_of(v: &Vec<usize>, x: usize) -> (r: Option<usize>)
    ensures
        match r {
            Some(i) => position_in(v@, x) == Some(i as int) && i < v@.len(),
            None => position_in(v@, x) is None,
        },
{
    let mut i: usize = 0;
    while i < v.len()
        invariant
            i <= v@.len(),
            forall|k: int| 0 <= k < i ==> #[trigger] v@[k] != x,
        decreases v@.len() - i,
    {
        if v[i] == x {
            proof {
                lemma_position_in_at(v@, x, i as int);
            }
            return Some(i);
        }
        i = i + 1;
    }
    proof {
        lemma_position_in_at(v@, x, i as int);
    }
    None
}

/// The state of the terminal interface.
pub struct App {
    pub core: SessionCore,
    pub selected_profile_index: usize,
    pub modal: Option<Modal>,
    pub pending_delete_profile: Option<String>,
    pub import_text: String,
    pub focus: FocusArea,
    pub action_bar_index: usize,
    pub should_quit: bool,
    pub host_selector_open: bool,
    pub tick: u64,
    pub search_active: bool,
    pub search_query: String,
    pub filtered_indices: Vec<usize>,
    pub marked_profiles: MarkSet,
    pub available_update: Option<ReleaseInfo>,
    pub update_in_progress: bool,
}

impl App {
    /// The profiles shown, by index into the selected host's profiles.
    pub open spec fn visible(&self) -> Seq<usize> {
        visible_of(
            self.search_query@,
            self.filtered_indices@,
            self.core.selected_host_profiles@.len() as int,
        )
    }

    /// The selected profile of the selected host.
    pub open spec fn selected_spec(&self) -> Option<AccountProfile> {
        if self.selected_profile_index < self.core.selected_host_profiles@.len() {
            Some(self.core.selected_host_profiles@[self.selected_profile_index as int])
        } else {
            None
        }
    }

    /// Nothing loaded, the profile list focused.
    pub fn new() -> (r: App)
        ensures
            r.core.profiles@.len() == 0,
            r.core.hosts@.len() == 0,
            r.core.busy_operation is None,
            r.core.notice is None,
            r.selected_profile_index == 0,
            r.modal is None,
            r.focus == FocusArea::ProfileList,
            r.search_query@.len() == 0,
            r.filtered_indices@.len() == 0,
            r.marked_profiles@ == Set::<Seq<char>>::empty(),
            r.available_update is None,
            !r.update_in_progress,
            !r.should_quit,
            r.core.current_auth is None,
            r.core.current_session is None,
            r.core.limits_by_profile@.len() == 0,
            r.core.selected_host_profiles@.len() == 0,
            r.core.selected_host_active_auth is None,
            r.core.selected_host_index == 0,
            r.core.device_prompt is None,
            r.pending_delete_profile is None,
            r.import_text@.len() == 0,
            r.action_bar_index == 0,
            !r.host_selector_open,
            r.tick == 0,
            !r.search_active,
    {
        App {
            core: SessionCore::new(),
            selected_profile_index: 0,
            modal: None,
            pending_delete_profile: None,
            import_text: String::new(),
            focus: FocusArea::ProfileList,
            action_bar_index: 0,
            should_quit: false,
            host_selector_open: false,
            tick: 0,
            search_active: false,
            search_query: String::new(),
            filtered_indices: Vec::new(),
            marked_profiles: MarkSet::new(),
            available_update: None,
            update_in_progress: false,
        }
    }

    /// The profiles shown, by index into the selected host's profiles.
    pub fn visible_profiles(&self) -> (r: Vec<usize>)
        ensures
            r@ == self.visible(),
    {
        let n = self.core.selected_host_profiles.len();
        let mut out: Vec<usize> = Vec::new();
        if chars_of(self.search_query.as_str()).len() == 0 {
            let mut i: usize = 0;
            while i < n
                invariant
                    i <= n,
                    n == self.core.selected_host_profiles@.len(),
                    out@ == Seq::new(i as nat, |k: int| k as usize),
                decreases n - i,
            {
                out.push(i);
                i = i + 1;
                assert(out@ =~= Seq::new(i as nat, |k: int| k as usize));
            }
        } else {
            let f = &self.filtered_indices;
            let mut i: usize = 0;
            while i < f.len()
                invariant
                    i <= f@.len(),
                    n == self.core.selected_host_profiles@.len(),
                    out@ == in_bounds(f@.take(i as int), n as int),
                decreases f@.len() - i,
            {
                proof {
                    assert(f@.take(i + 1).drop_last() =~= f@.take(i as int));
                }
                if f[i] < n {
                    out.push(f[i]);
                }
                i = i + 1;
            }
            assert(f@.take(i as int) =~= f@);
        }
        out
    }

    /// The selected profile of the selected host.
    pub fn selected_profile(&self) -> (r: Option<&AccountProfile>)
        ensures
            match r {
                Some(p) => self.selected_profile_index < self.core.selected_host_profiles@.len()
                    && *p == self.core.selected_host_profiles@[self.selected_profile_index as int],
                None => self.selected_profile_index >= self.core.selected_host_profiles@.len(),
            },
    {
        if self.selected_profile_index < self.core.selected_host_profiles.len() {
            Some(&self.core.selected_host_profiles[self.selected_profile_index])
        } else {
            None
        }
    }

    /// Whether `profile` is the active account of the selected host.
    pub fn is_profile_active(&self, profile: &AccountProfile) -> (r: bool)
        ensures
            r == (self.core.selected_host_active_auth matches Some(a) && a.tokens.access_token@
                == profile.auth_file.tokens.access_token@),
    {
        self.core.is_profile_active(profile)
    }

    /// Whether the selected host is a remote one.
    pub fn selected_host_is_remote(&self) -> (r: bool)
        ensures
            r == is_remote_at(self.core.hosts@, self.core.selected_host_index as int),
    {
        self.core.selected_host_is_remote()
    }

    /// The label of the selected host, `none` without one.
    pub fn selected_host_label(&self, hostname: Option<&str>) -> (r: String)
        ensures
            r@ == if self.core.selected_host_index < self.core.hosts@.len() {
                tui_host_label(
                    self.core.hosts@[self.core.selected_host_index as int],
                    match hostname {
                        Some(n) => Some(n@),
                        None => None,
                    },
                )
            } else {
                "none"@
            },
    {
        if self.core.selected_host_index < self.core.hosts.len() {
            host_display_label(&self.core.hosts[self.core.selected_host_index], hostname)
        } else {
            proof {
                reveal_strlit("none");
            }
            text("none")
        }
    }

    /// The label of the selected host's active profile.
    pub fn active_profile_label(&self) -> (r: String)
        ensures
            r@ == match crate::session::first_active(
                self.core.selected_host_profiles@,
                self.core.selected_host_active_auth,
            ) {
                Some(i) => self.core.selected_host_profiles@[i].label@,
                None => "none"@,
            },
    {
        self.core.active_profile_label()
    }

    /// The limits fetched for a profile.
    pub fn profile_limits(&self, profile_id: &str) -> (r: Option<&LimitsSnapshotSet>)
        ensures
            match r {
                Some(s) => self.core.limits_by_profile.get_spec(profile_id@) == Some(*s),
                None => self.core.limits_by_profile.get_spec(profile_id@) is None,
            },
    {
        self.core.profile_limits(profile_id)
    }

    /// Selects the next visible profile.
    pub fn next_profile(&mut self)
        ensures
            final(self).selected_profile_index == next_selection(
                old(self).visible(),
                old(self).selected_profile_index,
            ),
            *final(self) == (App {
                selected_profile_index: final(self).selected_profile_index,
                ..*old(self)
            }),
    {
        let visible = self.visible_profiles();
        if visible.len() == 0 {
            return;
        }
        let cur_pos = match position_of(&visible, self.selected_profile_index) {
            Some(p) => p,
            None => 0,
        };
        let next_pos = (cur_pos + 1) % visible.len();
        self.selected_profile_index = visible[next_pos];
    }

    /// Selects the previous visible profile.
    pub fn prev_profile(&mut self)
        ensures
            final(self).selected_profile_index == prev_selection(
                old(self).visible(),
                old(self).selected_profile_index,
            ),
            *final(self) == (App {
                selected_profile_index: final(self).selected_profile_index,
                ..*old(self)
            }),
    {
        let visible = self.visible_profiles();
        if visible.len() == 0 {
            return;
        }
        let cur_pos = match position_of(&visible, self.selected_profile_index) {
            Some(p) => p,
            None => 0,
        };
        let prev_pos = if cur_pos == 0 {
            visible.len() - 1
        } else {
            cur_pos - 1
        };
        self.selected_profile_index = visible[prev_pos];
    }
}

/// Moving to the previous profile undoes moving to the next one, and the other
/// way round: from a visible selection, `next_profile` then `prev_profile` (or
/// `prev_profile` then `next_profile`) gives back the state it started from.
/// This needs a visible list that holds no index twice, which
/// `lemma_visible_has_no_repeats` shows of every list a search makes.
pub proof fn lemma_prev_profile_undoes_next(a: App)
    requires
        a.visible().contains(a.selected_profile_index),
        forall|i: int, j: int| 0 <= i < j < a.visible().len() ==> a.visible()[i] != a.visible()[j],
    ensures
        ({
            let n = App {
                selected_profile_index: next_selection(a.visible(), a.selected_profile_index),
                ..a
            };
            &&& n.visible() == a.visible()
            &&& (App {
                selected_profile_index: prev_selection(n.visible(), n.selected_profile_index),
                ..n
            }) == a
        }),
        ({
            let p = App {
                selected_profile_index: prev_selection(a.visible(), a.selected_profile_index),
                ..a
            };
            &&& p.visible() == a.visible()
            &&& (App {
                selected_profile_index: next_selection(p.visible(), p.selected_profile_index),
                ..p
            }) == a
        }),
{
    lemma_next_prev_selection(a.visible(), a.selected_profile_index);
}

/// In the focused profile list `j` (or Down) selects the next visible profile
/// and `k` (or Up) the one before it, wrapping around; so `k` undoes `j`, and `j`
/// undoes `k`. Neither key has a meaning of its own outside the focused area
/// here, and neither starts any work.
pub proof fn lemma_up_undoes_down(
    a: App,
    down: KeyInput,
    up: KeyInput,
    pos: int,
    f1: App,
    e1: Effect,
    f2: App,
    e2: Effect,
    now: u64,
)
    requires
        down == KeyInput::Char('j') || down == KeyInput::Down,
        up == KeyInput::Char('k') || up == KeyInput::Up,
        a.focus == FocusArea::ProfileList,
        !a.search_active,
        a.modal is None,
        !a.host_selector_open,
        0 <= pos < a.visible().len(),
        a.visible()[pos] == a.selected_profile_index,
        forall|i: int, j: int| 0 <= i < j < a.visible().len() ==> a.visible()[i] != a.visible()[j],
        action_applied(a, f1, focus_action(a, down), e1, now),
        action_applied(f1, f2, focus_action(f1, up), e2, now),
    ensures
        first_action(a, down) == KeyAction::Nothing && reaches_focus(a, down),
        first_action(f1, up) == KeyAction::Nothing && reaches_focus(f1, up),
        f1.selected_profile_index == a.visible()[(pos + 1) % a.visible().len() as int],
        f2 == a,
        e1 is Nothing && e2 is Nothing,
{
    lemma_position_in_distinct(a.visible(), pos);
    lemma_prev_profile_undoes_next(a);
}

/// In the focused profile list `k` (or Up) selects the visible profile before
/// the selected one, wrapping around, and `j` (or Down) then gives back the
/// state `k` started from.
pub proof fn lemma_down_undoes_up(
    a: App,
    down: KeyInput,
    up: KeyInput,
    pos: int,
    f1: App,
    e1: Effect,
    f2: App,
    e2: Effect,
    now: u64,
)
    requires
        down == KeyInput::Char('j') || down == KeyInput::Down,
        up == KeyInput::Char('k') || up == KeyInput::Up,
        a.focus == FocusArea::ProfileList,
        !a.search_active,
        a.modal is None,
        !a.host_selector_open,
        0 <= pos < a.visible().len(),
        a.visible()[pos] == a.selected_profile_index,
        forall|i: int, j: int| 0 <= i < j < a.visible().len() ==> a.visible()[i] != a.visible()[j],
        action_applied(a, f1, focus_action(a, up), e1, now),
        action_applied(f1, f2, focus_action(f1, down), e2, now),
    ensures
        first_action(a, up) == KeyAction::Nothing && reaches_focus(a, up),
        first_action(f1, down) == KeyAction::Nothing && reaches_focus(f1, down),
        f1.selected_profile_index == a.visible()[if pos == 0 {
            a.visible().len() - 1
        } else {
            pos - 1
        }],
        f2 == a,
        e1 is Nothing && e2 is Nothing,
{
    lemma_position_in_distinct(a.visible(), pos);
    lemma_prev_profile_undoes_next(a);
}

/// The selection after the visible list became `v`: kept when visible, else the
/// first visible profile.
pub open spec fn adjusted_selection(v: Seq<usize>, sel: usize) -> usize {
    if v.len() > 0 && position_in(v, sel) is None {
        v[0]
    } else {
        sel
    }
}

/// `f` is `o` after the search query became `query`: the filter recomputed and
/// the selection moved onto the visible list.
pub open spec fn filter_updated(o: App, f: App, query: Seq<char>) -> bool {
    let filtered = filter_for(o.core.selected_host_profiles@, query);
    &&& f.search_query@ == query
    &&& f.filtered_indices@ == filtered
    &&& f.selected_profile_index == adjusted_selection(
        visible_of(query, filtered, o.core.selected_host_profiles@.len() as int),
        o.selected_profile_index,
    )
    &&& f == (App {
        search_query: f.search_query,
        filtered_indices: f.filtered_indices,
        selected_profile_index: f.selected_profile_index,
        ..o
    })
}

/// `f` and `r` are `o` after host `index` was selected at time `now`: nothing
/// happens when it already is; otherwise the first profile is selected, the
/// notice cleared and the host's view refreshed.
pub open spec fn host_selected(o: App, f: App, r: Option<Job>, index: usize, now: u64) -> bool {
    if o.core.selected_host_index == index {
        r is None && f == o
    } else {
        &&& f == (App { core: f.core, selected_profile_index: 0, ..o })
        &&& host_view_refreshed(
            SessionCore { selected_host_index: index, notice: None, ..o.core },
            f.core,
            r,
            false,
            now,
        )
    }
}

/// The ids of the profiles at the given indices.
pub open spec fn ids_at(profiles: Seq<AccountProfile>, idx: Seq<usize>) -> Set<Seq<char>> {
    Set::new(
        |id: Seq<char>|
            exists|k: int| 0 <= k < idx.len() && profiles[(#[trigger] idx[k]) as int].id@ == id,
    )
}

/// The indices of the profiles whose id is marked, in order.
pub open spec fn marked_indices(profiles: Seq<AccountProfile>, marks: Set<Seq<char>>, n: int) -> Seq<usize>
    decreases n,
{
    if n <= 0 {
        Seq::empty()
    } else if marks.contains(profiles[n - 1].id@) {
        marked_indices(profiles, marks, n - 1).push((n - 1) as usize)
    } else {
        marked_indices(profiles, marks, n - 1)
    }
}

/// The profiles an export copies: the marked ones, or the selected one when
/// nothing is marked.
pub open spec fn export_indices(a: App) -> Seq<usize> {
    if a.marked_profiles@ == Set::<Seq<char>>::empty() {
        if a.selected_profile_index < a.core.selected_host_profiles@.len() {
            seq![a.selected_profile_index]
        } else {
            Seq::empty()
        }
    } else {
        marked_indices(
            a.core.selected_host_profiles@,
            a.marked_profiles@,
            a.core.selected_host_profiles@.len() as int,
        )
    }
}

impl App {
    fn update_filter(&mut self)
        ensures
            filter_updated(*old(self), *final(self), old(self).search_query@),
    {
        let query = to_lowercase_text(self.search_query.as_str());
        let lq = chars_of(query.as_str());
        let ghost ps = self.core.selected_host_profiles@;
        let mut filtered: Vec<usize> = Vec::new();
        if lq.len() > 0 {
            let mut i: usize = 0;
            while i < self.core.selected_host_profiles.len()
                invariant
                    i <= ps.len(),
                    ps == self.core.selected_host_profiles@,
                    lq@ == lowercase(self.search_query@),
                    filtered@ == matching(ps, lq@, i as int),
                decreases ps.len() - i,
            {
                let label = to_lowercase_text(self.core.selected_host_profiles[i].label.as_str());
                if contains_chars(chars_of(label.as_str()).as_slice(), lq.as_slice()) {
                    filtered.push(i);
                }
                i = i + 1;
            }
        }
        self.filtered_indices = filtered;
        let visible = self.visible_profiles();
        if visible.len() > 0 {
            match position_of(&visible, self.selected_profile_index) {
                Some(_) => {},
                None => {
                    self.selected_profile_index = visible[0];
                },
            }
        }
    }

    /// Opens the search with an empty query.
    pub fn start_search(&mut self)
        ensures
            final(self).search_active,
            filter_updated(
                App { search_active: true, ..*old(self) },
                *final(self),
                Seq::<char>::empty(),
            ),
    {
        self.search_active = true;
        self.search_query = String::new();
        self.update_filter();
    }

    /// Adds a character to the query.
    pub fn search_push(&mut self, c: char)
        ensures
            final(self).search_active == old(self).search_active,
            filter_updated(*old(self), *final(self), old(self).search_query@.push(c)),
    {
        self.search_query.push(c);
        self.update_filter();
    }

    /// Removes the last character of the query.
    pub fn search_pop(&mut self)
        ensures
            final(self).search_active == old(self).search_active,
            filter_updated(
                *old(self),
                *final(self),
                if old(self).search_query@.len() > 0 {
                    old(self).search_query@.drop_last()
                } else {
                    old(self).search_query@
                },
            ),
    {
        let mut q = chars_of(self.search_query.as_str());
        if q.len() > 0 {
            q.pop();
        }
        self.search_query = string_from(q.as_slice());
        self.update_filter();
    }

    /// Closes the search, keeping its filter.
    pub fn finish_search(&mut self)
        ensures
            *final(self) == (App { search_active: false, ..*old(self) }),
    {
        self.search_active = false;
    }

    /// Closes the search and drops its filter.
    pub fn cancel_search(&mut self)
        ensures
            *final(self) == (App {
                search_active: false,
                search_query: final(self).search_query,
                filtered_indices: final(self).filtered_indices,
                ..*old(self)
            }),
            final(self).search_query@.len() == 0,
            final(self).filtered_indices@.len() == 0,
    {
        self.search_active = false;
        self.search_query = String::new();
        self.filtered_indices = Vec::new();
    }

    /// Selects host `host_index`.
    pub fn set_selected_host_index(&mut self, host_index: usize, now: u64) -> (r: Option<Job>)
        ensures
            host_selected(*old(self), *final(self), r, host_index, now),
    {
        if self.core.selected_host_index == host_index {
            return None;
        }
        self.core.selected_host_index = host_index;
        self.selected_profile_index = 0;
        self.core.notice = None;
        self.core.refresh_selected_host_view(false, now)
    }

    /// Selects the next host, wrapping around.
    pub fn next_host(&mut self, now: u64) -> (r: Option<Job>)
        ensures
            if old(self).core.hosts@.len() == 0 {
                r is None && *final(self) == *old(self)
            } else {
                host_selected(
                    *old(self),
                    *final(self),
                    r,
                    ((old(self).core.selected_host_index + 1) % (old(self).core.hosts@.len() as int))
                        as usize,
                    now,
                )
            },
    {
        if self.core.hosts.len() > 0 {
            let n = self.core.hosts.len();
            let a = self.core.selected_host_index;
            let new_index = (a % n + 1) % n;
            assert(new_index == (a + 1) % (n as int)) by (nonlinear_arith)
                requires
                    n > 0,
                    new_index == (a % n + 1) % (n as int),
            ;
            self.set_selected_host_index(new_index, now)
        } else {
            None
        }
    }

    /// Selects the previous host, wrapping around.
    pub fn prev_host(&mut self, now: u64) -> (r: Option<Job>)
        ensures
            if old(self).core.hosts@.len() == 0 {
                r is None && *final(self) == *old(self)
            } else {
                host_selected(
                    *old(self),
                    *final(self),
                    r,
                    if old(self).core.selected_host_index == 0 {
                        (old(self).core.hosts@.len() - 1) as usize
                    } else {
                        (old(self).core.selected_host_index - 1) as usize
                    },
                    now,
                )
            },
    {
        if self.core.hosts.len() > 0 {
            let new_index = if self.core.selected_host_index == 0 {
                self.core.hosts.len() - 1
            } else {
                self.core.selected_host_index - 1
            };
            self.set_selected_host_index(new_index, now)
        } else {
            None
        }
    }

    /// Activates the selected profile on the selected host.
    pub fn activate_selected_profile(&mut self) -> (r: Option<Job>)
        ensures
            match old(self).selected_spec() {
                None => r is None && *final(self) == *old(self),
                Some(p) => {
                    &&& r matches Some(job) && busy_with(*old(self), *final(self), job_operation(job))
                    &&& if is_remote_at(old(self).core.hosts@, old(self).core.selected_host_index as int) {
                        r matches Some(Job::ActivateRemote { profile_id, host_index })
                            && profile_id@ == p.id@ && host_index == old(self).core.selected_host_index
                    } else {
                        r matches Some(Job::ActivateLocal { profile_id }) && profile_id@ == p.id@
                    }
                },
            },
    {
        let profile_id = match self.selected_profile() {
            Some(p) => p.id.clone(),
            None => return None,
        };
        let job = if self.core.selected_host_is_remote() {
            Job::ActivateRemote { profile_id, host_index: self.core.selected_host_index }
        } else {
            Job::ActivateLocal { profile_id }
        };
        Some(self.core.run_background(job))
    }

    /// Asks to confirm deleting the selected profile.
    pub fn delete_selected_profile(&mut self)
        ensures
            match old(self).selected_spec() {
                None => *final(self) == *old(self),
                Some(p) => final(self).pending_delete_profile matches Some(id) && id@ == p.id@
                    && *final(self) == (App {
                    pending_delete_profile: final(self).pending_delete_profile,
                    modal: Some(Modal::DeleteConfirm),
                    ..*old(self)
                }),
            },
    {
        let id = match self.selected_profile() {
            Some(p) => p.id.clone(),
            None => return,
        };
        self.pending_delete_profile = Some(id);
        self.modal = Some(Modal::DeleteConfirm);
    }

    /// Marks the selected profile, or unmarks it if it is marked.
    pub fn toggle_mark(&mut self)
        ensures
            match old(self).selected_spec() {
                None => final(self).marked_profiles@ == old(self).marked_profiles@,
                Some(p) => final(self).marked_profiles@ == toggled(old(self).marked_profiles@, p.id@),
            },
            *final(self) == (App { marked_profiles: final(self).marked_profiles, ..*old(self) }),
    {
        let id = match self.selected_profile() {
            Some(p) => p.id.clone(),
            None => return,
        };
        if !self.marked_profiles.remove(id.as_str()) {
            self.marked_profiles.insert(id);
        }
    }

    /// Unmarks the visible profiles if all of them are marked, else marks them
    /// all.
    pub fn mark_all_visible(&mut self)
        ensures
            ({
                let ids = ids_at(old(self).core.selected_host_profiles@, old(self).visible());
                final(self).marked_profiles@ == if ids.subset_of(old(self).marked_profiles@) {
                    old(self).marked_profiles@.difference(ids)
                } else {
                    old(self).marked_profiles@.union(ids)
                }
            }),
            *final(self) == (App { marked_profiles: final(self).marked_profiles, ..*old(self) }),
    {
        let visible = self.visible_profiles();
        let ghost ps = self.core.selected_host_profiles@;
        let ghost ids = ids_at(ps, visible@);
        let ghost orig = self.marked_profiles@;
        let ghost core0 = self.core;
        let ghost app0 = *self;
        let total = self.core.selected_host_profiles.len();
        proof {
            lemma_visible_bounds(self.search_query@, self.filtered_indices@, total as int);
        }
        let mut all_marked = true;
        let mut i: usize = 0;
        while i < visible.len()
            invariant
                i <= visible@.len(),
                ps == self.core.selected_host_profiles@,
                core0 == self.core,
                *self == (App { marked_profiles: self.marked_profiles, ..app0 }),
                orig == self.marked_profiles@,
                forall|k: int| 0 <= k < visible@.len() ==> #[trigger] visible@[k] < ps.len(),
                all_marked == forall|k: int|
                    0 <= k < i ==> orig.contains(ps[(#[trigger] visible@[k]) as int].id@),
            decreases visible@.len() - i,
        {
            if !self.marked_profiles.contains(self.core.selected_host_profiles[visible[i]].id.as_str()) {
                all_marked = false;
            }
            i = i + 1;
        }
        proof {
            if all_marked {
                assert forall|x: Seq<char>| ids.contains(x) implies orig.contains(x) by {
                    let k = choose|k: int|
                        0 <= k < visible@.len() && ps[(#[trigger] visible@[k]) as int].id@ == x;
                }
            } else {
                let k = choose|k: int|
                    0 <= k < visible@.len() && !orig.contains(ps[(#[trigger] visible@[k]) as int].id@);
                assert(ids.contains(ps[visible@[k] as int].id@));
            }
        }
        let mut j: usize = 0;
        while j < visible.len()
            invariant
                j <= visible@.len(),
                ps == self.core.selected_host_profiles@,
                core0 == self.core,
                *self == (App { marked_profiles: self.marked_profiles, ..app0 }),
                forall|k: int| 0 <= k < visible@.len() ==> #[trigger] visible@[k] < ps.len(),
                self.marked_profiles@ == if all_marked {
                    orig.difference(ids_at(ps, visible@.take(j as int)))
                } else {
                    orig.union(ids_at(ps, visible@.take(j as int)))
                },
            decreases visible@.len() - j,
        {
            let id = self.core.selected_host_profiles[visible[j]].id.clone();
            proof {
                let x = ps[visible@[j as int] as int].id@;
                assert(ids_at(ps, visible@.take(j + 1)) =~= ids_at(ps, visible@.take(j as int)).insert(x)) by {
                    assert forall|y: Seq<char>| ids_at(ps, visible@.take(j + 1)).contains(y) implies
                        ids_at(ps, visible@.take(j as int)).insert(x).contains(y) by {
                        let k = choose|k: int|
                            0 <= k < j + 1 && ps[(#[trigger] visible@.take(j + 1)[k]) as int].id@ == y;
                        if k < j {
                            assert(visible@.take(j as int)[k] == visible@.take(j + 1)[k]);
                        }
                    }
                    assert forall|y: Seq<char>| ids_at(ps, visible@.take(j as int)).insert(x).contains(y) implies
                        ids_at(ps, visible@.take(j + 1)).contains(y) by {
                        if y == x {
                            assert(visible@.take(j + 1)[j as int] == visible@[j as int]);
                        } else {
                            let k = choose|k: int|
                                0 <= k < j && ps[(#[trigger] visible@.take(j as int)[k]) as int].id@ == y;
                            assert(visible@.take(j as int)[k] == visible@.take(j + 1)[k]);
                        }
                    }
                }
            }
            if all_marked {
                self.marked_profiles.remove(id.as_str());
            } else {
                self.marked_profiles.insert(id);
            }
            proof {
                assert(self.marked_profiles@ =~= if all_marked {
                    orig.difference(ids_at(ps, visible@.take(j + 1)))
                } else {
                    orig.union(ids_at(ps, visible@.take(j + 1)))
                });
            }
            j = j + 1;
        }
        assert(visible@.take(j as int) =~= visible@);
    }

    /// Unmarks everything.
    pub fn clear_marks(&mut self)
        ensures
            final(self).marked_profiles@ == Set::<Seq<char>>::empty(),
            *final(self) == (App { marked_profiles: final(self).marked_profiles, ..*old(self) }),
    {
        self.marked_profiles.clear();
    }
}

/// `f` is `o` with the interface busy with `op` and the notice cleared, and
/// nothing else changed.
pub open spec fn busy_with(o: App, f: App, op: BusyOperation) -> bool {
    f == (App {
        core: SessionCore { busy_operation: Some(op), notice: None, ..o.core },
        ..o
    })
}

/// `f` is `o` with the download over and a new notice, nothing else changed.
pub open spec fn download_settled(o: App, f: App) -> bool {
    f == (App {
        core: SessionCore { notice: f.core.notice, ..o.core },
        update_in_progress: false,
        ..o
    })
}

/// `f` is `o` showing an error notice with `message` made at `now`, nothing
/// else changed.
pub open spec fn refused(o: App, f: App, message: Seq<char>, now: u64) -> bool {
    &&& f == (App { core: SessionCore { notice: f.core.notice, ..o.core }, ..o })
    &&& f.core.notice matches Some(n) && n.kind == NoticeKind::Error && n.message@ == message
        && n.created_at == now
}

/// The selection after a reload: kept while it points at a profile, else the
/// last profile (the first when there are none).
pub open spec fn clamped_selection(sel: usize, n: int) -> usize {
    if sel >= n {
        if n > 0 {
            (n - 1) as usize
        } else {
            0
        }
    } else {
        sel
    }
}

/// The label an export is announced with: the profile's own, or how many
/// profiles were copied.
pub open spec fn export_label_of(profiles: Seq<AccountProfile>, targets: Seq<usize>) -> Seq<char> {
    if targets.len() == 1 {
        profiles[targets[0] as int].label@
    } else {
        decimal(targets.len()) + " accounts"@
    }
}

impl App {
    /// The profiles an export copies, by index into the selected host's profiles.
    pub fn export_targets(&self) -> (r: Vec<usize>)
        ensures
            r@ == export_indices(*self),
    {
        if self.marked_profiles.is_empty() {
            let mut v: Vec<usize> = Vec::new();
            if self.selected_profile_index < self.core.selected_host_profiles.len() {
                v.push(self.selected_profile_index);
                assert(v@ =~= seq![self.selected_profile_index]);
            }
            v
        } else {
            let ghost ps = self.core.selected_host_profiles@;
            let mut v: Vec<usize> = Vec::new();
            let mut i: usize = 0;
            while i < self.core.selected_host_profiles.len()
                invariant
                    i <= ps.len(),
                    ps == self.core.selected_host_profiles@,
                    v@ == marked_indices(ps, self.marked_profiles@, i as int),
                decreases ps.len() - i,
            {
                if self.marked_profiles.contains(self.core.selected_host_profiles[i].id.as_str()) {
                    v.push(i);
                }
                i = i + 1;
            }
            v
        }
    }

    /// The label an export of `targets` is announced with.
    pub fn export_label(&self, targets: &Vec<usize>) -> (r: String)
        requires
            forall|k: int|
                0 <= k < targets@.len() ==> #[trigger] targets@[k]
                    < self.core.selected_host_profiles@.len(),
        ensures
            r@ == export_label_of(self.core.selected_host_profiles@, targets@),
    {
        if targets.len() == 1 {
            self.core.selected_host_profiles[targets[0]].label.clone()
        } else {
            proof {
                reveal_strlit(" accounts");
            }
            let mut out = u64_decimal(targets.len() as u64);
            push_all(&mut out, chars_of(" accounts").as_slice());
            string_from(out.as_slice())
        }
    }

    /// Opens the import dialog with an empty text.
    pub fn open_import_modal(&mut self)
        ensures
            final(self).import_text@.len() == 0,
            *final(self) == (App {
                import_text: final(self).import_text,
                modal: Some(Modal::Import),
                ..*old(self)
            }),
    {
        self.import_text = String::new();
        self.modal = Some(Modal::Import);
    }

    /// Closes any dialog and forgets a pending deletion.
    pub fn close_modal(&mut self)
        ensures
            *final(self) == (App { modal: None, pending_delete_profile: None, ..*old(self) }),
    {
        self.modal = None;
        self.pending_delete_profile = None;
    }

    /// Asks to confirm an update, when one is available.
    pub fn open_update_modal(&mut self)
        ensures
            *final(self) == (App {
                modal: if old(self).available_update is Some {
                    Some(Modal::UpdateConfirm)
                } else {
                    old(self).modal
                },
                ..*old(self)
            }),
    {
        if self.available_update.is_some() {
            self.modal = Some(Modal::UpdateConfirm);
        }
    }

    /// Closes the dialog and, when an update is available, starts it: the
    /// release returned is to be downloaded.
    pub fn confirm_update(&mut self) -> (r: Option<ReleaseInfo>)
        ensures
            r == old(self).available_update,
            *final(self) == (App {
                modal: None,
                update_in_progress: old(self).update_in_progress || r is Some,
                ..*old(self)
            }),
    {
        self.modal = None;
        let release = match &self.available_update {
            Some(r) => r.clone(),
            None => return None,
        };
        self.update_in_progress = true;
        Some(release)
    }

    /// Deletes the profile waiting for confirmation.
    pub fn confirm_delete(&mut self) -> (r: Option<Job>)
        ensures
            match old(self).pending_delete_profile {
                None => r is None && *final(self) == *old(self),
                Some(id) => {
                    &&& r matches Some(Job::DeleteProfile { profile_id }) && profile_id == id
                    &&& busy_with(
                        App { modal: None, pending_delete_profile: None, ..*old(self) },
                        *final(self),
                        BusyOperation::DeleteProfile,
                    )
                },
            },
    {
        let profile_id = match &self.pending_delete_profile {
            Some(id) => id.clone(),
            None => return None,
        };
        self.modal = None;
        self.pending_delete_profile = None;
        Some(self.core.run_background(Job::DeleteProfile { profile_id }))
    }

    /// Imports the pasted text: refused with a notice when it is blank,
    /// otherwise the dialog closes and the import runs.
    pub fn import_from_text(&mut self, now: u64) -> (r: Option<Job>)
        ensures
            if trim(old(self).import_text@).len() == 0 {
                r is None && refused(*old(self), *final(self), "import payload is empty"@, now)
            } else {
                &&& r matches Some(Job::Import { payload }) && payload@ == trim(
                    old(self).import_text@,
                )
                &&& busy_with(
                    App { modal: None, import_text: final(self).import_text, ..*old(self) },
                    *final(self),
                    BusyOperation::ReloadAccounts,
                )
                &&& final(self).import_text@.len() == 0
            },
    {
        let payload = trim_chars(chars_of(self.import_text.as_str()).as_slice());
        if payload.len() == 0 {
            proof {
                reveal_strlit("import payload is empty");
            }
            self.core.notice = Some(
                OperationNotice::new(NoticeKind::Error, text("import payload is empty"), now),
            );
            return None;
        }
        self.modal = None;
        self.import_text = String::new();
        Some(self.core.run_background(Job::Import { payload: string_from(payload.as_slice()) }))
    }

    /// Reloads everything with fresh limits.
    pub fn refresh_all_limits(&mut self) -> (r: Job)
        ensures
            r is RefreshLimits,
            busy_with(*old(self), *final(self), BusyOperation::RefreshLimits),
    {
        self.core.run_background(Job::RefreshLimits)
    }

    /// Reloads profiles and hosts.
    pub fn reload_accounts(&mut self) -> (r: Job)
        ensures
            r == (Job::Reload { fetch_limits: false }),
            busy_with(*old(self), *final(self), BusyOperation::ReloadAccounts),
    {
        self.core.run_background(Job::Reload { fetch_limits: false })
    }

    /// Signs in through the browser.
    pub fn login_browser(&mut self) -> (r: Job)
        ensures
            r is BrowserLogin,
            busy_with(*old(self), *final(self), BusyOperation::BrowserLogin),
    {
        self.core.run_background(Job::BrowserLogin)
    }

    /// Asks for a device code.
    pub fn start_device_login(&mut self) -> (r: Job)
        ensures
            r is DeviceLoginStart,
            busy_with(*old(self), *final(self), BusyOperation::DeviceLoginStart),
    {
        self.core.run_background(Job::DeviceLoginStart)
    }

    /// Finishes the pending device sign-in; without one, says so.
    pub fn finish_device_login(&mut self, now: u64) -> (r: Option<Job>)
        ensures
            match old(self).core.device_prompt {
                None => r is None && refused(
                    *old(self),
                    *final(self),
                    "no pending device login"@,
                    now,
                ),
                Some(p) => r == Some(Job::DeviceLoginFinish { prompt: p }) && busy_with(
                    *old(self),
                    *final(self),
                    BusyOperation::DeviceLoginFinish,
                ),
            },
    {
        let prompt = match &self.core.device_prompt {
            Some(p) => p.clone(),
            None => {
                proof {
                    reveal_strlit("no pending device login");
                }
                self.core.notice = Some(
                    OperationNotice::new(NoticeKind::Error, text("no pending device login"), now),
                );
                return None;
            },
        };
        Some(self.core.run_background(Job::DeviceLoginFinish { prompt }))
    }

    /// Mirrors the managed data to the selected host.
    pub fn sync_selected_remote(&mut self) -> (r: Job)
        ensures
            r == (Job::SyncHost { host_index: old(self).core.selected_host_index }),
            busy_with(*old(self), *final(self), BusyOperation::SyncHost),
    {
        let host_index = self.core.selected_host_index;
        self.core.run_background(Job::SyncHost { host_index })
    }

    /// Shows the selected host's accounts.
    pub fn refresh_selected_host_view(&mut self, show_notice: bool, now: u64) -> (r: Option<Job>)
        ensures
            host_view_refreshed(old(self).core, final(self).core, r, show_notice, now),
            *final(self) == (App { core: final(self).core, ..*old(self) }),
    {
        self.core.refresh_selected_host_view(show_notice, now)
    }

    /// Takes over a reload and keeps the profile selection in range.
    pub fn apply_snapshot(&mut self, snapshot: AppSnapshot)
        ensures
            snapshot_applied(old(self).core, final(self).core, snapshot),
            final(self).core.busy_operation == old(self).core.busy_operation,
            final(self).core.notice == old(self).core.notice,
            final(self).selected_profile_index == clamped_selection(
                old(self).selected_profile_index,
                final(self).core.selected_host_profiles@.len() as int,
            ),
            *final(self) == (App {
                core: final(self).core,
                selected_profile_index: final(self).selected_profile_index,
                ..*old(self)
            }),
    {
        self.core.apply_snapshot(snapshot);
        self.clamp_selection();
    }

    fn clamp_selection(&mut self)
        ensures
            *final(self) == (App { selected_profile_index: final(self).selected_profile_index, ..*old(self) }),
            final(self).selected_profile_index == clamped_selection(
                old(self).selected_profile_index,
                old(self).core.selected_host_profiles@.len() as int,
            ),
    {
        let n = self.core.selected_host_profiles.len();
        if self.selected_profile_index >= n {
            self.selected_profile_index = if n > 0 {
                n - 1
            } else {
                0
            };
        }
    }

    /// Takes over what a background job reported; after a reload the profile
    /// selection is kept in range. A job that must follow is handed back.
    pub fn apply_worker_message(&mut self, message: WorkerMessage, now: u64) -> (r: Option<Job>)
        ensures
            message_applied(old(self).core, final(self).core, message, r, now),
            final(self).selected_profile_index == if message is Snapshot || message is ActivatedLocal {
                clamped_selection(
                    old(self).selected_profile_index,
                    final(self).core.selected_host_profiles@.len() as int,
                )
            } else {
                old(self).selected_profile_index
            },
            *final(self) == (App {
                core: final(self).core,
                selected_profile_index: final(self).selected_profile_index,
                ..*old(self)
            }),
    {
        let reloads = match &message {
            WorkerMessage::Snapshot { .. } => true,
            WorkerMessage::ActivatedLocal { .. } => true,
            _ => false,
        };
        let r = self.core.apply_worker_message(message, now);
        if reloads {
            self.clamp_selection();
        }
        r
    }

    /// One turn of the interface loop at time `now`: counts the tick and drops
    /// a notice older than five seconds.
    pub fn tick(&mut self, now: u64)
        ensures
            final(self).tick == (if old(self).tick == u64::MAX {
                0
            } else {
                old(self).tick + 1
            }),
            final(self).core.notice == match old(self).core.notice {
                Some(n) => if now >= n.created_at && now - n.created_at >= 5000 {
                    None
                } else {
                    Some(n)
                },
                None => None,
            },
            *final(self) == (App {
                core: SessionCore { notice: final(self).core.notice, ..old(self).core },
                tick: final(self).tick,
                ..*old(self)
            }),
    {
        self.tick = if self.tick == u64::MAX {
            0
        } else {
            self.tick + 1
        };
        self.core.expire_notice(now, 5000);
    }

    /// Takes over what the update worker reported.
    pub fn apply_update_message(&mut self, message: UpdateMessage, now: u64)
        ensures
            match message {
                UpdateMessage::CheckResult(Some(release)) => *final(self) == (App {
                    available_update: Some(release),
                    ..*old(self)
                }),
                UpdateMessage::CheckResult(None) => *final(self) == *old(self),
                UpdateMessage::DownloadComplete(Ok(())) => {
                    &&& download_settled(*old(self), *final(self))
                    &&& final(self).core.notice matches Some(n) && n.kind == NoticeKind::Success
                        && n.message@ == "Update downloaded. Restart to use the new version."@
                        && n.created_at == now
                },
                UpdateMessage::DownloadComplete(Err(e)) => {
                    &&& download_settled(*old(self), *final(self))
                    &&& final(self).core.notice matches Some(n) && n.kind == NoticeKind::Error
                        && n.message@ == "Update failed: "@ + e@ && n.created_at == now
                },
            },
    {
        match message {
            UpdateMessage::CheckResult(Some(release)) => {
                self.available_update = Some(release);
            },
            UpdateMessage::CheckResult(None) => {},
            UpdateMessage::DownloadComplete(Ok(())) => {
                self.update_in_progress = false;
                proof {
                    reveal_strlit("Update downloaded. Restart to use the new version.");
                }
                self.core.notice = Some(
                    OperationNotice::new(
                        NoticeKind::Success,
                        text("Update downloaded. Restart to use the new version."),
                        now,
                    ),
                );
            },
            UpdateMessage::DownloadComplete(Err(e)) => {
                self.update_in_progress = false;
                let mut m = chars_of("Update failed: ");
                push_all(&mut m, chars_of(e.as_str()).as_slice());
                proof {
                    reveal_strlit("Update failed: ");
                }
                self.core.notice = Some(
                    OperationNotice::new(NoticeKind::Error, string_from(m.as_slice()), now),
                );
            },
        }
    }
}

// ---------------------------------------------------------------------------
// Keys.

/// A key press, as the interface distinguishes them.
#[derive(Debug, Clone, Copy, PartialEq, Eq, Structural)]
pub enum KeyInput {
    Char(char),
    Esc,
    Enter,
    Backspace,
    Tab,
    BackTab,
    Up,
    Down,
    Left,
    Right,
    /// Control and `c` together.
    CtrlC,
    Other,
}

/// What a key press does at one stage of its handling.
#[derive(Debug, Clone, Copy, PartialEq, Eq, Structural)]
pub enum KeyAction {
    Nothing,
    Quit,
    CancelSearch,
    FinishSearch,
    SearchPop,
    SearchPush(char),
    CloseModal,
    ConfirmDelete,
    ImportText,
    ConfirmUpdate,
    CloseHostSelector,
    NextHost,
    PrevHost,
    StartSearch,
    OpenHelp,
    LoginBrowser,
    StartDeviceLogin,
    FinishDeviceLogin,
    OpenImport,
    OpenUpdate,
    RefreshLimits,
    ReloadAccounts,
    SyncRemote,
    OpenHostSelector,
    ClearSearchOrMarks,
    ToggleFocus,
    NextProfile,
    PrevProfile,
    Activate,
    MarkAndNext,
    MarkAllVisible,
    Export,
    FocusActionBar,
    FocusProfileList,
    ActionLeft,
    ActionRight,
    Delete,
}

/// What the front end has to do after an action.
pub enum Effect {
    Nothing,
    /// Run the job in the background.
    Run(Job),
    /// Leave the program.
    Quit,
    /// Copy the export targets to the clipboard.
    Export,
    /// Download and install the release.
    Download(ReleaseInfo),
}

/// The action of a key before the focused area sees it: Ctrl-C quits; the
/// search, an open dialog or the host selector take the key when active;
/// otherwise the global keys apply.
pub open spec fn first_action(a: App, key: KeyInput) -> KeyAction {
    if key == KeyInput::CtrlC {
        KeyAction::Quit
    } else if a.search_active {
        match key {
            KeyInput::Esc => KeyAction::CancelSearch,
            KeyInput::Enter => KeyAction::FinishSearch,
            KeyInput::Backspace => KeyAction::SearchPop,
            KeyInput::Char(c) => KeyAction::SearchPush(c),
            _ => KeyAction::Nothing,
        }
    } else if a.modal is Some {
        match key {
            KeyInput::Esc => KeyAction::CloseModal,
            KeyInput::Enter => match a.modal->0 {
                Modal::DeleteConfirm => KeyAction::ConfirmDelete,
                Modal::Import => KeyAction::ImportText,
                Modal::Help => KeyAction::CloseModal,
                Modal::UpdateConfirm => KeyAction::ConfirmUpdate,
            },
            _ => KeyAction::Nothing,
        }
    } else if a.host_selector_open {
        match key {
            KeyInput::Esc => KeyAction::CloseHostSelector,
            KeyInput::Enter => KeyAction::CloseHostSelector,
            KeyInput::Char('j') => KeyAction::NextHost,
            KeyInput::Down => KeyAction::NextHost,
            KeyInput::Char('k') => KeyAction::PrevHost,
            KeyInput::Up => KeyAction::PrevHost,
            _ => KeyAction::Nothing,
        }
    } else {
        match key {
            KeyInput::Char('q') => KeyAction::Quit,
            KeyInput::Char('/') => KeyAction::StartSearch,
            KeyInput::Char('?') => KeyAction::OpenHelp,
            KeyInput::Char('b') => KeyAction::LoginBrowser,
            KeyInput::Char('d') => KeyAction::StartDeviceLogin,
            KeyInput::Char('D') => KeyAction::FinishDeviceLogin,
            KeyInput::Char('i') => KeyAction::OpenImport,
            KeyInput::Char('u') => KeyAction::OpenUpdate,
            KeyInput::Char('r') => KeyAction::RefreshLimits,
            KeyInput::Char('R') => KeyAction::ReloadAccounts,
            KeyInput::Char('s') => if is_remote_at(a.core.hosts@, a.core.selected_host_index as int) {
                KeyAction::SyncRemote
            } else {
                KeyAction::Nothing
            },
            KeyInput::Char('h') => KeyAction::PrevHost,
            KeyInput::Left => KeyAction::PrevHost,
            KeyInput::Char('l') => KeyAction::NextHost,
            KeyInput::Right => KeyAction::NextHost,
            KeyInput::Char('H') => KeyAction::OpenHostSelector,
            KeyInput::Esc => KeyAction::ClearSearchOrMarks,
            KeyInput::Tab => KeyAction::ToggleFocus,
            KeyInput::BackTab => KeyAction::ToggleFocus,
            _ => KeyAction::Nothing,
        }
    }
}

/// Whether the focused area also sees the key: only for global keys other
/// than `q`.
pub open spec fn reaches_focus(a: App, key: KeyInput) -> bool {
    key != KeyInput::CtrlC && !a.search_active && a.modal is None && !a.host_selector_open && key
        != KeyInput::Char('q')
}

/// The action of a key in the focused area.
pub open spec fn focus_action(a: App, key: KeyInput) -> KeyAction {
    match a.focus {
        FocusArea::ProfileList => match key {
            KeyInput::Char('j') => KeyAction::NextProfile,
            KeyInput::Down => KeyAction::NextProfile,
            KeyInput::Char('k') => KeyAction::PrevProfile,
            KeyInput::Up => KeyAction::PrevProfile,
            KeyInput::Char(' ') => KeyAction::Activate,
            KeyInput::Char('x') => KeyAction::MarkAndNext,
            KeyInput::Char('X') => KeyAction::MarkAllVisible,
            KeyInput::Char('e') => KeyAction::Export,
            KeyInput::Enter => KeyAction::FocusActionBar,
            _ => KeyAction::Nothing,
        },
        FocusArea::ActionBar => match key {
            KeyInput::Char('j') => KeyAction::FocusProfileList,
            KeyInput::Down => KeyAction::FocusProfileList,
            KeyInput::Char('k') => KeyAction::FocusProfileList,
            KeyInput::Up => KeyAction::FocusProfileList,
            KeyInput::Left => KeyAction::ActionLeft,
            KeyInput::Right => KeyAction::ActionRight,
            KeyInput::Enter => if a.action_bar_index == 0 {
                KeyAction::Activate
            } else if a.action_bar_index == 1 {
                KeyAction::Export
            } else if a.action_bar_index == 2 {
                KeyAction::Delete
            } else {
                KeyAction::Nothing
            },
            _ => KeyAction::Nothing,
        },
        FocusArea::HostSelector => KeyAction::Nothing,
    }
}

/// The area focused after the focus is toggled.
pub open spec fn toggled_focus(f: FocusArea) -> FocusArea {
    match f {
        FocusArea::ProfileList => FocusArea::ActionBar,
        FocusArea::ActionBar => FocusArea::ProfileList,
        FocusArea::HostSelector => FocusArea::ProfileList,
    }
}

/// The job of an effect, if it runs one.
pub open spec fn effect_job(e: Effect) -> Option<Job> {
    match e {
        Effect::Run(j) => Some(j),
        _ => None,
    }
}

/// `f` is `o` with the search closed and its query and filter emptied.
pub open spec fn search_dropped(o: App, f: App) -> bool {
    &&& f == (App {
        search_active: false,
        search_query: f.search_query,
        filtered_indices: f.filtered_indices,
        ..o
    })
    &&& f.search_query@.len() == 0
    &&& f.filtered_indices@.len() == 0
}

/// `f` and `e` are `o` after `action` at time `now`.
pub open spec fn action_applied(o: App, f: App, action: KeyAction, e: Effect, now: u64) -> bool {
    match action {
        KeyAction::Nothing => f == o && e is Nothing,
        KeyAction::Quit => f == o && e is Quit,
        KeyAction::CancelSearch => {
            &&& e is Nothing
            &&& search_dropped(o, f)
        },
        KeyAction::FinishSearch => e is Nothing && f == (App { search_active: false, ..o }),
        KeyAction::SearchPop => e is Nothing && filter_updated(
            o,
            f,
            if o.search_query@.len() > 0 {
                o.search_query@.drop_last()
            } else {
                o.search_query@
            },
        ),
        KeyAction::SearchPush(c) => e is Nothing && filter_updated(o, f, o.search_query@.push(c)),
        KeyAction::CloseModal => e is Nothing && f == (App {
            modal: None,
            pending_delete_profile: None,
            ..o
        }),
        KeyAction::ConfirmDelete => match o.pending_delete_profile {
            None => e is Nothing && f == o,
            Some(id) => {
                &&& e matches Effect::Run(Job::DeleteProfile { profile_id }) && profile_id == id
                &&& busy_with(
                    App { modal: None, pending_delete_profile: None, ..o },
                    f,
                    BusyOperation::DeleteProfile,
                )
            },
        },
        KeyAction::ImportText => if trim(o.import_text@).len() == 0 {
            e is Nothing && refused(o, f, "import payload is empty"@, now)
        } else {
            &&& e matches Effect::Run(Job::Import { payload }) && payload@ == trim(o.import_text@)
            &&& busy_with(
                App { modal: None, import_text: f.import_text, ..o },
                f,
                BusyOperation::ReloadAccounts,
            )
            &&& f.import_text@.len() == 0
        },
        KeyAction::ConfirmUpdate => {
            &&& f == (App {
                modal: None,
                update_in_progress: o.update_in_progress || o.available_update is Some,
                ..o
            })
            &&& match o.available_update {
                Some(r) => e == Effect::Download(r),
                None => e is Nothing,
            }
        },
        KeyAction::CloseHostSelector => e is Nothing && f == (App { host_selector_open: false, ..o }),
        KeyAction::NextHost => if o.core.hosts@.len() == 0 {
            e is Nothing && f == o
        } else {
            host_selected(
                o,
                f,
                effect_job(e),
                ((o.core.selected_host_index + 1) % (o.core.hosts@.len() as int)) as usize,
                now,
            ) && (e is Nothing || e is Run)
        },
        KeyAction::PrevHost => if o.core.hosts@.len() == 0 {
            e is Nothing && f == o
        } else {
            host_selected(
                o,
                f,
                effect_job(e),
                if o.core.selected_host_index == 0 {
                    (o.core.hosts@.len() - 1) as usize
                } else {
                    (o.core.selected_host_index - 1) as usize
                },
                now,
            ) && (e is Nothing || e is Run)
        },
        KeyAction::StartSearch => e is Nothing && f.search_active && filter_updated(
            App { search_active: true, ..o },
            f,
            Seq::<char>::empty(),
        ),
        KeyAction::OpenHelp => e is Nothing && f == (App { modal: Some(Modal::Help), ..o }),
        KeyAction::LoginBrowser => e == Effect::Run(Job::BrowserLogin) && busy_with(
            o,
            f,
            BusyOperation::BrowserLogin,
        ),
        KeyAction::StartDeviceLogin => e == Effect::Run(Job::DeviceLoginStart) && busy_with(
            o,
            f,
            BusyOperation::DeviceLoginStart,
        ),
        KeyAction::FinishDeviceLogin => match o.core.device_prompt {
            None => e is Nothing && refused(o, f, "no pending device login"@, now),
            Some(p) => e == Effect::Run(Job::DeviceLoginFinish { prompt: p }) && busy_with(
                o,
                f,
                BusyOperation::DeviceLoginFinish,
            ),
        },
        KeyAction::OpenImport => e is Nothing && f.import_text@.len() == 0 && f == (App {
            import_text: f.import_text,
            modal: Some(Modal::Import),
            ..o
        }),
        KeyAction::OpenUpdate => e is Nothing && f == (App {
            modal: if o.available_update is Some {
                Some(Modal::UpdateConfirm)
            } else {
                o.modal
            },
            ..o
        }),
        KeyAction::RefreshLimits => e == Effect::Run(Job::RefreshLimits) && busy_with(
            o,
            f,
            BusyOperation::RefreshLimits,
        ),
        KeyAction::ReloadAccounts => e == Effect::Run(Job::Reload { fetch_limits: false })
            && busy_with(o, f, BusyOperation::ReloadAccounts),
        KeyAction::SyncRemote => e == Effect::Run(
            Job::SyncHost { host_index: o.core.selected_host_index },
        ) && busy_with(o, f, BusyOperation::SyncHost),
        KeyAction::OpenHostSelector => e is Nothing && f == (App {
            host_selector_open: true,
            focus: FocusArea::HostSelector,
            ..o
        }),
        KeyAction::ClearSearchOrMarks => {
            &&& e is Nothing
            &&& if o.search_query@.len() > 0 {
                search_dropped(o, f)
            } else if o.marked_profiles@ != Set::<Seq<char>>::empty() {
                f.marked_profiles@ == Set::<Seq<char>>::empty() && f == (App {
                    marked_profiles: f.marked_profiles,
                    ..o
                })
            } else {
                f == o
            }
        },
        KeyAction::ToggleFocus => e is Nothing && f == (App { focus: toggled_focus(o.focus), ..o }),
        KeyAction::NextProfile => e is Nothing && f == (App {
            selected_profile_index: next_selection(o.visible(), o.selected_profile_index),
            ..o
        }),
        KeyAction::PrevProfile => e is Nothing && f == (App {
            selected_profile_index: prev_selection(o.visible(), o.selected_profile_index),
            ..o
        }),
        KeyAction::Activate => match o.selected_spec() {
            None => e is Nothing && f == o,
            Some(p) => {
                &&& e matches Effect::Run(job) && busy_with(o, f, job_operation(job))
                &&& if is_remote_at(o.core.hosts@, o.core.selected_host_index as int) {
                    e matches Effect::Run(Job::ActivateRemote { profile_id, host_index })
                        && profile_id@ == p.id@ && host_index == o.core.selected_host_index
                } else {
                    e matches Effect::Run(Job::ActivateLocal { profile_id }) && profile_id@ == p.id@
                }
            },
        },
        KeyAction::MarkAndNext => {
            &&& e is Nothing
            &&& f.marked_profiles@ == match o.selected_spec() {
                None => o.marked_profiles@,
                Some(p) => toggled(o.marked_profiles@, p.id@),
            }
            &&& f == (App {
                marked_profiles: f.marked_profiles,
                selected_profile_index: next_selection(o.visible(), o.selected_profile_index),
                ..o
            })
        },
        KeyAction::MarkAllVisible => {
            let ids = ids_at(o.core.selected_host_profiles@, o.visible());
            &&& e is Nothing
            &&& f.marked_profiles@ == if ids.subset_of(o.marked_profiles@) {
                o.marked_profiles@.difference(ids)
            } else {
                o.marked_profiles@.union(ids)
            }
            &&& f == (App { marked_profiles: f.marked_profiles, ..o })
        },
        KeyAction::Export => e is Export && f == o,
        KeyAction::FocusActionBar => e is Nothing && f == (App {
            focus: FocusArea::ActionBar,
            action_bar_index: 0,
            ..o
        }),
        KeyAction::FocusProfileList => e is Nothing && f == (App { focus: FocusArea::ProfileList, ..o }),
        KeyAction::ActionLeft => e is Nothing && f == (App {
            action_bar_index: if o.action_bar_index == 0 {
                0
            } else {
                (o.action_bar_index - 1) as usize
            },
            ..o
        }),
        KeyAction::ActionRight => e is Nothing && f == (App {
            action_bar_index: if o.action_bar_index >= 2 {
                2
            } else {
                (o.action_bar_index + 1) as usize
            },
            ..o
        }),
        KeyAction::Delete => {
            &&& e is Nothing
            &&& match o.selected_spec() {
                None => f == o,
                Some(p) => f.pending_delete_profile matches Some(id) && id@ == p.id@ && f == (App {
                    pending_delete_profile: f.pending_delete_profile,
                    modal: Some(Modal::DeleteConfirm),
                    ..o
                }),
            }
        },
    }
}

fn job_effect(j: Option<Job>) -> (e: Effect)
    ensures
        effect_job(e) == j,
        j is None ==> e is Nothing,
        j is Some ==> e is Run,
{
    match j {
        Some(job) => Effect::Run(job),
        None => Effect::Nothing,
    }
}

impl App {
    /// The action of `key` before the focused area sees it.
    pub fn first_action(&self, key: KeyInput) -> (r: KeyAction)
        ensures
            r == first_action(*self, key),
    {
        if key == KeyInput::CtrlC {
            return KeyAction::Quit;
        }
        if self.search_active {
            return match key {
                KeyInput::Esc => KeyAction::CancelSearch,
                KeyInput::Enter => KeyAction::FinishSearch,
                KeyInput::Backspace => KeyAction::SearchPop,
                KeyInput::Char(c) => KeyAction::SearchPush(c),
                _ => KeyAction::Nothing,
            };
        }
        match self.modal {
            Some(m) => {
                return match key {
                    KeyInput::Esc => KeyAction::CloseModal,
                    KeyInput::Enter => match m {
                        Modal::DeleteConfirm => KeyAction::ConfirmDelete,
                        Modal::Import => KeyAction::ImportText,
                        Modal::Help => KeyAction::CloseModal,
                        Modal::UpdateConfirm => KeyAction::ConfirmUpdate,
                    },
                    _ => KeyAction::Nothing,
                };
            },
            None => {},
        }
        if self.host_selector_open {
            return match key {
                KeyInput::Esc => KeyAction::CloseHostSelector,
                KeyInput::Enter => KeyAction::CloseHostSelector,
                KeyInput::Char('j') => KeyAction::NextHost,
                KeyInput::Down => KeyAction::NextHost,
                KeyInput::Char('k') => KeyAction::PrevHost,
                KeyInput::Up => KeyAction::PrevHost,
                _ => KeyAction::Nothing,
            };
        }
        match key {
            KeyInput::Char('q') => KeyAction::Quit,
            KeyInput::Char('/') => KeyAction::StartSearch,
            KeyInput::Char('?') => KeyAction::OpenHelp,
            KeyInput::Char('b') => KeyAction::LoginBrowser,
            KeyInput::Char('d') => KeyAction::StartDeviceLogin,
            KeyInput::Char('D') => KeyAction::FinishDeviceLogin,
            KeyInput::Char('i') => KeyAction::OpenImport,
            KeyInput::Char('u') => KeyAction::OpenUpdate,
            KeyInput::Char('r') => KeyAction::RefreshLimits,
            KeyInput::Char('R') => KeyAction::ReloadAccounts,
            KeyInput::Char('s') => if self.core.selected_host_is_remote() {
                KeyAction::SyncRemote
            } else {
                KeyAction::Nothing
            },
            KeyInput::Char('h') => KeyAction::PrevHost,
            KeyInput::Left => KeyAction::PrevHost,
            KeyInput::Char('l') => KeyAction::NextHost,
            KeyInput::Right => KeyAction::NextHost,
            KeyInput::Char('H') => KeyAction::OpenHostSelector,
            KeyInput::Esc => KeyAction::ClearSearchOrMarks,
            KeyInput::Tab => KeyAction::ToggleFocus,
            KeyInput::BackTab => KeyAction::ToggleFocus,
            _ => KeyAction::Nothing,
        }
    }

    /// Whether the focused area also sees `key`.
    pub fn reaches_focus(&self, key: KeyInput) -> (r: bool)
        ensures
            r == reaches_focus(*self, key),
    {
        key != KeyInput::CtrlC && !self.search_active && self.modal.is_none()
            && !self.host_selector_open && key != KeyInput::Char('q')
    }

    /// The action of `key` in the focused area.
    pub fn focus_action(&self, key: KeyInput) -> (r: KeyAction)
        ensures
            r == focus_action(*self, key),
    {
        match self.focus {
            FocusArea::ProfileList => match key {
                KeyInput::Char('j') => KeyAction::NextProfile,
                KeyInput::Down => KeyAction::NextProfile,
                KeyInput::Char('k') => KeyAction::PrevProfile,
                KeyInput::Up => KeyAction::PrevProfile,
                KeyInput::Char(' ') => KeyAction::Activate,
                KeyInput::Char('x') => KeyAction::MarkAndNext,
                KeyInput::Char('X') => KeyAction::MarkAllVisible,
                KeyInput::Char('e') => KeyAction::Export,
                KeyInput::Enter => KeyAction::FocusActionBar,
                _ => KeyAction::Nothing,
            },
            FocusArea::ActionBar => match key {
                KeyInput::Char('j') => KeyAction::FocusProfileList,
                KeyInput::Down => KeyAction::FocusProfileList,
                KeyInput::Char('k') => KeyAction::FocusProfileList,
                KeyInput::Up => KeyAction::FocusProfileList,
                KeyInput::Left => KeyAction::ActionLeft,
                KeyInput::Right => KeyAction::ActionRight,
                KeyInput::Enter => if self.action_bar_index == 0 {
                    KeyAction::Activate
                } else if self.action_bar_index == 1 {
                    KeyAction::Export
                } else if self.action_bar_index == 2 {
                    KeyAction::Delete
                } else {
                    KeyAction::Nothing
                },
                _ => KeyAction::Nothing,
            },
            FocusArea::HostSelector => KeyAction::Nothing,
        }
    }

    /// Carries out `action` at time `now`; what is left for the front end to do
    /// is handed back.
    pub fn apply_action(&mut self, action: KeyAction, now: u64) -> (r: Effect)
        ensures
            action_applied(*old(self), *final(self), action, r, now),
    {
        match action {
            KeyAction::Nothing => Effect::Nothing,
            KeyAction::Quit => Effect::Quit,
            KeyAction::CancelSearch => {
                self.cancel_search();
                Effect::Nothing
            },
            KeyAction::FinishSearch => {
                self.finish_search();
                Effect::Nothing
            },
            KeyAction::SearchPop => {
                self.search_pop();
                Effect::Nothing
            },
            KeyAction::SearchPush(c) => {
                self.search_push(c);
                Effect::Nothing
            },
            KeyAction::CloseModal => {
                self.close_modal();
                Effect::Nothing
            },
            KeyAction::ConfirmDelete => job_effect(self.confirm_delete()),
            KeyAction::ImportText => job_effect(self.import_from_text(now)),
            KeyAction::ConfirmUpdate => match self.confirm_update() {
                Some(r) => Effect::Download(r),
                None => Effect::Nothing,
            },
            KeyAction::CloseHostSelector => {
                self.host_selector_open = false;
                Effect::Nothing
            },
            KeyAction::NextHost => job_effect(self.next_host(now)),
            KeyAction::PrevHost => job_effect(self.prev_host(now)),
            KeyAction::StartSearch => {
                self.start_search();
                Effect::Nothing
            },
            KeyAction::OpenHelp => {
                self.modal = Some(Modal::Help);
                Effect::Nothing
            },
            KeyAction::LoginBrowser => Effect::Run(self.login_browser()),
            KeyAction::StartDeviceLogin => Effect::Run(self.start_device_login()),
            KeyAction::FinishDeviceLogin => job_effect(self.finish_device_login(now)),
            KeyAction::OpenImport => {
                self.open_import_modal();
                Effect::Nothing
            },
            KeyAction::OpenUpdate => {
                self.open_update_modal();
                Effect::Nothing
            },
            KeyAction::RefreshLimits => Effect::Run(self.refresh_all_limits()),
            KeyAction::ReloadAccounts => Effect::Run(self.reload_accounts()),
            KeyAction::SyncRemote => Effect::Run(self.sync_selected_remote()),
            KeyAction::OpenHostSelector => {
                self.host_selector_open = true;
                self.focus = FocusArea::HostSelector;
                Effect::Nothing
            },
            KeyAction::ClearSearchOrMarks => {
                if chars_of(self.search_query.as_str()).len() > 0 {
                    self.cancel_search();
                } else if !self.marked_profiles.is_empty() {
                    self.clear_marks();
                }
                Effect::Nothing
            },
            KeyAction::ToggleFocus => {
                self.focus = match self.focus {
                    FocusArea::ProfileList => FocusArea::ActionBar,
                    FocusArea::ActionBar => FocusArea::ProfileList,
                    FocusArea::HostSelector => FocusArea::ProfileList,
                };
                Effect::Nothing
            },
            KeyAction::NextProfile => {
                self.next_profile();
                Effect::Nothing
            },
            KeyAction::PrevProfile => {
                self.prev_profile();
                Effect::Nothing
            },
            KeyAction::Activate => job_effect(self.activate_selected_profile()),
            KeyAction::MarkAndNext => {
                self.toggle_mark();
                self.next_profile();
                Effect::Nothing
            },
            KeyAction::MarkAllVisible => {
                self.mark_all_visible();
                Effect::Nothing
            },
            KeyAction::Export => Effect::Export,
            KeyAction::FocusActionBar => {
                self.focus = FocusArea::ActionBar;
                self.action_bar_index = 0;
                Effect::Nothing
            },
            KeyAction::FocusProfileList => {
                self.focus = FocusArea::ProfileList;
                Effect::Nothing
            },
            KeyAction::ActionLeft => {
                if self.action_bar_index > 0 {
                    self.action_bar_index = self.action_bar_index - 1;
                }
                Effect::Nothing
            },
            KeyAction::ActionRight => {
                self.action_bar_index = if self.action_bar_index >= 2 {
                    2
                } else {
                    self.action_bar_index + 1
                };
                Effect::Nothing
            },
            KeyAction::Delete => {
                self.delete_selected_profile();
                Effect::Nothing
            },
        }
    }
}

/// The number of cards scrolled past so that the selected card (at `pos` among
/// the visible ones) shows when `fits` cards fit.
pub open spec fn scroll_for(pos: u16, fits: u16) -> u16 {
    if fits == 0 || pos < fits {
        0
    } else {
        (pos - fits + 1) as u16
    }
}

/// The number of cards scrolled past so that the selected card shows.
pub fn card_scroll_offset(selected_pos: u16, visible_cards: u16) -> (r: u16)
    ensures
        r == scroll_for(selected_pos, visible_cards),
{
    if visible_cards == 0 || selected_pos < visible_cards {
        0
    } else {
        selected_pos - visible_cards + 1
    }
}

/// Every visible index points at a profile.
proof fn lemma_visible_bounds(query: Seq<char>, f: Seq<usize>, n: int)
    requires
        0 <= n <= usize::MAX,
    ensures
        forall|k: int|
            0 <= k < visible_of(query, f, n).len() ==> #[trigger] visible_of(query, f, n)[k] < n,
{
    if query.len() != 0 {
        lemma_in_bounds(f, n);
    }
}

proof fn lemma_in_bounds(f: Seq<usize>, n: int)
    ensures
        forall|k: int| 0 <= k < in_bounds(f, n).len() ==> #[trigger] in_bounds(f, n)[k] < n,
    decreases f.len(),
{
    if f.len() > 0 {
        lemma_in_bounds(f.drop_last(), n);
        let p = in_bounds(f.drop_last(), n);
        if f.last() < n {
            assert forall|k: int| 0 <= k < p.len() + 1 implies #[trigger] p.push(f.last())[k] < n by {
                if k < p.len() {
                    assert(p.push(f.last())[k] == p[k]);
                }
            }
        }
    }
}

} // verus!
