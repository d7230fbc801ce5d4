//! The state both front ends keep of accounts and hosts: the limits cache, the
//! marked profiles, notices, background jobs and the worker messages that
//! update the state when a job finishes.
use vstd::prelude::*;
use crate::auth::DeviceCodePrompt;
use crate::domain::{
    AccountProfile, AuthFile, HostTarget, LimitsSnapshotSet, ManagedHost, OAuthSession, RemoteHost,
};
use crate::host_ops::RemoteHostSnapshot;
use crate::profile_store::views;
use crate::text::{chars_of, decimal, push_all, str_eq, string_from, text, u64_decimal};

verus! {

/// A background operation that keeps the interface busy.
#[derive(Debug, Clone, Copy, PartialEq, Eq, Structural)]
pub enum BusyOperation {
    RefreshLimits,
    ReloadAccounts,
    ActivateLocal,
    ActivateRemote,
    SyncHost,
    InspectHost,
    DeleteProfile,
    BrowserLogin,
    DeviceLoginStart,
    DeviceLoginFinish,
}

/// The text shown while an operation runs.
pub open spec fn busy_label(op: BusyOperation) -> Seq<char> {
    match op {
        BusyOperation::RefreshLimits => "Refreshing limits"@,
        BusyOperation::ReloadAccounts => "Reloading accounts"@,
        BusyOperation::ActivateLocal => "Activating locally"@,
        BusyOperation::ActivateRemote => "Activating remotely"@,
        BusyOperation::SyncHost => "Syncing host"@,
        BusyOperation::InspectHost => "Loading host"@,
        BusyOperation::DeleteProfile => "Deleting profile"@,
        BusyOperation::BrowserLogin => "Browser login"@,
        BusyOperation::DeviceLoginStart => "Starting device login"@,
        BusyOperation::DeviceLoginFinish => "Finishing device login"@,
    }
}

impl BusyOperation {
    /// The text shown while this operation runs.
    pub fn label(self) -> (r: &'static str)
        ensures
            r@ == busy_label(self),
    {
        match self {
            BusyOperation::RefreshLimits => "Refreshing limits",
            BusyOperation::ReloadAccounts => "Reloading accounts",
            BusyOperation::ActivateLocal => "Activating locally",
            BusyOperation::ActivateRemote => "Activating remotely",
            BusyOperation::SyncHost => "Syncing host",
            BusyOperation::InspectHost => "Loading host",
            BusyOperation::DeleteProfile => "Deleting profile",
            BusyOperation::BrowserLogin => "Browser login",
            BusyOperation::DeviceLoginStart => "Starting device login",
            BusyOperation::DeviceLoginFinish => "Finishing device login",
        }
    }
}

/// Whether a notice reports success or an error.
#[derive(Debug, Clone, Copy, PartialEq, Eq, Structural)]
pub enum NoticeKind {
    Success,
    Error,
}

/// A message shown for a while after an operation. `created_at` is the time it
/// was made, in milliseconds of the front end's monotonic clock.
pub struct OperationNotice {
    pub kind: NoticeKind,
    pub message: String,
    pub created_at: u64,
}

impl Clone for OperationNotice {
    fn clone(&self) -> (r: Self)
        ensures
            r == *self,
    {
        OperationNotice { kind: self.kind, message: self.message.clone(), created_at: self.created_at }
    }
}

impl OperationNotice {
    /// A notice made at `created_at`.
    pub fn new(kind: NoticeKind, message: String, created_at: u64) -> (r: OperationNotice)
        ensures
            r.kind == kind,
            r.message == message,
            r.created_at == created_at,
    {
        OperationNotice { kind, message, created_at }
    }

    /// Whether `ttl` milliseconds have passed since the notice was made.
    pub fn expired(&self, now: u64, ttl: u64) -> (r: bool)
        ensures
            r == (now >= self.created_at && now - self.created_at >= ttl),
    {
        now >= self.created_at && now - self.created_at >= ttl
    }
}

// ---------------------------------------------------------------------------
// The limits cache.

/// The limits stored for `id`: the last entry with that id.
pub open spec fn cached(entries: Seq<(Seq<char>, LimitsSnapshotSet)>, id: Seq<char>) -> Option<
    LimitsSnapshotSet,
>
    decreases entries.len(),
{
    if entries.len() == 0 {
        None
    } else if entries.last().0 == id {
        Some(entries.last().1)
    } else {
        cached(entries.drop_last(), id)
    }
}

/// The limits fetched for each profile, by profile id.
pub struct LimitsCache {
    entries: Vec<(String, LimitsSnapshotSet)>,
}

pub open spec fn entry_view(e: (String, LimitsSnapshotSet)) -> (Seq<char>, LimitsSnapshotSet) {
    (e.0@, e.1)
}

impl View for LimitsCache {
    type V = Seq<(Seq<char>, LimitsSnapshotSet)>;

    closed spec fn view(&self) -> Seq<(Seq<char>, LimitsSnapshotSet)> {
        self.entries@.map_values(|e: (String, LimitsSnapshotSet)| entry_view(e))
    }
}

impl LimitsCache {
    /// The limits stored for `id`.
    pub open spec fn get_spec(&self, id: Seq<char>) -> Option<LimitsSnapshotSet> {
        cached(self@, id)
    }

    /// An empty cache.
    pub fn new() -> (r: LimitsCache)
        ensures
            r@.len() == 0,
            forall|id: Seq<char>| r.get_spec(id) is None,
    {
        let r = LimitsCache { entries: Vec::new() };
        assert(r@ =~= Seq::<(Seq<char>, LimitsSnapshotSet)>::empty());
        r
    }

    /// Whether nothing is stored.
    pub fn is_empty(&self) -> (r: bool)
        ensures
            r == (self@.len() == 0),
            r ==> forall|id: Seq<char>| self.get_spec(id) is None,
    {
        self.entries.len() == 0
    }

    /// The limits stored for `id`.
    pub fn get(&self, id: &str) -> (r: Option<&LimitsSnapshotSet>)
        ensures
            match r {
                Some(s) => self.get_spec(id@) == Some(*s),
                None => self.get_spec(id@) is None,
            },
    {
        let ghost s = self@;
        let mut i: usize = self.entries.len();
        assert(s.take(i as int) =~= s);
        while i > 0
            invariant
                i <= self.entries@.len(),
                s == self@,
                cached(s, id@) == cached(s.take(i as int), id@),
            decreases i,
        {
            proof {
                assert(s.take(i as int).drop_last() =~= s.take(i - 1));
                assert(s[i - 1] == entry_view(self.entries@[i - 1]));
            }
            if str_eq(self.entries[i - 1].0.as_str(), id) {
                return Some(&self.entries[i - 1].1);
            }
            i = i - 1;
        }
        None
    }

    /// Stores `limits` for `id`, replacing what was stored for it.
    pub fn insert(&mut self, id: String, limits: LimitsSnapshotSet)
        ensures
            final(self).get_spec(id@) == Some(limits),
            forall|other: Seq<char>|
                other != id@ ==> final(self).get_spec(other) == old(self).get_spec(other),
    {
        let ghost s = self@;
        let ghost v = limits;
        let mut i: usize = self.entries.len();
        let mut found = false;
        while i > 0 && !found
            invariant
                i <= self.entries@.len(),
                s == self@,
                found ==> i > 0 && s[i - 1].0 == id@,
                forall|k: int| i <= k < s.len() ==> (#[trigger] s[k]).0 != id@,
            decreases i + if found {
                0int
            } else {
                1int
            },
        {
            if str_eq(self.entries[i - 1].0.as_str(), id.as_str()) {
                found = true;
            } else {
                i = i - 1;
            }
        }
        if found {
            assert(s[i - 1].0 == id@);
            self.entries.set(i - 1, (id, limits));
            proof {
                let t = s.update(i - 1, (s[i - 1].0, v));
                assert(self@ =~= t);
                lemma_cached_replace(s, (i - 1) as int, v);
            }
        } else {
            let ghost old_entries = self@;
            self.entries.push((id, limits));
            proof {
                assert(self@ =~= old_entries.push((id@, v)));
                assert(self@.drop_last() =~= old_entries);
            }
        }
    }

    /// Keeps only the entries of the given profile ids.
    pub fn retain_ids(&mut self, ids: &Vec<String>)
        ensures
            forall|id: Seq<char>|
                #[trigger] final(self).get_spec(id) == if views(ids@).contains(id) {
                    old(self).get_spec(id)
                } else {
                    None
                },
    {
        let ghost s = self@;
        let ghost ks = views(ids@);
        let mut src: Vec<(String, LimitsSnapshotSet)> = Vec::new();
        std::mem::swap(&mut src, &mut self.entries);
        let ghost src0 = src@;
        assert(src0.map_values(|e: (String, LimitsSnapshotSet)| entry_view(e)) == s);
        let mut kept: Vec<(String, LimitsSnapshotSet)> = Vec::new();
        let total = src.len();
        assert(s.len() == total);
        let mut n: usize = 0;
        while src.len() > 0
            invariant
                n + src@.len() == s.len(),
                s.len() == src0.len(),
                s.len() <= usize::MAX,
                src@ == src0.skip(n as int),
                forall|k: int| 0 <= k < s.len() ==> #[trigger] s[k] == entry_view(src0[k]),
                ks == views(ids@),
                kept@.map_values(|e: (String, LimitsSnapshotSet)| entry_view(e)) == keep_listed(
                    s.take(n as int),
                    ks,
                ),
            decreases src@.len(),
        {
            let ghost before = kept@.map_values(|e: (String, LimitsSnapshotSet)| entry_view(e));
            let e = src.remove(0);
            proof {
                assert(e == src0[n as int]);
                assert(s.take(n + 1).drop_last() =~= s.take(n as int));
                assert(s.take(n + 1).last() == s[n as int]);
                assert(src@ =~= src0.skip(n + 1));
            }
            if contains_id(ids, e.0.as_str()) {
                kept.push(e);
                assert(kept@.map_values(|e: (String, LimitsSnapshotSet)| entry_view(e)) =~= before.push(
                    s[n as int],
                ));
            }
            n = n + 1;
        }
        assert(s.take(n as int) =~= s);
        self.entries = kept;
        proof {
            assert forall|id: Seq<char>|
                #[trigger] self.get_spec(id) == if ks.contains(id) {
                    cached(s, id)
                } else {
                    None
                } by {
                lemma_cached_keep(s, ks, id);
            }
        }
    }
}

/// The entries whose id is one of `ks`, in order.
pub open spec fn keep_listed(s: Seq<(Seq<char>, LimitsSnapshotSet)>, ks: Seq<Seq<char>>) -> Seq<
    (Seq<char>, LimitsSnapshotSet),
>
    decreases s.len(),
{
    if s.len() == 0 {
        s
    } else if ks.contains(s.last().0) {
        keep_listed(s.drop_last(), ks).push(s.last())
    } else {
        keep_listed(s.drop_last(), ks)
    }
}

proof fn lemma_cached_keep(s: Seq<(Seq<char>, LimitsSnapshotSet)>, ks: Seq<Seq<char>>, id: Seq<char>)
    ensures
        cached(keep_listed(s, ks), id) == if ks.contains(id) {
            cached(s, id)
        } else {
            None
        },
    decreases s.len(),
{
    if s.len() > 0 {
        lemma_cached_keep(s.drop_last(), ks, id);
        if ks.contains(s.last().0) {
            assert(keep_listed(s, ks).drop_last() =~= keep_listed(s.drop_last(), ks));
        }
    }
}

/// `id` is one of `ids`.
fn contains_id(ids: &Vec<String>, id: &str) -> (r: bool)
    ensures
        r == views(ids@).contains(id@),
{
    let ghost v = views(ids@);
    let mut i: usize = 0;
    while i < ids.len()
        invariant
            i <= ids@.len(),
            v == views(ids@),
            forall|k: int| 0 <= k < i ==> v[k] != id@,
        decreases ids@.len() - i,
    {
        if str_eq(ids[i].as_str(), id) {
            assert(v[i as int] == id@);
            return true;
        }
        i = i + 1;
    }
    false
}

/// Replacing the value of the last entry with a given id changes what is stored
/// for that id only.
proof fn lemma_cached_replace(s: Seq<(Seq<char>, LimitsSnapshotSet)>, i: int, v: LimitsSnapshotSet)
    requires
        0 <= i < s.len(),
        forall|k: int| i < k < s.len() ==> (#[trigger] s[k]).0 != s[i].0,
    ensures
        cached(s.update(i, (s[i].0, v)), s[i].0) == Some(v),
        forall|other: Seq<char>|
            other != s[i].0 ==> cached(s.update(i, (s[i].0, v)), other) == cached(s, other),
    decreases s.len(),
{
    let t = s.update(i, (s[i].0, v));
    assert(t.len() == s.len());
    if i == s.len() - 1 {
        assert(t.drop_last() =~= s.drop_last());
        assert(t.last() == (s[i].0, v));
        assert forall|other: Seq<char>| other != s[i].0 implies cached(t, other) == cached(
            s,
            other,
        ) by {
            assert(s.last().0 == s[i].0);
        }
    } else {
        assert(t.drop_last() =~= s.drop_last().update(i, (s[i].0, v)));
        assert(t.last() == s.last());
        assert(s.drop_last()[i] == s[i]);
        lemma_cached_replace(s.drop_last(), i, v);
        assert forall|other: Seq<char>| other != s[i].0 implies cached(t, other) == cached(
            s,
            other,
        ) by {
            let d = s.drop_last();
            assert(d[i].0 == s[i].0);
            assert(t.drop_last() =~= d.update(i, (d[i].0, v)));
            if s.last().0 != other {
                assert(cached(t.drop_last(), other) == cached(d, other));
            }
        }
    }
}

// ---------------------------------------------------------------------------
// Marked profiles.

/// A set of profile ids, each kept once.
pub struct MarkSet {
    ids: Vec<String>,
}

impl View for MarkSet {
    type V = Set<Seq<char>>;

    closed spec fn view(&self) -> Set<Seq<char>> {
        views(self.ids@).to_set()
    }
}

impl MarkSet {
    /// No profile marked.
    pub fn new() -> (r: MarkSet)
        ensures
            r@ == Set::<Seq<char>>::empty(),
    {
        let r = MarkSet { ids: Vec::new() };
        assert(r@ =~= Set::<Seq<char>>::empty());
        r
    }

    /// Whether `id` is marked.
    pub fn contains(&self, id: &str) -> (r: bool)
        ensures
            r == self@.contains(id@),
    {
        contains_id(&self.ids, id)
    }

    /// Whether nothing is marked.
    pub fn is_empty(&self) -> (r: bool)
        ensures
            r == (self@ == Set::<Seq<char>>::empty()),
    {
        if self.ids.len() == 0 {
            assert(self@ =~= Set::<Seq<char>>::empty());
            true
        } else {
            assert(self@.contains(self.ids@[0]@)) by {
                assert(views(self.ids@)[0] == self.ids@[0]@);
            }
            false
        }
    }

    /// Marks `id`.
    pub fn insert(&mut self, id: String)
        ensures
            final(self)@ == old(self)@.insert(id@),
    {
        if !contains_id(&self.ids, id.as_str()) {
            let ghost before = views(self.ids@);
            self.ids.push(id);
            proof {
                assert(views(self.ids@) =~= before.push(id@));
                before.lemma_push_to_set_commute(id@);
                assert(self@ =~= old(self)@.insert(id@));
            }
        } else {
            assert(self@ =~= old(self)@.insert(id@));
        }
    }

    /// Unmarks `id`; whether it was marked.
    pub fn remove(&mut self, id: &str) -> (r: bool)
        ensures
            r == old(self)@.contains(id@),
            final(self)@ == old(self)@.remove(id@),
    {
        let ghost v = views(self.ids@);
        let mut rest: Vec<String> = Vec::new();
        let mut found = false;
        let mut i: usize = 0;
        while i < self.ids.len()
            invariant
                i <= self.ids@.len(),
                v == views(self.ids@),
                found == v.take(i as int).contains(id@),
                forall|x: Seq<char>|
                    views(rest@).contains(x) <==> (v.take(i as int).contains(x) && x != id@),
            decreases self.ids@.len() - i,
        {
            let ghost before = views(rest@);
            proof {
                assert(v[i as int] == self.ids@[i as int]@);
                assert(v.take(i + 1) =~= v.take(i as int).push(v[i as int]));
                assert forall|x: Seq<char>|
                    v.take(i + 1).contains(x) <==> (v.take(i as int).contains(x) || x == v[i as int]) by {
                    vstd::seq_lib::lemma_seq_contains_after_push(v.take(i as int), v[i as int], x);
                }
            }
            if str_eq(self.ids[i].as_str(), id) {
                found = true;
            } else {
                rest.push(self.ids[i].clone());
                proof {
                    assert(views(rest@) =~= before.push(v[i as int]));
                    assert forall|x: Seq<char>|
                        views(rest@).contains(x) <==> (before.contains(x) || x == v[i as int]) by {
                        vstd::seq_lib::lemma_seq_contains_after_push(before, v[i as int], x);
                    }
                }
            }
            assert forall|x: Seq<char>|
                views(rest@).contains(x) <==> (v.take(i + 1).contains(x) && x != id@) by {
                vstd::seq_lib::lemma_seq_contains_after_push(v.take(i as int), v[i as int], x);
                vstd::seq_lib::lemma_seq_contains_after_push(before, v[i as int], x);
            }
            i = i + 1;
        }
        assert(v.take(i as int) =~= v);
        self.ids = rest;
        assert(self@ =~= old(self)@.remove(id@));
        found
    }

    /// Unmarks everything.
    pub fn clear(&mut self)
        ensures
            final(self)@ == Set::<Seq<char>>::empty(),
    {
        self.ids = Vec::new();
        assert(self@ =~= Set::<Seq<char>>::empty());
    }
}

/// Marking an id and then toggling it off again, or toggling twice, leaves the
/// marks as they were.
pub proof fn lemma_toggle_twice(marks: Set<Seq<char>>, id: Seq<char>)
    ensures
        toggled(toggled(marks, id), id) == marks,
{
    assert(toggled(toggled(marks, id), id) =~= marks);
}

/// The marks after toggling `id`.
pub open spec fn toggled(marks: Set<Seq<char>>, id: Seq<char>) -> Set<Seq<char>> {
    if marks.contains(id) {
        marks.remove(id)
    } else {
        marks.insert(id)
    }
}

// ---------------------------------------------------------------------------
// Snapshots, background jobs and their results.

/// What a reload read from disk (and the network): the active auth file and
/// its session, the saved profiles, the hosts, and any limits fetched.
pub struct AppSnapshot {
    pub current_auth: Option<AuthFile>,
    pub current_session: Option<OAuthSession>,
    pub profiles: Vec<AccountProfile>,
    pub hosts: Vec<ManagedHost>,
    pub limits_by_profile: LimitsCache,
}

/// Work done away from the interface; the front end runs it and answers with a
/// `WorkerMessage`.
pub enum Job {
    /// Reload everything, fetching the limits of every profile.
    RefreshLimits,
    /// Reload profiles and hosts, fetching limits or not.
    Reload { fetch_limits: bool },
    /// Fetch the limits of one profile; `success_message` is shown when done.
    RefreshProfileLimits { profile_id: String, success_message: String },
    /// Write a saved profile as the local active auth file.
    ActivateLocal { profile_id: String },
    /// Write a saved profile as the active auth file of the host at `host_index`.
    ActivateRemote { profile_id: String, host_index: usize },
    /// Mirror the managed data directory to the host at `host_index`.
    SyncHost { host_index: usize },
    /// Read the profiles and active auth file of a remote host.
    InspectHost { host_index: usize, remote: RemoteHost, host_label: String, show_notice: bool },
    /// Delete a saved profile.
    DeleteProfile { profile_id: String },
    /// Save the accounts of an exported JSON payload as profiles.
    Import { payload: String },
    /// Sign in through the browser and activate the new account.
    BrowserLogin,
    /// Ask for a device code.
    DeviceLoginStart,
    /// Wait for the device sign-in to finish and activate the new account.
    DeviceLoginFinish { prompt: DeviceCodePrompt },
}

/// The operation a job keeps the interface busy with.
pub open spec fn job_operation(job: Job) -> BusyOperation {
    match job {
        Job::RefreshLimits => BusyOperation::RefreshLimits,
        Job::Reload { .. } => BusyOperation::ReloadAccounts,
        Job::RefreshProfileLimits { .. } => BusyOperation::RefreshLimits,
        Job::ActivateLocal { .. } => BusyOperation::ActivateLocal,
        Job::ActivateRemote { .. } => BusyOperation::ActivateRemote,
        Job::SyncHost { .. } => BusyOperation::SyncHost,
        Job::InspectHost { .. } => BusyOperation::InspectHost,
        Job::DeleteProfile { .. } => BusyOperation::DeleteProfile,
        Job::Import { .. } => BusyOperation::ReloadAccounts,
        Job::BrowserLogin => BusyOperation::BrowserLogin,
        Job::DeviceLoginStart => BusyOperation::DeviceLoginStart,
        Job::DeviceLoginFinish { .. } => BusyOperation::DeviceLoginFinish,
    }
}

/// The operation a job keeps the interface busy with.
pub fn operation_of(job: &Job) -> (r: BusyOperation)
    ensures
        r == job_operation(*job),
{
    match job {
        Job::RefreshLimits => BusyOperation::RefreshLimits,
        Job::Reload { .. } => BusyOperation::ReloadAccounts,
        Job::RefreshProfileLimits { .. } => BusyOperation::RefreshLimits,
        Job::ActivateLocal { .. } => BusyOperation::ActivateLocal,
        Job::ActivateRemote { .. } => BusyOperation::ActivateRemote,
        Job::SyncHost { .. } => BusyOperation::SyncHost,
        Job::InspectHost { .. } => BusyOperation::InspectHost,
        Job::DeleteProfile { .. } => BusyOperation::DeleteProfile,
        Job::Import { .. } => BusyOperation::ReloadAccounts,
        Job::BrowserLogin => BusyOperation::BrowserLogin,
        Job::DeviceLoginStart => BusyOperation::DeviceLoginStart,
        Job::DeviceLoginFinish { .. } => BusyOperation::DeviceLoginFinish,
    }
}

/// How a background job ended.
#[allow(inconsistent_fields)]
pub enum WorkerMessage {
    /// Everything was reloaded.
    Snapshot { snapshot: AppSnapshot, notice: OperationNotice },
    /// A profile was activated locally and everything reloaded.
    ActivatedLocal { snapshot: AppSnapshot, profile_id: String },
    /// The limits of one profile were fetched.
    ProfileLimits { profile_id: String, limits: LimitsSnapshotSet, notice: OperationNotice },
    /// A remote host was read.
    HostInspection {
        host_index: usize,
        snapshot: RemoteHostSnapshot,
        notice: Option<OperationNotice>,
    },
    /// A device code is ready.
    DevicePrompt { prompt: DeviceCodePrompt, notice: OperationNotice },
    /// The job failed.
    Error { notice: OperationNotice },
    /// The worker went away without an answer.
    Disconnected,
}

// ---------------------------------------------------------------------------
// The shared state.

/// A copy of a list of profiles.
pub fn clone_profiles(v: &Vec<AccountProfile>) -> (r: Vec<AccountProfile>)
    ensures
        r@ == v@,
{
    let mut out: Vec<AccountProfile> = Vec::new();
    let mut i: usize = 0;
    while i < v.len()
        invariant
            i <= v@.len(),
            out@ == v@.take(i as int),
        decreases v@.len() - i,
    {
        out.push(v[i].clone());
        i = i + 1;
        assert(out@ =~= v@.take(i as int));
    }
    assert(v@.take(i as int) =~= v@);
    out
}

/// A copy of an optional auth file.
pub fn clone_opt_auth(a: &Option<AuthFile>) -> (r: Option<AuthFile>)
    ensures
        r == *a,
{
    match a {
        Some(f) => Some(f.clone()),
        None => None,
    }
}

/// The ids of the profiles, in order.
pub open spec fn profile_ids(profiles: Seq<AccountProfile>) -> Seq<Seq<char>> {
    profiles.map_values(|p: AccountProfile| p.id@)
}

/// The first host with the id `id`.
pub open spec fn host_position(hosts: Seq<ManagedHost>, id: Seq<char>) -> Option<int>
    decreases hosts.len(),
{
    if hosts.len() == 0 {
        None
    } else if hosts[0].id@ == id {
        Some(0)
    } else {
        match host_position(hosts.drop_first(), id) {
            Some(i) => Some(i + 1),
            None => None,
        }
    }
}

/// The host at `index` is a remote one.
pub open spec fn is_remote_at(hosts: Seq<ManagedHost>, index: int) -> bool {
    0 <= index < hosts.len() && hosts[index].target is Remote
}

/// The host selected after a reload: the one with the id of the host selected
/// before, else the first.
pub open spec fn reselected(old_hosts: Seq<ManagedHost>, old_index: int, new_hosts: Seq<ManagedHost>) -> int {
    if 0 <= old_index < old_hosts.len() {
        match host_position(new_hosts, old_hosts[old_index].id@) {
            Some(i) => i,
            None => 0,
        }
    } else {
        0
    }
}

/// The profile of `profiles` whose access token is the one of `active`, by
/// index: the first such.
pub open spec fn first_active(profiles: Seq<AccountProfile>, active: Option<AuthFile>) -> Option<int>
    decreases profiles.len(),
{
    if profiles.len() == 0 {
        None
    } else if active matches Some(a) && a.tokens.access_token@
        == profiles[0].auth_file.tokens.access_token@ {
        Some(0)
    } else {
        match first_active(profiles.drop_first(), active) {
            Some(i) => Some(i + 1),
            None => None,
        }
    }
}

proof fn lemma_host_position_at(hosts: Seq<ManagedHost>, id: Seq<char>, i: int)
    requires
        0 <= i <= hosts.len(),
        forall|k: int| 0 <= k < i ==> (#[trigger] hosts[k]).id@ != id,
    ensures
        i < hosts.len() && hosts[i].id@ == id ==> host_position(hosts, id) == Some(i),
        i == hosts.len() ==> host_position(hosts, id) is None,
    decreases i,
{
    if i > 0 {
        assert forall|k: int| 0 <= k < i - 1 implies (#[trigger] hosts.drop_first()[k]).id@ != id by {
            assert(hosts.drop_first()[k] == hosts[k + 1]);
        }
        lemma_host_position_at(hosts.drop_first(), id, i - 1);
    }
}

proof fn lemma_first_active_at(profiles: Seq<AccountProfile>, active: Option<AuthFile>, i: int)
    requires
        0 <= i <= profiles.len(),
        forall|k: int|
            0 <= k < i ==> !(active matches Some(a) && a.tokens.access_token@ == (
            #[trigger] profiles[k]).auth_file.tokens.access_token@),
    ensures
        i < profiles.len() && (active matches Some(a) && a.tokens.access_token@
            == profiles[i].auth_file.tokens.access_token@) ==> first_active(profiles, active)
            == Some(i),
        i == profiles.len() ==> first_active(profiles, active) is None,
    decreases i,
{
    if i > 0 {
        assert forall|k: int| 0 <= k < i - 1 implies !(active matches Some(a)
            && a.tokens.access_token@ == (
        #[trigger] profiles.drop_first()[k]).auth_file.tokens.access_token@) by {
            assert(profiles.drop_first()[k] == profiles[k + 1]);
        }
        lemma_first_active_at(profiles.drop_first(), active, i - 1);
    }
}

/// Where the first host with the id `id` stands.
fn find_host(hosts: &Vec<ManagedHost>, id: &str) -> (r: Option<usize>)
    ensures
        match r {
            Some(i) => host_position(hosts@, id@) == Some(i as int),
            None => host_position(hosts@, id@) is None,
        },
{
    let mut i: usize = 0;
    while i < hosts.len()
        invariant
            i <= hosts@.len(),
            forall|k: int| 0 <= k < i ==> (#[trigger] hosts@[k]).id@ != id@,
        decreases hosts@.len() - i,
    {
        if str_eq(hosts[i].id.as_str(), id) {
            proof {
                lemma_host_position_at(hosts@, id@, i as int);
            }
            return Some(i);
        }
        i = i + 1;
    }
    proof {
        lemma_host_position_at(hosts@, id@, i as int);
    }
    None
}

/// What both front ends know of accounts, hosts and running work.
pub struct SessionCore {
    pub current_auth: Option<AuthFile>,
    pub current_session: Option<OAuthSession>,
    pub profiles: Vec<AccountProfile>,
    pub hosts: Vec<ManagedHost>,
    pub limits_by_profile: LimitsCache,
    pub selected_host_profiles: Vec<AccountProfile>,
    pub selected_host_active_auth: Option<AuthFile>,
    pub selected_host_index: usize,
    pub busy_operation: Option<BusyOperation>,
    pub notice: Option<OperationNotice>,
    pub device_prompt: Option<DeviceCodePrompt>,
}

impl SessionCore {
    /// Nothing loaded, nothing running.
    pub fn new() -> (r: SessionCore)
        ensures
            r.current_auth is None,
            r.current_session is None,
            r.profiles@.len() == 0,
            r.hosts@.len() == 0,
            r.limits_by_profile@.len() == 0,
            r.selected_host_profiles@.len() == 0,
            r.selected_host_active_auth is None,
            r.selected_host_index == 0,
            r.busy_operation is None,
            r.notice is None,
            r.device_prompt is None,
    {
        SessionCore {
            current_auth: None,
            current_session: None,
            profiles: Vec::new(),
            hosts: Vec::new(),
            limits_by_profile: LimitsCache::new(),
            selected_host_profiles: Vec::new(),
            selected_host_active_auth: None,
            selected_host_index: 0,
            busy_operation: None,
            notice: None,
            device_prompt: None,
        }
    }

    /// Whether the selected host is a remote one.
    pub fn selected_host_is_remote(&self) -> (r: bool)
        ensures
            r == is_remote_at(self.hosts@, self.selected_host_index as int),
    {
        if self.selected_host_index < self.hosts.len() {
            match &self.hosts[self.selected_host_index].target {
                HostTarget::Remote(_) => true,
                HostTarget::Local { .. } => false,
            }
        } else {
            false
        }
    }

    /// Whether `profile` is the active account of the selected host: its access
    /// token is the one of the host's active auth file.
    pub fn is_profile_active(&self, profile: &AccountProfile) -> (r: bool)
        ensures
            r == (self.selected_host_active_auth matches Some(a) && a.tokens.access_token@
                == profile.auth_file.tokens.access_token@),
    {
        match &self.selected_host_active_auth {
            Some(a) => str_eq(a.tokens.access_token.as_str(), profile.auth_file.tokens.access_token.as_str()),
            None => false,
        }
    }

    /// The label of the selected host's active profile, `none` when none of its
    /// profiles is active.
    pub fn active_profile_label(&self) -> (r: String)
        ensures
            r@ == match first_active(self.selected_host_profiles@, self.selected_host_active_auth) {
                Some(i) => self.selected_host_profiles@[i].label@,
                None => "none"@,
            },
    {
        let ghost ps = self.selected_host_profiles@;
        let mut i: usize = 0;
        while i < self.selected_host_profiles.len()
            invariant
                i <= ps.len(),
                ps == self.selected_host_profiles@,
                forall|k: int|
                    0 <= k < i ==> !(self.selected_host_active_auth matches Some(a)
                        && a.tokens.access_token@ == (#[trigger] ps[k]).auth_file.tokens.access_token@),
            decreases ps.len() - i,
        {
            if self.is_profile_active(&self.selected_host_profiles[i]) {
                proof {
                    lemma_first_active_at(ps, self.selected_host_active_auth, i as int);
                }
                return self.selected_host_profiles[i].label.clone();
            }
            i = i + 1;
        }
        proof {
            lemma_first_active_at(ps, self.selected_host_active_auth, i as int);
            reveal_strlit("none");
        }
        text("none")
    }

    /// The limits fetched for a profile.
    pub fn profile_limits(&self, profile_id: &str) -> (r: Option<&LimitsSnapshotSet>)
        ensures
            match r {
                Some(s) => self.limits_by_profile.get_spec(profile_id@) == Some(*s),
                None => self.limits_by_profile.get_spec(profile_id@) is None,
            },
    {
        self.limits_by_profile.get(profile_id)
    }

    /// Marks the interface busy with `job` and clears the notice; the job is
    /// handed back to be run.
    pub fn run_background(&mut self, job: Job) -> (r: Job)
        ensures
            r == job,
            *final(self) == (SessionCore {
                busy_operation: Some(job_operation(job)),
                notice: None,
                ..*old(self)
            }),
    {
        self.busy_operation = Some(operation_of(&job));
        self.notice = None;
        job
    }

    /// Drops the limits of profiles that no longer exist.
    pub fn prune_limit_cache(&mut self)
        ensures
            forall|id: Seq<char>|
                #[trigger] final(self).limits_by_profile.get_spec(id) == if profile_ids(
                    old(self).profiles@,
                ).contains(id) {
                    old(self).limits_by_profile.get_spec(id)
                } else {
                    None
                },
            final(self).profiles == old(self).profiles,
            final(self).hosts == old(self).hosts,
            final(self).current_auth == old(self).current_auth,
            final(self).current_session == old(self).current_session,
            final(self).selected_host_profiles == old(self).selected_host_profiles,
            final(self).selected_host_active_auth == old(self).selected_host_active_auth,
            final(self).selected_host_index == old(self).selected_host_index,
            final(self).busy_operation == old(self).busy_operation,
            final(self).notice == old(self).notice,
            final(self).device_prompt == old(self).device_prompt,
    {
        let mut ids: Vec<String> = Vec::new();
        let mut i: usize = 0;
        while i < self.profiles.len()
            invariant
                i <= self.profiles@.len(),
                views(ids@) == profile_ids(self.profiles@).take(i as int),
            decreases self.profiles@.len() - i,
        {
            let ghost before = views(ids@);
            ids.push(self.profiles[i].id.clone());
            proof {
                assert(views(ids@) =~= before.push(self.profiles@[i as int].id@));
                assert(profile_ids(self.profiles@).take(i + 1) =~= profile_ids(self.profiles@).take(
                    i as int,
                ).push(self.profiles@[i as int].id@));
            }
            i = i + 1;
        }
        assert(profile_ids(self.profiles@).take(i as int) =~= profile_ids(self.profiles@));
        self.limits_by_profile.retain_ids(&ids);
    }
}

/// `f` is `o` after a reload `snap` was applied: the loaded records taken over,
/// the same host selected again where it still exists, the limits kept (those of
/// the reload, or the previous ones if it fetched none) for existing profiles
/// only, and a local (or missing) selected host showing the local profiles.
pub open spec fn snapshot_applied(o: SessionCore, f: SessionCore, snap: AppSnapshot) -> bool {
    &&& f.current_auth == snap.current_auth
    &&& f.current_session == snap.current_session
    &&& f.profiles@ == snap.profiles@
    &&& f.hosts@ == snap.hosts@
    &&& f.selected_host_index == reselected(o.hosts@, o.selected_host_index as int, snap.hosts@)
    &&& forall|id: Seq<char>|
        #[trigger] f.limits_by_profile.get_spec(id) == if profile_ids(snap.profiles@).contains(id) {
            if snap.limits_by_profile@.len() == 0 {
                o.limits_by_profile.get_spec(id)
            } else {
                snap.limits_by_profile.get_spec(id)
            }
        } else {
            None
        }
    &&& if is_remote_at(f.hosts@, f.selected_host_index as int) {
        f.selected_host_profiles@ == o.selected_host_profiles@ && f.selected_host_active_auth
            == o.selected_host_active_auth
    } else {
        f.selected_host_profiles@ == snap.profiles@ && f.selected_host_active_auth
            == snap.current_auth
    }
    &&& f.device_prompt == o.device_prompt
}

/// The job that reads the remote host at `index`.
pub open spec fn inspect_job(hosts: Seq<ManagedHost>, index: int, show_notice: bool) -> Job {
    Job::InspectHost {
        host_index: index as usize,
        remote: hosts[index].target->Remote_0,
        host_label: hosts[index].label,
        show_notice,
    }
}

/// `f` is `o` after its selected host's view was refreshed at time `now`: a
/// local host shows the local profiles (with a notice if asked), a remote one
/// is read in the background, and nothing happens without a selected host.
pub open spec fn host_view_refreshed(o: SessionCore, f: SessionCore, r: Option<Job>, show_notice: bool, now: u64) -> bool {
    let i = o.selected_host_index as int;
    &&& f.current_auth == o.current_auth
    &&& f.current_session == o.current_session
    &&& f.profiles == o.profiles
    &&& f.hosts == o.hosts
    &&& f.limits_by_profile == o.limits_by_profile
    &&& f.selected_host_index == o.selected_host_index
    &&& f.device_prompt == o.device_prompt
    &&& if i >= o.hosts@.len() {
        &&& r is None
        &&& f.selected_host_profiles == o.selected_host_profiles
        &&& f.selected_host_active_auth == o.selected_host_active_auth
        &&& f.busy_operation == o.busy_operation
        &&& f.notice == o.notice
    } else if o.hosts@[i].target is Local {
        &&& r is None
        &&& f.selected_host_profiles@ == o.profiles@
        &&& f.selected_host_active_auth == o.current_auth
        &&& f.busy_operation == o.busy_operation
        &&& if show_notice {
            f.notice matches Some(n) && n.kind == NoticeKind::Success && n.message@
                == "Loaded local host accounts."@ && n.created_at == now
        } else {
            f.notice == o.notice
        }
    } else {
        &&& r == Some(inspect_job(o.hosts@, i, show_notice))
        &&& f.selected_host_profiles == o.selected_host_profiles
        &&& f.selected_host_active_auth == o.selected_host_active_auth
        &&& f.busy_operation == Some(BusyOperation::InspectHost)
        &&& f.notice is None
    }
}

impl SessionCore {
    /// Takes over a reload.
    pub fn apply_snapshot(&mut self, snapshot: AppSnapshot)
        ensures
            snapshot_applied(*old(self), *final(self), snapshot),
            final(self).busy_operation == old(self).busy_operation,
            final(self).notice == old(self).notice,
    {
        let previous_host_id: Option<String> = if self.selected_host_index < self.hosts.len() {
            Some(self.hosts[self.selected_host_index].id.clone())
        } else {
            None
        };
        let ghost o = *self;
        let ghost snap = snapshot;
        let mut previous_limits = LimitsCache::new();
        std::mem::swap(&mut previous_limits, &mut self.limits_by_profile);
        self.current_auth = snapshot.current_auth;
        self.current_session = snapshot.current_session;
        self.profiles = snapshot.profiles;
        self.hosts = snapshot.hosts;
        if snapshot.limits_by_profile.is_empty() {
            self.limits_by_profile = previous_limits;
        } else {
            self.limits_by_profile = snapshot.limits_by_profile;
        }
        self.selected_host_index = match &previous_host_id {
            Some(id) => match find_host(&self.hosts, id.as_str()) {
                Some(i) => i,
                None => 0,
            },
            None => 0,
        };
        self.prune_limit_cache();
        if !self.selected_host_is_remote() {
            self.selected_host_profiles = clone_profiles(&self.profiles);
            self.selected_host_active_auth = clone_opt_auth(&self.current_auth);
        }
        proof {
            assert(snapshot_applied(o, *self, snap));
        }
    }

    /// Shows the selected host's accounts: the local ones at once, a remote
    /// host's through a background job.
    pub fn refresh_selected_host_view(&mut self, show_notice: bool, now: u64) -> (r: Option<Job>)
        ensures
            host_view_refreshed(*old(self), *final(self), r, show_notice, now),
    {
        if self.selected_host_index >= self.hosts.len() {
            return None;
        }
        let index = self.selected_host_index;
        match &self.hosts[index].target {
            HostTarget::Local { .. } => {
                self.selected_host_profiles = clone_profiles(&self.profiles);
                self.selected_host_active_auth = clone_opt_auth(&self.current_auth);
                if show_notice {
                    proof {
                        reveal_strlit("Loaded local host accounts.");
                    }
                    self.notice = Some(
                        OperationNotice::new(
                            NoticeKind::Success,
                            text("Loaded local host accounts."),
                            now,
                        ),
                    );
                }
                None
            },
            HostTarget::Remote(remote) => {
                let job = Job::InspectHost {
                    host_index: index,
                    remote: remote.clone(),
                    host_label: self.hosts[index].label.clone(),
                    show_notice,
                };
                Some(self.run_background(job))
            },
        }
    }

    /// Drops the notice once `ttl` milliseconds have passed since it was made.
    pub fn expire_notice(&mut self, now: u64, ttl: u64)
        ensures
            final(self).notice == match old(self).notice {
                Some(n) => if now >= n.created_at && now - n.created_at >= ttl {
                    None
                } else {
                    Some(n)
                },
                None => None,
            },
            *final(self) == (SessionCore { notice: final(self).notice, ..*old(self) }),
    {
        let expired = match &self.notice {
            Some(n) => n.expired(now, ttl),
            None => false,
        };
        if expired {
            self.notice = None;
        }
    }
}

/// The message of the notice made when the background worker goes away.
pub open spec fn disconnected_text() -> Seq<char> {
    "background worker disconnected"@
}

/// The message shown after a local activation once the limits are fetched.
pub open spec fn activated_text() -> Seq<char> {
    "Activated account and refreshed limits."@
}

/// `f` and the returned job are `o` after the worker reported `m` at time
/// `now`.
pub open spec fn message_applied(o: SessionCore, f: SessionCore, m: WorkerMessage, r: Option<Job>, now: u64) -> bool {
    match m {
        WorkerMessage::Snapshot { snapshot, notice } => {
            &&& snapshot_applied(o, f, snapshot)
            &&& if is_remote_at(f.hosts@, f.selected_host_index as int) {
                &&& r == Some(inspect_job(f.hosts@, f.selected_host_index as int, false))
                &&& f.busy_operation == Some(BusyOperation::InspectHost)
                &&& f.notice is None
            } else {
                &&& r is None
                &&& f.busy_operation is None
                &&& f.notice == Some(notice)
            }
        },
        WorkerMessage::ActivatedLocal { snapshot, profile_id } => {
            &&& snapshot_applied(o, f, snapshot)
            &&& r matches Some(Job::RefreshProfileLimits { profile_id: id, success_message })
                && id == profile_id && success_message@ == activated_text()
            &&& f.busy_operation == Some(BusyOperation::RefreshLimits)
            &&& f.notice is None
        },
        WorkerMessage::ProfileLimits { profile_id, limits, notice } => {
            &&& r is None
            &&& f == (SessionCore {
                limits_by_profile: f.limits_by_profile,
                busy_operation: None,
                notice: Some(notice),
                ..o
            })
            &&& f.limits_by_profile.get_spec(profile_id@) == Some(limits)
            &&& forall|other: Seq<char>|
                other != profile_id@ ==> #[trigger] f.limits_by_profile.get_spec(other)
                    == o.limits_by_profile.get_spec(other)
        },
        WorkerMessage::HostInspection { host_index, snapshot, notice } => {
            let shown = host_index == o.selected_host_index;
            &&& r is None
            &&& f == (SessionCore {
                selected_host_profiles: if shown {
                    snapshot.profiles
                } else {
                    o.selected_host_profiles
                },
                selected_host_active_auth: if shown {
                    Some(snapshot.active_auth)
                } else {
                    o.selected_host_active_auth
                },
                busy_operation: None,
                notice: match notice {
                    Some(n) => Some(n),
                    None => o.notice,
                },
                ..o
            })
        },
        WorkerMessage::DevicePrompt { prompt, notice } => {
            &&& r is None
            &&& f == (SessionCore {
                device_prompt: Some(prompt),
                busy_operation: None,
                notice: Some(notice),
                ..o
            })
        },
        WorkerMessage::Error { notice } => {
            &&& r is None
            &&& f == (SessionCore { busy_operation: None, notice: Some(notice), ..o })
        },
        WorkerMessage::Disconnected => {
            &&& r is None
            &&& f == (SessionCore { busy_operation: None, notice: f.notice, ..o })
            &&& f.notice matches Some(n) && n.kind == NoticeKind::Error && n.message@
                == disconnected_text() && n.created_at == now
        },
    }
}

impl SessionCore {
    /// Takes over what a background job reported; a job that must follow is
    /// handed back to be run.
    pub fn apply_worker_message(&mut self, message: WorkerMessage, now: u64) -> (r: Option<Job>)
        ensures
            message_applied(*old(self), *final(self), message, r, now),
    {
        match message {
            WorkerMessage::Snapshot { snapshot, notice } => {
                self.apply_snapshot(snapshot);
                self.busy_operation = None;
                self.notice = Some(notice);
                if self.selected_host_is_remote() {
                    self.refresh_selected_host_view(false, now)
                } else {
                    None
                }
            },
            WorkerMessage::ActivatedLocal { snapshot, profile_id } => {
                self.apply_snapshot(snapshot);
                self.busy_operation = None;
                self.notice = None;
                proof {
                    reveal_strlit("Activated account and refreshed limits.");
                }
                Some(
                    self.run_background(
                        Job::RefreshProfileLimits {
                            profile_id,
                            success_message: text("Activated account and refreshed limits."),
                        },
                    ),
                )
            },
            WorkerMessage::ProfileLimits { profile_id, limits, notice } => {
                self.busy_operation = None;
                self.limits_by_profile.insert(profile_id, limits);
                self.notice = Some(notice);
                None
            },
            WorkerMessage::HostInspection { host_index, snapshot, notice } => {
                if self.selected_host_index == host_index {
                    self.selected_host_profiles = snapshot.profiles;
                    self.selected_host_active_auth = Some(snapshot.active_auth);
                }
                self.busy_operation = None;
                match notice {
                    Some(n) => {
                        self.notice = Some(n);
                    },
                    None => {},
                }
                None
            },
            WorkerMessage::DevicePrompt { prompt, notice } => {
                self.device_prompt = Some(prompt);
                self.busy_operation = None;
                self.notice = Some(notice);
                None
            },
            WorkerMessage::Error { notice } => {
                self.busy_operation = None;
                self.notice = Some(notice);
                None
            },
            WorkerMessage::Disconnected => {
                self.busy_operation = None;
                proof {
                    reveal_strlit("background worker disconnected");
                }
                self.notice = Some(
                    OperationNotice::new(
                        NoticeKind::Error,
                        text("background worker disconnected"),
                        now,
                    ),
                );
                None
            },
        }
    }
}

// ---------------------------------------------------------------------------
// Decisions of the background work.

/// The name a new profile is saved under: the session's e-mail, else the auth
/// file's account id, else `new-account`.
pub open spec fn profile_name_for(session: OAuthSession, auth_file: AuthFile) -> Seq<char> {
    match session.email {
        Some(e) => e@,
        None => match auth_file.tokens.account_id {
            Some(a) => a@,
            None => "new-account"@,
        },
    }
}

/// The name a new profile is saved under.
pub fn default_profile_name(session: &OAuthSession, auth_file: &AuthFile) -> (r: String)
    ensures
        r@ == profile_name_for(*session, *auth_file),
{
    proof {
        reveal_strlit("new-account");
    }
    match &session.email {
        Some(e) => e.clone(),
        None => match &auth_file.tokens.account_id {
            Some(a) => a.clone(),
            None => text("new-account"),
        },
    }
}

/// Some profile holds the access token of `auth`.
pub open spec fn token_saved(profiles: Seq<AccountProfile>, auth: AuthFile) -> bool {
    exists|i: int|
        0 <= i < profiles.len() && (#[trigger] profiles[i]).auth_file.tokens.access_token@
            == auth.tokens.access_token@
}

/// Whether the active auth file holds an account that no saved profile has, so
/// that it is saved as a profile on reload.
pub fn needs_auto_import(profiles: &Vec<AccountProfile>, auth: &AuthFile) -> (r: bool)
    ensures
        r == (!token_saved(profiles@, *auth) && auth.tokens.access_token@.len() > 0),
{
    let mut i: usize = 0;
    while i < profiles.len()
        invariant
            i <= profiles@.len(),
            forall|k: int|
                0 <= k < i ==> (#[trigger] profiles@[k]).auth_file.tokens.access_token@
                    != auth.tokens.access_token@,
        decreases profiles@.len() - i,
    {
        if str_eq(
            profiles[i].auth_file.tokens.access_token.as_str(),
            auth.tokens.access_token.as_str(),
        ) {
            return false;
        }
        i = i + 1;
    }
    chars_of(auth.tokens.access_token.as_str()).len() > 0
}

/// The first profile with the id `id`.
pub open spec fn profile_position(profiles: Seq<AccountProfile>, id: Seq<char>) -> Option<int>
    decreases profiles.len(),
{
    if profiles.len() == 0 {
        None
    } else if profiles[0].id@ == id {
        Some(0)
    } else {
        match profile_position(profiles.drop_first(), id) {
            Some(i) => Some(i + 1),
            None => None,
        }
    }
}

proof fn lemma_profile_position_at(profiles: Seq<AccountProfile>, id: Seq<char>, i: int)
    requires
        0 <= i <= profiles.len(),
        forall|k: int| 0 <= k < i ==> (#[trigger] profiles[k]).id@ != id,
    ensures
        i < profiles.len() && profiles[i].id@ == id ==> profile_position(profiles, id) == Some(i),
        i == profiles.len() ==> profile_position(profiles, id) is None,
    decreases i,
{
    if i > 0 {
        assert forall|k: int| 0 <= k < i - 1 implies (#[trigger] profiles.drop_first()[k]).id@
            != id by {
            assert(profiles.drop_first()[k] == profiles[k + 1]);
        }
        lemma_profile_position_at(profiles.drop_first(), id, i - 1);
    }
}

/// Where the first profile with the id `id` stands.
pub fn find_profile(profiles: &Vec<AccountProfile>, id: &str) -> (r: Option<usize>)
    ensures
        match r {
            Some(i) => profile_position(profiles@, id@) == Some(i as int),
            None => profile_position(profiles@, id@) is None,
        },
{
    let mut i: usize = 0;
    while i < profiles.len()
        invariant
            i <= profiles@.len(),
            forall|k: int| 0 <= k < i ==> (#[trigger] profiles@[k]).id@ != id@,
        decreases profiles@.len() - i,
    {
        if str_eq(profiles[i].id.as_str(), id) {
            proof {
                lemma_profile_position_at(profiles@, id@, i as int);
            }
            return Some(i);
        }
        i = i + 1;
    }
    proof {
        lemma_profile_position_at(profiles@, id@, i as int);
    }
    None
}

/// Where the first local host stands.
pub fn find_local_host(hosts: &Vec<ManagedHost>) -> (r: Option<usize>)
    ensures
        match r {
            Some(i) => i < hosts@.len() && hosts@[i as int].target is Local && forall|k: int|
                0 <= k < i ==> (#[trigger] hosts@[k]).target is Remote,
            None => forall|k: int| 0 <= k < hosts@.len() ==> (#[trigger] hosts@[k]).target is Remote,
        },
{
    let mut i: usize = 0;
    while i < hosts.len()
        invariant
            i <= hosts@.len(),
            forall|k: int| 0 <= k < i ==> (#[trigger] hosts@[k]).target is Remote,
        decreases hosts@.len() - i,
    {
        match &hosts[i].target {
            HostTarget::Local { .. } => {
                return Some(i);
            },
            HostTarget::Remote(_) => {},
        }
        i = i + 1;
    }
    None
}

/// `before`, then `name` between backticks, then `after`: the shape of the
/// notices that name a profile or host.
pub fn named_message(before: &str, name: &str, after: &str) -> (r: String)
    ensures
        r@ == before@ + seq!['`'] + name@ + seq!['`'] + after@,
{
    let mut out = chars_of(before);
    out.push('`');
    push_all(&mut out, chars_of(name).as_slice());
    out.push('`');
    push_all(&mut out, chars_of(after).as_slice());
    assert(out@ =~= before@ + seq!['`'] + name@ + seq!['`'] + after@);
    string_from(out.as_slice())
}

/// The notice after an import: the one account named, or how many there were.
pub open spec fn import_text(names: Seq<Seq<char>>) -> Seq<char> {
    if names.len() == 1 {
        "Imported account `"@ + names[0] + "`."@
    } else {
        "Imported "@ + decimal(names.len()) + " accounts."@
    }
}

/// The notice after an import.
pub fn import_message(names: &Vec<String>) -> (r: String)
    ensures
        r@ == import_text(views(names@)),
{
    proof {
        reveal_strlit("Imported account `");
        reveal_strlit("`.");
        reveal_strlit("Imported ");
        reveal_strlit(" accounts.");
    }
    if names.len() == 1 {
        let mut out = chars_of("Imported account `");
        push_all(&mut out, chars_of(names[0].as_str()).as_slice());
        push_all(&mut out, chars_of("`.").as_slice());
        string_from(out.as_slice())
    } else {
        let mut out = chars_of("Imported ");
        push_all(&mut out, u64_decimal(names.len() as u64).as_slice());
        push_all(&mut out, chars_of(" accounts.").as_slice());
        string_from(out.as_slice())
    }
}

/// Whether some profile in `profiles` has the id `id`.
pub open spec fn lists_id(profiles: Seq<AccountProfile>, id: Seq<char>) -> bool {
    exists|k: int| 0 <= k < profiles.len() && (#[trigger] profiles[k]).id@ == id
}

/// A reload takes the limits it fetched: after a reload whose limits cache is
/// not empty, each listed profile has the reload's limits; when the reload
/// fetched none, each listed profile keeps the limits it had; and a profile the
/// reload no longer lists has no limits at all.
pub proof fn lemma_reload_takes_fetched_limits(
    o: SessionCore,
    f: SessionCore,
    snap: AppSnapshot,
    id: Seq<char>,
)
    requires
        snapshot_applied(o, f, snap),
    ensures
        lists_id(snap.profiles@, id) && snap.limits_by_profile@.len() > 0
            ==> f.limits_by_profile.get_spec(id) == snap.limits_by_profile.get_spec(id),
        lists_id(snap.profiles@, id) && snap.limits_by_profile@.len() == 0
            ==> f.limits_by_profile.get_spec(id) == o.limits_by_profile.get_spec(id),
        !lists_id(snap.profiles@, id) ==> f.limits_by_profile.get_spec(id) is None,
{
    let ids = profile_ids(snap.profiles@);
    if lists_id(snap.profiles@, id) {
        let k = choose|k: int| 0 <= k < snap.profiles@.len() && (#[trigger] snap.profiles@[k]).id@ == id;
        assert(ids[k] == id);
        assert(ids.contains(id));
    } else {
        if ids.contains(id) {
            let k = choose|k: int| 0 <= k < ids.len() && ids[k] == id;
            assert(snap.profiles@[k].id@ == id);
        }
    }
}

/// A reload keeps the selected host: when the host selected before is still
/// listed, the host selected after it has the same id.
pub proof fn lemma_reload_keeps_selected_host(
    old_hosts: Seq<ManagedHost>,
    old_index: int,
    new_hosts: Seq<ManagedHost>,
)
    requires
        0 <= old_index < old_hosts.len(),
        exists|i: int| 0 <= i < new_hosts.len() && #[trigger] new_hosts[i].id@ == old_hosts[old_index].id@,
    ensures
        0 <= reselected(old_hosts, old_index, new_hosts) < new_hosts.len(),
        new_hosts[reselected(old_hosts, old_index, new_hosts)].id@ == old_hosts[old_index].id@,
{
    lemma_host_position_found(new_hosts, old_hosts[old_index].id@);
}

proof fn lemma_host_position_found(hosts: Seq<ManagedHost>, id: Seq<char>)
    requires
        exists|i: int| 0 <= i < hosts.len() && #[trigger] hosts[i].id@ == id,
    ensures
        host_position(hosts, id) matches Some(i) && 0 <= i < hosts.len() && hosts[i].id@ == id,
    decreases hosts.len(),
{
    if hosts[0].id@ != id {
        let i = choose|i: int| 0 <= i < hosts.len() && #[trigger] hosts[i].id@ == id;
        assert(hosts.drop_first()[i - 1] == hosts[i]);
        lemma_host_position_found(hosts.drop_first(), id);
    }
}

} // verus!
