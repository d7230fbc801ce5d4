//! The state of the desktop interface: the selected host, the export, import
//! and delete dialogs, and the jobs its buttons start.
use vstd::prelude::*;
use crate::domain::{AccountProfile, HostTarget, LimitsSnapshotSet, ManagedHost};
use crate::session::{
    find_profile, first_active, host_view_refreshed, is_remote_at, job_operation, message_applied,
    profile_position, BusyOperation, Job, NoticeKind, OperationNotice, SessionCore, WorkerMessage,
};
use crate::text::{chars_of, string_from, text, trim, trim_chars};

verus! {

/// The label shown for a host in the desktop interface: `local`, or the SSH
/// alias of a remote host.
pub open spec fn desktop_host_label(host: ManagedHost) -> Seq<char> {
    match host.target {
        HostTarget::Local { .. } => "local"@,
        HostTarget::Remote(r) => r.ssh_alias@,
    }
}

/// The label shown for a host.
pub fn host_display_label(host: &ManagedHost) -> (r: String)
    ensures
        r@ == desktop_host_label(*host),
{
    proof {
        reveal_strlit("local");
    }
    match &host.target {
        HostTarget::Local { .. } => text("local"),
        HostTarget::Remote(remote) => remote.ssh_alias.clone(),
    }
}

/// No host before `i` has the id of the host at `i`.
pub open spec fn first_of_its_id(hosts: Seq<ManagedHost>, i: int) -> bool {
    forall|k: int| 0 <= k < i ==> (#[trigger] hosts[k]).id@ != hosts[i].id@
}

/// The hosts offered for selection among the first `n`: each id once, at its
/// first host, with the host's label.
pub open spec fn choices_upto(hosts: Seq<ManagedHost>, n: int) -> Seq<(usize, Seq<char>)>
    decreases n,
{
    if n <= 0 {
        Seq::empty()
    } else if first_of_its_id(hosts, n - 1) {
        choices_upto(hosts, n - 1).push(((n - 1) as usize, desktop_host_label(hosts[n - 1])))
    } else {
        choices_upto(hosts, n - 1)
    }
}

/// The state of the desktop interface.
pub struct AppState {
    pub core: SessionCore,
    pub export_profile_label: Option<String>,
    pub export_text: String,
    pub import_modal_open: bool,
    pub import_text: String,
    pub pending_delete_profile: Option<String>,
}

/// `f` is `o` with only its shared session state changed.
pub open spec fn only_core_changed(o: AppState, f: AppState) -> bool {
    f == (AppState { core: f.core, ..o })
}

/// `f` is `o` busy with `op`, its notice cleared, nothing else changed.
pub open spec fn started(o: AppState, f: AppState, op: BusyOperation) -> bool {
    f == (AppState { core: SessionCore { busy_operation: Some(op), notice: None, ..o.core }, ..o })
}

/// `f` is `o` showing an error notice with `message` made at `now`, nothing
/// else changed.
pub open spec fn refused_with(o: AppState, f: AppState, message: Seq<char>, now: u64) -> bool {
    &&& f == (AppState { core: SessionCore { notice: f.core.notice, ..o.core }, ..o })
    &&& f.core.notice matches Some(n) && n.kind == NoticeKind::Error && n.message@ == message
        && n.created_at == now
}

impl AppState {
    /// The initial state, already fetching everything: the job to run is handed
    /// back with it.
    pub fn load() -> (r: (AppState, Job))
        ensures
            r.1 is RefreshLimits,
            r.0.core.busy_operation == Some(BusyOperation::RefreshLimits),
            r.0.core.notice is None,
            r.0.core.profiles@.len() == 0,
            r.0.core.hosts@.len() == 0,
            r.0.export_profile_label is None,
            !r.0.import_modal_open,
            r.0.pending_delete_profile is None,
            r.0.export_text@.len() == 0,
            r.0.import_text@.len() == 0,
            r.0.core.current_auth is None,
            r.0.core.current_session is None,
            r.0.core.limits_by_profile@.len() == 0,
            r.0.core.selected_host_profiles@.len() == 0,
            r.0.core.selected_host_active_auth is None,
            r.0.core.selected_host_index == 0,
            r.0.core.device_prompt is None,
    {
        let mut state = AppState {
            core: SessionCore::new(),
            export_profile_label: None,
            export_text: String::new(),
            import_modal_open: false,
            import_text: String::new(),
            pending_delete_profile: None,
        };
        let job = state.core.run_background(Job::RefreshLimits);
        (state, job)
    }

    /// Takes over what a background job reported; a job that must follow is
    /// handed back.
    pub fn apply_worker_message(&mut self, message: WorkerMessage, now: u64) -> (r: Option<Job>)
        ensures
            message_applied(old(self).core, final(self).core, message, r, now),
            only_core_changed(*old(self), *final(self)),
    {
        self.core.apply_worker_message(message, now)
    }

    /// Drops a notice older than three seconds.
    pub fn expire_notice(&mut self, now: u64)
        ensures
            final(self).core.notice == match old(self).core.notice {
                Some(n) => if now >= n.created_at && now - n.created_at >= 3000 {
                    None
                } else {
                    Some(n)
                },
                None => None,
            },
            *final(self) == (AppState {
                core: SessionCore { notice: final(self).core.notice, ..old(self).core },
                ..*old(self)
            }),
    {
        self.core.expire_notice(now, 3000);
    }

    /// Reloads profiles and hosts.
    pub fn refresh_disk_state(&mut self) -> (r: Job)
        ensures
            r == (Job::Reload { fetch_limits: false }),
            started(*old(self), *final(self), BusyOperation::ReloadAccounts),
    {
        self.core.run_background(Job::Reload { fetch_limits: false })
    }

    /// Reloads everything with fresh limits.
    pub fn refresh_all_limits(&mut self) -> (r: Job)
        ensures
            r is RefreshLimits,
            started(*old(self), *final(self), BusyOperation::RefreshLimits),
    {
        self.core.run_background(Job::RefreshLimits)
    }

    /// Activates a saved profile on this machine.
    pub fn activate_profile_locally(&mut self, profile_id: &str) -> (r: Job)
        ensures
            r matches Job::ActivateLocal { profile_id: id } && id@ == profile_id@,
            started(*old(self), *final(self), BusyOperation::ActivateLocal),
    {
        self.core.run_background(Job::ActivateLocal { profile_id: text(profile_id) })
    }

    /// Activates a saved profile on the selected host.
    pub fn activate_profile_remotely(&mut self, profile_id: &str) -> (r: Job)
        ensures
            r matches Job::ActivateRemote { profile_id: id, host_index } && id@ == profile_id@
                && host_index == old(self).core.selected_host_index,
            started(*old(self), *final(self), BusyOperation::ActivateRemote),
    {
        let host_index = self.core.selected_host_index;
        self.core.run_background(Job::ActivateRemote { profile_id: text(profile_id), host_index })
    }

    /// Mirrors the managed data to the selected host.
    pub fn sync_selected_remote(&mut self) -> (r: Job)
        ensures
            r == (Job::SyncHost { host_index: old(self).core.selected_host_index }),
            started(*old(self), *final(self), BusyOperation::SyncHost),
    {
        let host_index = self.core.selected_host_index;
        self.core.run_background(Job::SyncHost { host_index })
    }

    /// Activates a saved profile on the selected host, remote or local.
    pub fn activate_profile_for_selected_host(&mut self, profile_id: &str) -> (r: Job)
        ensures
            if is_remote_at(old(self).core.hosts@, old(self).core.selected_host_index as int) {
                r matches Job::ActivateRemote { profile_id: id, host_index } && id@ == profile_id@
                    && host_index == old(self).core.selected_host_index
            } else {
                r matches Job::ActivateLocal { profile_id: id } && id@ == profile_id@
            },
            started(*old(self), *final(self), job_operation(r)),
    {
        if self.core.selected_host_is_remote() {
            self.activate_profile_remotely(profile_id)
        } else {
            self.activate_profile_locally(profile_id)
        }
    }

    /// Selects host `host_index` and shows its accounts.
    pub fn set_selected_host_index(&mut self, host_index: usize, now: u64) -> (r: Option<Job>)
        ensures
            if old(self).core.selected_host_index == host_index {
                r is None && *final(self) == *old(self)
            } else {
                host_view_refreshed(
                    SessionCore { selected_host_index: host_index, notice: None, ..old(self).core },
                    final(self).core,
                    r,
                    false,
                    now,
                ) && only_core_changed(*old(self), *final(self))
            },
    {
        if self.core.selected_host_index == host_index {
            return None;
        }
        self.core.selected_host_index = host_index;
        self.core.notice = None;
        self.core.refresh_selected_host_view(false, now)
    }

    /// Asks to confirm deleting a profile.
    pub fn prompt_delete_profile(&mut self, profile_id: String)
        ensures
            *final(self) == (AppState { pending_delete_profile: Some(profile_id), ..*old(self) }),
    {
        self.pending_delete_profile = Some(profile_id);
    }

    /// Looks up the profile to export: its index among the profiles, or a notice
    /// when there is none with that id.
    pub fn open_export_profile(&mut self, profile_id: &str, now: u64) -> (r: Option<usize>)
        ensures
            match profile_position(old(self).core.profiles@, profile_id@) {
                Some(i) => r == Some(i as usize) && *final(self) == *old(self),
                None => r is None && refused_with(*old(self), *final(self), "profile not found"@, now),
            },
    {
        match find_profile(&self.core.profiles, profile_id) {
            Some(i) => Some(i),
            None => {
                proof {
                    reveal_strlit("profile not found");
                }
                self.core.notice = Some(
                    OperationNotice::new(NoticeKind::Error, text("profile not found"), now),
                );
                None
            },
        }
    }

    /// Shows the export dialog with the profile's label and exported text.
    pub fn show_export(&mut self, label: String, export_text: String)
        ensures
            *final(self) == (AppState {
                export_profile_label: Some(label),
                export_text: export_text,
                ..*old(self)
            }),
    {
        self.export_profile_label = Some(label);
        self.export_text = export_text;
    }

    /// Closes the export dialog.
    pub fn close_export_modal(&mut self)
        ensures
            *final(self) == (AppState {
                export_profile_label: None,
                export_text: final(self).export_text,
                ..*old(self)
            }),
            final(self).export_text@.len() == 0,
    {
        self.export_profile_label = None;
        self.export_text = String::new();
    }

    /// Opens the import dialog.
    pub fn open_import_modal(&mut self)
        ensures
            *final(self) == (AppState { import_modal_open: true, ..*old(self) }),
    {
        self.import_modal_open = true;
    }

    /// Closes the import dialog and forgets its text.
    pub fn close_import_modal(&mut self)
        ensures
            *final(self) == (AppState {
                import_modal_open: false,
                import_text: final(self).import_text,
                ..*old(self)
            }),
            final(self).import_text@.len() == 0,
    {
        self.import_modal_open = false;
        self.import_text = String::new();
    }

    /// Imports the pasted text: refused with a notice when it is blank,
    /// otherwise the dialog closes and the import runs.
    pub fn import_profile_from_text(&mut self, now: u64) -> (r: Option<Job>)
        ensures
            if trim(old(self).import_text@).len() == 0 {
                r is None && refused_with(*old(self), *final(self), "import payload is empty"@, now)
            } else {
                &&& r matches Some(Job::Import { payload }) && payload@ == trim(
                    old(self).import_text@,
                )
                &&& started(
                    AppState {
                        import_modal_open: false,
                        import_text: final(self).import_text,
                        ..*old(self)
                    },
                    *final(self),
                    BusyOperation::ReloadAccounts,
                )
                &&& final(self).import_text@.len() == 0
            },
    {
        let payload = trim_chars(chars_of(self.import_text.as_str()).as_slice());
        if payload.len() == 0 {
            proof {
                reveal_strlit("import payload is empty");
            }
            self.core.notice = Some(
                OperationNotice::new(NoticeKind::Error, text("import payload is empty"), now),
            );
            return None;
        }
        self.import_modal_open = false;
        self.import_text = String::new();
        Some(self.core.run_background(Job::Import { payload: string_from(payload.as_slice()) }))
    }

    /// Forgets the pending deletion.
    pub fn cancel_delete_profile(&mut self)
        ensures
            *final(self) == (AppState { pending_delete_profile: None, ..*old(self) }),
    {
        self.pending_delete_profile = None;
    }

    /// Deletes the profile waiting for confirmation; without one, says so.
    pub fn confirm_delete_profile(&mut self, now: u64) -> (r: Option<Job>)
        ensures
            match old(self).pending_delete_profile {
                None => r is None && refused_with(
                    *old(self),
                    *final(self),
                    "no profile selected for deletion"@,
                    now,
                ),
                Some(id) => {
                    &&& r matches Some(Job::DeleteProfile { profile_id }) && profile_id == id
                    &&& started(
                        AppState { pending_delete_profile: None, ..*old(self) },
                        *final(self),
                        BusyOperation::DeleteProfile,
                    )
                },
            },
    {
        let profile_id = match &self.pending_delete_profile {
            Some(id) => id.clone(),
            None => {
                proof {
                    reveal_strlit("no profile selected for deletion");
                }
                self.core.notice = Some(
                    OperationNotice::new(
                        NoticeKind::Error,
                        text("no profile selected for deletion"),
                        now,
                    ),
                );
                return None;
            },
        };
        self.pending_delete_profile = None;
        Some(self.core.run_background(Job::DeleteProfile { profile_id }))
    }

    /// Signs in through the browser.
    pub fn login_browser(&mut self) -> (r: Job)
        ensures
            r is BrowserLogin,
            started(*old(self), *final(self), BusyOperation::BrowserLogin),
    {
        self.core.run_background(Job::BrowserLogin)
    }

    /// Asks for a device code.
    pub fn start_device_login(&mut self) -> (r: Job)
        ensures
            r is DeviceLoginStart,
            started(*old(self), *final(self), BusyOperation::DeviceLoginStart),
    {
        self.core.run_background(Job::DeviceLoginStart)
    }

    /// Finishes the pending device sign-in; without one, says so.
    pub fn finish_device_login(&mut self, now: u64) -> (r: Option<Job>)
        ensures
            match old(self).core.device_prompt {
                None => r is None && refused_with(
                    *old(self),
                    *final(self),
                    "no pending device login challenge"@,
                    now,
                ),
                Some(p) => {
                    &&& r == Some(Job::DeviceLoginFinish { prompt: p })
                    &&& started(*old(self), *final(self), BusyOperation::DeviceLoginFinish)
                },
            },
    {
        let prompt = match &self.core.device_prompt {
            Some(p) => p.clone(),
            None => {
                proof {
                    reveal_strlit("no pending device login challenge");
                }
                self.core.notice = Some(
                    OperationNotice::new(
                        NoticeKind::Error,
                        text("no pending device login challenge"),
                        now,
                    ),
                );
                return None;
            },
        };
        Some(self.core.run_background(Job::DeviceLoginFinish { prompt }))
    }

    /// Drops the notice.
    pub fn clear_notice(&mut self)
        ensures
            *final(self) == (AppState {
                core: SessionCore { notice: None, ..old(self).core },
                ..*old(self)
            }),
    {
        self.core.notice = None;
    }

    /// Whether `operation` is the one running.
    pub fn is_busy(&self, operation: BusyOperation) -> (r: bool)
        ensures
            r == (self.core.busy_operation == Some(operation)),
    {
        match self.core.busy_operation {
            Some(op) => op == operation,
            None => false,
        }
    }

    /// The label of the selected host, `none` without one.
    pub fn selected_remote_host_label(&self) -> (r: String)
        ensures
            r@ == if self.core.selected_host_index < self.core.hosts@.len() {
                desktop_host_label(self.core.hosts@[self.core.selected_host_index as int])
            } else {
                "none"@
            },
    {
        if self.core.selected_host_index < self.core.hosts.len() {
            host_display_label(&self.core.hosts[self.core.selected_host_index])
        } else {
            proof {
                reveal_strlit("none");
            }
            text("none")
        }
    }

    /// The label of the selected host's active profile.
    pub fn selected_host_active_profile_label(&self) -> (r: String)
        ensures
            r@ == match first_active(
                self.core.selected_host_profiles@,
                self.core.selected_host_active_auth,
            ) {
                Some(i) => self.core.selected_host_profiles@[i].label@,
                None => "none"@,
            },
    {
        self.core.active_profile_label()
    }

    /// The limits fetched for a profile.
    pub fn profile_limits(&self, profile_id: &str) -> (r: Option<&LimitsSnapshotSet>)
        ensures
            match r {
                Some(s) => self.core.limits_by_profile.get_spec(profile_id@) == Some(*s),
                None => self.core.limits_by_profile.get_spec(profile_id@) is None,
            },
    {
        self.core.profile_limits(profile_id)
    }

    /// Whether `profile` is the active account of the selected host.
    pub fn is_profile_active_on_selected_host(&self, profile: &AccountProfile) -> (r: bool)
        ensures
            r == (self.core.selected_host_active_auth matches Some(a) && a.tokens.access_token@
                == profile.auth_file.tokens.access_token@),
    {
        self.core.is_profile_active(profile)
    }

    /// The hosts offered for selection: each id once, at its first host.
    pub fn host_choices(&self) -> (r: Vec<(usize, String)>)
        ensures
            r@.map_values(|c: (usize, String)| (c.0, c.1@)) == choices_upto(
                self.core.hosts@,
                self.core.hosts@.len() as int,
            ),
    {
        let ghost hs = self.core.hosts@;
        let mut out: Vec<(usize, String)> = Vec::new();
        let mut i: usize = 0;
        while i < self.core.hosts.len()
            invariant
                i <= hs.len(),
                hs == self.core.hosts@,
                out@.map_values(|c: (usize, String)| (c.0, c.1@)) == choices_upto(hs, i as int),
            decreases hs.len() - i,
        {
            let mut seen = false;
            let mut k: usize = 0;
            while k < i
                invariant
                    k <= i < hs.len(),
                    hs == self.core.hosts@,
                    seen == exists|j: int| 0 <= j < k && (#[trigger] hs[j]).id@ == hs[i as int].id@,
                decreases i - k,
            {
                if crate::text::str_eq(self.core.hosts[k].id.as_str(), self.core.hosts[i].id.as_str()) {
                    seen = true;
                }
                k = k + 1;
            }
            let ghost before = out@.map_values(|c: (usize, String)| (c.0, c.1@));
            if !seen {
                out.push((i, host_display_label(&self.core.hosts[i])));
                assert(out@.map_values(|c: (usize, String)| (c.0, c.1@)) =~= before.push(
                    (i, desktop_host_label(hs[i as int])),
                ));
            }
            i = i + 1;
        }
        out
    }

    /// Whether the selected host is a remote one.
    pub fn selected_host_is_remote(&self) -> (r: bool)
        ensures
            r == is_remote_at(self.core.hosts@, self.core.selected_host_index as int),
    {
        self.core.selected_host_is_remote()
    }

    /// Shows the selected host's accounts.
    pub fn refresh_selected_host_view(&mut self, show_notice: bool, now: u64) -> (r: Option<Job>)
        ensures
            host_view_refreshed(old(self).core, final(self).core, r, show_notice, now),
            only_core_changed(*old(self), *final(self)),
    {
        self.core.refresh_selected_host_view(show_notice, now)
    }
}

} // verus!
