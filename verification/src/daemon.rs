//! The daemon's decisions as a state machine.
//!
//! The daemon alternates work on the outside world (looking for drives,
//! reading the keys directory, copying keys, swapping the GPG home, saving
//! its state, sleeping) with decisions. [`WardDaemon`] holds the decisions:
//! each call of [`WardDaemon::run`], [`WardDaemon::deactivate`] or
//! [`WardDaemon::step`] answers with the next [`Action`] to perform, and the
//! caller hands back what happened as an [`Event`].
use vstd::prelude::*;
use vstd::string::StringExecFns;

use crate::config::{gpg_home_for, Config, DaemonState};
use crate::gpg::{GpgManager, GpgStep};
use crate::paths::{paths_equal, same_path};
use crate::error::{WardError, WardResult};
use crate::manifest::{
    dir_checksum, is_integrity_error, keys_dir_for, listing_view, passes_integrity, KeyFile,
    WardDrive,
};

verus! {

/// The daemon's externally visible state.
#[derive(Debug, Clone, Copy, PartialEq, Eq, Structural)]
pub enum WardState {
    Idle,
    Scanning,
    Validating,
    Activating,
    Active,
    Deactivating,
    Stopping,
}

/// The lowercase name of a state.
pub open spec fn state_name(s: WardState) -> Seq<char> {
    match s {
        WardState::Idle => "idle"@,
        WardState::Scanning => "scanning"@,
        WardState::Validating => "validating"@,
        WardState::Activating => "activating"@,
        WardState::Active => "active"@,
        WardState::Deactivating => "deactivating"@,
        WardState::Stopping => "stopping"@,
    }
}

impl WardState {
    /// The state's lowercase name, as the status display shows it.
    pub fn to_string(&self) -> (res: String)
        ensures
            res@ == state_name(*self),
    {
        let name = match self {
            WardState::Idle => "idle",
            WardState::Scanning => "scanning",
            WardState::Validating => "validating",
            WardState::Activating => "activating",
            WardState::Active => "active",
            WardState::Deactivating => "deactivating",
            WardState::Stopping => "stopping",
        };
        String::from_str(name)
    }
}

/// What to do once a deactivation is over.
#[derive(Debug, Clone, Copy, PartialEq, Eq, Structural)]
pub enum Resume {
    /// Deactivating a drive left active by a previous run: go on starting up,
    /// or end the run with the error.
    Recovery,
    /// Deactivating a drive that was removed: go on polling whatever happened.
    Polling,
    /// Deactivating on request: report the result.
    Caller,
}

/// Where the daemon stands in its work; all but `Ready` and `Finished` wait for one event.
pub enum Phase {
    /// No work is under way.
    Ready,
    /// The work ended; the last action reported its result.
    Finished,
    /// Starting up with a drive recorded as active: is its mount still there?
    RecoveryCheck,
    /// Starting up: looking for a Ward drive.
    StartupFind,
    /// Waiting out the poll interval.
    Sleeping,
    /// Polling while idle: looking for a Ward drive.
    PollFind,
    /// Polling while active: is the active drive's mount still there?
    PollCheck,
    /// An allowed drive was found: reading its keys directory.
    Validating { drive: WardDrive },
    /// The drive passed the integrity check: making its keys available.
    ActivatingStorage { drive: WardDrive },
    /// The keys are at `active_path`: pointing the GPG home there.
    SwappingTo { drive: WardDrive, active_path: String },
    /// Saving the state that records the active drive.
    SavingActive,
    /// Deactivating: restoring the original GPG home.
    SwappingBack { then: Resume },
    /// Deactivating: wiping the keys.
    DeactivatingStorage { then: Resume },
    /// Deactivating: saving the cleared state.
    SavingCleared { then: Resume },
    /// A drive was turned away or failed to activate: the error is being reported.
    Reporting,
}

/// What the daemon asks its caller to do next.
pub enum Action {
    /// Report whether the mount point is still available (`Event::MountChecked`).
    CheckMount(String),
    /// Look for a Ward drive (`Event::DriveFound`).
    FindWardDrive,
    /// List the files of this keys directory (`Event::KeysListed`).
    ListKeys(String),
    /// Make the keys of this directory available (`Event::StorageActivated`).
    ActivateStorage(String),
    /// Point the GPG home at the keys (`Event::Done`).
    SwapGpgTo(String),
    /// Persist this state (`Event::Done`).
    SaveState(DaemonState),
    /// Restore the original GPG home (`Event::Done`).
    SwapGpgBack,
    /// Wipe the keys made available (`Event::Done`).
    DeactivateStorage,
    /// Sleep this many milliseconds (`Event::Woke`).
    Sleep(u64),
    /// Log this error, why a drive was turned away or failed to activate
    /// (`Event::Reported`); the daemon then polls on.
    Report(WardError),
    /// The work is over, with this result.
    Finished(WardResult<()>),
}

/// What happened when the caller did what was asked.
pub enum Event {
    MountChecked(bool),
    DriveFound(WardResult<Option<WardDrive>>),
    KeysListed(WardResult<Option<Vec<KeyFile>>>),
    StorageActivated(WardResult<String>),
    Done(WardResult<()>),
    Woke,
    Reported,
}

/// The Ward daemon: its state, its configuration, the persisted state, the
/// manager of the GPG home and its work.
pub struct WardDaemon {
    pub state: WardState,
    pub config: Config,
    pub daemon_state: DaemonState,
    /// Swaps the GPG home; its backup path is the configured one.
    pub gpg_manager: GpgManager,
    pub stop_requested: bool,
    pub phase: Phase,
}

/// The error that reports a drive whose keys directory, listed as `listing`,
/// does not match its manifest's checksum: the keys directory, the expected
/// and the actual checksum.
pub open spec fn integrity_error(drive: WardDrive, listing: Option<Vec<KeyFile>>) -> WardError {
    choose|e: WardError|
        is_integrity_error(
            e,
            keys_dir_for(drive.ward_dir@),
            drive.manifest.checksum@,
            dir_checksum(listing_view(listing)),
        )
}

/// The event is a keys listing that fails the integrity check of the drive
/// being validated.
pub open spec fn fails_integrity(d: WardDaemon, event: Event) -> bool {
    &&& d.phase matches Phase::Validating { drive }
    &&& event matches Event::KeysListed(Ok(listing))
    &&& !passes_integrity(drive.manifest, listing_view(listing))
}

/// The same state, nothing active.
pub open spec fn cleared(ds: DaemonState) -> DaemonState {
    DaemonState {
        active_drive_uuid: None,
        active_mount_path: None,
        current_gpg_home: None,
        backup_path: None,
    }
}

/// The UUID of a drive is on the allow list.
pub open spec fn allows(config: Config, drive: WardDrive) -> bool {
    config.allowed().contains(drive.manifest.uuid@)
}

impl WardDaemon {
    pub open spec fn with_state(self, s: WardState) -> WardDaemon {
        WardDaemon { state: s, ..self }
    }

    pub open spec fn with_phase(self, p: Phase) -> WardDaemon {
        WardDaemon { phase: p, ..self }
    }

    /// Some work is under way.
    pub open spec fn busy(self) -> bool {
        !(self.phase is Ready || self.phase is Finished)
    }

    /// The event is the one that the current phase waits for.
    pub open spec fn awaits(self, event: Event) -> bool {
        match self.phase {
            Phase::RecoveryCheck | Phase::PollCheck => event is MountChecked,
            Phase::StartupFind | Phase::PollFind => event is DriveFound,
            Phase::Sleeping => event is Woke,
            Phase::Reporting => event is Reported,
            Phase::Validating { .. } => event is KeysListed,
            Phase::ActivatingStorage { .. } => event is StorageActivated,
            Phase::SwappingTo { .. } | Phase::SavingActive | Phase::SwappingBack { .. }
            | Phase::DeactivatingStorage { .. } | Phase::SavingCleared { .. } => event is Done,
            Phase::Ready | Phase::Finished => false,
        }
    }

    /// The work ends with `result`.
    pub open spec fn finish(self, result: WardResult<()>) -> (WardDaemon, Action) {
        (self.with_phase(Phase::Finished), Action::Finished(result))
    }

    /// Reporting `error`, after which polling goes on.
    pub open spec fn report(self, error: WardError) -> (WardDaemon, Action) {
        (self.with_phase(Phase::Reporting), Action::Report(error))
    }

    /// The head of the polling loop: stop when asked to, otherwise sleep.
    pub open spec fn poll_head(self) -> (WardDaemon, Action) {
        if self.stop_requested {
            self.with_state(WardState::Stopping).finish(Ok(()))
        } else {
            (self.with_phase(Phase::Sleeping), Action::Sleep(self.config.poll_interval_ms))
        }
    }

    /// After a sleep: look for a drive when idle, check the mount when active.
    pub open spec fn after_wake(self) -> (WardDaemon, Action) {
        match self.state {
            WardState::Idle => (self.with_phase(Phase::PollFind), Action::FindWardDrive),
            WardState::Active => match self.daemon_state.active_mount_path {
                Some(p) => (self.with_phase(Phase::PollCheck), Action::CheckMount(p)),
                None => self.poll_head(),
            },
            _ => self.poll_head(),
        }
    }

    /// Deactivation begins: restore the GPG home first.
    pub open spec fn begin_deactivate(self, then: Resume) -> (WardDaemon, Action) {
        (
            WardDaemon {
                state: WardState::Deactivating,
                phase: Phase::SwappingBack { then },
                ..self
            },
            Action::SwapGpgBack,
        )
    }

    /// Deactivation is over with `result`.
    pub open spec fn resume(self, then: Resume, result: WardResult<()>) -> (WardDaemon, Action) {
        match then {
            Resume::Recovery => match result {
                Ok(_) => (self.with_phase(Phase::StartupFind), Action::FindWardDrive),
                Err(e) => self.finish(Err(e)),
            },
            Resume::Polling => self.poll_head(),
            Resume::Caller => self.finish(result),
        }
    }

    /// A drive was found: validate it when it is allowed; an unauthorized drive
    /// ends validation at once, back in `Idle`, reporting it as unauthorized.
    pub open spec fn begin_validate(self, drive: WardDrive) -> (WardDaemon, Action) {
        if allows(self.config, drive) {
            (
                WardDaemon {
                    state: WardState::Validating,
                    phase: Phase::Validating { drive },
                    ..self
                },
                Action::ListKeys(drive.keys_dir),
            )
        } else {
            self.with_state(WardState::Idle).report(
                WardError::UnauthorizedDrive { uuid: drive.manifest.uuid },
            )
        }
    }

    /// What the search for a drive found: the error ends the work; an allowed
    /// drive is validated; otherwise polling goes on.
    pub open spec fn after_find(self, found: WardResult<Option<WardDrive>>) -> (WardDaemon, Action) {
        match found {
            Err(e) => self.finish(Err(e)),
            Ok(None) => self.poll_head(),
            Ok(Some(drive)) => if allows(self.config, drive) {
                self.begin_validate(drive)
            } else {
                self.poll_head()
            },
        }
    }

    /// Starting a run: check a drive recorded as active, else look for a drive.
    pub open spec fn begin_run(self) -> (WardDaemon, Action) {
        match (self.daemon_state.active_drive_uuid, self.daemon_state.active_mount_path) {
            (Some(_), Some(p)) => (self.with_phase(Phase::RecoveryCheck), Action::CheckMount(p)),
            _ => (self.with_phase(Phase::StartupFind), Action::FindWardDrive),
        }
    }

    /// The state that records `drive` as active with its keys at `active_path`.
    pub open spec fn activated_state(self, drive: WardDrive, active_path: String) -> DaemonState {
        DaemonState {
            active_drive_uuid: Some(drive.manifest.uuid),
            active_mount_path: Some(drive.mount_path),
            current_gpg_home: Some(active_path),
            backup_path: Some(self.config.gpg_backup_path),
        }
    }

    /// The daemon's transition on an event: its next state and the next action.
    pub open spec fn next(self, event: Event) -> (WardDaemon, Action) {
        match self.phase {
            Phase::RecoveryCheck => match event {
                Event::MountChecked(true) => (
                    self.with_phase(Phase::StartupFind),
                    Action::FindWardDrive,
                ),
                _ => self.begin_deactivate(Resume::Recovery),
            },
            Phase::StartupFind | Phase::PollFind => match event {
                Event::DriveFound(found) => self.after_find(found),
                _ => self.finish(Ok(())),
            },
            Phase::Sleeping => self.after_wake(),
            Phase::PollCheck => match event {
                Event::MountChecked(true) => self.poll_head(),
                _ => self.begin_deactivate(Resume::Polling),
            },
            Phase::Validating { drive } => match event {
                Event::KeysListed(Ok(listing)) => if passes_integrity(
                    drive.manifest,
                    listing_view(listing),
                ) {
                    (
                        WardDaemon {
                            state: WardState::Activating,
                            phase: Phase::ActivatingStorage { drive },
                            ..self
                        },
                        Action::ActivateStorage(drive.keys_dir),
                    )
                } else {
                    self.with_state(WardState::Idle).report(integrity_error(drive, listing))
                },
                Event::KeysListed(Err(e)) => self.with_state(WardState::Idle).report(e),
                _ => self.with_state(WardState::Idle).poll_head(),
            },
            Phase::ActivatingStorage { drive } => match event {
                Event::StorageActivated(Ok(path)) => (
                    self.with_phase(Phase::SwappingTo { drive, active_path: path }),
                    Action::SwapGpgTo(path),
                ),
                Event::StorageActivated(Err(e)) => self.report(e),
                _ => self.poll_head(),
            },
            Phase::SwappingTo { drive, active_path } => match event {
                Event::Done(Ok(_)) => {
                    let ds = self.activated_state(drive, active_path);
                    (
                        WardDaemon { daemon_state: ds, phase: Phase::SavingActive, ..self },
                        Action::SaveState(ds),
                    )
                },
                Event::Done(Err(e)) => self.report(e),
                _ => self.poll_head(),
            },
            Phase::SavingActive => match event {
                Event::Done(Ok(_)) => self.with_state(WardState::Active).poll_head(),
                Event::Done(Err(e)) => self.report(e),
                _ => self.poll_head(),
            },
            Phase::Reporting => self.poll_head(),
            Phase::SwappingBack { then } => match event {
                Event::Done(Ok(_)) => (
                    self.with_phase(Phase::DeactivatingStorage { then }),
                    Action::DeactivateStorage,
                ),
                Event::Done(Err(e)) => self.resume(then, Err(e)),
                _ => self.finish(Ok(())),
            },
            Phase::DeactivatingStorage { then } => match event {
                Event::Done(Ok(_)) => {
                    let ds = cleared(self.daemon_state);
                    (
                        WardDaemon { daemon_state: ds, phase: Phase::SavingCleared { then }, ..self },
                        Action::SaveState(ds),
                    )
                },
                Event::Done(Err(e)) => self.resume(then, Err(e)),
                _ => self.finish(Ok(())),
            },
            Phase::SavingCleared { then } => match event {
                Event::Done(Ok(_)) => self.with_state(WardState::Idle).resume(then, Ok(())),
                Event::Done(Err(e)) => self.resume(then, Err(e)),
                _ => self.finish(Ok(())),
            },
            Phase::Ready | Phase::Finished => self.finish(Ok(())),
        }
    }

    /// The daemon's invariant: an active daemon's recorded drive is allowed,
    /// and each phase goes with its state.
    pub open spec fn wf(self) -> bool {
        &&& self.state == WardState::Active ==> (self.daemon_state.active_drive_uuid matches Some(
            u,
        ) && self.config.allowed().contains(u@))
        &&& match self.phase {
            Phase::Validating { drive } => self.state == WardState::Validating && allows(
                self.config,
                drive,
            ),
            Phase::ActivatingStorage { drive } => self.state == WardState::Activating && allows(
                self.config,
                drive,
            ),
            Phase::SwappingTo { drive, .. } => self.state == WardState::Activating && allows(
                self.config,
                drive,
            ),
            Phase::SavingActive => self.state == WardState::Activating
                && (self.daemon_state.active_drive_uuid matches Some(u)
                && self.config.allowed().contains(u@)),
            Phase::SwappingBack { .. } | Phase::DeactivatingStorage { .. } => self.state
                == WardState::Deactivating,
            Phase::SavingCleared { .. } => self.state == WardState::Deactivating
                && self.daemon_state.is_cleared(),
            _ => true,
        }
    }
}

fn copy_text(s: &Option<String>) -> (res: Option<String>)
    ensures
        res == *s,
{
    match s {
        Some(t) => Some(t.clone()),
        None => None,
    }
}

fn copy_state(ds: &DaemonState) -> (res: DaemonState)
    ensures
        res == *ds,
{
    DaemonState {
        active_drive_uuid: copy_text(&ds.active_drive_uuid),
        active_mount_path: copy_text(&ds.active_mount_path),
        current_gpg_home: copy_text(&ds.current_gpg_home),
        backup_path: copy_text(&ds.backup_path),
    }
}

impl WardDaemon {
    /// A daemon with this configuration and the state persisted by a previous
    /// run; its GPG manager works on the user's GPG home and backs it up to the
    /// configured backup path.
    pub fn new(config: Config, daemon_state: DaemonState) -> (res: WardDaemon)
        ensures
            res.state == WardState::Idle,
            res.config == config,
            res.daemon_state == daemon_state,
            res.gpg_manager.backup_path == config.gpg_backup_path,
            exists|home: Option<Seq<char>>| res.gpg_manager.original_home@ == gpg_home_for(home),
            res.gpg_manager.step == GpgStep::Ready,
            !res.stop_requested,
            res.phase is Ready,
            res.wf(),
    {
        let gpg_manager = GpgManager::new(config.gpg_backup_path.clone());
        WardDaemon {
            state: WardState::Idle,
            config,
            daemon_state,
            gpg_manager,
            stop_requested: false,
            phase: Phase::Ready,
        }
    }

    /// The current state.
    pub fn state(&self) -> (res: WardState)
        ensures
            res == self.state,
    {
        self.state
    }

    /// The persisted state as the daemon holds it.
    pub fn daemon_state(&self) -> (res: &DaemonState)
        ensures
            *res == self.daemon_state,
    {
        &self.daemon_state
    }

    /// Asks the daemon to stop at the head of its next poll.
    pub fn signal_stop(&mut self)
        ensures
            *final(self) == (WardDaemon { stop_requested: true, ..*old(self) }),
            old(self).wf() ==> final(self).wf(),
    {
        self.stop_requested = true;
    }

    fn should_stop(&self) -> (res: bool)
        ensures
            res == self.stop_requested,
    {
        self.stop_requested
    }

    fn set_state(&mut self, new_state: WardState)
        ensures
            *final(self) == old(self).with_state(new_state),
    {
        self.state = new_state;
    }

    /// Whether `event` is what the daemon waits for.
    pub fn accepts(&self, event: &Event) -> (res: bool)
        ensures
            res == self.awaits(*event),
    {
        match self.phase {
            Phase::RecoveryCheck | Phase::PollCheck => matches!(event, Event::MountChecked(_)),
            Phase::StartupFind | Phase::PollFind => matches!(event, Event::DriveFound(_)),
            Phase::Sleeping => matches!(event, Event::Woke),
            Phase::Reporting => matches!(event, Event::Reported),
            Phase::Validating { .. } => matches!(event, Event::KeysListed(_)),
            Phase::ActivatingStorage { .. } => matches!(event, Event::StorageActivated(_)),
            Phase::SwappingTo { .. } | Phase::SavingActive | Phase::SwappingBack { .. }
            | Phase::DeactivatingStorage { .. } | Phase::SavingCleared { .. } => matches!(event, Event::Done(_)),
            Phase::Ready | Phase::Finished => false,
        }
    }

    /// Whether some work is under way.
    pub fn is_busy(&self) -> (res: bool)
        ensures
            res == self.busy(),
    {
        !matches!(self.phase, Phase::Ready | Phase::Finished)
    }

    fn end_with(&mut self, result: WardResult<()>) -> (action: Action)
        ensures
            (*final(self), action) == old(self).finish(result),
    {
        self.phase = Phase::Finished;
        Action::Finished(result)
    }

    fn poll(&mut self) -> (action: Action)
        ensures
            (*final(self), action) == old(self).poll_head(),
    {
        if self.should_stop() {
            self.set_state(WardState::Stopping);
            self.end_with(Ok(()))
        } else {
            self.phase = Phase::Sleeping;
            Action::Sleep(self.config.poll_interval_ms)
        }
    }

    fn wake(&mut self) -> (action: Action)
        ensures
            (*final(self), action) == old(self).after_wake(),
    {
        match self.state {
            WardState::Idle => {
                self.phase = Phase::PollFind;
                Action::FindWardDrive
            },
            WardState::Active => match copy_text(&self.daemon_state.active_mount_path) {
                Some(p) => {
                    self.phase = Phase::PollCheck;
                    Action::CheckMount(p)
                },
                None => self.poll(),
            },
            _ => self.poll(),
        }
    }

    fn start_deactivate(&mut self, then: Resume) -> (action: Action)
        ensures
            (*final(self), action) == old(self).begin_deactivate(then),
    {
        self.set_state(WardState::Deactivating);
        self.phase = Phase::SwappingBack { then };
        Action::SwapGpgBack
    }

    fn resume_after(&mut self, then: Resume, result: WardResult<()>) -> (action: Action)
        ensures
            (*final(self), action) == old(self).resume(then, result),
    {
        match then {
            Resume::Recovery => match result {
                Ok(_) => {
                    self.phase = Phase::StartupFind;
                    Action::FindWardDrive
                },
                Err(e) => self.end_with(Err(e)),
            },
            Resume::Polling => self.poll(),
            Resume::Caller => self.end_with(result),
        }
    }

    /// A Ward drive was detected: validate it when its UUID is on the allow
    /// list (its keys are listed next, for the integrity check); otherwise it
    /// is turned away, back in `Idle`, with `UnauthorizedDrive` to report.
    pub fn handle_ward_detected(&mut self, drive: WardDrive) -> (action: Action)
        ensures
            (*final(self), action) == old(self).begin_validate(drive),
            old(self).wf() ==> final(self).wf(),
    {
        if !self.config.is_drive_allowed(drive.manifest.uuid.as_str()) {
            self.set_state(WardState::Idle);
            self.phase = Phase::Reporting;
            return Action::Report(WardError::UnauthorizedDrive { uuid: drive.manifest.uuid });
        }
        self.set_state(WardState::Validating);
        let keys_dir = drive.keys_dir.clone();
        self.phase = Phase::Validating { drive };
        Action::ListKeys(keys_dir)
    }

    /// The drive passed validation: make its keys available.
    fn activate_drive(&mut self, drive: WardDrive) -> (action: Action)
        ensures
            *final(self) == (WardDaemon {
                state: WardState::Activating,
                phase: Phase::ActivatingStorage { drive },
                ..*old(self)
            }),
            action == Action::ActivateStorage(drive.keys_dir),
    {
        self.set_state(WardState::Activating);
        let keys_dir = drive.keys_dir.clone();
        self.phase = Phase::ActivatingStorage { drive };
        Action::ActivateStorage(keys_dir)
    }

    fn on_found(&mut self, found: WardResult<Option<WardDrive>>) -> (action: Action)
        ensures
            (*final(self), action) == old(self).after_find(found),
    {
        match found {
            Err(e) => self.end_with(Err(e)),
            Ok(None) => self.poll(),
            Ok(Some(drive)) => {
                if self.config.is_drive_allowed(drive.manifest.uuid.as_str()) {
                    self.handle_ward_detected(drive)
                } else {
                    self.poll()
                }
            },
        }
    }

    /// Starts the daemon's run: first a drive left active by a previous run is
    /// checked (and deactivated when its mount is gone), then an allowed drive
    /// present at startup is activated, then the daemon polls until asked to stop.
    pub fn run(&mut self) -> (action: Action)
        requires
            !old(self).busy(),
        ensures
            (*final(self), action) == old(self).begin_run(),
            old(self).wf() ==> final(self).wf(),
    {
        match (&self.daemon_state.active_drive_uuid, copy_text(&self.daemon_state.active_mount_path)) {
            (Some(_), Some(p)) => {
                self.phase = Phase::RecoveryCheck;
                Action::CheckMount(p)
            },
            _ => {
                self.phase = Phase::StartupFind;
                Action::FindWardDrive
            },
        }
    }

    /// Starts deactivating the active drive: restore the GPG home, wipe the
    /// keys, clear and save the state; the last action reports the result.
    pub fn deactivate(&mut self) -> (action: Action)
        requires
            !old(self).busy(),
        ensures
            (*final(self), action) == old(self).begin_deactivate(Resume::Caller),
            old(self).wf() ==> final(self).wf(),
    {
        self.start_deactivate(Resume::Caller)
    }

    /// The drive mounted at `mount_path` was removed: when it is the active
    /// drive (the paths compared component by component), start deactivating
    /// it; otherwise there is nothing to do.
    pub fn handle_ward_removed(&mut self, mount_path: &str) -> (action: Action)
        requires
            !old(self).busy(),
        ensures
            (old(self).daemon_state.active_mount_path matches Some(p) && same_path(p@, mount_path@))
                ==> (*final(self), action) == old(self).begin_deactivate(Resume::Caller),
            !(old(self).daemon_state.active_mount_path matches Some(p) && same_path(
                p@,
                mount_path@,
            )) ==> (*final(self), action) == old(self).finish(Ok(())),
            old(self).wf() ==> final(self).wf(),
    {
        let is_active_mount = match &self.daemon_state.active_mount_path {
            Some(p) => paths_equal(p.as_str(), mount_path),
            None => false,
        };
        if !is_active_mount {
            return self.end_with(Ok(()));
        }
        self.start_deactivate(Resume::Caller)
    }

    /// Advances the daemon's work with what happened. A keys listing that fails
    /// the integrity check is reported with the error that the check gave: the
    /// keys directory, the expected and the actual checksum.
    pub fn step(&mut self, event: Event) -> (action: Action)
        requires
            old(self).awaits(event),
        ensures
            !fails_integrity(*old(self), event) ==> (*final(self), action) == old(self).next(event),
            fails_integrity(*old(self), event) ==> {
                &&& *final(self) == old(self).next(event).0
                &&& action matches Action::Report(e)
                &&& old(self).phase matches Phase::Validating { drive }
                &&& event matches Event::KeysListed(Ok(listing))
                &&& is_integrity_error(
                    e,
                    keys_dir_for(drive.ward_dir@),
                    drive.manifest.checksum@,
                    dir_checksum(listing_view(listing)),
                )
            },
            old(self).wf() ==> final(self).wf(),
    {
        proof {
            if old(self).wf() {
                lemma_next_keeps_wf(*old(self), event);
            }
        }
        let mut phase = Phase::Ready;
        std::mem::swap(&mut phase, &mut self.phase);
        match phase {
            Phase::RecoveryCheck => {
                self.phase = Phase::RecoveryCheck;
                match event {
                    Event::MountChecked(true) => {
                        self.phase = Phase::StartupFind;
                        Action::FindWardDrive
                    },
                    _ => self.start_deactivate(Resume::Recovery),
                }
            },
            Phase::StartupFind => {
                self.phase = Phase::StartupFind;
                match event {
                    Event::DriveFound(found) => self.on_found(found),
                    _ => self.end_with(Ok(())),
                }
            },
            Phase::PollFind => {
                self.phase = Phase::PollFind;
                match event {
                    Event::DriveFound(found) => self.on_found(found),
                    _ => self.end_with(Ok(())),
                }
            },
            Phase::Sleeping => {
                self.phase = Phase::Sleeping;
                self.wake()
            },
            Phase::PollCheck => {
                self.phase = Phase::PollCheck;
                match event {
                    Event::MountChecked(true) => self.poll(),
                    _ => self.start_deactivate(Resume::Polling),
                }
            },
            Phase::Validating { drive } => {
                match event {
                    Event::KeysListed(Ok(listing)) => {
                        match drive.manifest.verify_integrity(drive.ward_dir.as_str(), &listing) {
                            Ok(()) => self.activate_drive(drive),
                            Err(e) => {
                                self.set_state(WardState::Idle);
                                self.phase = Phase::Reporting;
                                Action::Report(e)
                            },
                        }
                    },
                    Event::KeysListed(Err(e)) => {
                        self.set_state(WardState::Idle);
                        self.phase = Phase::Reporting;
                        Action::Report(e)
                    },
                    _ => {
                        self.phase = Phase::Validating { drive };
                        self.set_state(WardState::Idle);
                        self.poll()
                    },
                }
            },
            Phase::ActivatingStorage { drive } => {
                match event {
                    Event::StorageActivated(Ok(path)) => {
                        let swap_path = path.clone();
                        self.phase = Phase::SwappingTo { drive, active_path: path };
                        Action::SwapGpgTo(swap_path)
                    },
                    Event::StorageActivated(Err(e)) => {
                        self.phase = Phase::Reporting;
                        Action::Report(e)
                    },
                    _ => {
                        self.phase = Phase::ActivatingStorage { drive };
                        self.poll()
                    },
                }
            },
            Phase::SwappingTo { drive, active_path } => {
                match event {
                    Event::Done(Ok(_)) => {
                        self.daemon_state.active_drive_uuid = Some(drive.manifest.uuid);
                        self.daemon_state.active_mount_path = Some(drive.mount_path);
                        self.daemon_state.current_gpg_home = Some(active_path);
                        self.daemon_state.backup_path = Some(self.config.gpg_backup_path.clone());
                        self.phase = Phase::SavingActive;
                        Action::SaveState(copy_state(&self.daemon_state))
                    },
                    Event::Done(Err(e)) => {
                        self.phase = Phase::Reporting;
                        Action::Report(e)
                    },
                    _ => {
                        self.phase = Phase::SwappingTo { drive, active_path };
                        self.poll()
                    },
                }
            },
            Phase::SavingActive => {
                self.phase = Phase::SavingActive;
                match event {
                    Event::Done(Ok(_)) => {
                        self.set_state(WardState::Active);
                        self.poll()
                    },
                    Event::Done(Err(e)) => {
                        self.phase = Phase::Reporting;
                        Action::Report(e)
                    },
                    _ => self.poll(),
                }
            },
            Phase::Reporting => {
                self.phase = Phase::Reporting;
                self.poll()
            },
            Phase::SwappingBack { then } => {
                self.phase = Phase::SwappingBack { then };
                match event {
                    Event::Done(Ok(_)) => {
                        self.phase = Phase::DeactivatingStorage { then };
                        Action::DeactivateStorage
                    },
                    Event::Done(Err(e)) => self.resume_after(then, Err(e)),
                    _ => self.end_with(Ok(())),
                }
            },
            Phase::DeactivatingStorage { then } => {
                self.phase = Phase::DeactivatingStorage { then };
                match event {
                    Event::Done(Ok(_)) => {
                        self.daemon_state.clear_active();
                        self.phase = Phase::SavingCleared { then };
                        Action::SaveState(copy_state(&self.daemon_state))
                    },
                    Event::Done(Err(e)) => self.resume_after(then, Err(e)),
                    _ => self.end_with(Ok(())),
                }
            },
            Phase::SavingCleared { then } => {
                self.phase = Phase::SavingCleared { then };
                match event {
                    Event::Done(Ok(_)) => {
                        self.set_state(WardState::Idle);
                        self.resume_after(then, Ok(()))
                    },
                    Event::Done(Err(e)) => self.resume_after(then, Err(e)),
                    _ => self.end_with(Ok(())),
                }
            },
            Phase::Ready => {
                self.phase = Phase::Ready;
                self.end_with(Ok(()))
            },
            Phase::Finished => {
                self.end_with(Ok(()))
            },
        }
    }
}

/// Every transition keeps the invariant: in particular, the daemon only ever
/// becomes active with a drive whose UUID is on the allow list.
pub proof fn lemma_next_keeps_wf(d: WardDaemon, event: Event)
    requires
        d.wf(),
    ensures
        d.next(event).0.wf(),
{
}

/// A drive reaches activation only through validation: the daemon moves its
/// keys only after the drive's UUID was found on the allow list and its keys
/// directory matched the manifest's checksum.
pub proof fn lemma_activation_needs_authorized_and_intact(d: WardDaemon, event: Event)
    requires
        d.wf(),
        d.next(event).0.phase is ActivatingStorage,
        !(d.phase is ActivatingStorage),
    ensures
        d.phase matches Phase::Validating { drive } && allows(d.config, drive) && (
        event matches Event::KeysListed(Ok(listing)) && passes_integrity(
            drive.manifest,
            listing_view(listing),
        )),
{
}

/// An unauthorized drive is neither validated nor activated: handed to
/// validation it is turned away at once, back in `Idle` with nothing recorded,
/// reporting `UnauthorizedDrive` with its UUID; found while polling it is
/// passed over.
pub proof fn lemma_unauthorized_drive_rejected(d: WardDaemon, drive: WardDrive)
    requires
        !allows(d.config, drive),
    ensures
        d.begin_validate(drive).0.state == WardState::Idle,
        d.begin_validate(drive).0.daemon_state == d.daemon_state,
        d.begin_validate(drive).0.phase is Reporting,
        d.begin_validate(drive).1 == Action::Report(
            WardError::UnauthorizedDrive { uuid: drive.manifest.uuid },
        ),
        d.after_find(Ok(Some(drive))) == d.poll_head(),
{
}

/// A failed activation step hands its error on to be reported and records
/// nothing more: a failed integrity check or keys listing returns to `Idle`;
/// a failure to make the keys available, to swap the GPG home or to save the
/// state leaves the recorded state as the failed step left it.
pub proof fn lemma_activation_errors_reported(d: WardDaemon, e: WardError)
    requires
        d.phase is Validating || d.phase is ActivatingStorage || d.phase is SwappingTo
            || d.phase is SavingActive,
    ensures
        ({
            let event = match d.phase {
                Phase::Validating { .. } => Event::KeysListed(Err(e)),
                Phase::ActivatingStorage { .. } => Event::StorageActivated(Err(e)),
                _ => Event::Done(Err(e)),
            };
            &&& d.next(event).1 == Action::Report(e)
            &&& d.next(event).0.phase is Reporting
            &&& d.next(event).0.daemon_state == d.daemon_state
            &&& d.phase is Validating ==> d.next(event).0.state == WardState::Idle
        }),
{
}

/// A deactivation that succeeds leaves nothing recorded as active; one
/// requested by a caller ends idle and reports success.
pub proof fn lemma_deactivation_clears(d: WardDaemon)
    requires
        d.wf(),
        d.phase is DeactivatingStorage || d.phase is SavingCleared,
    ensures
        d.next(Event::Done(Ok(()))).0.daemon_state.is_cleared(),
        d.phase == (Phase::SavingCleared { then: Resume::Caller }) ==> {
            &&& d.next(Event::Done(Ok(()))).0.state == WardState::Idle
            &&& d.next(Event::Done(Ok(()))).1 == Action::Finished(Ok(()))
        },
{
}

/// An active drive whose mount point goes away is deactivated at the next
/// poll: after the sleep the daemon checks the mount, and when it is gone it
/// restores the GPG home, wipes the keys and saves the cleared state; when
/// these succeed nothing is recorded as active, and the daemon is `Idle` and
/// sleeps again (or ends the run when asked to stop).
pub proof fn lemma_lost_mount_deactivates(d: WardDaemon, m: String)
    requires
        d.phase is Sleeping,
        d.state == WardState::Active,
        d.daemon_state.active_mount_path == Some(m),
    ensures
        ({
            let (d1, a1) = d.next(Event::Woke);
            let (d2, a2) = d1.next(Event::MountChecked(false));
            let (d3, a3) = d2.next(Event::Done(Ok(())));
            let (d4, a4) = d3.next(Event::Done(Ok(())));
            let (d5, a5) = d4.next(Event::Done(Ok(())));
            &&& a1 == Action::CheckMount(m)
            &&& a2 is SwapGpgBack && d2.state == WardState::Deactivating
            &&& a3 is DeactivateStorage
            &&& a4 == Action::SaveState(d4.daemon_state) && d4.daemon_state.is_cleared()
            &&& d5.daemon_state.is_cleared()
            &&& !d.stop_requested ==> d5.state == WardState::Idle && a5 == Action::Sleep(
                d.config.poll_interval_ms,
            )
            &&& d.stop_requested ==> d5.state == WardState::Stopping && a5 == Action::Finished(
                Ok(()),
            )
        }),
{
}

/// Recovering from an activation left by a previous run never ends a run that
/// did not fail: when the recorded mount is still there, or once the stale
/// activation was cleaned up (GPG home restored, keys wiped, cleared state
/// saved), the daemon goes on starting up and looks for a Ward drive.
pub proof fn lemma_recovery_continues_startup(d: WardDaemon)
    requires
        d.phase is RecoveryCheck,
    ensures
        ({
            let (k1, b1) = d.next(Event::MountChecked(true));
            &&& b1 is FindWardDrive
            &&& k1.phase is StartupFind
        }),
        ({
            let (d1, a1) = d.next(Event::MountChecked(false));
            let (d2, a2) = d1.next(Event::Done(Ok(())));
            let (d3, a3) = d2.next(Event::Done(Ok(())));
            let (d4, a4) = d3.next(Event::Done(Ok(())));
            &&& a1 is SwapGpgBack
            &&& a2 is DeactivateStorage
            &&& a3 is SaveState
            &&& a4 is FindWardDrive
            &&& d4.phase is StartupFind
            &&& d4.state == WardState::Idle
            &&& d4.daemon_state.is_cleared()
        }),
{
}

/// Once the cleared state of a stale activation is saved, startup goes on:
/// the daemon looks for a Ward drive, whatever else it holds; only a failure
/// to save ends the run, with that failure.
pub proof fn lemma_recovery_saved_continues(e: WardDaemon, err: WardError)
    requires
        e.phase == (Phase::SavingCleared { then: Resume::Recovery }),
    ensures
        e.next(Event::Done(Ok(()))).1 is FindWardDrive,
        e.next(Event::Done(Ok(()))).0.phase is StartupFind,
        e.next(Event::Done(Err(err))).1 == Action::Finished(Err(err)),
{
}

/// A stop request ends the work at the head of the next poll, in `Stopping`,
/// without asking for any further change to storage or the GPG home (an
/// active drive stays as it is, recorded in the persisted state).
pub proof fn lemma_stop_ends_run(d: WardDaemon)
    requires
        d.stop_requested,
    ensures
        d.poll_head().0.state == WardState::Stopping,
        d.poll_head().0.daemon_state == d.daemon_state,
        d.poll_head().0.phase is Finished,
        d.poll_head().1 == Action::Finished(Ok(())),
{
}

/// The status that `wardctl status` reports.
#[derive(Debug, Clone)]
pub struct DaemonStatus {
    pub state: WardState,
    pub active_drive_uuid: Option<String>,
    pub active_mount_path: Option<String>,
    pub current_gpg_home: Option<String>,
}

impl DaemonStatus {
    /// The status that the persisted state shows: active exactly when a drive
    /// is recorded as active.
    pub fn from_state(daemon_state: &DaemonState) -> (res: DaemonStatus)
        ensures
            res.state == (if daemon_state.active_drive_uuid is Some {
                WardState::Active
            } else {
                WardState::Idle
            }),
            res.active_drive_uuid == daemon_state.active_drive_uuid,
            res.active_mount_path == daemon_state.active_mount_path,
            res.current_gpg_home == daemon_state.current_gpg_home,
    {
        DaemonStatus {
            state: if daemon_state.is_active() {
                WardState::Active
            } else {
                WardState::Idle
            },
            active_drive_uuid: copy_text(&daemon_state.active_drive_uuid),
            active_mount_path: copy_text(&daemon_state.active_mount_path),
            current_gpg_home: copy_text(&daemon_state.current_gpg_home),
        }
    }
}

} // verus!
