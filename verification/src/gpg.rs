//! Swapping the GPG home to a Ward drive's keys and back.
//!
//! [`GpgManager`] decides which filesystem and agent operations to perform;
//! its caller performs each [`GpgOp`] and hands back what happened as a
//! [`GpgEvent`], until the manager answers [`GpgOp::Finished`].
use vstd::prelude::*;
use vstd::string::StrSliceExecFns;
use vstd::string::StringExecFns;

use crate::config::gpg_home;
use crate::config::gpg_home_for;
use crate::error::{WardError, WardResult};

verus! {

/// The text that `Path`'s `Debug` gives for the path `s`: quoted and escaped.
pub uninterp spec fn debug_text(s: Seq<char>) -> Seq<char>;

/// Formats the path `s` with `Path`'s `Debug` (`format!("{:?}", Path::new(s))`).
/// Claimed of it: the result is named by `debug_text` of `s`, which depends on
/// `s` alone.
#[verifier::external_body]
fn debug_quoted(s: &str) -> (res: String)
    ensures
        res@ == debug_text(s@),
{
    format!("{:?}", std::path::Path::new(s))
}

/// What the filesystem says about a path.
#[derive(Debug, Clone, Copy, PartialEq, Eq, Structural)]
pub struct PathFacts {
    /// The path exists (following a symbolic link).
    pub exists: bool,
    /// The path itself is a symbolic link.
    pub is_symlink: bool,
    /// The path is a directory (following a symbolic link).
    pub is_dir: bool,
}

/// One operation for the caller to perform.
pub enum GpgOp {
    /// Ask gpg-agent to stop (through `gpgconf`); fails when that does not succeed.
    KillAgent,
    /// Kill the gpg-agent processes; what comes of it does not matter.
    ForceKillAgent,
    /// Start gpg-agent with this GPG home.
    StartAgent(String),
    /// Report what the filesystem says about this path.
    Inspect(String),
    /// Remove this file or symbolic link.
    RemoveFile(String),
    /// Remove this directory with all its contents.
    RemoveDirAll(String),
    /// Rename a path.
    Rename { from: String, to: String },
    /// Create a symbolic link at `link` pointing to `target`.
    Symlink { target: String, link: String },
    /// The swap is over, with this result.
    Finished(WardResult<()>),
}

/// What performing an operation gave.
pub enum GpgEvent {
    Done(WardResult<()>),
    Inspected(PathFacts),
}

/// Where moving the original GPG home away should continue.
#[derive(Debug, Clone, Copy, PartialEq, Eq, Structural)]
pub enum AfterBackup {
    /// Within a swap: go on to check the target of the link.
    CheckTarget,
    /// Within making the link: go on to create it.
    MakeLink,
    /// Backing up alone: done.
    Finish,
}

/// Where a swap stands.
#[derive(Debug, Clone, Copy, PartialEq, Eq, Structural)]
pub enum GpgStep {
    Ready,
    /// Swapping to the keys: the agent is being asked to stop.
    ToKilled,
    /// Swapping to the keys: the agent is being killed.
    ToForceKilled,
    /// Swapping to the keys: the GPG home is being inspected.
    ToHomeInspected,
    /// Backing up: the backup path is being inspected.
    BackupInspected { then: AfterBackup },
    /// Backing up: an old backup is being removed.
    BackupRemoved { then: AfterBackup },
    /// Backing up: the GPG home is being moved to the backup path.
    BackupMoved { then: AfterBackup },
    /// Making the link: its target is being inspected.
    TargetInspected,
    /// Making the link: the GPG home is being inspected.
    LinkHomeInspected,
    /// Making the link: an old link is being removed.
    OldLinkRemoved,
    /// Making the link: the link is being created.
    Linked,
    /// Swapping to the keys: the agent is being started.
    AgentStarted,
    /// Swapping back: the agent is being asked to stop.
    BackKilled,
    /// Swapping back: the agent is being killed.
    BackForceKilled,
    /// Swapping back: the GPG home is being inspected for a link.
    BackHomeInspected,
    /// Swapping back: the link is being removed.
    BackUnlinked,
    /// Restoring: the GPG home is being inspected.
    RestoreHomeInspected,
    /// Restoring: the GPG home is being removed.
    RestoreCleared,
    /// Restoring: the backup path is being inspected.
    RestoreBackupInspected,
    /// Restoring: the backup is being moved back.
    RestoreMoved,
    /// Stopping the agent alone: it is being asked to stop.
    KillAsked,
    /// Stopping the agent alone: it is being killed.
    KillForced,
    /// Backing up alone: the GPG home is being inspected.
    BackupHomeInspected,
    /// Removing the link alone: the GPG home is being inspected.
    UnlinkHomeInspected,
    /// Removing the link alone: the link is being removed.
    Unlinked,
}

/// Manages the GPG home: the original one, where it is backed up, and the
/// keys it is pointed at.
pub struct GpgManager {
    pub original_home: String,
    pub backup_path: String,
    pub target: String,
    /// Once the link is made, start the agent on it (within a swap).
    pub start_after_link: bool,
    pub step: GpgStep,
}

/// The message for a link target that does not exist.
pub open spec fn missing_target_message(target: Seq<char>) -> Seq<char> {
    "Target does not exist: "@ + debug_text(target)
}

impl GpgManager {
    pub open spec fn at(self, step: GpgStep) -> GpgManager {
        GpgManager { step, ..self }
    }

    /// The swap ends with `result`.
    pub open spec fn done(self, result: WardResult<()>) -> (GpgManager, GpgOp) {
        (self.at(GpgStep::Ready), GpgOp::Finished(result))
    }

    /// After a backup: check the target, or create the link.
    pub open spec fn after_backup(self, then: AfterBackup) -> (GpgManager, GpgOp) {
        match then {
            AfterBackup::CheckTarget => (
                self.at(GpgStep::TargetInspected),
                GpgOp::Inspect(self.target),
            ),
            AfterBackup::MakeLink => (
                self.at(GpgStep::Linked),
                GpgOp::Symlink { target: self.target, link: self.original_home },
            ),
            AfterBackup::Finish => self.done(Ok(())),
        }
    }

    /// A failed operation ends the swap with its error; a successful one goes on with `next`.
    pub open spec fn on_done(self, event: GpgEvent, next: (GpgManager, GpgOp)) -> (GpgManager, GpgOp) {
        match event {
            GpgEvent::Done(Err(e)) => self.done(Err(e)),
            _ => next,
        }
    }

    /// The facts that an inspection reported (none of them if it reported none).
    pub open spec fn facts_of(event: GpgEvent) -> PathFacts {
        match event {
            GpgEvent::Inspected(f) => f,
            _ => PathFacts { exists: false, is_symlink: false, is_dir: false },
        }
    }

    /// The transition of a swap on an event: the manager's next state and the next operation.
    pub open spec fn next(self, event: GpgEvent) -> (GpgManager, GpgOp) {
        let f = Self::facts_of(event);
        match self.step {
            GpgStep::Ready => self.done(Ok(())),
            GpgStep::ToKilled => match event {
                GpgEvent::Done(Err(_)) => (self.at(GpgStep::ToForceKilled), GpgOp::ForceKillAgent),
                _ => (self.at(GpgStep::ToHomeInspected), GpgOp::Inspect(self.original_home)),
            },
            GpgStep::ToForceKilled => (
                self.at(GpgStep::ToHomeInspected),
                GpgOp::Inspect(self.original_home),
            ),
            GpgStep::ToHomeInspected => if f.exists && !f.is_symlink {
                (
                    self.at(GpgStep::BackupInspected { then: AfterBackup::CheckTarget }),
                    GpgOp::Inspect(self.backup_path),
                )
            } else {
                (self.at(GpgStep::TargetInspected), GpgOp::Inspect(self.target))
            },
            GpgStep::BackupInspected { then } => if f.exists {
                (self.at(GpgStep::BackupRemoved { then }), GpgOp::RemoveDirAll(self.backup_path))
            } else {
                (
                    self.at(GpgStep::BackupMoved { then }),
                    GpgOp::Rename { from: self.original_home, to: self.backup_path },
                )
            },
            GpgStep::BackupRemoved { then } => self.on_done(
                event,
                (
                    self.at(GpgStep::BackupMoved { then }),
                    GpgOp::Rename { from: self.original_home, to: self.backup_path },
                ),
            ),
            GpgStep::BackupMoved { then } => self.on_done(event, self.after_backup(then)),
            GpgStep::TargetInspected => if !f.exists {
                // The message names the target; `step` states its text.
                self.done(Err(WardError::Symlink(arbitrary())))
            } else {
                (self.at(GpgStep::LinkHomeInspected), GpgOp::Inspect(self.original_home))
            },
            GpgStep::LinkHomeInspected => if f.exists || f.is_symlink {
                if f.is_symlink {
                    (self.at(GpgStep::OldLinkRemoved), GpgOp::RemoveFile(self.original_home))
                } else {
                    (
                        self.at(GpgStep::BackupInspected { then: AfterBackup::MakeLink }),
                        GpgOp::Inspect(self.backup_path),
                    )
                }
            } else {
                self.after_backup(AfterBackup::MakeLink)
            },
            GpgStep::OldLinkRemoved => self.on_done(event, self.after_backup(AfterBackup::MakeLink)),
            GpgStep::Linked => self.on_done(
                event,
                if self.start_after_link {
                    (self.at(GpgStep::AgentStarted), GpgOp::StartAgent(self.original_home))
                } else {
                    self.done(Ok(()))
                },
            ),
            GpgStep::AgentStarted => match event {
                GpgEvent::Done(r) => self.done(r),
                _ => self.done(Ok(())),
            },
            GpgStep::BackKilled => match event {
                GpgEvent::Done(Err(_)) => (
                    self.at(GpgStep::BackForceKilled),
                    GpgOp::ForceKillAgent,
                ),
                _ => (self.at(GpgStep::BackHomeInspected), GpgOp::Inspect(self.original_home)),
            },
            GpgStep::BackForceKilled => (
                self.at(GpgStep::BackHomeInspected),
                GpgOp::Inspect(self.original_home),
            ),
            GpgStep::BackHomeInspected => if f.is_symlink {
                (self.at(GpgStep::BackUnlinked), GpgOp::RemoveFile(self.original_home))
            } else {
                (self.at(GpgStep::RestoreHomeInspected), GpgOp::Inspect(self.original_home))
            },
            GpgStep::BackUnlinked => self.on_done(
                event,
                (self.at(GpgStep::RestoreHomeInspected), GpgOp::Inspect(self.original_home)),
            ),
            GpgStep::RestoreHomeInspected => if f.is_symlink {
                (self.at(GpgStep::RestoreCleared), GpgOp::RemoveFile(self.original_home))
            } else if f.exists && f.is_dir {
                (self.at(GpgStep::RestoreCleared), GpgOp::RemoveDirAll(self.original_home))
            } else {
                (self.at(GpgStep::RestoreBackupInspected), GpgOp::Inspect(self.backup_path))
            },
            GpgStep::RestoreCleared => self.on_done(
                event,
                (self.at(GpgStep::RestoreBackupInspected), GpgOp::Inspect(self.backup_path)),
            ),
            GpgStep::RestoreBackupInspected => if f.exists {
                (
                    self.at(GpgStep::RestoreMoved),
                    GpgOp::Rename { from: self.backup_path, to: self.original_home },
                )
            } else {
                self.done(Ok(()))
            },
            GpgStep::RestoreMoved => match event {
                GpgEvent::Done(r) => self.done(r),
                _ => self.done(Ok(())),
            },
            GpgStep::KillAsked => match event {
                GpgEvent::Done(Err(_)) => (self.at(GpgStep::KillForced), GpgOp::ForceKillAgent),
                _ => self.done(Ok(())),
            },
            GpgStep::KillForced => self.done(Ok(())),
            GpgStep::BackupHomeInspected => if f.exists && !f.is_symlink {
                (
                    self.at(GpgStep::BackupInspected { then: AfterBackup::Finish }),
                    GpgOp::Inspect(self.backup_path),
                )
            } else {
                self.done(Ok(()))
            },
            GpgStep::UnlinkHomeInspected => if f.is_symlink {
                (self.at(GpgStep::Unlinked), GpgOp::RemoveFile(self.original_home))
            } else {
                self.done(Ok(()))
            },
            GpgStep::Unlinked => match event {
                GpgEvent::Done(r) => self.done(r),
                _ => self.done(Ok(())),
            },
        }
    }

    /// The event is the kind that the current step waits for.
    pub open spec fn awaits(self, event: GpgEvent) -> bool {
        match self.step {
            GpgStep::Ready => false,
            GpgStep::ToHomeInspected | GpgStep::BackupInspected { .. } | GpgStep::TargetInspected
            | GpgStep::LinkHomeInspected | GpgStep::BackHomeInspected
            | GpgStep::RestoreHomeInspected | GpgStep::RestoreBackupInspected
            | GpgStep::BackupHomeInspected | GpgStep::UnlinkHomeInspected => event is Inspected,
            _ => event is Done,
        }
    }
}

/// The swap stops at a missing link target.
pub open spec fn stops_at_missing_target(g: GpgManager, event: GpgEvent) -> bool {
    g.step is TargetInspected && !GpgManager::facts_of(event).exists
}

impl GpgManager {
    /// A manager for the user's GPG home that backs it up to `backup_path`.
    pub fn new(backup_path: String) -> (res: GpgManager)
        ensures
            exists|home: Option<Seq<char>>| res.original_home@ == gpg_home_for(home),
            res.backup_path == backup_path,
            res.step == GpgStep::Ready,
    {
        GpgManager::with_home(gpg_home(), backup_path)
    }

    /// A manager for the GPG home `original_home` that backs it up to `backup_path`.
    pub fn with_home(original_home: String, backup_path: String) -> (res: GpgManager)
        ensures
            res.original_home == original_home,
            res.backup_path == backup_path,
            res.step == GpgStep::Ready,
    {
        GpgManager {
            original_home,
            backup_path,
            target: String::new(),
            start_after_link: true,
            step: GpgStep::Ready,
        }
    }

    /// Whether a swap is under way.
    pub fn is_busy(&self) -> (res: bool)
        ensures
            res == !(self.step is Ready),
    {
        !matches!(self.step, GpgStep::Ready)
    }

    /// Starts pointing the GPG home at `keys_path`: stop the agent, move a real
    /// GPG home to the backup path, replace it with a link to the keys, start
    /// the agent on it.
    pub fn swap_to(&mut self, keys_path: &str) -> (op: GpgOp)
        requires
            old(self).step is Ready,
        ensures
            final(self).step == GpgStep::ToKilled,
            final(self).target@ == keys_path@,
            final(self).original_home == old(self).original_home,
            final(self).backup_path == old(self).backup_path,
            final(self).start_after_link,
            op is KillAgent,
    {
        self.target = String::from_str(keys_path);
        self.start_after_link = true;
        self.step = GpgStep::ToKilled;
        GpgOp::KillAgent
    }

    /// Starts stopping gpg-agent: ask it to stop (through `gpgconf`), and kill
    /// it when that fails; either way the result is success.
    pub fn kill_agent(&mut self) -> (op: GpgOp)
        requires
            old(self).step is Ready,
        ensures
            *final(self) == old(self).at(GpgStep::KillAsked),
            op is KillAgent,
    {
        self.go(GpgStep::KillAsked, GpgOp::KillAgent)
    }

    /// Starts gpg-agent with the GPG home `gpg_home`; the result is what
    /// starting it gave (see [`agent_start_outcome`]).
    pub fn start_agent(&mut self, gpg_home: &str) -> (op: GpgOp)
        requires
            old(self).step is Ready,
        ensures
            *final(self) == old(self).at(GpgStep::AgentStarted),
            op matches GpgOp::StartAgent(h) && h@ == gpg_home@,
    {
        self.go(GpgStep::AgentStarted, GpgOp::StartAgent(String::from_str(gpg_home)))
    }

    /// Starts moving a real GPG home (neither missing nor a link) to the
    /// backup path, replacing an old backup.
    pub fn backup_home(&mut self) -> (op: GpgOp)
        requires
            old(self).step is Ready,
        ensures
            *final(self) == old(self).at(GpgStep::BackupHomeInspected),
            op == GpgOp::Inspect(old(self).original_home),
    {
        let h = self.home();
        self.go(GpgStep::BackupHomeInspected, GpgOp::Inspect(h))
    }

    /// Starts restoring the GPG home: remove what stands there (a link or a
    /// directory), then move the backup back when there is one.
    pub fn restore_home(&mut self) -> (op: GpgOp)
        requires
            old(self).step is Ready,
        ensures
            *final(self) == old(self).at(GpgStep::RestoreHomeInspected),
            op == GpgOp::Inspect(old(self).original_home),
    {
        let h = self.home();
        self.go(GpgStep::RestoreHomeInspected, GpgOp::Inspect(h))
    }

    /// Starts making the GPG home a link to `target`: the target must exist;
    /// an old link is removed, a real GPG home is backed up first.
    pub fn create_symlink(&mut self, target: &str) -> (op: GpgOp)
        requires
            old(self).step is Ready,
        ensures
            final(self).step == GpgStep::TargetInspected,
            final(self).target@ == target@,
            !final(self).start_after_link,
            final(self).original_home == old(self).original_home,
            final(self).backup_path == old(self).backup_path,
            op == GpgOp::Inspect(final(self).target),
    {
        self.target = String::from_str(target);
        self.start_after_link = false;
        let t = self.keys();
        self.go(GpgStep::TargetInspected, GpgOp::Inspect(t))
    }

    /// Starts removing the link at the GPG home, when it is one.
    pub fn remove_symlink(&mut self) -> (op: GpgOp)
        requires
            old(self).step is Ready,
        ensures
            *final(self) == old(self).at(GpgStep::UnlinkHomeInspected),
            op == GpgOp::Inspect(old(self).original_home),
    {
        let h = self.home();
        self.go(GpgStep::UnlinkHomeInspected, GpgOp::Inspect(h))
    }

    /// Starts restoring the original GPG home: stop the agent, remove the
    /// link, put the backup back.
    pub fn swap_back(&mut self) -> (op: GpgOp)
        requires
            old(self).step is Ready,
        ensures
            *final(self) == old(self).at(GpgStep::BackKilled),
            op is KillAgent,
    {
        self.step = GpgStep::BackKilled;
        GpgOp::KillAgent
    }

    /// Whether `event` is what the current step waits for.
    pub fn accepts(&self, event: &GpgEvent) -> (res: bool)
        ensures
            res == self.awaits(*event),
    {
        match self.step {
            GpgStep::Ready => false,
            GpgStep::ToHomeInspected | GpgStep::BackupInspected { .. } | GpgStep::TargetInspected
            | GpgStep::LinkHomeInspected | GpgStep::BackHomeInspected
            | GpgStep::RestoreHomeInspected | GpgStep::RestoreBackupInspected
            | GpgStep::BackupHomeInspected | GpgStep::UnlinkHomeInspected => matches!(event, GpgEvent::Inspected(_)),
            _ => matches!(event, GpgEvent::Done(_)),
        }
    }

    fn go(&mut self, step: GpgStep, op: GpgOp) -> (res: GpgOp)
        ensures
            *final(self) == old(self).at(step),
            res == op,
    {
        self.step = step;
        op
    }

    fn home(&self) -> (res: String)
        ensures
            res == self.original_home,
    {
        self.original_home.clone()
    }

    fn backup(&self) -> (res: String)
        ensures
            res == self.backup_path,
    {
        self.backup_path.clone()
    }

    fn keys(&self) -> (res: String)
        ensures
            res == self.target,
    {
        self.target.clone()
    }

    fn after_backup_step(&mut self, then: AfterBackup) -> (res: GpgOp)
        ensures
            (*final(self), res) == old(self).after_backup(then),
    {
        match then {
            AfterBackup::CheckTarget => {
                let t = self.keys();
                self.go(GpgStep::TargetInspected, GpgOp::Inspect(t))
            },
            AfterBackup::MakeLink => {
                let t = self.keys();
                let h = self.home();
                self.go(GpgStep::Linked, GpgOp::Symlink { target: t, link: h })
            },
            AfterBackup::Finish => self.go(GpgStep::Ready, GpgOp::Finished(Ok(()))),
        }
    }

    /// Advances the swap with what the last operation gave.
    pub fn step(&mut self, event: GpgEvent) -> (op: GpgOp)
        requires
            old(self).awaits(event),
        ensures
            !stops_at_missing_target(*old(self), event) ==> (*final(self), op) == old(self).next(
                event,
            ),
            stops_at_missing_target(*old(self), event) ==> {
                &&& *final(self) == old(self).at(GpgStep::Ready)
                &&& op matches GpgOp::Finished(Err(WardError::Symlink(m))) && m@
                    == missing_target_message(old(self).target@)
            },
    {
        match event {
            GpgEvent::Inspected(f) => self.on_inspected(f),
            GpgEvent::Done(r) => self.on_finished(r),
        }
    }

    fn on_inspected(&mut self, f: PathFacts) -> (op: GpgOp)
        requires
            old(self).awaits(GpgEvent::Inspected(f)),
        ensures
            !stops_at_missing_target(*old(self), GpgEvent::Inspected(f)) ==> (*final(self), op)
                == old(self).next(GpgEvent::Inspected(f)),
            stops_at_missing_target(*old(self), GpgEvent::Inspected(f)) ==> {
                &&& *final(self) == old(self).at(GpgStep::Ready)
                &&& op matches GpgOp::Finished(Err(WardError::Symlink(m))) && m@
                    == missing_target_message(old(self).target@)
            },
    {
        match self.step {
            GpgStep::ToHomeInspected => {
                if f.exists && !f.is_symlink {
                    let b = self.backup();
                    self.go(
                        GpgStep::BackupInspected { then: AfterBackup::CheckTarget },
                        GpgOp::Inspect(b),
                    )
                } else {
                    let t = self.keys();
                    self.go(GpgStep::TargetInspected, GpgOp::Inspect(t))
                }
            },
            GpgStep::BackupInspected { then } => {
                if f.exists {
                    let b = self.backup();
                    self.go(GpgStep::BackupRemoved { then }, GpgOp::RemoveDirAll(b))
                } else {
                    let h = self.home();
                    let b = self.backup();
                    self.go(GpgStep::BackupMoved { then }, GpgOp::Rename { from: h, to: b })
                }
            },
            GpgStep::TargetInspected => {
                if !f.exists {
                    let mut message = String::from_str("Target does not exist: ");
                    let shown = debug_quoted(self.target.as_str());
                    message.append(shown.as_str());
                    self.go(GpgStep::Ready, GpgOp::Finished(Err(WardError::Symlink(message))))
                } else {
                    let h = self.home();
                    self.go(GpgStep::LinkHomeInspected, GpgOp::Inspect(h))
                }
            },
            GpgStep::LinkHomeInspected => {
                if f.exists || f.is_symlink {
                    if f.is_symlink {
                        let h = self.home();
                        self.go(GpgStep::OldLinkRemoved, GpgOp::RemoveFile(h))
                    } else {
                        let b = self.backup();
                        self.go(
                            GpgStep::BackupInspected { then: AfterBackup::MakeLink },
                            GpgOp::Inspect(b),
                        )
                    }
                } else {
                    self.after_backup_step(AfterBackup::MakeLink)
                }
            },
            GpgStep::BackHomeInspected => {
                let h = self.home();
                if f.is_symlink {
                    self.go(GpgStep::BackUnlinked, GpgOp::RemoveFile(h))
                } else {
                    self.go(GpgStep::RestoreHomeInspected, GpgOp::Inspect(h))
                }
            },
            GpgStep::BackupHomeInspected => {
                if f.exists && !f.is_symlink {
                    let b = self.backup();
                    self.go(
                        GpgStep::BackupInspected { then: AfterBackup::Finish },
                        GpgOp::Inspect(b),
                    )
                } else {
                    self.go(GpgStep::Ready, GpgOp::Finished(Ok(())))
                }
            },
            GpgStep::UnlinkHomeInspected => {
                if f.is_symlink {
                    let h = self.home();
                    self.go(GpgStep::Unlinked, GpgOp::RemoveFile(h))
                } else {
                    self.go(GpgStep::Ready, GpgOp::Finished(Ok(())))
                }
            },
            GpgStep::RestoreHomeInspected => {
                if f.is_symlink {
                    let h = self.home();
                    self.go(GpgStep::RestoreCleared, GpgOp::RemoveFile(h))
                } else if f.exists && f.is_dir {
                    let h = self.home();
                    self.go(GpgStep::RestoreCleared, GpgOp::RemoveDirAll(h))
                } else {
                    let b = self.backup();
                    self.go(GpgStep::RestoreBackupInspected, GpgOp::Inspect(b))
                }
            },
            _ => {
                // RestoreBackupInspected, the only other step that inspects.
                if f.exists {
                    let b = self.backup();
                    let h = self.home();
                    self.go(GpgStep::RestoreMoved, GpgOp::Rename { from: b, to: h })
                } else {
                    self.go(GpgStep::Ready, GpgOp::Finished(Ok(())))
                }
            },
        }
    }

    fn on_finished(&mut self, r: WardResult<()>) -> (op: GpgOp)
        requires
            old(self).awaits(GpgEvent::Done(r)),
        ensures
            (*final(self), op) == old(self).next(GpgEvent::Done(r)),
    {
        match self.step {
            GpgStep::ToKilled | GpgStep::ToForceKilled => {
                if matches!(self.step, GpgStep::ToKilled) && r.is_err() {
                    self.go(GpgStep::ToForceKilled, GpgOp::ForceKillAgent)
                } else {
                    let h = self.home();
                    self.go(GpgStep::ToHomeInspected, GpgOp::Inspect(h))
                }
            },
            GpgStep::BackKilled | GpgStep::BackForceKilled => {
                if matches!(self.step, GpgStep::BackKilled) && r.is_err() {
                    self.go(GpgStep::BackForceKilled, GpgOp::ForceKillAgent)
                } else {
                    let h = self.home();
                    self.go(GpgStep::BackHomeInspected, GpgOp::Inspect(h))
                }
            },
            GpgStep::AgentStarted | GpgStep::RestoreMoved | GpgStep::Unlinked => self.go(
                GpgStep::Ready,
                GpgOp::Finished(r),
            ),
            GpgStep::KillAsked | GpgStep::KillForced => {
                if matches!(self.step, GpgStep::KillAsked) && r.is_err() {
                    self.go(GpgStep::KillForced, GpgOp::ForceKillAgent)
                } else {
                    self.go(GpgStep::Ready, GpgOp::Finished(Ok(())))
                }
            },
            _ => match r {
                Err(e) => self.go(GpgStep::Ready, GpgOp::Finished(Err(e))),
                Ok(_) => match self.step {
                    GpgStep::BackupRemoved { then } => {
                        let h = self.home();
                        let b = self.backup();
                        self.go(GpgStep::BackupMoved { then }, GpgOp::Rename { from: h, to: b })
                    },
                    GpgStep::BackupMoved { then } => self.after_backup_step(then),
                    GpgStep::OldLinkRemoved => self.after_backup_step(AfterBackup::MakeLink),
                    GpgStep::Linked => {
                        if self.start_after_link {
                            let h = self.home();
                            self.go(GpgStep::AgentStarted, GpgOp::StartAgent(h))
                        } else {
                            self.go(GpgStep::Ready, GpgOp::Finished(Ok(())))
                        }
                    },
                    GpgStep::BackUnlinked => {
                        let h = self.home();
                        self.go(GpgStep::RestoreHomeInspected, GpgOp::Inspect(h))
                    },
                    _ => {
                        // RestoreCleared, the only other step that waits for an operation.
                        let b = self.backup();
                        self.go(GpgStep::RestoreBackupInspected, GpgOp::Inspect(b))
                    },
                },
            },
        }
    }
}

/// `sub` occurs in `s`.
pub open spec fn has_substring(s: Seq<char>, sub: Seq<char>) -> bool {
    exists|i: int| 0 <= i && i + sub.len() <= s.len() && #[trigger] s.subrange(i, i + sub.len()) == sub
}

/// Whether `sub` occurs in `s`.
pub fn contains_substring(s: &str, sub: &str) -> (res: bool)
    ensures
        res == has_substring(s@, sub@),
{
    let n = s.unicode_len();
    let m = sub.unicode_len();
    if m > n {
        return false;
    }
    let mut i: usize = 0;
    while i <= n - m
        invariant
            n == s@.len(),
            m == sub@.len(),
            m <= n,
            i <= n - m + 1,
            forall|k: int| 0 <= k < i ==> #[trigger] s@.subrange(k, k + m) != sub@,
        decreases n - m + 1 - i,
    {
        let mut j: usize = 0;
        let mut same = true;
        while j < m
            invariant
                n == s@.len(),
                m == sub@.len(),
                i + m <= n,
                j <= m,
                same == (forall|q: int| 0 <= q < j ==> s@[i + q] == sub@[q]),
            decreases m - j,
        {
            if s.get_char(i + j) != sub.get_char(j) {
                same = false;
            }
            j = j + 1;
        }
        if same {
            assert(s@.subrange(i as int, i + m) =~= sub@);
            return true;
        } else {
            proof {
                let q = choose|q: int| 0 <= q < m && s@[i + q] != sub@[q];
                assert(s@.subrange(i as int, i + m)[q] != sub@[q]);
            }
        }
        i = i + 1;
    }
    assert forall|k: int| 0 <= k && k + m <= n implies #[trigger] s@.subrange(k, k + m) != sub@ by {
        assert(k < i);
    }
    false
}

/// What starting gpg-agent comes to: success when it ran successfully or
/// reported that it was already running; otherwise the failure with its output.
pub open spec fn agent_outcome_ok(launch: Result<(bool, Seq<char>), Seq<char>>) -> bool {
    match launch {
        Ok((success, stderr)) => success || has_substring(stderr, "already running"@),
        Err(_) => false,
    }
}

/// The outcome of starting gpg-agent, given whether the command could be run
/// (and then whether it succeeded and what it wrote to its error output) or
/// why it could not be run.
pub fn agent_start_outcome(launch: Result<(bool, String), String>) -> (res: WardResult<()>)
    ensures
        res is Ok <==> agent_outcome_ok(
            match launch {
                Ok((s, e)) => Ok((s, e@)),
                Err(e) => Err(e@),
            },
        ),
        launch matches Ok((false, stderr)) ==> (res is Err ==> (res matches Err(
            WardError::GpgAgent(m),
        ) && m@ == "Failed to start agent: "@ + stderr@)),
        launch matches Err(why) ==> (res matches Err(WardError::GpgAgent(m)) && m@
            == "Failed to execute gpg-agent: "@ + why@),
{
    match launch {
        Ok((success, stderr)) => {
            if success {
                Ok(())
            } else if contains_substring(stderr.as_str(), "already running") {
                Ok(())
            } else {
                let mut m = String::from_str("Failed to start agent: ");
                m.append(stderr.as_str());
                Err(WardError::GpgAgent(m))
            }
        },
        Err(why) => {
            let mut m = String::from_str("Failed to execute gpg-agent: ");
            m.append(why.as_str());
            Err(WardError::GpgAgent(m))
        },
    }
}

// ---------------------------------------------------------------------------
// A model of the three paths that a swap touches, to state what a swap does.

/// What a path holds: nothing, a directory (its contents named by a number),
/// or a symbolic link to a path.
pub enum Node {
    Absent,
    Dir(nat),
    Link(Seq<char>),
}

/// The GPG home, the backup path and the keys that a swap touches.
pub struct HomeFs {
    pub home: Node,
    pub backup: Node,
    pub target: Node,
}

impl GpgManager {
    /// The three paths are distinct.
    pub open spec fn distinct_paths(self) -> bool {
        &&& self.original_home@ != self.backup_path@
        &&& self.original_home@ != self.target@
        &&& self.backup_path@ != self.target@
    }

    pub open spec fn node_at(self, fs: HomeFs, p: Seq<char>) -> Node {
        if p == self.original_home@ {
            fs.home
        } else if p == self.backup_path@ {
            fs.backup
        } else if p == self.target@ {
            fs.target
        } else {
            Node::Absent
        }
    }

    pub open spec fn set_node(self, fs: HomeFs, p: Seq<char>, n: Node) -> HomeFs {
        if p == self.original_home@ {
            HomeFs { home: n, ..fs }
        } else if p == self.backup_path@ {
            HomeFs { backup: n, ..fs }
        } else if p == self.target@ {
            HomeFs { target: n, ..fs }
        } else {
            fs
        }
    }

    /// What inspecting `p` reports (a link is followed one level).
    pub open spec fn facts_at(self, fs: HomeFs, p: Seq<char>) -> PathFacts {
        match self.node_at(fs, p) {
            Node::Absent => PathFacts { exists: false, is_symlink: false, is_dir: false },
            Node::Dir(_) => PathFacts { exists: true, is_symlink: false, is_dir: true },
            Node::Link(t) => {
                let followed = self.node_at(fs, t) is Dir;
                PathFacts { exists: followed, is_symlink: true, is_dir: followed }
            },
        }
    }

    /// The paths after a successful operation, or `None` when it cannot succeed.
    pub open spec fn apply(self, fs: HomeFs, op: GpgOp) -> Option<HomeFs> {
        match op {
            GpgOp::RemoveFile(p) => if self.node_at(fs, p@) is Link {
                Some(self.set_node(fs, p@, Node::Absent))
            } else {
                None
            },
            GpgOp::RemoveDirAll(p) => if self.node_at(fs, p@) is Dir {
                Some(self.set_node(fs, p@, Node::Absent))
            } else {
                None
            },
            GpgOp::Rename { from, to } => if !(self.node_at(fs, from@) is Absent) && self.node_at(
                fs,
                to@,
            ) is Absent && from@ != to@ {
                Some(
                    self.set_node(
                        self.set_node(fs, to@, self.node_at(fs, from@)),
                        from@,
                        Node::Absent,
                    ),
                )
            } else {
                None
            },
            GpgOp::Symlink { target, link } => if self.node_at(fs, link@) is Absent {
                Some(self.set_node(fs, link@, Node::Link(target@)))
            } else {
                None
            },
            _ => Some(fs),
        }
    }

    /// What the caller reports for an operation that succeeded.
    pub open spec fn report(self, fs: HomeFs, op: GpgOp) -> GpgEvent {
        match op {
            GpgOp::Inspect(p) => GpgEvent::Inspected(self.facts_at(fs, p@)),
            _ => GpgEvent::Done(Ok(())),
        }
    }
}

/// Performing the operations of a swap on the model, as long as they succeed,
/// for at most `fuel` operations: the manager, the paths and the last operation.
pub open spec fn perform(g: GpgManager, fs: HomeFs, op: GpgOp, fuel: nat) -> (GpgManager, HomeFs, GpgOp)
    decreases fuel,
{
    if fuel == 0 || op is Finished {
        (g, fs, op)
    } else {
        match g.apply(fs, op) {
            None => (g, fs, op),
            Some(after) => {
                let (g2, op2) = g.next(g.report(fs, op));
                perform(g2, after, op2, (fuel - 1) as nat)
            },
        }
    }
}

/// Swapping to the keys moves a real GPG home to the backup path (replacing an
/// old backup) and leaves the GPG home a link to the keys.
pub proof fn lemma_swap_to_links_home(g: GpgManager, home: nat, old_backup: Node, keys: nat)
    requires
        g.step == GpgStep::ToKilled,
        g.start_after_link,
        g.distinct_paths(),
        old_backup is Absent || old_backup is Dir,
    ensures
        perform(
            g,
            HomeFs { home: Node::Dir(home), backup: old_backup, target: Node::Dir(keys) },
            GpgOp::KillAgent,
            12,
        ) == (
            g.at(GpgStep::Ready),
            HomeFs {
                home: Node::Link(g.target@),
                backup: Node::Dir(home),
                target: Node::Dir(keys),
            },
            GpgOp::Finished(Ok(())),
        ),
{
    reveal_with_fuel(perform, 13);
}

/// Swapping back after a swap to the keys removes the link and puts the
/// original GPG home back where it was, leaving no backup.
pub proof fn lemma_swap_back_restores_home(g: GpgManager, home: nat, keys: nat)
    requires
        g.step == GpgStep::BackKilled,
        g.distinct_paths(),
    ensures
        perform(
            g,
            HomeFs {
                home: Node::Link(g.target@),
                backup: Node::Dir(home),
                target: Node::Dir(keys),
            },
            GpgOp::KillAgent,
            12,
        ) == (
            g.at(GpgStep::Ready),
            HomeFs { home: Node::Dir(home), backup: Node::Absent, target: Node::Dir(keys) },
            GpgOp::Finished(Ok(())),
        ),
{
    reveal_with_fuel(perform, 13);
}

/// Swapping back undoes swapping to the keys: from a real GPG home and no
/// backup, a swap to the keys followed by a swap back leaves the paths as they were.
pub proof fn lemma_swap_round_trip(g: GpgManager, home: nat, keys: nat)
    requires
        g.step == GpgStep::ToKilled,
        g.start_after_link,
        g.distinct_paths(),
    ensures
        ({
            let start = HomeFs { home: Node::Dir(home), backup: Node::Absent, target: Node::Dir(keys) };
            let (g1, fs1, op1) = perform(g, start, GpgOp::KillAgent, 12);
            &&& op1 == GpgOp::Finished(Ok(()))
            &&& perform(g1.at(GpgStep::BackKilled), fs1, GpgOp::KillAgent, 12).1 == start
        }),
{
    lemma_swap_to_links_home(g, home, Node::Absent, keys);
    lemma_swap_back_restores_home(g.at(GpgStep::Ready).at(GpgStep::BackKilled), home, keys);
}

/// Restoring undoes backing up: from a real GPG home and no backup, backing
/// it up moves it to the backup path, and restoring then puts it back and
/// leaves no backup.
pub proof fn lemma_backup_then_restore(g: GpgManager, home: nat, keys: Node)
    requires
        g.step == GpgStep::BackupHomeInspected,
        g.distinct_paths(),
    ensures
        ({
            let start = HomeFs { home: Node::Dir(home), backup: Node::Absent, target: keys };
            let (g1, fs1, op1) = perform(g, start, GpgOp::Inspect(g.original_home), 8);
            &&& op1 == GpgOp::Finished(Ok(()))
            &&& fs1 == HomeFs { home: Node::Absent, backup: Node::Dir(home), target: keys }
            &&& perform(g1.at(GpgStep::RestoreHomeInspected), fs1, GpgOp::Inspect(g.original_home), 8)
                == (g.at(GpgStep::Ready), start, GpgOp::Finished(Ok(())))
        }),
{
    reveal_with_fuel(perform, 9);
}

/// Removing the link after making one leaves the GPG home as it was when it
/// did not exist: making the link points the GPG home at the target, and
/// removing it leaves nothing there.
pub proof fn lemma_link_then_unlink(g: GpgManager, keys: nat)
    requires
        g.step == GpgStep::TargetInspected,
        !g.start_after_link,
        g.distinct_paths(),
    ensures
        ({
            let start = HomeFs { home: Node::Absent, backup: Node::Absent, target: Node::Dir(keys) };
            let (g1, fs1, op1) = perform(g, start, GpgOp::Inspect(g.target), 8);
            &&& op1 == GpgOp::Finished(Ok(()))
            &&& fs1.home == Node::Link(g.target@)
            &&& perform(g1.at(GpgStep::UnlinkHomeInspected), fs1, GpgOp::Inspect(g.original_home), 8).1
                == start
        }),
{
    reveal_with_fuel(perform, 9);
}

} // verus!
