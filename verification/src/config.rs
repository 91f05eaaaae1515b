//! The daemon's configuration (the allow list of drives) and its persisted state.
use vstd::prelude::*;
use vstd::string::StringExecFns;

use crate::text::{join_path, path_join};

verus! {

/// Calls `dirs::config_dir`: the user's configuration directory, when it
/// finds one, and whether it is valid UTF-8 (`Some(text)`) or not (`None`).
/// Nothing is claimed of the answer, which depends on the environment.
#[verifier::external_body]
fn dirs_config_dir() -> Option<Option<String>> {
    match dirs::config_dir() {
        Some(p) => Some(p.into_os_string().into_string().ok()),
        None => None,
    }
}

/// Calls `dirs::home_dir`: the user's home directory, when it finds one, and
/// whether it is valid UTF-8 (`Some(text)`) or not (`None`). Nothing is
/// claimed of the answer, which depends on the environment.
#[verifier::external_body]
fn dirs_home_dir() -> Option<Option<String>> {
    match dirs::home_dir() {
        Some(p) => Some(p.into_os_string().into_string().ok()),
        None => None,
    }
}

/// A directory that a lookup found and that can be held as text; one that is
/// not valid UTF-8 counts as not found.
pub fn usable_dir(found: Option<Option<String>>) -> (res: Option<String>)
    ensures
        res == (match found {
            Some(Some(d)) => Some(d),
            _ => None::<String>,
        }),
{
    match found {
        Some(Some(d)) => Some(d),
        _ => None,
    }
}

/// The directory that a lookup answered, or `.` when it found none.
pub open spec fn dir_or_current(base: Option<Seq<char>>) -> Seq<char> {
    match base {
        Some(b) => b,
        None => "."@,
    }
}

/// Ward's configuration directory below the user's configuration directory `base`.
pub open spec fn config_dir_for(base: Option<Seq<char>>) -> Seq<char> {
    path_join(dir_or_current(base), "ward"@)
}

/// The GPG home below the home directory `home`.
pub open spec fn gpg_home_for(home: Option<Seq<char>>) -> Seq<char> {
    path_join(dir_or_current(home), ".gnupg"@)
}

pub open spec fn opt_view(o: Option<String>) -> Option<Seq<char>> {
    match o {
        Some(s) => Some(s@),
        None => None,
    }
}

fn dir_text(base: Option<String>) -> (res: String)
    ensures
        res@ == dir_or_current(opt_view(base)),
{
    match base {
        Some(b) => b,
        None => String::from_str("."),
    }
}

/// Ward's configuration directory, given the user's configuration directory.
pub fn config_dir_from(base: Option<String>) -> (res: String)
    ensures
        res@ == config_dir_for(opt_view(base)),
{
    let b = dir_text(base);
    join_path(b.as_str(), "ward")
}

/// Ward's configuration directory: `ward` below the user's configuration
/// directory, or below `.` when there is none.
pub fn config_dir() -> (res: String)
    ensures
        exists|base: Option<Seq<char>>| res@ == config_dir_for(base),
{
    let base = usable_dir(dirs_config_dir());
    config_dir_from(base)
}

/// The configuration file, `config.toml` in Ward's configuration directory.
pub fn config_file() -> (res: String)
    ensures
        exists|base: Option<Seq<char>>| res@ == path_join(config_dir_for(base), "config.toml"@),
{
    let dir = config_dir();
    join_path(dir.as_str(), "config.toml")
}

/// The persisted daemon state, `state.toml` in Ward's configuration directory.
pub fn state_file() -> (res: String)
    ensures
        exists|base: Option<Seq<char>>| res@ == path_join(config_dir_for(base), "state.toml"@),
{
    let dir = config_dir();
    join_path(dir.as_str(), "state.toml")
}

/// The GPG home, given the user's home directory.
pub fn gpg_home_from(home: Option<String>) -> (res: String)
    ensures
        res@ == gpg_home_for(opt_view(home)),
{
    let h = dir_text(home);
    join_path(h.as_str(), ".gnupg")
}

/// The GPG home: `.gnupg` in the user's home directory (or in `.`).
pub fn gpg_home() -> (res: String)
    ensures
        exists|home: Option<Seq<char>>| res@ == gpg_home_for(home),
{
    let home = usable_dir(dirs_home_dir());
    gpg_home_from(home)
}

/// Where the original GPG home is moved while a drive is active.
pub fn default_backup_path() -> (res: String)
    ensures
        exists|base: Option<Seq<char>>| res@ == path_join(config_dir_for(base), "gnupg_backup"@),
{
    let dir = config_dir();
    join_path(dir.as_str(), "gnupg_backup")
}

/// How often the daemon looks at the drives, in milliseconds.
pub fn default_poll_interval() -> (res: u64)
    ensures
        res == 1000,
{
    1000
}

/// The UUIDs that a list of strings holds.
pub open spec fn uuid_seq(v: Seq<String>) -> Seq<Seq<char>> {
    v.map_values(|s: String| s@)
}

/// The daemon's configuration.
#[derive(Debug, Clone)]
pub struct Config {
    /// The UUIDs of the drives that may activate, each once.
    pub allowed_drives: Vec<String>,
    /// Where the original GPG home is moved while a drive is active.
    pub gpg_backup_path: String,
    /// How often the daemon looks at the drives, in milliseconds.
    pub poll_interval_ms: u64,
    pub verbose: bool,
}

impl Config {
    /// The allow list as a sequence of UUIDs.
    pub open spec fn uuids(self) -> Seq<Seq<char>> {
        uuid_seq(self.allowed_drives@)
    }

    /// The set of allowed UUIDs.
    pub open spec fn allowed(self) -> Set<Seq<char>> {
        Set::new(|u: Seq<char>| self.uuids().contains(u))
    }

    /// Well-formed: no UUID is listed twice.
    pub open spec fn wf(self) -> bool {
        self.uuids().no_duplicates()
    }

    /// Adds `uuid` to the allow list (nothing changes if it is there already).
    pub fn allow_drive(&mut self, uuid: &str)
        ensures
            final(self).allowed() == old(self).allowed().insert(uuid@),
            old(self).allowed().contains(uuid@) ==> final(self).allowed_drives@ == old(
                self,
            ).allowed_drives@,
            !old(self).allowed().contains(uuid@) ==> final(self).uuids() == old(self).uuids().push(
                uuid@,
            ),
            old(self).wf() ==> final(self).wf(),
            final(self).gpg_backup_path == old(self).gpg_backup_path,
            final(self).poll_interval_ms == old(self).poll_interval_ms,
            final(self).verbose == old(self).verbose,
    {
        let owned = String::from_str(uuid);
        if !self.contains(&owned) {
            let ghost before = self.uuids();
            self.allowed_drives.push(owned);
            assert(self.uuids() =~= before.push(uuid@));
            assert(self.allowed() =~= old(self).allowed().insert(uuid@)) by {
                assert forall|u: Seq<char>| (u == uuid@ || before.contains(u)) implies self.uuids().contains(u) by {
                    if u == uuid@ {
                        assert(self.uuids()[before.len() as int] == u);
                    } else if before.contains(u) {
                        let k = choose|k: int| 0 <= k < before.len() && before[k] == u;
                        assert(self.uuids()[k] == u);
                    }
                }
            }
        } else {
            assert(self.allowed() =~= old(self).allowed().insert(uuid@));
        }
    }

    /// Removes `uuid` from the allow list.
    pub fn disallow_drive(&mut self, uuid: &str)
        ensures
            final(self).allowed() == old(self).allowed().remove(uuid@),
            final(self).uuids() == old(self).uuids().filter(|u: Seq<char>| u != uuid@),
            old(self).wf() ==> final(self).wf(),
            final(self).gpg_backup_path == old(self).gpg_backup_path,
            final(self).poll_interval_ms == old(self).poll_interval_ms,
            final(self).verbose == old(self).verbose,
    {
        let ghost keep = |u: Seq<char>| u != uuid@;
        let ghost old_uuids = self.uuids();
        let owned = String::from_str(uuid);
        let mut kept: Vec<String> = Vec::new();
        let n = self.allowed_drives.len();
        let mut i: usize = 0;
        while i < n
            invariant
                n == self.allowed_drives.len(),
                self.allowed_drives == old(self).allowed_drives,
                old_uuids == self.uuids(),
                owned@ == uuid@,
                keep == (|u: Seq<char>| u != uuid@),
                i <= n,
                uuid_seq(kept@) == old_uuids.take(i as int).filter(keep),
                old(self).wf() ==> uuid_seq(kept@).no_duplicates(),
            decreases n - i,
        {
            let ghost prev = uuid_seq(kept@);
            let ghost x = old_uuids[i as int];
            proof {
                old_uuids.take(i as int).lemma_filter_push(x, keep);
                assert(old_uuids.take(i as int).push(x) =~= old_uuids.take(i + 1 as int));
                assert(x == self.allowed_drives@[i as int]@);
            }
            let same = self.allowed_drives[i] == owned;
            assert(same == (self.allowed_drives@[i as int]@ == owned@));
            if !same {
                kept.push(self.allowed_drives[i].clone());
                proof {
                    assert(keep(x));
                    assert(uuid_seq(kept@) =~= prev.push(x));
                    if old(self).wf() {
                        assert forall|a: int, b: int|
                            0 <= a < uuid_seq(kept@).len() && 0 <= b < uuid_seq(kept@).len()
                                && a != b implies uuid_seq(kept@)[a] != uuid_seq(kept@)[b] by {
                            if a == prev.len() || b == prev.len() {
                                let j = if a == prev.len() { b } else { a };
                                let y = prev[j];
                                assert(prev.contains(y));
                                old_uuids.take(i as int).lemma_filter_contains_rev(keep, y);
                                let k = choose|k: int|
                                    0 <= k < i && old_uuids.take(i as int)[k] == y;
                                assert(old_uuids[k] == y);
                            }
                        }
                    }
                }
            } else {
                assert(!keep(x));
                assert(uuid_seq(kept@) =~= prev);
            }
            i = i + 1;
        }
        assert(old_uuids.take(n as int) =~= old_uuids);
        self.allowed_drives = kept;
        proof {
            let f = self.uuids();
            assert(f == old_uuids.filter(keep));
            assert forall|u: Seq<char>| f.contains(u) <==> (old_uuids.contains(u) && u != uuid@) by {
                if f.contains(u) {
                    old_uuids.lemma_filter_contains_rev(keep, u);
                    let k = choose|k: int| 0 <= k < f.len() && f[k] == u;
                    assert(keep(f[k]));
                }
                if old_uuids.contains(u) && u != uuid@ {
                    let k = choose|k: int| 0 <= k < old_uuids.len() && old_uuids[k] == u;
                    old_uuids.lemma_filter_contains(keep, k);
                }
            }
            assert(self.allowed() =~= old(self).allowed().remove(uuid@));
        }
    }

    fn contains(&self, uuid: &String) -> (res: bool)
        ensures
            res == self.allowed().contains(uuid@),
    {
        let n = self.allowed_drives.len();
        let mut i: usize = 0;
        while i < n
            invariant
                n == self.allowed_drives.len(),
                i <= n,
                forall|j: int| 0 <= j < i ==> self.uuids()[j] != uuid@,
            decreases n - i,
        {
            if self.allowed_drives[i] == *uuid {
                assert(self.uuids()[i as int] == uuid@);
                return true;
            }
            i = i + 1;
        }
        false
    }

    /// Whether the drive with this UUID may activate.
    pub fn is_drive_allowed(&self, uuid: &str) -> (res: bool)
        ensures
            res == self.allowed().contains(uuid@),
    {
        let owned = String::from_str(uuid);
        self.contains(&owned)
    }
}

impl Default for Config {
    /// No drive allowed, a poll every second, the backup in Ward's configuration directory.
    fn default() -> (res: Self)
        ensures
            res.allowed_drives@.len() == 0,
            exists|base: Option<Seq<char>>|
                res.gpg_backup_path@ == path_join(config_dir_for(base), "gnupg_backup"@),
            res.poll_interval_ms == 1000,
            !res.verbose,
    {
        Config {
            allowed_drives: Vec::new(),
            gpg_backup_path: default_backup_path(),
            poll_interval_ms: default_poll_interval(),
            verbose: false,
        }
    }
}

/// Allowing a UUID makes it allowed and leaves every other UUID as it was;
/// disallowing it then makes it not allowed again, leaves every other UUID as
/// it was, and undoes the allowing when the UUID was not allowed before.
/// (`after_allow` and `after_disallow` are the configurations that
/// `allow_drive(uuid)` and then `disallow_drive(uuid)` leave.)
pub proof fn lemma_allow_then_disallow(
    config: Config,
    after_allow: Config,
    after_disallow: Config,
    uuid: Seq<char>,
    other: Seq<char>,
)
    requires
        after_allow.allowed() == config.allowed().insert(uuid),
        after_disallow.allowed() == after_allow.allowed().remove(uuid),
    ensures
        after_allow.allowed().contains(uuid),
        !after_disallow.allowed().contains(uuid),
        other != uuid ==> after_allow.allowed().contains(other) == config.allowed().contains(other),
        other != uuid ==> after_disallow.allowed().contains(other) == config.allowed().contains(
            other,
        ),
        !config.allowed().contains(uuid) ==> after_disallow.allowed() == config.allowed(),
{
    if !config.allowed().contains(uuid) {
        assert(config.allowed().insert(uuid).remove(uuid) =~= config.allowed());
    }
}

/// The state that the daemon persists between runs.
#[derive(Debug, Clone)]
pub struct DaemonState {
    pub active_drive_uuid: Option<String>,
    pub active_mount_path: Option<String>,
    pub current_gpg_home: Option<String>,
    pub backup_path: Option<String>,
}

impl DaemonState {
    /// Nothing is active.
    pub open spec fn is_cleared(self) -> bool {
        &&& self.active_drive_uuid is None
        &&& self.active_mount_path is None
        &&& self.current_gpg_home is None
        &&& self.backup_path is None
    }

    /// Forgets the active drive.
    pub fn clear_active(&mut self)
        ensures
            final(self).is_cleared(),
    {
        self.active_drive_uuid = None;
        self.active_mount_path = None;
        self.current_gpg_home = None;
        self.backup_path = None;
    }

    /// Whether a drive is active.
    pub fn is_active(&self) -> (res: bool)
        ensures
            res == (self.active_drive_uuid is Some),
    {
        self.active_drive_uuid.is_some()
    }
}

impl Default for DaemonState {
    fn default() -> (res: Self)
        ensures
            res.is_cleared(),
    {
        DaemonState {
            active_drive_uuid: None,
            active_mount_path: None,
            current_gpg_home: None,
            backup_path: None,
        }
    }
}

} // verus!
