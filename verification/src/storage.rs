//! Where the keys of an active drive are kept.
use vstd::prelude::*;
use vstd::string::StringExecFns;

use crate::text::{decimal_digits, join_path, path_join, push_decimal};

verus! {

/// The per-user runtime directory for a user id.
pub open spec fn run_user_path(uid: u32) -> Seq<char> {
    "/run/user/"@ + decimal_digits(uid as nat)
}

/// The RAM-backed directory to keep keys in: `$XDG_RUNTIME_DIR` when it is set
/// and exists, else the user's `/run/user/<uid>` when it exists, else `/dev/shm`.
pub open spec fn ram_base_for(xdg_runtime_dir: Option<(Seq<char>, bool)>, uid: u32, run_user_exists: bool) -> Seq<char> {
    match xdg_runtime_dir {
        Some((dir, true)) => dir,
        _ => if run_user_exists {
            run_user_path(uid)
        } else {
            "/dev/shm"@
        },
    }
}

/// The directory below the RAM base that holds the keys for a process.
pub open spec fn storage_path_for(ram_base: Seq<char>, process_id: u32) -> Seq<char> {
    path_join(ram_base, "ward-gpg-"@ + decimal_digits(process_id as nat))
}

/// Keys copied into RAM (Linux).
pub struct RamStorage {
    pub ram_base: String,
    pub active_path: Option<String>,
}

impl RamStorage {
    /// Storage below `ram_base` with nothing active.
    pub fn new(ram_base: String) -> (res: RamStorage)
        ensures
            res.ram_base == ram_base,
            res.active_path is None,
    {
        RamStorage { ram_base, active_path: None }
    }

    /// The runtime directory of the user `uid`.
    pub fn run_user_dir(uid: u32) -> (res: String)
        ensures
            res@ == run_user_path(uid),
    {
        let mut s = String::from_str("/run/user/");
        push_decimal(&mut s, uid as u64);
        s
    }

    /// The RAM base, given `$XDG_RUNTIME_DIR` (with whether it exists), the
    /// user id and whether the user's runtime directory exists.
    pub fn find_ram_path(xdg_runtime_dir: Option<(String, bool)>, uid: u32, run_user_exists: bool) -> (res: String)
        ensures
            res@ == ram_base_for(
                match xdg_runtime_dir {
                    Some((d, e)) => Some((d@, e)),
                    None => None,
                },
                uid,
                run_user_exists,
            ),
    {
        match xdg_runtime_dir {
            Some((dir, true)) => dir,
            _ => if run_user_exists {
                Self::run_user_dir(uid)
            } else {
                String::from_str("/dev/shm")
            },
        }
    }

    /// Where the keys of process `process_id` are copied.
    pub fn storage_path(&self, process_id: u32) -> (res: String)
        ensures
            res@ == storage_path_for(self.ram_base@, process_id),
    {
        let mut name = String::from_str("ward-gpg-");
        push_decimal(&mut name, process_id as u64);
        join_path(self.ram_base.as_str(), name.as_str())
    }

    /// What activating the keys of process `process_id` does before copying:
    /// the keys still active, to wipe first, and where to copy the new ones.
    pub fn activation_plan(&self, process_id: u32) -> (res: (Option<String>, String))
        ensures
            res.0 == self.active_path,
            res.1@ == storage_path_for(self.ram_base@, process_id),
    {
        let stale = match &self.active_path {
            Some(p) => Some(p.clone()),
            None => None,
        };
        (stale, self.storage_path(process_id))
    }

    /// The keys were copied to `path`: it is the active path now.
    pub fn activated(&mut self, path: String)
        ensures
            *final(self) == (RamStorage { active_path: Some(path), ..*old(self) }),
    {
        self.active_path = Some(path);
    }

    /// The active keys were wiped (or none were active): nothing is active.
    pub fn deactivated(&mut self)
        ensures
            *final(self) == (RamStorage { active_path: None, ..*old(self) }),
    {
        self.active_path = None;
    }
}

/// Keys used in place on the drive (Windows).
pub struct DirectStorage {
    pub active_path: Option<String>,
}

impl DirectStorage {
    /// Storage with nothing active.
    pub fn new() -> (res: DirectStorage)
        ensures
            res.active_path is None,
    {
        DirectStorage { active_path: None }
    }

    /// The keys are used in place at `path`: it is the active path now.
    pub fn activated(&mut self, path: String)
        ensures
            final(self).active_path == Some(path),
    {
        self.active_path = Some(path);
    }

    /// Nothing is active any more.
    pub fn deactivated(&mut self)
        ensures
            final(self).active_path is None,
    {
        self.active_path = None;
    }
}

} // verus!
