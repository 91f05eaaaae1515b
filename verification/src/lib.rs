//! Ward: treats a USB flash drive as a hardware token for GPG keys.
//!
//! The verified library holds the logic of the daemon and its tools: the
//! allow list, the drive manifest and its integrity checksum, the daemon's
//! state machine, drive detection and the plans for swapping the GPG home.
pub mod text;
pub mod error;
pub mod config;
pub mod timestamp;
pub mod checksum;
pub mod paths;
pub mod manifest;
pub mod daemon;
pub mod monitor;
pub mod gpg;
pub mod storage;

pub use config::{Config, DaemonState};
pub use daemon::{Action, DaemonStatus, Event, WardDaemon, WardState};
pub use error::{WardError, WardResult};
pub use gpg::{GpgEvent, GpgManager, GpgOp};
pub use manifest::{KeyFile, Manifest, WardDrive, KEYS_DIR, MANIFEST_FILE, WARD_DIR};
pub use monitor::{DiskInfo, DiskKind, DriveEvent, DriveMonitor, RemovableDrive};
pub use storage::{DirectStorage, RamStorage};
