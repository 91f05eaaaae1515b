//! Tests of the core: configuration, persisted state, manifests and drive detection.
//!
//! A drive is described by the facts that the filesystem would report about
//! it: whether its directories exist and the files of its keys directory.

use ward_core::config::{Config, DaemonState};
use ward_core::daemon::WardState;
use ward_core::gpg::GpgManager;
use ward_core::manifest::{KeyFile, Manifest, WardDrive};
use ward_core::monitor::DriveMonitor;
use ward_core::WardError;

const NANOS: u128 = 1_725_029_869_123_456_789;

fn file(path: &str, content: &[u8]) -> KeyFile {
    KeyFile { path: path.as_bytes().to_vec(), content: content.to_vec() }
}

/// The files of a mock GPG home on a USB drive.
fn mock_keys() -> Option<Vec<KeyFile>> {
    Some(vec![
        file("pubring.kbx", b"mock public key data"),
        file("trustdb.gpg", b"mock trust database"),
        file("private-keys-v1.d/mock-key.key", b"mock private key data"),
    ])
}

/// A mock Ward drive mounted at `mount`: its manifest carries the checksum of its keys.
fn create_mock_usb(mount: &str, label: &str, nanos: u128) -> Manifest {
    let mut manifest = Manifest::new(label, nanos, 4242, 0x7ffd_1234_5678);
    manifest.update_checksum(&mock_keys());
    let _ = mount;
    manifest
}

#[test]
fn test_config_default() {
    let config = Config::default();
    assert!(config.allowed_drives.is_empty());
    assert_eq!(config.poll_interval_ms, 1000);
}

#[test]
fn test_config_allow_drive() {
    let mut config = Config::default();
    let uuid = "test-uuid-1234";
    assert!(!config.is_drive_allowed(uuid));
    config.allow_drive(uuid);
    assert!(config.is_drive_allowed(uuid));
    config.disallow_drive(uuid);
    assert!(!config.is_drive_allowed(uuid));
}

#[test]
fn test_daemon_state() {
    let mut state = DaemonState::default();
    assert!(!state.is_active());
    state.active_drive_uuid = Some("test-uuid".to_string());
    assert!(state.is_active());
    state.clear_active();
    assert!(!state.is_active());
}

#[test]
fn test_ward_state_display() {
    assert_eq!(WardState::Idle.to_string(), "idle");
    assert_eq!(WardState::Active.to_string(), "active");
}

#[test]
fn test_gpg_manager_creation() {
    let backup_path = "/tmp/ward-test/backup".to_string();
    let manager = GpgManager::new(backup_path);
    assert!(!manager.backup_path.is_empty());
}

#[test]
fn test_manifest_creation() {
    let manifest = Manifest::new("Test Drive", NANOS, 4242, 0x7ffd_1234_5678);
    assert!(!manifest.uuid.is_empty());
    assert_eq!(manifest.label, "Test Drive");
}

#[test]
fn test_ward_drive_init_and_detect() {
    let mount_path = "/tmp/ward-mount";

    // Initialize a new Ward drive (its keys directory is empty)
    let drive = WardDrive::init(mount_path, "Test", NANOS, 4242, 0x7ffd_1234_5678, &Some(vec![]));
    assert_eq!(drive.manifest.label, "Test");

    // Detect the initialized drive: both directories exist and the manifest loads
    let detected = WardDrive::detect(mount_path, true, true, Ok(drive.manifest.clone())).unwrap();
    assert_eq!(detected.manifest.uuid, drive.manifest.uuid);
}

#[test]
fn test_find_ward_drive_no_drive() {
    let result = DriveMonitor::find_ward_drive(vec![]);
    assert!(result.is_ok());
}

#[test]
fn test_mock_ward_drive_detection() {
    let mount_path = "/media/usb0";
    let manifest = create_mock_usb(mount_path, "Test Drive", NANOS);

    // Test that Ward detects the mock drive
    let drive = WardDrive::detect(mount_path, true, true, Ok(manifest)).unwrap();

    assert_eq!(drive.manifest.label, "Test Drive");
    assert!(!drive.manifest.uuid.is_empty());
    assert_eq!(drive.keys_dir, "/media/usb0/.ward/keys");
}

#[test]
fn test_ward_drive_init_creates_structure() {
    let mount_path = "/media/usb0";

    // Initialize a new Ward drive
    let drive = WardDrive::init(mount_path, "New Drive", NANOS, 4242, 0x7ffd_1234_5678, &Some(vec![]));

    // Verify the structure
    assert_eq!(drive.ward_dir, "/media/usb0/.ward");
    assert_eq!(drive.keys_dir, "/media/usb0/.ward/keys");
    assert_eq!(ward_core::manifest::manifest_path(&drive.ward_dir), "/media/usb0/.ward/manifest.toml");

    // Verify manifest contents
    assert_eq!(drive.manifest.label, "New Drive");
}

#[test]
fn test_manifest_integrity_check() {
    let mount_path = "/media/usb0";
    let manifest = create_mock_usb(mount_path, "Integrity Test", NANOS);
    let drive = WardDrive::detect(mount_path, true, true, Ok(manifest)).unwrap();

    // Integrity should pass initially
    assert!(drive.manifest.verify_integrity(&drive.ward_dir, &mock_keys()).is_ok());

    // Modify a file
    let mut tampered = mock_keys().unwrap();
    tampered[0].content = b"tampered data".to_vec();

    // Integrity should now fail
    assert!(drive.manifest.verify_integrity(&drive.ward_dir, &Some(tampered)).is_err());
}

#[test]
fn test_config_allow_list() {
    let mut config = Config::default();
    let uuid = "test-uuid-12345";

    // Initially not allowed
    assert!(!config.is_drive_allowed(uuid));

    // Allow the drive
    config.allow_drive(uuid);
    assert!(config.is_drive_allowed(uuid));

    // Disallow the drive
    config.disallow_drive(uuid);
    assert!(!config.is_drive_allowed(uuid));
}

#[test]
fn test_ward_drive_detection_fails_without_manifest() {
    let mount_path = "/media/usb0";

    // The .ward and keys directories exist, but no manifest could be read
    let missing = Err(WardError::Manifest {
        path: "/media/usb0/.ward/manifest.toml".to_string(),
        message: "No such file or directory (os error 2)".to_string(),
    });

    // Detection should fail
    assert!(WardDrive::detect(mount_path, true, true, missing).is_err());
}

#[test]
fn test_ward_drive_detection_fails_without_keys_dir() {
    let mount_path = "/media/usb0";

    // A manifest without a keys directory
    let manifest = Manifest::new("No Keys", NANOS, 4242, 0x7ffd_1234_5678);

    // Detection should fail because keys dir is missing
    assert!(WardDrive::detect(mount_path, true, false, Ok(manifest)).is_err());
}

#[test]
fn test_multiple_ward_drives() {
    let m1 = create_mock_usb("/media/usb0", "Drive 1", NANOS);
    let m2 = create_mock_usb("/media/usb1", "Drive 2", NANOS + 1_000);

    let drive1 = WardDrive::detect("/media/usb0", true, true, Ok(m1)).unwrap();
    let drive2 = WardDrive::detect("/media/usb1", true, true, Ok(m2)).unwrap();

    // UUIDs should be different
    assert_ne!(drive1.manifest.uuid, drive2.manifest.uuid);

    // Labels should match what we set
    assert_eq!(drive1.manifest.label, "Drive 1");
    assert_eq!(drive2.manifest.label, "Drive 2");
}

#[test]
fn test_path_traversal_prevention() {
    // `<tmp>/..` canonicalises to the parent of the temporary directory,
    // which holds no Ward directory.
    let canonical_parent = "/tmp";
    let result = WardDrive::detect(
        canonical_parent,
        false,
        false,
        Err(WardError::Filesystem("not read".to_string())),
    );
    assert!(result.is_err());
}
