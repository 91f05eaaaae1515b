//! Scenarios for the daemon, the GPG swap, the drive monitor and the text formats.

use ward_core::config::{config_dir_from, gpg_home_from, Config, DaemonState};
use ward_core::daemon::{Action, DaemonStatus, Event, WardDaemon, WardState};
use ward_core::gpg::{agent_start_outcome, contains_substring, GpgEvent, GpgManager, GpgOp, PathFacts};
use ward_core::manifest::{
    compute_directory_checksum, current_timestamp, generate_uuid, KeyFile, Manifest, WardDrive,
};
use sha2::Digest;
use ward_core::paths::paths_equal;
use ward_core::monitor::{Platform, DiskInfo, DiskKind, DriveEvent, DriveMonitor, RemovableDrive};
use ward_core::storage::{DirectStorage, RamStorage};
use ward_core::text::{decimal_string, hex_string, join_path, starts_with};
use ward_core::WardError;

const NANOS: u128 = 1_725_029_869_123_456_789;

fn keys() -> Option<Vec<KeyFile>> {
    Some(vec![
        KeyFile { path: b"pubring.kbx".to_vec(), content: b"public".to_vec() },
        KeyFile { path: b"trustdb.gpg".to_vec(), content: b"trust".to_vec() },
    ])
}

/// The checksum as its definition reads, computed independently: the files
/// sorted by path (then content), each framed as path, zero byte, decimal
/// content length, zero byte, content; the SHA-256 digest of it all in hex.
fn reference_checksum(files: &[KeyFile]) -> String {
    let mut sorted: Vec<&KeyFile> = files.iter().collect();
    sorted.sort_by(|a, b| (&a.path, &a.content).cmp(&(&b.path, &b.content)));
    let mut message = Vec::new();
    for f in sorted {
        message.extend_from_slice(&f.path);
        message.push(0);
        message.extend_from_slice(f.content.len().to_string().as_bytes());
        message.push(0);
        message.extend_from_slice(&f.content);
    }
    let digest = sha2::Sha256::digest(&message);
    digest.iter().map(|b| format!("{b:02x}")).collect()
}

fn allowed_config(uuid: &str) -> Config {
    let mut config = Config::default();
    config.allow_drive(uuid);
    config
}

fn drive_with_keys(label: &str) -> WardDrive {
    WardDrive::init("/media/usb0", label, NANOS, 7, 99, &keys())
}

#[test]
fn checksum_of_missing_dir_is_empty() {
    assert_eq!(compute_directory_checksum(&None), "");
    // The SHA-256 digest of no bytes at all.
    assert_eq!(
        compute_directory_checksum(&Some(vec![])),
        "e3b0c44298fc1c149afbf4c8996fb92427ae41e4649b934ca495991b7852b855"
    );
}

#[test]
fn checksum_matches_definition() {
    let files = keys().unwrap();
    let long = vec![KeyFile { path: b"a/b".to_vec(), content: (0u8..=200).collect() }];
    assert_eq!(compute_directory_checksum(&Some(files.clone())), reference_checksum(&files));
    assert_eq!(compute_directory_checksum(&Some(long.clone())), reference_checksum(&long));
}

#[test]
fn checksum_is_sha256_hex() {
    let c = compute_directory_checksum(&keys());
    assert_eq!(c.len(), 64);
    assert!(c.chars().all(|ch| "0123456789abcdef".contains(ch)));
    // One file: "a", content "xy".
    let one = vec![KeyFile { path: b"a".to_vec(), content: b"xy".to_vec() }];
    let expected: String =
        sha2::Sha256::digest(b"a\x002\x00xy").iter().map(|b| format!("{b:02x}")).collect();
    assert_eq!(compute_directory_checksum(&Some(one)), expected);
}

#[test]
fn checksum_detects_tampering() {
    let good = compute_directory_checksum(&keys());
    let mut tampered = keys().unwrap();
    tampered[0].content = b"tampered data".to_vec();
    assert_ne!(good, compute_directory_checksum(&Some(tampered)));
    let mut renamed = keys().unwrap();
    renamed[1].path = b"other.gpg".to_vec();
    assert_ne!(good, compute_directory_checksum(&Some(renamed)));
}

#[test]
fn checksum_sorts_by_path() {
    let files = vec![
        KeyFile { path: b"private-keys-v1.d/k.key".to_vec(), content: b"k".to_vec() },
        KeyFile { path: b"a".to_vec(), content: b"1".to_vec() },
        KeyFile { path: b"ab".to_vec(), content: b"2".to_vec() },
    ];
    assert_eq!(compute_directory_checksum(&Some(files.clone())), reference_checksum(&files));
    let mut rotated = files.clone();
    rotated.rotate_left(1);
    assert_eq!(
        compute_directory_checksum(&Some(files)),
        compute_directory_checksum(&Some(rotated))
    );
}

#[test]
fn checksum_ignores_file_order() {
    let mut files = keys().unwrap();
    let a = compute_directory_checksum(&Some(files.clone()));
    files.reverse();
    assert_eq!(a, compute_directory_checksum(&Some(files)));
}

#[test]
fn updated_checksum_passes_integrity() {
    let mut manifest = Manifest::new("Keys", NANOS, 1, 2);
    assert!(manifest.verify_integrity("/m/.ward", &keys()).is_err());
    manifest.update_checksum(&keys());
    assert!(manifest.verify_integrity("/m/.ward", &keys()).is_ok());
}

#[test]
fn integrity_error_names_keys_dir() {
    let manifest = Manifest::new("Keys", NANOS, 1, 2);
    let err = manifest.verify_integrity("/m/.ward", &keys()).unwrap_err();
    match err {
        WardError::IntegrityCheck { path, expected, actual } => {
            assert_eq!(path, "/m/.ward/keys");
            assert_eq!(expected, "");
            assert_eq!(actual, reference_checksum(&keys().unwrap()));
        }
        other => panic!("unexpected error {other:?}"),
    }
}

#[test]
fn uuid_has_version_four_shape() {
    let u = generate_uuid(NANOS, 4242, 0x7ffd_1234_5678);
    assert_eq!(u.len(), 36);
    let c: Vec<char> = u.chars().collect();
    assert_eq!((c[8], c[13], c[14], c[18], c[23]), ('-', '-', '4', '-', '-'));
    assert!("89ab".contains(c[19]));
    let ts = NANOS;
    let r = (ts as u64) ^ 4242u64.wrapping_mul(0x517c_c1b7_2722_0a95) ^ 0x7ffd_1234_5678;
    let expected = format!(
        "{:08x}-{:04x}-4{:03x}-{:04x}-{:012x}",
        (ts & 0xFFFF_FFFF) as u32,
        ((ts >> 32) & 0xFFFF) as u16,
        (r & 0x0FFF) as u16,
        ((r >> 12) & 0x3FFF) as u16 | 0x8000,
        (r >> 26) & 0xFFFF_FFFF_FFFF
    );
    assert_eq!(u, expected);
}

#[test]
fn timestamp_is_iso8601() {
    assert_eq!(current_timestamp(NANOS), "2024-08-30T14:57:49Z");
    assert_eq!(current_timestamp(0), "1970-01-01T00:00:00Z");
    assert_eq!(current_timestamp(999_999_999), "1970-01-01T00:00:00Z");
    let m = Manifest::new("x", NANOS, 0, 0);
    assert_eq!(m.created_at.as_deref(), Some("2024-08-30T14:57:49Z"));
    assert!(m.checksum.is_empty());
}

#[test]
fn timestamp_calendar_edges() {
    let s = 1_000_000_000u128;
    // A leap day in a year divisible by 400.
    assert_eq!(current_timestamp(951_782_400 * s), "2000-02-29T00:00:00Z");
    // 2100 is not a leap year: February has 28 days.
    assert_eq!(current_timestamp(4_107_542_399 * s), "2100-02-28T23:59:59Z");
    assert_eq!(current_timestamp(4_107_542_400 * s), "2100-03-01T00:00:00Z");
    assert_eq!(current_timestamp(1_704_067_199 * s), "2023-12-31T23:59:59Z");
    assert_eq!(current_timestamp(1_704_067_200 * s), "2024-01-01T00:00:00Z");
    // Beyond year 9999 the year is written in full.
    assert_eq!(current_timestamp(253_402_300_800 * s), "10000-01-01T00:00:00Z");
}

#[test]
fn number_formats() {
    assert_eq!(hex_string(0xbeef, 6), "00beef");
    assert_eq!(hex_string(u64::MAX, 16), "ffffffffffffffff");
    assert_eq!(decimal_string(1000), "1000");
    assert_eq!(decimal_string(7), "7");
}

#[test]
fn path_joining() {
    assert_eq!(join_path("/home/a", "ward"), "/home/a/ward");
    assert_eq!(join_path("/home/a/", "ward"), "/home/a/ward");
    assert_eq!(join_path("", "ward"), "ward");
    assert_eq!(join_path("/home/a", "/etc"), "/etc");
    assert_eq!(config_dir_from(Some("/home/a/.config".to_string())), "/home/a/.config/ward");
    assert_eq!(config_dir_from(None), "./ward");
    assert_eq!(gpg_home_from(Some("/home/a".to_string())), "/home/a/.gnupg");
    assert!(starts_with("/media/usb", "/media/"));
    assert!(!starts_with("/med", "/media/"));
}

#[test]
fn error_messages() {
    let e = WardError::UnauthorizedDrive { uuid: "abc".to_string() };
    assert_eq!(e.to_string(), "drive with UUID abc is not authorized");
    let e = WardError::IntegrityCheck {
        path: "/k".to_string(),
        expected: "1".to_string(),
        actual: "2".to_string(),
    };
    assert_eq!(e.to_string(), "integrity check failed for /k: expected 1, got 2");
    let e = WardError::Manifest { path: "/m".to_string(), message: "bad".to_string() };
    assert_eq!(e.to_string(), "manifest error at /m: bad");
}

#[test]
fn allow_list_has_no_duplicates() {
    let mut config = Config::default();
    config.allow_drive("a");
    config.allow_drive("b");
    config.allow_drive("a");
    assert_eq!(config.allowed_drives, vec!["a".to_string(), "b".to_string()]);
    config.disallow_drive("a");
    assert_eq!(config.allowed_drives, vec!["b".to_string()]);
    assert!(config.is_drive_allowed("b"));
}

#[test]
fn status_follows_persisted_state() {
    let mut ds = DaemonState::default();
    assert_eq!(DaemonStatus::from_state(&ds).state, WardState::Idle);
    ds.active_drive_uuid = Some("u".to_string());
    ds.active_mount_path = Some("/media/usb0".to_string());
    let status = DaemonStatus::from_state(&ds);
    assert_eq!(status.state, WardState::Active);
    assert_eq!(status.active_mount_path.as_deref(), Some("/media/usb0"));
}

fn expect_sleep(action: Action) {
    assert!(matches!(action, Action::Sleep(1000)), "expected a sleep");
}

#[test]
fn daemon_activates_authorized_drive() {
    let drive = drive_with_keys("Mine");
    let mut daemon = WardDaemon::new(allowed_config(&drive.manifest.uuid), DaemonState::default());
    assert!(matches!(daemon.run(), Action::FindWardDrive));
    let action = daemon.step(Event::DriveFound(Ok(Some(drive.clone()))));
    assert_eq!(daemon.state(), WardState::Validating);
    match action {
        Action::ListKeys(k) => assert_eq!(k, "/media/usb0/.ward/keys"),
        _ => panic!("expected the keys to be listed"),
    }
    match daemon.step(Event::KeysListed(Ok(keys()))) {
        Action::ActivateStorage(k) => assert_eq!(k, "/media/usb0/.ward/keys"),
        _ => panic!("expected activation"),
    }
    assert_eq!(daemon.state(), WardState::Activating);
    match daemon.step(Event::StorageActivated(Ok("/run/user/1000/ward-gpg-7".to_string()))) {
        Action::SwapGpgTo(p) => assert_eq!(p, "/run/user/1000/ward-gpg-7"),
        _ => panic!("expected the GPG home swap"),
    }
    match daemon.step(Event::Done(Ok(()))) {
        Action::SaveState(s) => {
            assert_eq!(s.active_drive_uuid.as_deref(), Some(drive.manifest.uuid.as_str()));
            assert_eq!(s.current_gpg_home.as_deref(), Some("/run/user/1000/ward-gpg-7"));
        }
        _ => panic!("expected the state to be saved"),
    }
    expect_sleep(daemon.step(Event::Done(Ok(()))));
    assert_eq!(daemon.state(), WardState::Active);
    // Polling while active checks the mount point.
    match daemon.step(Event::Woke) {
        Action::CheckMount(p) => assert_eq!(p, "/media/usb0"),
        _ => panic!("expected a mount check"),
    }
    expect_sleep(daemon.step(Event::MountChecked(true)));
}

#[test]
fn daemon_ignores_unauthorized_drive() {
    let drive = drive_with_keys("Stranger");
    let mut daemon = WardDaemon::new(Config::default(), DaemonState::default());
    daemon.run();
    expect_sleep(daemon.step(Event::DriveFound(Ok(Some(drive)))));
    assert_eq!(daemon.state(), WardState::Idle);
    assert!(matches!(daemon.step(Event::Woke), Action::FindWardDrive));
}

#[test]
fn daemon_rejects_tampered_keys() {
    let drive = drive_with_keys("Mine");
    let mut daemon = WardDaemon::new(allowed_config(&drive.manifest.uuid), DaemonState::default());
    daemon.run();
    daemon.step(Event::DriveFound(Ok(Some(drive))));
    let mut tampered = keys().unwrap();
    tampered[1].content = b"tampered".to_vec();
    let actual = reference_checksum(&tampered);
    match daemon.step(Event::KeysListed(Ok(Some(tampered)))) {
        Action::Report(WardError::IntegrityCheck { path, expected, actual: a }) => {
            assert_eq!(path, "/media/usb0/.ward/keys");
            assert_eq!(expected, reference_checksum(&keys().unwrap()));
            assert_eq!(a, actual);
        }
        _ => panic!("expected the integrity failure to be reported"),
    }
    assert_eq!(daemon.state(), WardState::Idle);
    assert!(!daemon.daemon_state().is_active());
    expect_sleep(daemon.step(Event::Reported));
}

#[test]
fn daemon_reports_failed_activation() {
    let drive = drive_with_keys("Mine");
    let mut daemon = WardDaemon::new(allowed_config(&drive.manifest.uuid), DaemonState::default());
    daemon.run();
    daemon.step(Event::DriveFound(Ok(Some(drive))));
    daemon.step(Event::KeysListed(Ok(keys())));
    let fail = WardError::Filesystem("no space".to_string());
    match daemon.step(Event::StorageActivated(Err(fail.clone()))) {
        Action::Report(e) => assert_eq!(e, fail),
        _ => panic!("expected the storage error to be reported"),
    }
    assert!(!daemon.daemon_state().is_active());
    expect_sleep(daemon.step(Event::Reported));
}

#[test]
fn daemon_reports_unreadable_keys() {
    let drive = drive_with_keys("Mine");
    let mut daemon = WardDaemon::new(allowed_config(&drive.manifest.uuid), DaemonState::default());
    daemon.run();
    daemon.step(Event::DriveFound(Ok(Some(drive))));
    let fail = WardError::Filesystem("permission denied".to_string());
    match daemon.step(Event::KeysListed(Err(fail.clone()))) {
        Action::Report(e) => assert_eq!(e, fail),
        _ => panic!("expected the listing error to be reported"),
    }
    assert_eq!(daemon.state(), WardState::Idle);
}

#[test]
fn daemon_stop_leaves_active_drive() {
    let drive = drive_with_keys("Mine");
    let mut daemon = WardDaemon::new(allowed_config(&drive.manifest.uuid), DaemonState::default());
    daemon.run();
    daemon.step(Event::DriveFound(Ok(Some(drive))));
    daemon.step(Event::KeysListed(Ok(keys())));
    daemon.step(Event::StorageActivated(Ok("/dev/shm/ward-gpg-7".to_string())));
    daemon.step(Event::Done(Ok(())));
    expect_sleep(daemon.step(Event::Done(Ok(()))));
    assert_eq!(daemon.state(), WardState::Active);
    daemon.step(Event::Woke);
    daemon.signal_stop();
    assert!(matches!(daemon.step(Event::MountChecked(true)), Action::Finished(Ok(()))));
    assert_eq!(daemon.state(), WardState::Stopping);
    assert!(daemon.daemon_state().is_active());
}

#[test]
fn daemon_removal_compares_paths_by_component() {
    let mut ds = DaemonState::default();
    ds.active_drive_uuid = Some("u".to_string());
    ds.active_mount_path = Some("/media/usb".to_string());
    let mut daemon = WardDaemon::new(Config::default(), ds);
    assert!(matches!(daemon.handle_ward_removed("/media/usb/"), Action::SwapGpgBack));
    let mut ds = DaemonState::default();
    ds.active_mount_path = Some("/media/usb".to_string());
    let mut other = WardDaemon::new(Config::default(), ds);
    assert!(matches!(other.handle_ward_removed("/media/usb2"), Action::Finished(Ok(()))));
}

#[test]
fn path_comparison() {
    assert!(paths_equal("/media/usb", "/media/usb/"));
    assert!(paths_equal("/media//usb", "/media/./usb"));
    assert!(paths_equal("./a/b", "./a//b/"));
    assert!(!paths_equal("./a", "a"));
    assert!(!paths_equal("/a", "a"));
    assert!(!paths_equal("/media/usb", "/media/usb2"));
    assert!(!paths_equal("/media/usb", "/media"));
    assert!(paths_equal("a/./b", "a/b"));
    assert!(!paths_equal("a/../b", "b"));
}

#[test]
fn daemon_deactivates_removed_drive() {
    let drive = drive_with_keys("Mine");
    let mut daemon = WardDaemon::new(allowed_config(&drive.manifest.uuid), DaemonState::default());
    daemon.run();
    daemon.step(Event::DriveFound(Ok(Some(drive))));
    daemon.step(Event::KeysListed(Ok(keys())));
    daemon.step(Event::StorageActivated(Ok("/dev/shm/ward-gpg-7".to_string())));
    daemon.step(Event::Done(Ok(())));
    daemon.step(Event::Done(Ok(())));
    daemon.step(Event::Woke);
    assert!(matches!(daemon.step(Event::MountChecked(false)), Action::SwapGpgBack));
    assert_eq!(daemon.state(), WardState::Deactivating);
    assert!(matches!(daemon.step(Event::Done(Ok(()))), Action::DeactivateStorage));
    match daemon.step(Event::Done(Ok(()))) {
        Action::SaveState(s) => assert!(!s.is_active()),
        _ => panic!("expected the cleared state to be saved"),
    }
    expect_sleep(daemon.step(Event::Done(Ok(()))));
    assert_eq!(daemon.state(), WardState::Idle);
    assert!(!daemon.daemon_state().is_active());
}

#[test]
fn daemon_recovers_stale_activation() {
    let mut ds = DaemonState::default();
    ds.active_drive_uuid = Some("old".to_string());
    ds.active_mount_path = Some("/media/gone".to_string());
    let mut daemon = WardDaemon::new(Config::default(), ds);
    match daemon.run() {
        Action::CheckMount(p) => assert_eq!(p, "/media/gone"),
        _ => panic!("expected a mount check"),
    }
    assert!(matches!(daemon.step(Event::MountChecked(false)), Action::SwapGpgBack));
    // A failed recovery ends the run with the error.
    let fail = WardError::GpgAgent("boom".to_string());
    match daemon.step(Event::Done(Err(fail.clone()))) {
        Action::Finished(Err(e)) => assert_eq!(e, fail),
        _ => panic!("expected the run to end"),
    }
}

#[test]
fn daemon_stops_when_asked() {
    let mut daemon = WardDaemon::new(Config::default(), DaemonState::default());
    daemon.run();
    expect_sleep(daemon.step(Event::DriveFound(Ok(None))));
    daemon.signal_stop();
    assert!(matches!(daemon.step(Event::Woke), Action::FindWardDrive));
    assert!(matches!(daemon.step(Event::DriveFound(Ok(None))), Action::Finished(Ok(()))));
    assert_eq!(daemon.state(), WardState::Stopping);
}

#[test]
fn daemon_deactivate_on_request() {
    let mut daemon = WardDaemon::new(Config::default(), DaemonState::default());
    assert!(matches!(daemon.deactivate(), Action::SwapGpgBack));
    daemon.step(Event::Done(Ok(())));
    daemon.step(Event::Done(Ok(())));
    assert!(matches!(daemon.step(Event::Done(Ok(()))), Action::Finished(Ok(()))));
    assert_eq!(daemon.state(), WardState::Idle);
}

fn facts(exists: bool, is_symlink: bool, is_dir: bool) -> GpgEvent {
    GpgEvent::Inspected(PathFacts { exists, is_symlink, is_dir })
}

#[test]
fn gpg_swap_to_backs_up_and_links() {
    let mut gpg = GpgManager::with_home("/home/a/.gnupg".to_string(), "/cfg/gnupg_backup".to_string());
    assert!(matches!(gpg.swap_to("/dev/shm/keys"), GpgOp::KillAgent));
    assert!(matches!(gpg.step(GpgEvent::Done(Ok(()))), GpgOp::Inspect(p) if p == "/home/a/.gnupg"));
    assert!(matches!(gpg.step(facts(true, false, true)), GpgOp::Inspect(p) if p == "/cfg/gnupg_backup"));
    assert!(matches!(gpg.step(facts(true, false, true)), GpgOp::RemoveDirAll(p) if p == "/cfg/gnupg_backup"));
    assert!(matches!(gpg.step(GpgEvent::Done(Ok(()))),
        GpgOp::Rename { from, to } if from == "/home/a/.gnupg" && to == "/cfg/gnupg_backup"));
    assert!(matches!(gpg.step(GpgEvent::Done(Ok(()))), GpgOp::Inspect(p) if p == "/dev/shm/keys"));
    assert!(matches!(gpg.step(facts(true, false, true)), GpgOp::Inspect(p) if p == "/home/a/.gnupg"));
    assert!(matches!(gpg.step(facts(false, false, false)),
        GpgOp::Symlink { target, link } if target == "/dev/shm/keys" && link == "/home/a/.gnupg"));
    assert!(matches!(gpg.step(GpgEvent::Done(Ok(()))), GpgOp::StartAgent(p) if p == "/home/a/.gnupg"));
    assert!(matches!(gpg.step(GpgEvent::Done(Ok(()))), GpgOp::Finished(Ok(()))));
    assert!(!gpg.is_busy());
}

#[test]
fn gpg_swap_to_missing_target() {
    let mut gpg = GpgManager::with_home("/h".to_string(), "/b".to_string());
    gpg.swap_to("/gone");
    gpg.step(GpgEvent::Done(Ok(())));
    gpg.step(facts(false, false, false));
    match gpg.step(facts(false, false, false)) {
        GpgOp::Finished(Err(WardError::Symlink(m))) => assert_eq!(m, "Target does not exist: \"/gone\""),
        _ => panic!("expected the missing target to be reported"),
    }
}

#[test]
fn gpg_kill_falls_back_to_force() {
    let mut gpg = GpgManager::with_home("/h".to_string(), "/b".to_string());
    gpg.swap_back();
    let refused = WardError::GpgAgent("no gpgconf".to_string());
    assert!(matches!(gpg.step(GpgEvent::Done(Err(refused))), GpgOp::ForceKillAgent));
    assert!(matches!(gpg.step(GpgEvent::Done(Ok(()))), GpgOp::Inspect(p) if p == "/h"));
}

#[test]
fn gpg_swap_back_restores() {
    let mut gpg = GpgManager::with_home("/h".to_string(), "/b".to_string());
    assert!(matches!(gpg.swap_back(), GpgOp::KillAgent));
    assert!(matches!(gpg.step(GpgEvent::Done(Ok(()))), GpgOp::Inspect(p) if p == "/h"));
    assert!(matches!(gpg.step(facts(true, true, true)), GpgOp::RemoveFile(p) if p == "/h"));
    assert!(matches!(gpg.step(GpgEvent::Done(Ok(()))), GpgOp::Inspect(p) if p == "/h"));
    assert!(matches!(gpg.step(facts(false, false, false)), GpgOp::Inspect(p) if p == "/b"));
    assert!(matches!(gpg.step(facts(true, false, true)), GpgOp::Rename { from, to } if from == "/b" && to == "/h"));
    let err = WardError::Filesystem("denied".to_string());
    assert!(matches!(gpg.step(GpgEvent::Done(Err(err))), GpgOp::Finished(Err(WardError::Filesystem(_)))));
}

#[test]
fn agent_start_outcomes() {
    assert!(agent_start_outcome(Ok((true, String::new()))).is_ok());
    assert!(agent_start_outcome(Ok((false, "gpg-agent: a gpg-agent is already running".to_string()))).is_ok());
    assert_eq!(
        agent_start_outcome(Ok((false, "oops".to_string()))),
        Err(WardError::GpgAgent("Failed to start agent: oops".to_string()))
    );
    assert_eq!(
        agent_start_outcome(Err("not found".to_string())),
        Err(WardError::GpgAgent("Failed to execute gpg-agent: not found".to_string()))
    );
    assert!(contains_substring("abcabd", "abd"));
    assert!(!contains_substring("abcab", "abd"));
}

fn disk(mount: &str, kind: DiskKind, name: &str) -> DiskInfo {
    DiskInfo { mount_point: mount.to_string(), name: name.to_string(), kind, total_space: 8 }
}

#[test]
fn removable_disk_selection() {
    assert!(DriveMonitor::looks_like_usb("/run/media/a/KEY"));
    assert!(!DriveMonitor::looks_like_usb("/home"));
    let disks = vec![
        disk("/", DiskKind::Hdd, "sda1"),
        disk("/media/a/KEY", DiskKind::Hdd, ""),
        disk("/boot", DiskKind::Ssd, "nvme"),
        disk("/x", DiskKind::Unknown(-1), "loop"),
    ];
    let picked: Vec<String> = DriveMonitor::removable_disks(disks).into_iter().map(|d| d.mount_point).collect();
    assert_eq!(picked, vec!["/media/a/KEY", "/boot", "/x"]);
    let drive = RemovableDrive::from_disk(disk("/media/a/KEY", DiskKind::Hdd, ""), true);
    assert_eq!(drive.name, None);
    assert!(drive.is_ward_drive);
}

fn removable(mount: &str) -> RemovableDrive {
    RemovableDrive { mount_path: mount.to_string(), name: None, total_bytes: 1, is_ward_drive: false }
}

#[test]
fn monitor_reports_arrivals_and_departures() {
    let mut monitor = DriveMonitor::new(500);
    let events = monitor.poll(vec![removable("/media/a")], vec![None]);
    assert!(matches!(&events[..], [DriveEvent::Connected(d)] if d.mount_path == "/media/a"));
    let ward = drive_with_keys("W");
    let events = monitor.poll(vec![removable("/media/a"), removable("/media/b")], vec![None, Some(ward)]);
    assert!(matches!(&events[..], [DriveEvent::Connected(d), DriveEvent::WardDetected(_)] if d.mount_path == "/media/b"));
    let events = monitor.poll(vec![removable("/media/b")], vec![None]);
    assert!(matches!(&events[..], [DriveEvent::Disconnected(m), DriveEvent::WardRemoved(n)]
        if m == "/media/a" && n == "/media/a"));
    assert_eq!(monitor.known_mounts, vec!["/media/b".to_string()]);
    monitor.stop();
    assert!(monitor.stop_requested);
}

#[test]
fn first_detected_drive_wins() {
    let a = drive_with_keys("A");
    let b = drive_with_keys("B");
    let found = DriveMonitor::find_ward_drive(vec![
        Err(WardError::Filesystem("x".to_string())),
        Ok(a),
        Ok(b),
    ])
    .unwrap()
    .unwrap();
    assert_eq!(found.manifest.label, "A");
}

#[test]
fn ram_storage_location() {
    assert_eq!(RamStorage::find_ram_path(Some(("/run/user/1000".to_string(), true)), 5, true), "/run/user/1000");
    assert_eq!(RamStorage::find_ram_path(Some(("/nowhere".to_string(), false)), 1000, true), "/run/user/1000");
    assert_eq!(RamStorage::find_ram_path(None, 1000, false), "/dev/shm");
    let storage = RamStorage::new("/dev/shm".to_string());
    assert_eq!(storage.storage_path(4242), "/dev/shm/ward-gpg-4242");
    assert!(storage.active_path.is_none());
    assert!(DirectStorage::new().active_path.is_none());
}

#[test]
fn daemon_turns_away_unauthorized_drive() {
    let drive = drive_with_keys("Stranger");
    let uuid = drive.manifest.uuid.clone();
    let mut daemon = WardDaemon::new(Config::default(), DaemonState::default());
    match daemon.handle_ward_detected(drive) {
        Action::Report(WardError::UnauthorizedDrive { uuid: u }) => assert_eq!(u, uuid),
        _ => panic!("expected the drive to be turned away"),
    }
    assert_eq!(daemon.state(), WardState::Idle);
    assert!(!daemon.daemon_state().is_active());
    expect_sleep(daemon.step(Event::Reported));
}

#[test]
fn gpg_kill_agent_alone() {
    let mut gpg = GpgManager::with_home("/h".to_string(), "/b".to_string());
    assert!(matches!(gpg.kill_agent(), GpgOp::KillAgent));
    assert!(matches!(gpg.step(GpgEvent::Done(Err(WardError::GpgAgent("x".to_string())))), GpgOp::ForceKillAgent));
    assert!(matches!(gpg.step(GpgEvent::Done(Ok(()))), GpgOp::Finished(Ok(()))));
    assert!(matches!(gpg.kill_agent(), GpgOp::KillAgent));
    assert!(matches!(gpg.step(GpgEvent::Done(Ok(()))), GpgOp::Finished(Ok(()))));
}

#[test]
fn gpg_start_agent_alone() {
    let mut gpg = GpgManager::with_home("/h".to_string(), "/b".to_string());
    assert!(matches!(gpg.start_agent("/keys"), GpgOp::StartAgent(p) if p == "/keys"));
    let fail = WardError::GpgAgent("Failed to start agent: no".to_string());
    assert!(matches!(gpg.step(GpgEvent::Done(Err(fail.clone()))), GpgOp::Finished(Err(e)) if e == fail));
}

#[test]
fn gpg_backup_then_restore() {
    let mut gpg = GpgManager::with_home("/h".to_string(), "/b".to_string());
    assert!(matches!(gpg.backup_home(), GpgOp::Inspect(p) if p == "/h"));
    assert!(matches!(gpg.step(facts(true, false, true)), GpgOp::Inspect(p) if p == "/b"));
    assert!(matches!(gpg.step(facts(false, false, false)),
        GpgOp::Rename { from, to } if from == "/h" && to == "/b"));
    assert!(matches!(gpg.step(GpgEvent::Done(Ok(()))), GpgOp::Finished(Ok(()))));
    assert!(matches!(gpg.restore_home(), GpgOp::Inspect(p) if p == "/h"));
    assert!(matches!(gpg.step(facts(false, false, false)), GpgOp::Inspect(p) if p == "/b"));
    assert!(matches!(gpg.step(facts(true, false, true)),
        GpgOp::Rename { from, to } if from == "/b" && to == "/h"));
    assert!(matches!(gpg.step(GpgEvent::Done(Ok(()))), GpgOp::Finished(Ok(()))));
}

#[test]
fn gpg_backup_skips_missing_or_linked_home() {
    let mut gpg = GpgManager::with_home("/h".to_string(), "/b".to_string());
    gpg.backup_home();
    assert!(matches!(gpg.step(facts(false, false, false)), GpgOp::Finished(Ok(()))));
    gpg.backup_home();
    assert!(matches!(gpg.step(facts(true, true, true)), GpgOp::Finished(Ok(()))));
}

#[test]
fn gpg_create_and_remove_symlink() {
    let mut gpg = GpgManager::with_home("/h".to_string(), "/b".to_string());
    assert!(matches!(gpg.create_symlink("/keys"), GpgOp::Inspect(p) if p == "/keys"));
    assert!(matches!(gpg.step(facts(true, false, true)), GpgOp::Inspect(p) if p == "/h"));
    assert!(matches!(gpg.step(facts(true, true, true)), GpgOp::RemoveFile(p) if p == "/h"));
    assert!(matches!(gpg.step(GpgEvent::Done(Ok(()))),
        GpgOp::Symlink { target, link } if target == "/keys" && link == "/h"));
    // Making the link alone does not start the agent.
    assert!(matches!(gpg.step(GpgEvent::Done(Ok(()))), GpgOp::Finished(Ok(()))));
    assert!(matches!(gpg.remove_symlink(), GpgOp::Inspect(p) if p == "/h"));
    assert!(matches!(gpg.step(facts(true, true, true)), GpgOp::RemoveFile(p) if p == "/h"));
    assert!(matches!(gpg.step(GpgEvent::Done(Ok(()))), GpgOp::Finished(Ok(()))));
    gpg.remove_symlink();
    assert!(matches!(gpg.step(facts(true, false, true)), GpgOp::Finished(Ok(()))));
}

#[test]
fn ram_storage_activation_plan() {
    let mut storage = RamStorage::new("/run/user/1000".to_string());
    let (stale, dest) = storage.activation_plan(42);
    assert!(stale.is_none());
    assert_eq!(dest, "/run/user/1000/ward-gpg-42");
    storage.activated(dest.clone());
    let (stale, _) = storage.activation_plan(43);
    assert_eq!(stale.as_deref(), Some("/run/user/1000/ward-gpg-42"));
    storage.deactivated();
    assert!(storage.active_path.is_none());
    assert_eq!(storage.ram_base, "/run/user/1000");
    let mut direct = DirectStorage::new();
    direct.activated("/media/usb/.ward/keys".to_string());
    assert_eq!(direct.active_path.as_deref(), Some("/media/usb/.ward/keys"));
    direct.deactivated();
    assert!(direct.active_path.is_none());
}

#[test]
fn removable_disks_per_platform() {
    assert!(DriveMonitor::looks_like_usb_on(Platform::Windows, "E:\\"));
    assert!(!DriveMonitor::looks_like_usb_on(Platform::Windows, "C:\\"));
    assert!(DriveMonitor::looks_like_usb_on(Platform::Other, "/Volumes/KEY"));
    assert!(!DriveMonitor::looks_like_usb_on(Platform::Other, "/media/a/KEY"));
    assert!(!DriveMonitor::looks_like_usb_on(Platform::Linux, "/Volumes/KEY"));
    let disks = vec![
        disk("C:\\", DiskKind::Hdd, "sys"),
        disk("E:\\", DiskKind::Hdd, "KEY"),
        disk("/Volumes/KEY", DiskKind::Hdd, "KEY"),
    ];
    let picked: Vec<String> = DriveMonitor::removable_disks_on(Platform::Windows, disks.clone())
        .into_iter()
        .map(|d| d.mount_point)
        .collect();
    assert_eq!(picked, vec!["E:\\", "/Volumes/KEY"]);
    let picked: Vec<String> = DriveMonitor::removable_disks_on(Platform::Other, disks)
        .into_iter()
        .map(|d| d.mount_point)
        .collect();
    assert_eq!(picked, vec!["/Volumes/KEY"]);
}

#[test]
fn daemon_gpg_manager_uses_configured_backup() {
    let mut config = Config::default();
    config.gpg_backup_path = "/cfg/ward/gnupg_backup".to_string();
    let daemon = WardDaemon::new(config, DaemonState::default());
    assert_eq!(daemon.gpg_manager.backup_path, "/cfg/ward/gnupg_backup");
    assert!(!daemon.gpg_manager.is_busy());
    assert!(daemon.gpg_manager.original_home.ends_with(".gnupg"));
}

#[test]
fn daemon_deactivates_after_mount_lost() {
    let drive = drive_with_keys("Mine");
    let mut daemon = WardDaemon::new(allowed_config(&drive.manifest.uuid), DaemonState::default());
    daemon.run();
    daemon.step(Event::DriveFound(Ok(Some(drive))));
    daemon.step(Event::KeysListed(Ok(keys())));
    daemon.step(Event::StorageActivated(Ok("/dev/shm/ward-gpg-7".to_string())));
    daemon.step(Event::Done(Ok(())));
    expect_sleep(daemon.step(Event::Done(Ok(()))));
    assert!(matches!(daemon.step(Event::Woke), Action::CheckMount(p) if p == "/media/usb0"));
    assert!(matches!(daemon.step(Event::MountChecked(false)), Action::SwapGpgBack));
    assert!(matches!(daemon.step(Event::Done(Ok(()))), Action::DeactivateStorage));
    assert!(matches!(daemon.step(Event::Done(Ok(()))), Action::SaveState(s) if !s.is_active()));
    expect_sleep(daemon.step(Event::Done(Ok(()))));
    assert_eq!(daemon.state(), WardState::Idle);
    assert!(!daemon.daemon_state().is_active());
}

#[test]
fn uuids_differ_for_close_clocks() {
    let a = generate_uuid(NANOS, 1, 2);
    let b = generate_uuid(NANOS + 1, 1, 2);
    let c = generate_uuid(NANOS + (1u128 << 47), 9, 3);
    assert_ne!(a, b);
    assert_ne!(a, c);
    assert_ne!(b, c);
}
