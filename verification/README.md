# Ward

Ward treats a USB flash drive as a hardware token for GPG keys: a daemon
watches for removable drives, recognises a prepared Ward drive by the
manifest in its `.ward` directory, checks that the drive is on the allow list
and that its keys are intact, makes the keys available and points the GPG
home at them; when the drive goes away it restores the original GPG home.

Layout:

- `src/` is the verified library (Verus):
  - `config.rs`: the allow list, the configuration and persisted-state paths;
  - `manifest.rs`: the manifest, the integrity check, UUIDs, the drive layout;
  - `checksum.rs`: the SHA-256 checksum of a keys directory, over its files in
    sorted path order (the digest itself comes from the `sha2` crate);
  - `timestamp.rs`: ISO 8601 timestamps on the Gregorian calendar;
  - `paths.rs`: comparing paths component by component;
  - `daemon.rs`: the daemon as a state machine (`run`, `deactivate`, `step`), with
    the invariant that an active daemon's drive is allowed; a drive turned
    away or failing to activate is reported with its error;
  - `gpg.rs`: swapping the GPG home to the keys and back, as a sequence of
    operations, with a model of the paths it touches;
  - `monitor.rs`: recognising removable disks (by the mount conventions of Linux,
    Windows and other systems) and the events between polls;
  - `storage.rs`: where the keys are kept in RAM;
  - `text.rs`, `error.rs`: text formats and errors.
- `app/` is the program around it: `ward` (the daemon) and `wardctl` (the
  control tool), the TOML files, the filesystem, processes and the disk list.
- `tests/` exercises the library.
