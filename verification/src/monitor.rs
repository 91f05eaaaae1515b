//! Recognising removable drives and the events of drives coming and going.
use vstd::prelude::*;

use crate::error::{WardError, WardResult};
use crate::manifest::WardDrive;
use crate::text::{has_prefix, starts_with};

verus! {

/// The kind of a disk, as the system reports it.
#[derive(Debug, Clone, Copy, PartialEq, Eq)]
pub enum DiskKind {
    Hdd,
    Ssd,
    Unknown(isize),
}

/// A mounted disk as the system lists it.
#[derive(Debug, Clone)]
pub struct DiskInfo {
    pub mount_point: String,
    pub name: String,
    pub kind: DiskKind,
    pub total_space: u64,
}

/// A drive that may have been plugged in by the user.
#[derive(Debug, Clone)]
pub struct RemovableDrive {
    pub mount_path: String,
    pub name: Option<String>,
    pub total_bytes: u64,
    pub is_ward_drive: bool,
}

/// What the monitor observed between two polls.
#[derive(Debug, Clone)]
pub enum DriveEvent {
    Connected(RemovableDrive),
    Disconnected(String),
    WardDetected(WardDrive),
    WardRemoved(String),
}

/// The operating system whose conventions for mount points apply.
#[derive(Debug, Clone, Copy, PartialEq, Eq, Structural)]
pub enum Platform {
    Linux,
    Windows,
    /// Any other system (macOS and the like).
    Other,
}

/// The mount point lies where removable media are mounted on `platform`:
/// below `/media/`, `/mnt/` or `/run/media/` on Linux; any drive but `C:` on
/// Windows; below `/Volumes/` elsewhere.
pub open spec fn usb_mount_on(platform: Platform, mount: Seq<char>) -> bool {
    match platform {
        Platform::Linux => {
            ||| has_prefix(mount, "/media/"@)
            ||| has_prefix(mount, "/mnt/"@)
            ||| has_prefix(mount, "/run/media/"@)
        },
        Platform::Windows => !has_prefix(mount, "C:"@),
        Platform::Other => has_prefix(mount, "/Volumes/"@),
    }
}

/// The mount point lies where removable media are mounted on Linux.
pub open spec fn usb_mount(mount: Seq<char>) -> bool {
    usb_mount_on(Platform::Linux, mount)
}

/// The disk counts as removable on `platform`: an SSD, a disk of unknown
/// kind, or one mounted where removable media go.
pub open spec fn removable_on(platform: Platform, disk: DiskInfo) -> bool {
    match disk.kind {
        DiskKind::Unknown(_) | DiskKind::Ssd => true,
        DiskKind::Hdd => usb_mount_on(platform, disk.mount_point@),
    }
}

/// The disk counts as removable on Linux.
pub open spec fn removable(disk: DiskInfo) -> bool {
    removable_on(Platform::Linux, disk)
}

/// The drive that a removable disk makes; an empty name counts as none.
pub open spec fn drive_of(disk: DiskInfo, is_ward_drive: bool) -> RemovableDrive {
    RemovableDrive {
        mount_path: disk.mount_point,
        name: if disk.name@.len() == 0 {
            None
        } else {
            Some(disk.name)
        },
        total_bytes: disk.total_space,
        is_ward_drive,
    }
}

/// The first drive that was detected, if any.
pub open spec fn first_detected(detections: Seq<WardResult<WardDrive>>) -> Option<WardDrive>
    decreases detections.len(),
{
    if detections.len() == 0 {
        None
    } else {
        match detections[0] {
            Ok(d) => Some(d),
            Err(_) => first_detected(detections.drop_first()),
        }
    }
}

pub open spec fn mounts_of(drives: Seq<RemovableDrive>) -> Seq<Seq<char>> {
    drives.map_values(|d: RemovableDrive| d.mount_path@)
}

pub open spec fn texts(v: Seq<String>) -> Seq<Seq<char>> {
    v.map_values(|s: String| s@)
}

/// The events for the drives present now: a drive whose mount point was not
/// known is `Connected`, followed by `WardDetected` when it holds a Ward drive.
pub open spec fn arrivals(
    known: Seq<Seq<char>>,
    drives: Seq<RemovableDrive>,
    detected: Seq<Option<WardDrive>>,
) -> Seq<DriveEvent>
    decreases drives.len(),
{
    if drives.len() == 0 {
        Seq::empty()
    } else {
        let d = drives.last();
        let before = arrivals(known, drives.drop_last(), detected.drop_last());
        if known.contains(d.mount_path@) {
            before
        } else {
            match detected.last() {
                Some(w) => before + seq![DriveEvent::Connected(d), DriveEvent::WardDetected(w)],
                None => before + seq![DriveEvent::Connected(d)],
            }
        }
    }
}

/// The events for the known mount points that are gone: `Disconnected`, then `WardRemoved`.
pub open spec fn departures(known: Seq<String>, present: Seq<Seq<char>>) -> Seq<DriveEvent>
    decreases known.len(),
{
    if known.len() == 0 {
        Seq::empty()
    } else {
        let m = known.last();
        let before = departures(known.drop_last(), present);
        if present.contains(m@) {
            before
        } else {
            before + seq![DriveEvent::Disconnected(m), DriveEvent::WardRemoved(m)]
        }
    }
}

/// Watches the removable drives from poll to poll.
pub struct DriveMonitor {
    pub poll_interval_ms: u64,
    pub stop_requested: bool,
    /// The mount points seen at the last poll, each once.
    pub known_mounts: Vec<String>,
}

impl DriveMonitor {
    /// A monitor that polls every `poll_interval_ms` milliseconds and knows no drive yet.
    pub fn new(poll_interval_ms: u64) -> (res: DriveMonitor)
        ensures
            res.poll_interval_ms == poll_interval_ms,
            !res.stop_requested,
            res.known_mounts@.len() == 0,
    {
        DriveMonitor { poll_interval_ms, stop_requested: false, known_mounts: Vec::new() }
    }

    /// Asks the monitor to stop.
    pub fn stop(&mut self)
        ensures
            final(self).stop_requested,
            final(self).poll_interval_ms == old(self).poll_interval_ms,
            final(self).known_mounts == old(self).known_mounts,
    {
        self.stop_requested = true;
    }

    /// Whether the mount point lies where removable media are mounted on `platform`.
    pub fn looks_like_usb_on(platform: Platform, mount_point: &str) -> (res: bool)
        ensures
            res == usb_mount_on(platform, mount_point@),
    {
        match platform {
            Platform::Linux => starts_with(mount_point, "/media/") || starts_with(
                mount_point,
                "/mnt/",
            ) || starts_with(mount_point, "/run/media/"),
            Platform::Windows => !starts_with(mount_point, "C:"),
            Platform::Other => starts_with(mount_point, "/Volumes/"),
        }
    }

    /// Whether the mount point lies where removable media are mounted on Linux.
    pub fn looks_like_usb(mount_point: &str) -> (res: bool)
        ensures
            res == usb_mount(mount_point@),
    {
        Self::looks_like_usb_on(Platform::Linux, mount_point)
    }

    /// Whether the disk counts as removable on `platform`.
    pub fn is_removable_on(platform: Platform, disk: &DiskInfo) -> (res: bool)
        ensures
            res == removable_on(platform, *disk),
    {
        match disk.kind {
            DiskKind::Unknown(_) | DiskKind::Ssd => true,
            DiskKind::Hdd => Self::looks_like_usb_on(platform, disk.mount_point.as_str()),
        }
    }

    /// Whether the disk counts as removable on Linux.
    pub fn is_removable(disk: &DiskInfo) -> (res: bool)
        ensures
            res == removable(*disk),
    {
        Self::is_removable_on(Platform::Linux, disk)
    }

    /// The removable disks among `disks` on Linux, in their order.
    pub fn removable_disks(disks: Vec<DiskInfo>) -> (res: Vec<DiskInfo>)
        ensures
            res@ == disks@.filter(|d: DiskInfo| removable_on(Platform::Linux, d)),
    {
        Self::removable_disks_on(Platform::Linux, disks)
    }

    /// The removable disks among `disks` on `platform`, in their order.
    pub fn removable_disks_on(platform: Platform, disks: Vec<DiskInfo>) -> (res: Vec<DiskInfo>)
        ensures
            res@ == disks@.filter(|d: DiskInfo| removable_on(platform, d)),
    {
        let ghost pred = |d: DiskInfo| removable_on(platform, d);
        let ghost all = disks@;
        let mut rest = disks;
        let mut res: Vec<DiskInfo> = Vec::new();
        let mut i: usize = 0;
        let total = rest.len();
        while rest.len() > 0
            invariant
                total == all.len(),
                pred == (|d: DiskInfo| removable_on(platform, d)),
                i <= all.len(),
                i + rest@.len() == all.len(),
                rest@ == all.skip(i as int),
                res@ == all.take(i as int).filter(pred),
            decreases rest.len(),
        {
            let disk = rest.remove(0);
            proof {
                assert(disk == all[i as int]);
                all.take(i as int).lemma_filter_push(disk, pred);
                assert(all.take(i as int).push(disk) =~= all.take(i + 1));
                assert(rest@ =~= all.skip(i + 1));
            }
            if Self::is_removable_on(platform, &disk) {
                res.push(disk);
            }
            i = i + 1;
        }
        assert(all.take(i as int) =~= all);
        res
    }

    /// The first drive among the detection results that was recognised.
    pub fn find_ward_drive(detections: Vec<WardResult<WardDrive>>) -> (res: WardResult<
        Option<WardDrive>,
    >)
        ensures
            res == Ok::<Option<WardDrive>, WardError>(first_detected(detections@)),
    {
        let ghost all = detections@;
        let mut rest = detections;
        let mut i: usize = 0;
        let total = rest.len();
        assert(all.skip(0) =~= all);
        while rest.len() > 0
            invariant
                all == detections@,
                total == all.len(),
                i <= all.len(),
                i + rest@.len() == all.len(),
                rest@ == all.skip(i as int),
                first_detected(all) == first_detected(all.skip(i as int)),
            decreases rest.len(),
        {
            let ghost before = rest@;
            let r = rest.remove(0);
            proof {
                assert(r == before[0]);
                assert(all.skip(i as int).drop_first() =~= all.skip(i + 1));
                assert(rest@ =~= all.skip(i + 1));
            }
            match r {
                Ok(d) => {
                    assert(all.skip(i as int).len() > 0);
                    assert(all.skip(i as int)[0] == Ok::<WardDrive, WardError>(d));
                    assert(first_detected(all.skip(i as int)) == Some(d));
                    return Ok(Some(d));
                },
                Err(_) => {},
            }
            i = i + 1;
        }
        Ok(None)
    }

    fn is_known(&self, mount: &String) -> (res: bool)
        ensures
            res == texts(self.known_mounts@).contains(mount@),
    {
        contains_text(&self.known_mounts, mount)
    }

    /// Takes in the drives present now (with, for each, the Ward drive found
    /// on it, if any): reports the drives that arrived and the mount points
    /// that went away, and remembers the mount points present now.
    pub fn poll(&mut self, current: Vec<RemovableDrive>, detected: Vec<Option<WardDrive>>) -> (res:
        Vec<DriveEvent>)
        requires
            current@.len() == detected@.len(),
        ensures
            res@ == arrivals(texts(old(self).known_mounts@), current@, detected@) + departures(
                old(self).known_mounts@,
                mounts_of(current@),
            ),
            forall|m: Seq<char>|
                texts(final(self).known_mounts@).contains(m) <==> mounts_of(current@).contains(m),
            texts(final(self).known_mounts@).no_duplicates(),
            final(self).poll_interval_ms == old(self).poll_interval_ms,
            final(self).stop_requested == old(self).stop_requested,
    {
        let ghost known = texts(self.known_mounts@);
        assert(mounts_of(current@.take(0)) =~= Seq::<Seq<char>>::empty());
        let ghost drives = current@;
        let ghost dets = detected@;
        let mut events: Vec<DriveEvent> = Vec::new();
        let mut present: Vec<String> = Vec::new();
        let mut now: Vec<String> = Vec::new();
        let mut rest = current;
        let mut rest_det = detected;
        let mut i: usize = 0;
        let total = rest.len();
        while rest.len() > 0
            invariant
                total == drives.len(),
                known == texts(self.known_mounts@),
                self.known_mounts == old(self).known_mounts,
                self.poll_interval_ms == old(self).poll_interval_ms,
                self.stop_requested == old(self).stop_requested,
                drives.len() == dets.len(),
                i <= drives.len(),
                i + rest@.len() == drives.len(),
                rest@ == drives.skip(i as int),
                rest_det@ == dets.skip(i as int),
                events@ == arrivals(known, drives.take(i as int), dets.take(i as int)),
                texts(present@) == mounts_of(drives.take(i as int)),
                forall|m: Seq<char>|
                    texts(now@).contains(m) <==> mounts_of(drives.take(i as int)).contains(m),
                texts(now@).no_duplicates(),
            decreases rest.len(),
        {
            let drive = rest.remove(0);
            let det = rest_det.remove(0);
            let ghost prev_events = events@;
            let ghost prev_now = texts(now@);
            proof {
                assert(drive == drives[i as int]);
                assert(det == dets[i as int]);
                assert(rest@ =~= drives.skip(i + 1));
                assert(rest_det@ =~= dets.skip(i + 1));
                assert(drives.take(i + 1).drop_last() =~= drives.take(i as int));
                assert(dets.take(i + 1).drop_last() =~= dets.take(i as int));
                assert(drives.take(i + 1).last() == drive);
                assert(dets.take(i + 1).last() == det);
                assert(mounts_of(drives.take(i + 1)) =~= mounts_of(drives.take(i as int)).push(
                    drive.mount_path@,
                ));
            }
            let mount = drive.mount_path.clone();
            let seen = contains_text(&now, &mount);
            if !seen {
                now.push(mount.clone());
                proof {
                    assert(texts(now@) =~= prev_now.push(mount@));
                    assert forall|a: int, b: int|
                        0 <= a < texts(now@).len() && 0 <= b < texts(now@).len() && a != b implies texts(
                            now@,
                        )[a] != texts(now@)[b] by {
                        if a == prev_now.len() {
                            assert(texts(now@)[b] == prev_now[b]);
                        } else if b == prev_now.len() {
                            assert(texts(now@)[a] == prev_now[a]);
                        }
                    }
                    assert forall|m: Seq<char>| texts(now@).contains(m) <==> (prev_now.contains(m) || m == mount@) by {
                        lemma_push_contains(prev_now, mount@, m);
                    }
                }
            }
            proof {
                assert forall|m: Seq<char>| mounts_of(drives.take(i + 1)).contains(m) <==> (
                mounts_of(drives.take(i as int)).contains(m) || m == mount@) by {
                    lemma_push_contains(mounts_of(drives.take(i as int)), mount@, m);
                }
                assert(mount@ == drive.mount_path@);
                assert forall|m: Seq<char>|
                    texts(now@).contains(m) <==> mounts_of(drives.take(i + 1)).contains(m) by {
                    assert(prev_now.contains(m) <==> mounts_of(drives.take(i as int)).contains(m));
                    if seen {
                        assert(texts(now@) == prev_now);
                        assert(prev_now.contains(mount@));
                    } else {
                        assert(texts(now@).contains(m) <==> (prev_now.contains(m) || m == mount@));
                    }
                }
            }
            present.push(mount);
            proof {
                assert(texts(present@) =~= mounts_of(drives.take(i + 1)));
            }
            if !self.is_known(&drive.mount_path) {
                events.push(DriveEvent::Connected(drive));
                match det {
                    Some(w) => {
                        events.push(DriveEvent::WardDetected(w));
                    },
                    None => {},
                }
            }
            proof {
                assert(events@ =~= arrivals(known, drives.take(i + 1), dets.take(i + 1)));
            }
            i = i + 1;
        }
        assert(drives.take(i as int) =~= drives);
        assert(dets.take(i as int) =~= dets);
        let ghost arrived = events@;
        let n = self.known_mounts.len();
        let mut j: usize = 0;
        while j < n
            invariant
                n == self.known_mounts@.len(),
                self.known_mounts == old(self).known_mounts,
                j <= n,
                texts(present@) == mounts_of(drives),
                events@ == arrived + departures(self.known_mounts@.take(j as int), mounts_of(drives)),
            decreases n - j,
        {
            let ghost prev = events@;
            proof {
                assert(self.known_mounts@.take(j + 1).drop_last() =~= self.known_mounts@.take(
                    j as int,
                ));
                assert(self.known_mounts@.take(j + 1).last() == self.known_mounts@[j as int]);
            }
            if !contains_text(&present, &self.known_mounts[j]) {
                events.push(DriveEvent::Disconnected(self.known_mounts[j].clone()));
                events.push(DriveEvent::WardRemoved(self.known_mounts[j].clone()));
            }
            proof {
                assert(events@ =~= arrived + departures(
                    self.known_mounts@.take(j + 1),
                    mounts_of(drives),
                ));
            }
            j = j + 1;
        }
        assert(self.known_mounts@.take(n as int) =~= self.known_mounts@);
        self.known_mounts = now;
        events
    }
}

proof fn lemma_push_contains(s: Seq<Seq<char>>, x: Seq<char>, y: Seq<char>)
    ensures
        s.push(x).contains(y) <==> (s.contains(y) || y == x),
{
    if s.contains(y) {
        let k = choose|k: int| 0 <= k < s.len() && s[k] == y;
        assert(s.push(x)[k] == y);
    }
    if y == x {
        assert(s.push(x)[s.len() as int] == y);
    }
    if s.push(x).contains(y) {
        let k = choose|k: int| 0 <= k < s.push(x).len() && s.push(x)[k] == y;
        if k < s.len() {
            assert(s[k] == y);
        }
    }
}

/// Whether `list` holds `s`.
fn contains_text(list: &Vec<String>, s: &String) -> (res: bool)
    ensures
        res == texts(list@).contains(s@),
{
    let n = list.len();
    let mut i: usize = 0;
    while i < n
        invariant
            n == list@.len(),
            i <= n,
            forall|k: int| 0 <= k < i ==> texts(list@)[k] != s@,
        decreases n - i,
    {
        if list[i] == *s {
            assert(texts(list@)[i as int] == s@);
            return true;
        }
        i = i + 1;
    }
    false
}

impl RemovableDrive {
    /// The drive that a removable disk makes.
    pub fn from_disk(disk: DiskInfo, is_ward_drive: bool) -> (res: RemovableDrive)
        ensures
            res == drive_of(disk, is_ward_drive),
    {
        let empty = disk.name.as_str().is_empty();
        RemovableDrive {
            mount_path: disk.mount_point,
            name: if empty {
                None
            } else {
                Some(disk.name)
            },
            total_bytes: disk.total_space,
            is_ward_drive,
        }
    }
}

/// After a poll the monitor knows exactly the mount points present at that
/// poll: a drive is reported as arriving only when its mount point was not
/// known, and a mount point is reported as gone only when it was known and is
/// no longer present.
pub proof fn lemma_poll_events_match_mounts(
    known: Seq<String>,
    drives: Seq<RemovableDrive>,
    detected: Seq<Option<WardDrive>>,
    event: DriveEvent,
)
    requires
        drives.len() == detected.len(),
        (arrivals(texts(known), drives, detected) + departures(known, mounts_of(drives))).contains(
            event,
        ),
    ensures
        event matches DriveEvent::Connected(d) ==> mounts_of(drives).contains(d.mount_path@)
            && !texts(known).contains(d.mount_path@),
        event matches DriveEvent::Disconnected(m) ==> texts(known).contains(m@) && !mounts_of(
            drives,
        ).contains(m@),
    decreases drives.len() + known.len(),
{
    let a = arrivals(texts(known), drives, detected);
    let dep = departures(known, mounts_of(drives));
    if a.contains(event) {
        lemma_arrival_event(texts(known), drives, detected, event);
    } else {
        let k = choose|k: int| 0 <= k < (a + dep).len() && (a + dep)[k] == event;
        assert(dep[k - a.len()] == event);
        lemma_departure_event(known, mounts_of(drives), event);
    }
}

proof fn lemma_arrival_event(
    known: Seq<Seq<char>>,
    drives: Seq<RemovableDrive>,
    detected: Seq<Option<WardDrive>>,
    event: DriveEvent,
)
    requires
        drives.len() == detected.len(),
        arrivals(known, drives, detected).contains(event),
    ensures
        event matches DriveEvent::Connected(d) ==> mounts_of(drives).contains(d.mount_path@)
            && !known.contains(d.mount_path@),
        !(event is Disconnected),
    decreases drives.len(),
{
    if drives.len() > 0 {
        let d = drives.last();
        let before = arrivals(known, drives.drop_last(), detected.drop_last());
        let all = arrivals(known, drives, detected);
        let k = choose|k: int| 0 <= k < all.len() && all[k] == event;
        assert(mounts_of(drives.drop_last()) =~= mounts_of(drives).drop_last());
        assert(mounts_of(drives)[drives.len() - 1] == d.mount_path@);
        if k < before.len() {
            assert(before[k] == event);
            lemma_arrival_event(known, drives.drop_last(), detected.drop_last(), event);
            if let DriveEvent::Connected(c) = event {
                let q = choose|q: int|
                    0 <= q < mounts_of(drives.drop_last()).len() && mounts_of(drives.drop_last())[q]
                        == c.mount_path@;
                assert(mounts_of(drives)[q] == c.mount_path@);
            }
        }
    }
}

proof fn lemma_departure_event(known: Seq<String>, present: Seq<Seq<char>>, event: DriveEvent)
    requires
        departures(known, present).contains(event),
    ensures
        event matches DriveEvent::Disconnected(m) ==> texts(known).contains(m@) && !present.contains(
            m@,
        ),
        !(event is Connected),
    decreases known.len(),
{
    if known.len() > 0 {
        let before = departures(known.drop_last(), present);
        let all = departures(known, present);
        let k = choose|k: int| 0 <= k < all.len() && all[k] == event;
        assert(texts(known.drop_last()) =~= texts(known).drop_last());
        assert(texts(known)[known.len() - 1] == known.last()@);
        if k < before.len() {
            assert(before[k] == event);
            lemma_departure_event(known.drop_last(), present, event);
            if let DriveEvent::Disconnected(m) = event {
                let q = choose|q: int|
                    0 <= q < texts(known.drop_last()).len() && texts(known.drop_last())[q] == m@;
                assert(texts(known)[q] == m@);
            }
        }
    }
}

/// Drives whose mount points were all known at the last poll arrive at no
/// event: a drive that stays plugged in is not reported again, Ward drive or not.
pub proof fn lemma_known_drives_no_arrivals(
    known: Seq<Seq<char>>,
    drives: Seq<RemovableDrive>,
    detected: Seq<Option<WardDrive>>,
)
    requires
        drives.len() == detected.len(),
        forall|i: int| 0 <= i < drives.len() ==> known.contains(#[trigger] drives[i].mount_path@),
    ensures
        arrivals(known, drives, detected) == Seq::<DriveEvent>::empty(),
    decreases drives.len(),
{
    if drives.len() > 0 {
        assert(known.contains(drives[drives.len() - 1].mount_path@));
        assert forall|i: int| 0 <= i < drives.drop_last().len() implies known.contains(
            #[trigger] drives.drop_last()[i].mount_path@,
        ) by {
            assert(drives.drop_last()[i] == drives[i]);
        }
        lemma_known_drives_no_arrivals(known, drives.drop_last(), detected.drop_last());
    }
}

/// Every `WardDetected` event among the arrivals comes right after the
/// `Connected` event of a drive whose mount point was not known: a Ward drive
/// is reported only when its drive newly appears.
pub proof fn lemma_ward_detected_only_on_arrival(
    known: Seq<Seq<char>>,
    drives: Seq<RemovableDrive>,
    detected: Seq<Option<WardDrive>>,
)
    requires
        drives.len() == detected.len(),
    ensures
        ({
            let a = arrivals(known, drives, detected);
            forall|k: int|
                0 <= k < a.len() && (#[trigger] a[k]) is WardDetected ==> k >= 1 && (a[k
                    - 1] matches DriveEvent::Connected(d) && !known.contains(d.mount_path@))
        }),
    decreases drives.len(),
{
    if drives.len() > 0 {
        let d = drives.last();
        let before = arrivals(known, drives.drop_last(), detected.drop_last());
        let a = arrivals(known, drives, detected);
        lemma_ward_detected_only_on_arrival(known, drives.drop_last(), detected.drop_last());
        assert forall|k: int| 0 <= k < a.len() && (#[trigger] a[k]) is WardDetected implies k >= 1
            && (a[k - 1] matches DriveEvent::Connected(c) && !known.contains(c.mount_path@)) by {
            if k < before.len() {
                assert(a[k] == before[k]);
                assert(a[k - 1] == before[k - 1]);
            } else {
                assert(!known.contains(d.mount_path@));
                assert(k == before.len() + 1);
                assert(a[k - 1] == DriveEvent::Connected(d));
            }
        }
    }
}

/// Where each system mounts removable media counts as a USB mount: on Linux
/// anything below `/media/`, `/mnt/` or `/run/media/`; on Windows every drive
/// but `C:`; elsewhere anything below `/Volumes/`. The system drive `C:` never
/// does on Windows, and a disk reported as an SSD or of unknown kind is always
/// removable; a hard disk is removable exactly at a USB mount.
pub proof fn lemma_usb_mount_places(m: Seq<char>, disk: DiskInfo, platform: Platform)
    ensures
        has_prefix(m, "/media/"@) ==> usb_mount_on(Platform::Linux, m),
        has_prefix(m, "/mnt/"@) ==> usb_mount_on(Platform::Linux, m),
        has_prefix(m, "/run/media/"@) ==> usb_mount_on(Platform::Linux, m),
        has_prefix(m, "/Volumes/"@) ==> usb_mount_on(Platform::Other, m),
        has_prefix(m, "C:"@) <==> !usb_mount_on(Platform::Windows, m),
        !(disk.kind is Hdd) ==> removable_on(platform, disk),
        disk.kind is Hdd ==> (removable_on(platform, disk) <==> usb_mount_on(
            platform,
            disk.mount_point@,
        )),
{
}

} // verus!
