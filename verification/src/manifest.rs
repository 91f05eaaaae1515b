//! The manifest of a Ward drive, its integrity checksum and its drive layout.
use vstd::prelude::*;
use vstd::string::StringExecFns;

use crate::error::{WardError, WardResult};
use crate::checksum::{checksum_of_files, files_checksum, lemma_files_checksum_order_independent};
use crate::text::{hex_digits, join_path, path_join, push_char, push_hex};
use crate::timestamp::{iso8601, iso8601_string};

verus! {

/// The hidden directory name on USB drives containing Ward data.
pub const WARD_DIR: &'static str = ".ward";

/// The manifest filename.
pub const MANIFEST_FILE: &'static str = "manifest.toml";

/// The keys directory name within the Ward directory.
pub const KEYS_DIR: &'static str = "keys";

/// The odd multiplier that mixes the entropy of the generated UUIDs.
pub const MIX: u64 = 0x517c_c1b7_2722_0a95;

// ---------------------------------------------------------------------------
// The directory checksum.

pub open spec fn wmul(a: u64, b: u64) -> u64 {
    vstd::wrapping::u64_specs::wrapping_mul(a, b)
}

/// The checksum of a keys directory: empty when the directory does not exist,
/// otherwise the SHA-256 checksum of its files (see [`files_checksum`]).
pub open spec fn dir_checksum(listing: Option<Seq<(Seq<u8>, Seq<u8>)>>) -> Seq<char> {
    match listing {
        None => Seq::empty(),
        Some(files) => files_checksum(files),
    }
}

/// A regular file below the keys directory: its path relative to that
/// directory, as bytes, and its content.
#[derive(Debug, Clone)]
pub struct KeyFile {
    pub path: Vec<u8>,
    pub content: Vec<u8>,
}

impl KeyFile {
    pub open spec fn view_pair(self) -> (Seq<u8>, Seq<u8>) {
        (self.path@, self.content@)
    }
}

pub open spec fn files_view(files: Seq<KeyFile>) -> Seq<(Seq<u8>, Seq<u8>)> {
    files.map_values(|f: KeyFile| f.view_pair())
}

/// The files of a keys directory, `None` when the directory does not exist.
pub open spec fn listing_view(listing: Option<Vec<KeyFile>>) -> Option<Seq<(Seq<u8>, Seq<u8>)>> {
    match listing {
        None => None,
        Some(files) => Some(files_view(files@)),
    }
}

/// The checksum of a keys directory whose files are `listing` (`None` when
/// the directory does not exist): see [`dir_checksum`].
pub fn compute_directory_checksum(listing: &Option<Vec<KeyFile>>) -> (res: String)
    ensures
        res@ == dir_checksum(listing_view(*listing)),
        listing is Some ==> res@.len() == 64,
{
    match listing {
        None => String::new(),
        Some(files) => checksum_of_files(files),
    }
}

/// The checksum does not depend on the order in which the files are listed:
/// two listings with the same files give the same checksum.
pub proof fn lemma_checksum_order_independent(
    a: Seq<(Seq<u8>, Seq<u8>)>,
    b: Seq<(Seq<u8>, Seq<u8>)>,
)
    requires
        a.to_multiset() == b.to_multiset(),
    ensures
        dir_checksum(Some(a)) == dir_checksum(Some(b)),
{
    lemma_files_checksum_order_independent(a, b);
}

// ---------------------------------------------------------------------------
// UUIDs and timestamps.

/// The entropy mixed into a UUID: the clock's low 64 bits, the process id and an address.
pub open spec fn uuid_entropy(now_nanos: u128, process_id: u32, stack_addr: u64) -> u64 {
    (now_nanos as u64) ^ wmul(process_id as u64, MIX) ^ stack_addr
}

/// The UUID text `xxxxxxxx-xxxx-4xxx-yxxx-xxxxxxxxxxxx` made from the clock and the entropy.
pub open spec fn uuid_text(now_nanos: u128, process_id: u32, stack_addr: u64) -> Seq<char> {
    let r = uuid_entropy(now_nanos, process_id, stack_addr);
    hex_digits(((now_nanos & 0xFFFF_FFFF) as u64) as nat, 8) + seq!['-'] + hex_digits(
        (((now_nanos >> 32u128) & 0xFFFF) as u64) as nat,
        4,
    ) + seq!['-', '4'] + hex_digits((r & 0x0FFF) as nat, 3) + seq!['-'] + hex_digits(
        (((r >> 12u64) & 0x3FFF) | 0x8000) as nat,
        4,
    ) + seq!['-'] + hex_digits(((r >> 26u64) & 0xFFFF_FFFF_FFFF) as nat, 12)
}

/// A version-4-shaped UUID made from the clock (nanoseconds since the Unix
/// epoch), the process id and an address.
pub fn generate_uuid(now_nanos: u128, process_id: u32, stack_addr: u64) -> (res: String)
    ensures
        res@ == uuid_text(now_nanos, process_id, stack_addr),
{
    let r: u64 = (now_nanos as u64) ^ (process_id as u64).wrapping_mul(MIX) ^ stack_addr;
    let mut s = String::new();
    push_hex(&mut s, (now_nanos & 0xFFFF_FFFF) as u64, 8);
    push_char(&mut s, '-');
    push_hex(&mut s, ((now_nanos >> 32u128) & 0xFFFF) as u64, 4);
    push_char(&mut s, '-');
    push_char(&mut s, '4');
    push_hex(&mut s, r & 0x0FFF, 3);
    push_char(&mut s, '-');
    push_hex(&mut s, ((r >> 12u64) & 0x3FFF) | 0x8000, 4);
    push_char(&mut s, '-');
    push_hex(&mut s, (r >> 26u64) & 0xFFFF_FFFF_FFFF, 12);
    assert(s@ =~= uuid_text(now_nanos, process_id, stack_addr));
    s
}

proof fn lemma_hex_len(v: nat, width: nat)
    ensures
        hex_digits(v, width).len() == width,
    decreases width,
{
    if width > 0 {
        lemma_hex_len(v / 16, (width - 1) as nat);
    }
}

proof fn lemma_hex_first_of_four(v: nat)
    ensures
        hex_digits(v, 4)[0] == crate::text::digit_char(((v / 4096) % 16) as nat),
{
    reveal_with_fuel(hex_digits, 5);
    lemma_hex_len(v, 3);
    lemma_hex_len(v / 16, 2);
    lemma_hex_len(v / 256, 1);
    assert(v / 16 / 16 / 16 == v / 4096) by (nonlinear_arith);
}

/// Every generated UUID has the shape of a version-4 UUID: 36 characters,
/// dashes at positions 8, 13, 18 and 23, the version digit `4` at position 14
/// and a variant digit among `8`, `9`, `a`, `b` at position 19.
pub proof fn lemma_uuid_shape(now_nanos: u128, process_id: u32, stack_addr: u64)
    ensures
        ({
            let u = uuid_text(now_nanos, process_id, stack_addr);
            &&& u.len() == 36
            &&& u[8] == '-' && u[13] == '-' && u[18] == '-' && u[23] == '-'
            &&& u[14] == '4'
            &&& (u[19] == '8' || u[19] == '9' || u[19] == 'a' || u[19] == 'b')
        }),
{
    let r = uuid_entropy(now_nanos, process_id, stack_addr);
    let a = hex_digits(((now_nanos & 0xFFFF_FFFF) as u64) as nat, 8);
    let b = hex_digits((((now_nanos >> 32u128) & 0xFFFF) as u64) as nat, 4);
    let c = hex_digits((r & 0x0FFF) as nat, 3);
    let dv: u64 = ((r >> 12u64) & 0x3FFF) | 0x8000;
    let d = hex_digits(dv as nat, 4);
    let e = hex_digits(((r >> 26u64) & 0xFFFF_FFFF_FFFF) as nat, 12);
    lemma_hex_len(((now_nanos & 0xFFFF_FFFF) as u64) as nat, 8);
    lemma_hex_len((((now_nanos >> 32u128) & 0xFFFF) as u64) as nat, 4);
    lemma_hex_len((r & 0x0FFF) as nat, 3);
    lemma_hex_len(dv as nat, 4);
    lemma_hex_len(((r >> 26u64) & 0xFFFF_FFFF_FFFF) as nat, 12);
    let u = uuid_text(now_nanos, process_id, stack_addr);
    assert(u == a + seq!['-'] + b + seq!['-', '4'] + c + seq!['-'] + d + seq!['-'] + e);
    assert(u[19] == d[0]);
    lemma_hex_first_of_four(dv as nat);
    assert((dv / 4096) % 16 >= 8 && (dv / 4096) % 16 <= 11) by (bit_vector)
        requires
            dv == ((r >> 12u64) & 0x3FFF) | 0x8000,
    ;
    let top = ((dv as nat / 4096) % 16) as nat;
    assert(top == 8 || top == 9 || top == 10 || top == 11);
}

/// `16` to the power `w`.
pub open spec fn pow16(w: nat) -> nat
    decreases w,
{
    if w == 0 {
        1
    } else {
        16 * pow16((w - 1) as nat)
    }
}

proof fn lemma_digit_char_injective(d: nat, e: nat)
    requires
        d < 16,
        e < 16,
        crate::text::digit_char(d) == crate::text::digit_char(e),
    ensures
        d == e,
{
}

/// Different values below `16^w` have different `w`-digit renderings.
proof fn lemma_hex_injective(v: nat, u: nat, w: nat)
    requires
        v < pow16(w),
        u < pow16(w),
        hex_digits(v, w) == hex_digits(u, w),
    ensures
        v == u,
    decreases w,
{
    if w > 0 {
        let a = hex_digits(v, w);
        assert(a.last() == crate::text::digit_char(v % 16));
        assert(hex_digits(u, w).last() == crate::text::digit_char(u % 16));
        lemma_digit_char_injective(v % 16, u % 16);
        assert(a.drop_last() =~= hex_digits(v / 16, (w - 1) as nat));
        assert(hex_digits(u, w).drop_last() =~= hex_digits(u / 16, (w - 1) as nat));
        let p = pow16((w - 1) as nat);
        assert(v / 16 < p && u / 16 < p) by (nonlinear_arith)
            requires
                v < 16 * p,
                u < 16 * p,
        ;
        lemma_hex_injective(v / 16, u / 16, (w - 1) as nat);
    }
}

/// Two clock readings less than 2^48 nanoseconds apart give different UUIDs,
/// whatever the process ids and addresses: the UUID's first twelve digits are
/// the clock's low 48 bits.
pub proof fn lemma_uuids_differ_for_close_clocks(
    a: u128,
    b: u128,
    pid_a: u32,
    pid_b: u32,
    addr_a: u64,
    addr_b: u64,
)
    requires
        a < b,
        b - a < 0x1_0000_0000_0000,
    ensures
        uuid_text(a, pid_a, addr_a) != uuid_text(b, pid_b, addr_b),
{
    let la: u64 = (a & 0xFFFF_FFFF) as u64;
    let lb: u64 = (b & 0xFFFF_FFFF) as u64;
    let ha: u64 = ((a >> 32u128) & 0xFFFF) as u64;
    let hb: u64 = ((b >> 32u128) & 0xFFFF) as u64;
    let ua = uuid_text(a, pid_a, addr_a);
    let ub = uuid_text(b, pid_b, addr_b);
    if ua == ub {
        lemma_hex_len(la as nat, 8);
        lemma_hex_len(lb as nat, 8);
        lemma_hex_len(ha as nat, 4);
        lemma_hex_len(hb as nat, 4);
        assert(ua.subrange(0, 8) =~= hex_digits(la as nat, 8));
        assert(ub.subrange(0, 8) =~= hex_digits(lb as nat, 8));
        assert(ua.subrange(9, 13) =~= hex_digits(ha as nat, 4));
        assert(ub.subrange(9, 13) =~= hex_digits(hb as nat, 4));
        assert(pow16(8) == 0x1_0000_0000 && pow16(4) == 0x1_0000) by {
            reveal_with_fuel(pow16, 9);
        }
        assert(la < 0x1_0000_0000 && lb < 0x1_0000_0000 && ha < 0x1_0000 && hb < 0x1_0000)
            by (bit_vector)
            requires
                la == (a & 0xFFFF_FFFF) as u64,
                lb == (b & 0xFFFF_FFFF) as u64,
                ha == ((a >> 32u128) & 0xFFFF) as u64,
                hb == ((b >> 32u128) & 0xFFFF) as u64,
        ;
        lemma_hex_injective(la as nat, lb as nat, 8);
        lemma_hex_injective(ha as nat, hb as nat, 4);
        assert(false) by (bit_vector)
            requires
                la == (a & 0xFFFF_FFFF) as u64,
                lb == (b & 0xFFFF_FFFF) as u64,
                ha == ((a >> 32u128) & 0xFFFF) as u64,
                hb == ((b >> 32u128) & 0xFFFF) as u64,
                la == lb,
                ha == hb,
                a < b,
                b - a < 0x1_0000_0000_0000,
        ;
    }
}

/// The whole seconds of a clock reading in nanoseconds.
pub open spec fn whole_seconds(now_nanos: u128) -> nat {
    (now_nanos / 1_000_000_000) as nat
}

/// The creation time: the clock reading (nanoseconds since the Unix epoch)
/// in whole seconds, as an ISO 8601 UTC timestamp such as
/// `2024-08-30T14:57:49Z`.
pub fn current_timestamp(now_nanos: u128) -> (res: String)
    requires
        whole_seconds(now_nanos) <= u64::MAX,
    ensures
        res@ == iso8601(whole_seconds(now_nanos)),
{
    iso8601_string((now_nanos / 1_000_000_000) as u64)
}

// ---------------------------------------------------------------------------
// The manifest.

/// Manifest file structure for Ward USB drives.
#[derive(Debug, Clone)]
pub struct Manifest {
    /// Unique identifier for this Ward drive.
    pub uuid: String,
    /// Human-readable label for the drive.
    pub label: String,
    /// SHA-256 checksum of the keys directory (64 lowercase hexadecimal
    /// digits) for integrity verification; empty until it is first computed.
    pub checksum: String,
    /// ISO 8601 timestamp (UTC, whole seconds) when the manifest was created.
    pub created_at: Option<String>,
}

/// The error that a failed integrity check reports.
pub open spec fn is_integrity_error(
    e: WardError,
    keys_dir: Seq<char>,
    expected: Seq<char>,
    actual: Seq<char>,
) -> bool {
    e matches WardError::IntegrityCheck { path, expected: e2, actual: a2 } && path@ == keys_dir
        && e2@ == expected && a2@ == actual
}

/// The keys directory of a Ward directory.
pub open spec fn keys_dir_for(ward_dir: Seq<char>) -> Seq<char> {
    path_join(ward_dir, "keys"@)
}

/// The Ward directory of a mount point.
pub open spec fn ward_dir_for(mount: Seq<char>) -> Seq<char> {
    path_join(mount, ".ward"@)
}

/// The manifest file of a Ward directory.
pub open spec fn manifest_path_for(ward_dir: Seq<char>) -> Seq<char> {
    path_join(ward_dir, "manifest.toml"@)
}

/// Where the manifest of a Ward directory is stored.
pub fn manifest_path(ward_dir: &str) -> (res: String)
    ensures
        res@ == manifest_path_for(ward_dir@),
{
    join_path(ward_dir, MANIFEST_FILE)
}

/// The Ward directory on a drive mounted at `mount_path`.
pub fn ward_dir_of(mount_path: &str) -> (res: String)
    ensures
        res@ == ward_dir_for(mount_path@),
{
    join_path(mount_path, WARD_DIR)
}

/// The keys directory within a Ward directory.
pub fn keys_dir_of(ward_dir: &str) -> (res: String)
    ensures
        res@ == keys_dir_for(ward_dir@),
{
    join_path(ward_dir, KEYS_DIR)
}

impl Manifest {
    /// A new manifest for `label` with a UUID made from the clock and the
    /// entropy, an empty checksum and the creation time.
    pub fn new(label: &str, now_nanos: u128, process_id: u32, stack_addr: u64) -> (res: Manifest)
        requires
            whole_seconds(now_nanos) <= u64::MAX,
        ensures
            res.uuid@ == uuid_text(now_nanos, process_id, stack_addr),
            res.label@ == label@,
            res.checksum@.len() == 0,
            res.created_at matches Some(t) && t@ == iso8601(whole_seconds(now_nanos)),
    {
        Manifest {
            uuid: generate_uuid(now_nanos, process_id, stack_addr),
            label: String::from_str(label),
            checksum: String::new(),
            created_at: Some(current_timestamp(now_nanos)),
        }
    }

    /// Checks the keys directory of `ward_dir`, whose files are `listing`,
    /// against the manifest's checksum.
    pub fn verify_integrity(&self, ward_dir: &str, listing: &Option<Vec<KeyFile>>) -> (res: WardResult<()>)
        ensures
            res is Ok <==> passes_integrity(*self, listing_view(*listing)),
            res matches Err(e) ==> is_integrity_error(
                e,
                keys_dir_for(ward_dir@),
                self.checksum@,
                dir_checksum(listing_view(*listing)),
            ),
    {
        let keys_dir = keys_dir_of(ward_dir);
        let actual = compute_directory_checksum(listing);
        if !(self.checksum == actual) {
            return Err(
                WardError::IntegrityCheck {
                    path: keys_dir,
                    expected: self.checksum.clone(),
                    actual: actual,
                },
            );
        }
        Ok(())
    }

    /// Sets the checksum to that of the keys directory whose files are `listing`.
    pub fn update_checksum(&mut self, listing: &Option<Vec<KeyFile>>)
        ensures
            final(self).checksum@ == dir_checksum(listing_view(*listing)),
            final(self).uuid == old(self).uuid,
            final(self).label == old(self).label,
            final(self).created_at == old(self).created_at,
    {
        self.checksum = compute_directory_checksum(listing);
    }
}

/// The manifest's checksum is that of the keys directory whose files are `listing`.
pub open spec fn passes_integrity(m: Manifest, listing: Option<Seq<(Seq<u8>, Seq<u8>)>>) -> bool {
    m.checksum@ == dir_checksum(listing)
}

/// A manifest whose checksum was just updated from a keys directory passes the
/// integrity check of that directory, and keeps passing it whatever order the
/// directory's files are listed in.
pub proof fn lemma_updated_checksum_verifies(
    after: Manifest,
    files: Seq<(Seq<u8>, Seq<u8>)>,
    reordered: Seq<(Seq<u8>, Seq<u8>)>,
)
    requires
        after.checksum@ == dir_checksum(Some(files)),
        files.to_multiset() == reordered.to_multiset(),
    ensures
        passes_integrity(after, Some(files)),
        passes_integrity(after, Some(reordered)),
{
    lemma_checksum_order_independent(files, reordered);
}

// ---------------------------------------------------------------------------
// Ward drives.

/// Information about a detected Ward drive.
#[derive(Debug, Clone)]
pub struct WardDrive {
    /// Path to the root of the USB mount.
    pub mount_path: String,
    /// Path to the `.ward` directory.
    pub ward_dir: String,
    /// Path to the keys directory.
    pub keys_dir: String,
    /// The manifest data.
    pub manifest: Manifest,
}

/// The error for a missing directory of the drive layout.
pub open spec fn is_missing_dir_error(e: WardError, path: Seq<char>, message: Seq<char>) -> bool {
    e matches WardError::Manifest { path: p, message: m } && p@ == path && m@ == message
}

impl WardDrive {
    /// The drive's paths follow the Ward layout below its mount point.
    pub open spec fn has_layout(self) -> bool {
        &&& self.ward_dir@ == ward_dir_for(self.mount_path@)
        &&& self.keys_dir@ == keys_dir_for(self.ward_dir@)
    }

    /// Recognises a Ward drive at the (canonical) `mount_path`, given whether
    /// its Ward directory and its keys directory are directories and what
    /// loading its manifest gave.
    pub fn detect(
        mount_path: &str,
        ward_dir_is_dir: bool,
        keys_dir_is_dir: bool,
        manifest: WardResult<Manifest>,
    ) -> (res: WardResult<WardDrive>)
        ensures
            !ward_dir_is_dir ==> (res matches Err(e) && is_missing_dir_error(
                e,
                ward_dir_for(mount_path@),
                "Ward directory not found"@,
            )),
            ward_dir_is_dir && !keys_dir_is_dir ==> (res matches Err(e) && is_missing_dir_error(
                e,
                keys_dir_for(ward_dir_for(mount_path@)),
                "Keys directory not found"@,
            )),
            ward_dir_is_dir && keys_dir_is_dir ==> match manifest {
                Err(e) => res == Err::<WardDrive, WardError>(e),
                Ok(m) => (res matches Ok(d) && d.manifest == m && d.mount_path@ == mount_path@
                    && d.has_layout()),
            },
    {
        let ward_dir = ward_dir_of(mount_path);
        if !ward_dir_is_dir {
            return Err(
                WardError::Manifest {
                    path: ward_dir,
                    message: String::from_str("Ward directory not found"),
                },
            );
        }
        let keys_dir = keys_dir_of(ward_dir.as_str());
        if !keys_dir_is_dir {
            return Err(
                WardError::Manifest {
                    path: keys_dir,
                    message: String::from_str("Keys directory not found"),
                },
            );
        }
        let manifest = manifest?;
        Ok(WardDrive { mount_path: String::from_str(mount_path), ward_dir, keys_dir, manifest })
    }

    /// A freshly initialised Ward drive at the (canonical) `mount_path`: a new
    /// manifest for `label` whose checksum is that of the keys directory's files.
    pub fn init(
        mount_path: &str,
        label: &str,
        now_nanos: u128,
        process_id: u32,
        stack_addr: u64,
        listing: &Option<Vec<KeyFile>>,
    ) -> (res: WardDrive)
        requires
            whole_seconds(now_nanos) <= u64::MAX,
        ensures
            res.mount_path@ == mount_path@,
            res.has_layout(),
            res.manifest.uuid@ == uuid_text(now_nanos, process_id, stack_addr),
            res.manifest.label@ == label@,
            res.manifest.checksum@ == dir_checksum(listing_view(*listing)),
            res.manifest.created_at matches Some(t) && t@ == iso8601(whole_seconds(now_nanos)),
    {
        let ward_dir = ward_dir_of(mount_path);
        let keys_dir = keys_dir_of(ward_dir.as_str());
        let mut manifest = Manifest::new(label, now_nanos, process_id, stack_addr);
        manifest.update_checksum(listing);
        WardDrive { mount_path: String::from_str(mount_path), ward_dir, keys_dir, manifest }
    }
}

/// Detecting a drive finds what initialising it made: a drive that `init`
/// laid out at a mount point, detected at the same mount point with the
/// manifest that `init` wrote read back, has the same Ward directory, keys
/// directory, UUID and label.
pub proof fn lemma_init_then_detect(made: WardDrive, found: WardDrive)
    requires
        made.has_layout(),
        found.has_layout(),
        found.mount_path@ == made.mount_path@,
        found.manifest == made.manifest,
    ensures
        found.ward_dir@ == made.ward_dir@,
        found.keys_dir@ == made.keys_dir@,
        found.manifest.uuid@ == made.manifest.uuid@,
        found.manifest.label@ == made.manifest.label@,
{
}

} // verus!
