//! The SHA-256 checksum of a keys directory: its files in sorted path order,
//! each framed as a record, hashed together.
use vstd::prelude::*;
use vstd::relations::{sorted_by, total_ordering};

use sha2::Digest;

use crate::text::{hex_digits, push_hex};

verus! {

/// What `sha2::Sha256::digest` gives for `data`.
pub uninterp spec fn sha256_digest(data: Seq<u8>) -> Seq<u8>;

/// Calls `sha2::Sha256::digest` on `data`. Claimed of it: the result is the
/// SHA-256 digest of `data` (named, not computed here) and, as for every
/// SHA-256 digest, 32 bytes long.
#[verifier::external_body]
fn sha256(data: &Vec<u8>) -> (digest: Vec<u8>)
    ensures
        digest@ == sha256_digest(data@),
        digest@.len() == 32,
{
    sha2::Sha256::digest(data.as_slice()).to_vec()
}

// ---------------------------------------------------------------------------
// Byte strings in lexicographic order.

/// `a` is at most `b` in lexicographic byte order.
pub open spec fn bytes_le(a: Seq<u8>, b: Seq<u8>) -> bool
    decreases a.len(),
{
    if a.len() == 0 {
        true
    } else if b.len() == 0 {
        false
    } else if a[0] != b[0] {
        a[0] < b[0]
    } else {
        bytes_le(a.drop_first(), b.drop_first())
    }
}

/// Files ordered by their relative path, then (for equal paths) by content.
pub open spec fn file_le(x: (Seq<u8>, Seq<u8>), y: (Seq<u8>, Seq<u8>)) -> bool {
    (bytes_le(x.0, y.0) && x.0 != y.0) || (x.0 == y.0 && bytes_le(x.1, y.1))
}

pub open spec fn file_order() -> spec_fn((Seq<u8>, Seq<u8>), (Seq<u8>, Seq<u8>)) -> bool {
    |x: (Seq<u8>, Seq<u8>), y: (Seq<u8>, Seq<u8>)| file_le(x, y)
}

proof fn lemma_bytes_le_reflexive(a: Seq<u8>)
    ensures
        bytes_le(a, a),
    decreases a.len(),
{
    if a.len() > 0 {
        lemma_bytes_le_reflexive(a.drop_first());
    }
}

proof fn lemma_bytes_le_antisymmetric(a: Seq<u8>, b: Seq<u8>)
    requires
        bytes_le(a, b),
        bytes_le(b, a),
    ensures
        a == b,
    decreases a.len(),
{
    if a.len() > 0 && b.len() > 0 {
        lemma_bytes_le_antisymmetric(a.drop_first(), b.drop_first());
        assert(a =~= seq![a[0]] + a.drop_first());
        assert(b =~= seq![b[0]] + b.drop_first());
    }
}

proof fn lemma_bytes_le_transitive(a: Seq<u8>, b: Seq<u8>, c: Seq<u8>)
    requires
        bytes_le(a, b),
        bytes_le(b, c),
    ensures
        bytes_le(a, c),
    decreases a.len(),
{
    if a.len() > 0 && b.len() > 0 && c.len() > 0 && a[0] == b[0] && b[0] == c[0] {
        lemma_bytes_le_transitive(a.drop_first(), b.drop_first(), c.drop_first());
    }
}

proof fn lemma_bytes_le_total(a: Seq<u8>, b: Seq<u8>)
    ensures
        bytes_le(a, b) || bytes_le(b, a),
    decreases a.len(),
{
    if a.len() > 0 && b.len() > 0 && a[0] == b[0] {
        lemma_bytes_le_total(a.drop_first(), b.drop_first());
    }
}

/// The order of files is a total order.
pub proof fn lemma_file_order_total()
    ensures
        total_ordering(file_order()),
{
    let r = file_order();
    assert forall|x: (Seq<u8>, Seq<u8>)| #[trigger] r(x, x) by {
        lemma_bytes_le_reflexive(x.1);
    }
    assert forall|x: (Seq<u8>, Seq<u8>), y: (Seq<u8>, Seq<u8>)|
        #[trigger] r(x, y) && #[trigger] r(y, x) implies x == y by {
        if x.0 == y.0 {
            lemma_bytes_le_antisymmetric(x.1, y.1);
        } else {
            lemma_bytes_le_antisymmetric(x.0, y.0);
        }
    }
    assert forall|x: (Seq<u8>, Seq<u8>), y: (Seq<u8>, Seq<u8>), z: (Seq<u8>, Seq<u8>)|
        #[trigger] r(x, y) && #[trigger] r(y, z) implies r(x, z) by {
        if x.0 == y.0 && y.0 == z.0 {
            lemma_bytes_le_transitive(x.1, y.1, z.1);
        } else if x.0 != y.0 && y.0 != z.0 {
            lemma_bytes_le_transitive(x.0, y.0, z.0);
            if x.0 == z.0 {
                lemma_bytes_le_antisymmetric(x.0, y.0);
            }
        }
    }
    assert forall|x: (Seq<u8>, Seq<u8>), y: (Seq<u8>, Seq<u8>)|
        #[trigger] r(x, y) || #[trigger] r(y, x) by {
        lemma_bytes_le_total(x.0, y.0);
        lemma_bytes_le_total(x.1, y.1);
    }
}

// ---------------------------------------------------------------------------
// The hashed message.

/// The decimal digits of `n` as ASCII bytes.
pub open spec fn decimal_bytes(n: nat) -> Seq<u8>
    decreases n,
{
    if n < 10 {
        seq![(48 + n) as u8]
    } else {
        decimal_bytes(n / 10).push((48 + n % 10) as u8)
    }
}

/// The record of one file: its path, a zero byte, the decimal length of its
/// content, a zero byte, and the content.
pub open spec fn file_record(f: (Seq<u8>, Seq<u8>)) -> Seq<u8> {
    f.0 + seq![0u8] + decimal_bytes(f.1.len()) + seq![0u8] + f.1
}

/// The files in sorted path order.
pub open spec fn sorted_files(files: Seq<(Seq<u8>, Seq<u8>)>) -> Seq<(Seq<u8>, Seq<u8>)> {
    files.sort_by(file_order())
}

/// The bytes that are hashed: the records of the files in sorted path order.
pub open spec fn checksum_message(files: Seq<(Seq<u8>, Seq<u8>)>) -> Seq<u8> {
    sorted_files(files).map_values(|f: (Seq<u8>, Seq<u8>)| file_record(f)).flatten()
}

/// Lowercase hexadecimal, two digits per byte.
pub open spec fn hex_bytes(d: Seq<u8>) -> Seq<char>
    decreases d.len(),
{
    if d.len() == 0 {
        Seq::empty()
    } else {
        hex_bytes(d.drop_last()) + hex_digits(d.last() as nat, 2)
    }
}

/// The checksum of a set of files: the SHA-256 digest of their records in
/// sorted path order, in lowercase hexadecimal.
pub open spec fn files_checksum(files: Seq<(Seq<u8>, Seq<u8>)>) -> Seq<char> {
    hex_bytes(sha256_digest(checksum_message(files)))
}

/// Listing the same files in another order gives the same checksum.
pub proof fn lemma_files_checksum_order_independent(
    a: Seq<(Seq<u8>, Seq<u8>)>,
    b: Seq<(Seq<u8>, Seq<u8>)>,
)
    requires
        a.to_multiset() == b.to_multiset(),
    ensures
        files_checksum(a) == files_checksum(b),
{
    lemma_file_order_total();
    a.lemma_sort_by_ensures(file_order());
    b.lemma_sort_by_ensures(file_order());
    vstd::seq_lib::lemma_sorted_unique(sorted_files(a), sorted_files(b), file_order());
}

/// `p` holds no zero byte (as no Unix path does).
pub open spec fn zero_free(p: Seq<u8>) -> bool {
    forall|i: int| 0 <= i < p.len() ==> p[i] != 0u8
}

/// Every file's path holds no zero byte.
pub open spec fn paths_zero_free(files: Seq<(Seq<u8>, Seq<u8>)>) -> bool {
    forall|i: int| 0 <= i < files.len() ==> zero_free(#[trigger] files[i].0)
}

proof fn lemma_decimal_bytes_digits(n: nat)
    ensures
        decimal_bytes(n).len() >= 1,
        n >= 10 ==> decimal_bytes(n).len() >= 2,
        forall|i: int| 0 <= i < decimal_bytes(n).len() ==> 48 <= #[trigger] decimal_bytes(n)[i] <= 57,
    decreases n,
{
    if n >= 10 {
        lemma_decimal_bytes_digits(n / 10);
        assert forall|i: int| 0 <= i < decimal_bytes(n).len() implies 48 <= #[trigger] decimal_bytes(
            n,
        )[i] <= 57 by {
            if i < decimal_bytes(n / 10).len() {
                assert(decimal_bytes(n)[i] == decimal_bytes(n / 10)[i]);
            }
        }
    }
}

proof fn lemma_decimal_bytes_injective(n: nat, m: nat)
    requires
        decimal_bytes(n) == decimal_bytes(m),
    ensures
        n == m,
    decreases n,
{
    lemma_decimal_bytes_digits(n);
    lemma_decimal_bytes_digits(m);
    if n >= 10 && m >= 10 {
        assert(decimal_bytes(n).drop_last() =~= decimal_bytes(n / 10));
        assert(decimal_bytes(m).drop_last() =~= decimal_bytes(m / 10));
        lemma_decimal_bytes_injective(n / 10, m / 10);
        assert(decimal_bytes(n).last() == (48 + n % 10) as u8);
        assert(decimal_bytes(m).last() == (48 + m % 10) as u8);
        assert(n % 10 == m % 10);
    } else if n < 10 && m < 10 {
        assert(decimal_bytes(n)[0] == (48 + n) as u8);
        assert(decimal_bytes(m)[0] == (48 + m) as u8);
    }
}

/// In `m`, the bytes from `start` on begin with `x` and then a zero byte, and
/// also with `y` and then a zero byte; neither holds a zero byte: they are equal.
proof fn lemma_zero_terminated_equal(m: Seq<u8>, start: int, x: Seq<u8>, y: Seq<u8>)
    requires
        0 <= start,
        start + x.len() < m.len(),
        start + y.len() < m.len(),
        zero_free(x),
        zero_free(y),
        forall|i: int| 0 <= i < x.len() ==> m[start + i] == x[i],
        forall|i: int| 0 <= i < y.len() ==> m[start + i] == y[i],
        m[start + x.len()] == 0u8,
        m[start + y.len()] == 0u8,
    ensures
        x == y,
{
    if x.len() < y.len() {
        assert(m[start + x.len()] == y[x.len() as int]);
    } else if y.len() < x.len() {
        assert(m[start + y.len()] == x[y.len() as int]);
    }
    assert(x =~= y);
}

/// A record can be read back from the front of a message: two records that
/// begin equal messages are the same record, and what follows them is equal.
proof fn lemma_record_prefix(
    x: (Seq<u8>, Seq<u8>),
    y: (Seq<u8>, Seq<u8>),
    a: Seq<u8>,
    b: Seq<u8>,
)
    requires
        zero_free(x.0),
        zero_free(y.0),
        file_record(x) + a == file_record(y) + b,
    ensures
        x == y,
        a == b,
{
    let m = file_record(x) + a;
    let dx = decimal_bytes(x.1.len());
    let dy = decimal_bytes(y.1.len());
    lemma_decimal_bytes_digits(x.1.len());
    lemma_decimal_bytes_digits(y.1.len());
    assert(file_record(x) == x.0 + seq![0u8] + dx + seq![0u8] + x.1);
    assert(file_record(y) == y.0 + seq![0u8] + dy + seq![0u8] + y.1);
    let lx = x.0.len() as int;
    let ly = y.0.len() as int;
    assert forall|i: int| 0 <= i < x.0.len() implies m[0 + i] == x.0[i] by {
        assert(m[i] == file_record(x)[i]);
    }
    assert forall|i: int| 0 <= i < y.0.len() implies m[0 + i] == y.0[i] by {
        assert(m == file_record(y) + b);
        assert(m[i] == file_record(y)[i]);
    }
    assert(m[lx] == file_record(x)[lx]);
    assert(m[ly] == file_record(y)[ly]) by {
        assert(m == file_record(y) + b);
    }
    lemma_zero_terminated_equal(m, 0, x.0, y.0);
    let st = lx + 1;
    assert(zero_free(dx) && zero_free(dy));
    assert forall|i: int| 0 <= i < dx.len() implies m[st + i] == dx[i] by {
        assert(m[st + i] == file_record(x)[st + i]);
    }
    assert forall|i: int| 0 <= i < dy.len() implies m[st + i] == dy[i] by {
        assert(m == file_record(y) + b);
        assert(m[st + i] == file_record(y)[st + i]);
    }
    assert(m[st + dx.len()] == file_record(x)[st + dx.len()]);
    assert(m[st + dy.len()] == file_record(y)[st + dy.len()]) by {
        assert(m == file_record(y) + b);
    }
    lemma_zero_terminated_equal(m, st, dx, dy);
    lemma_decimal_bytes_injective(x.1.len(), y.1.len());
    let cs = st + dx.len() + 1;
    assert forall|i: int| 0 <= i < x.1.len() implies x.1[i] == y.1[i] by {
        assert(m[cs + i] == file_record(x)[cs + i]);
        assert(m == file_record(y) + b);
        assert(m[cs + i] == file_record(y)[cs + i]);
    }
    assert(x.1 =~= y.1);
    assert(file_record(x) == file_record(y));
    let n = file_record(x).len() as int;
    assert(a =~= m.skip(n));
    assert(b =~= (file_record(y) + b).skip(n));
}

pub open spec fn records_of(files: Seq<(Seq<u8>, Seq<u8>)>) -> Seq<u8> {
    files.map_values(|f: (Seq<u8>, Seq<u8>)| file_record(f)).flatten()
}

/// The concatenated records of a sequence of files determine the sequence.
proof fn lemma_records_injective(s: Seq<(Seq<u8>, Seq<u8>)>, t: Seq<(Seq<u8>, Seq<u8>)>)
    requires
        paths_zero_free(s),
        paths_zero_free(t),
        records_of(s) == records_of(t),
    ensures
        s == t,
    decreases s.len(),
{
    let f = |f: (Seq<u8>, Seq<u8>)| file_record(f);
    if s.len() == 0 && t.len() == 0 {
        return;
    }
    if s.len() > 0 {
        assert(s.map_values(f).drop_first() =~= s.drop_first().map_values(f));
        assert(records_of(s) == file_record(s[0]) + records_of(s.drop_first()));
    }
    if t.len() > 0 {
        assert(t.map_values(f).drop_first() =~= t.drop_first().map_values(f));
        assert(records_of(t) == file_record(t[0]) + records_of(t.drop_first()));
    }
    if s.len() == 0 {
        assert(records_of(s).len() == 0);
        assert(file_record(t[0]).len() >= 2);
        assert(false);
    } else if t.len() == 0 {
        assert(records_of(t).len() == 0);
        assert(file_record(s[0]).len() >= 2);
        assert(false);
    } else {
        assert(zero_free(s[0].0));
        assert(zero_free(t[0].0));
        lemma_record_prefix(s[0], t[0], records_of(s.drop_first()), records_of(t.drop_first()));
        assert(paths_zero_free(s.drop_first())) by {
            assert forall|i: int| 0 <= i < s.drop_first().len() implies zero_free(
                #[trigger] s.drop_first()[i].0,
            ) by {
                assert(s.drop_first()[i] == s[i + 1]);
            }
        }
        assert(paths_zero_free(t.drop_first())) by {
            assert forall|i: int| 0 <= i < t.drop_first().len() implies zero_free(
                #[trigger] t.drop_first()[i].0,
            ) by {
                assert(t.drop_first()[i] == t[i + 1]);
            }
        }
        lemma_records_injective(s.drop_first(), t.drop_first());
        assert(s =~= seq![s[0]] + s.drop_first());
        assert(t =~= seq![t[0]] + t.drop_first());
    }
}

proof fn lemma_sorted_paths_zero_free(files: Seq<(Seq<u8>, Seq<u8>)>)
    requires
        paths_zero_free(files),
    ensures
        paths_zero_free(sorted_files(files)),
        sorted_files(files).to_multiset() == files.to_multiset(),
{
    broadcast use vstd::seq_lib::group_to_multiset_ensures;

    lemma_file_order_total();
    files.lemma_sort_by_ensures(file_order());
    let sf = sorted_files(files);
    assert forall|i: int| 0 <= i < sf.len() implies zero_free(#[trigger] sf[i].0) by {
        assert(sf.contains(sf[i]));
        assert(files.contains(sf[i]));
        let j = choose|j: int| 0 <= j < files.len() && files[j] == sf[i];
        assert(zero_free(files[j].0));
    }
}

/// The hashed message determines the files: two listings (whose paths hold no
/// zero byte, as Unix paths never do) with the same message hold the same
/// files, empty ones included, each as often.
pub proof fn lemma_message_determines_files(
    a: Seq<(Seq<u8>, Seq<u8>)>,
    b: Seq<(Seq<u8>, Seq<u8>)>,
)
    requires
        paths_zero_free(a),
        paths_zero_free(b),
        checksum_message(a) == checksum_message(b),
    ensures
        a.to_multiset() == b.to_multiset(),
{
    lemma_sorted_paths_zero_free(a);
    lemma_sorted_paths_zero_free(b);
    assert(records_of(sorted_files(a)) == checksum_message(a));
    assert(records_of(sorted_files(b)) == checksum_message(b));
    lemma_records_injective(sorted_files(a), sorted_files(b));
}

/// Adding a file, empty or not, changes the hashed message (so the checksum
/// changes unless SHA-256 collides): every file counts.
pub proof fn lemma_added_file_changes_message(
    files: Seq<(Seq<u8>, Seq<u8>)>,
    f: (Seq<u8>, Seq<u8>),
)
    requires
        paths_zero_free(files),
        zero_free(f.0),
    ensures
        checksum_message(files.push(f)) != checksum_message(files),
{
    broadcast use vstd::seq_lib::group_to_multiset_ensures;

    assert(paths_zero_free(files.push(f))) by {
        assert forall|i: int| 0 <= i < files.push(f).len() implies zero_free(
            #[trigger] files.push(f)[i].0,
        ) by {
            if i < files.len() {
                assert(files.push(f)[i] == files[i]);
            }
        }
    }
    if checksum_message(files.push(f)) == checksum_message(files) {
        lemma_message_determines_files(files.push(f), files);
        assert(files.push(f).to_multiset().count(f) == files.to_multiset().count(f) + 1);
    }
}

proof fn lemma_hex_bytes_len(d: Seq<u8>)
    ensures
        hex_bytes(d).len() == 2 * d.len(),
    decreases d.len(),
{
    if d.len() > 0 {
        lemma_hex_bytes_len(d.drop_last());
        reveal_with_fuel(hex_digits, 3);
    }
}

/// Every checksum of a set of files is 64 hexadecimal digits.
pub proof fn lemma_files_checksum_len(files: Seq<(Seq<u8>, Seq<u8>)>)
    requires
        sha256_digest(checksum_message(files)).len() == 32,
    ensures
        files_checksum(files).len() == 64,
{
    lemma_hex_bytes_len(sha256_digest(checksum_message(files)));
}

// ---------------------------------------------------------------------------
// Executable parts.

fn bytes_le_exec(a: &Vec<u8>, b: &Vec<u8>) -> (res: bool)
    ensures
        res == bytes_le(a@, b@),
{
    let mut i: usize = 0;
    assert(a@.skip(0) =~= a@ && b@.skip(0) =~= b@);
    loop
        invariant
            i <= a.len(),
            i <= b.len(),
            bytes_le(a@, b@) == bytes_le(a@.skip(i as int), b@.skip(i as int)),
        decreases a.len() - i,
    {
        if i == a.len() {
            return true;
        }
        if i == b.len() {
            return false;
        }
        if a[i] != b[i] {
            return a[i] < b[i];
        }
        assert(a@.skip(i as int).drop_first() =~= a@.skip(i + 1));
        assert(b@.skip(i as int).drop_first() =~= b@.skip(i + 1));
        i = i + 1;
    }
}

fn file_le_exec(x: &crate::manifest::KeyFile, y: &crate::manifest::KeyFile) -> (res: bool)
    ensures
        res == file_le(x.view_pair(), y.view_pair()),
{
    let le = bytes_le_exec(&x.path, &y.path);
    let ge = bytes_le_exec(&y.path, &x.path);
    if le && ge {
        proof {
            lemma_bytes_le_antisymmetric(x.path@, y.path@);
        }
        bytes_le_exec(&x.content, &y.content)
    } else {
        proof {
            if x.path@ == y.path@ {
                lemma_bytes_le_reflexive(x.path@);
            }
        }
        le
    }
}

pub open spec fn refs_view(s: Seq<&crate::manifest::KeyFile>) -> Seq<(Seq<u8>, Seq<u8>)> {
    s.map_values(|f: &crate::manifest::KeyFile| f.view_pair())
}

/// The files in sorted path order.
fn sort_files(files: &Vec<crate::manifest::KeyFile>) -> (sorted: Vec<&crate::manifest::KeyFile>)
    ensures
        refs_view(sorted@) == sorted_files(crate::manifest::files_view(files@)),
{
    let ghost all = crate::manifest::files_view(files@);
    let ghost r = file_order();
    proof {
        lemma_file_order_total();
    }
    let mut sorted: Vec<&crate::manifest::KeyFile> = Vec::new();
    let mut i: usize = 0;
    assert(refs_view(sorted@) =~= all.take(0));
    while i < files.len()
        invariant
            i <= files.len(),
            all == crate::manifest::files_view(files@),
            r == file_order(),
            total_ordering(r),
            sorted_by(refs_view(sorted@), r),
            refs_view(sorted@).to_multiset() == all.take(i as int).to_multiset(),
        decreases files.len() - i,
    {
        let x = &files[i];
        let mut p: usize = 0;
        while p < sorted.len() && file_le_exec(sorted[p], x)
            invariant
                p <= sorted.len(),
                forall|k: int| 0 <= k < p ==> file_le(#[trigger] refs_view(sorted@)[k], x.view_pair()),
            decreases sorted.len() - p,
        {
            p = p + 1;
        }
        let ghost before = refs_view(sorted@);
        sorted.insert(p, x);
        proof {
            let after = refs_view(sorted@);
            assert(after =~= before.insert(p as int, x.view_pair()));
            if p < before.len() {
                assert(!file_le(before[p as int], x.view_pair()));
                assert(r(before[p as int], x.view_pair()) || r(x.view_pair(), before[p as int]));
            }
            assert forall|a: int, b: int| 0 <= a < b < after.len() implies #[trigger] r(
                after[a],
                after[b],
            ) by {
                if b == p {
                    assert(after[a] == before[a]);
                } else if a == p {
                    assert(after[b] == before[b - 1]);
                    if b - 1 > p {
                        assert(r(before[p as int], before[b - 1]));
                    }
                } else {
                    let a0 = if a < p {
                        a
                    } else {
                        a - 1
                    };
                    let b0 = if b < p {
                        b
                    } else {
                        b - 1
                    };
                    assert(after[a] == before[a0] && after[b] == before[b0]);
                    assert(r(before[a0], before[b0]));
                }
            }
            vstd::seq_lib::to_multiset_insert(before, p as int, x.view_pair());
            assert(all.take(i + 1) =~= all.take(i as int).push(x.view_pair()));
            vstd::seq_lib::to_multiset_build(all.take(i as int), x.view_pair());
        }
        i = i + 1;
    }
    proof {
        assert(all.take(files.len() as int) =~= all);
        all.lemma_sort_by_ensures(r);
        vstd::seq_lib::lemma_sorted_unique(refs_view(sorted@), sorted_files(all), r);
    }
    sorted
}

fn push_bytes(out: &mut Vec<u8>, src: &Vec<u8>)
    ensures
        final(out)@ == old(out)@ + src@,
{
    let mut i: usize = 0;
    while i < src.len()
        invariant
            i <= src.len(),
            out@ == old(out)@ + src@.take(i as int),
        decreases src.len() - i,
    {
        out.push(src[i]);
        i = i + 1;
        assert(out@ =~= old(out)@ + src@.take(i as int));
    }
    assert(src@.take(src.len() as int) =~= src@);
}

fn push_decimal_bytes(out: &mut Vec<u8>, n: u64)
    ensures
        final(out)@ == old(out)@ + decimal_bytes(n as nat),
    decreases n,
{
    if n >= 10 {
        push_decimal_bytes(out, n / 10);
    }
    out.push((48 + n % 10) as u8);
    assert(final(out)@ =~= old(out)@ + decimal_bytes(n as nat));
}

fn push_record(out: &mut Vec<u8>, f: &crate::manifest::KeyFile)
    ensures
        final(out)@ == old(out)@ + file_record(f.view_pair()),
{
    push_bytes(out, &f.path);
    out.push(0u8);
    push_decimal_bytes(out, f.content.len() as u64);
    out.push(0u8);
    push_bytes(out, &f.content);
    assert(final(out)@ =~= old(out)@ + file_record(f.view_pair()));
}

/// The checksum of the files (see [`files_checksum`]).
pub fn checksum_of_files(files: &Vec<crate::manifest::KeyFile>) -> (res: String)
    ensures
        res@ == files_checksum(crate::manifest::files_view(files@)),
        res@.len() == 64,
{
    let sorted = sort_files(files);
    let ghost recs = refs_view(sorted@).map_values(|f: (Seq<u8>, Seq<u8>)| file_record(f));
    let mut message: Vec<u8> = Vec::new();
    let mut k: usize = 0;
    while k < sorted.len()
        invariant
            k <= sorted.len(),
            recs == refs_view(sorted@).map_values(|f: (Seq<u8>, Seq<u8>)| file_record(f)),
            message@ == recs.take(k as int).flatten(),
        decreases sorted.len() - k,
    {
        push_record(&mut message, sorted[k]);
        proof {
            assert(recs.take(k + 1) =~= recs.take(k as int).push(recs[k as int]));
            recs.take(k as int).lemma_flatten_push(recs[k as int]);
        }
        k = k + 1;
    }
    assert(recs.take(sorted.len() as int) =~= recs);
    let digest = sha256(&message);
    let mut s = String::new();
    let mut j: usize = 0;
    while j < digest.len()
        invariant
            j <= digest.len(),
            s@ == hex_bytes(digest@.take(j as int)),
        decreases digest.len() - j,
    {
        push_hex(&mut s, digest[j] as u64, 2);
        assert(digest@.take(j + 1).drop_last() =~= digest@.take(j as int));
        j = j + 1;
    }
    assert(digest@.take(digest.len() as int) =~= digest@);
    proof {
        lemma_hex_bytes_len(digest@);
    }
    s
}

} // verus!
