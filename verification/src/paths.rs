//! Comparing paths component by component, as Unix paths compare.
use vstd::prelude::*;
use vstd::string::StrSliceExecFns;

verus! {

/// A segment between separators that names a component: not empty and not `.`.
pub open spec fn is_named_segment(s: Seq<char>) -> bool {
    s.len() > 0 && s != seq!['.']
}

/// Reading `p` from the left: the named segments closed by a separator so
/// far, and the segment still open.
pub open spec fn segment_scan(p: Seq<char>) -> (Seq<Seq<char>>, Seq<char>)
    decreases p.len(),
{
    if p.len() == 0 {
        (Seq::empty(), Seq::empty())
    } else {
        let (done, open) = segment_scan(p.drop_last());
        if p.last() == '/' {
            (
                if is_named_segment(open) {
                    done.push(open)
                } else {
                    done
                },
                Seq::empty(),
            )
        } else {
            (done, open.push(p.last()))
        }
    }
}

/// The named components of `p`: its segments between separators, without
/// empty segments (repeated or trailing separators) and without `.`.
pub open spec fn named_components(p: Seq<char>) -> Seq<Seq<char>> {
    let (done, open) = segment_scan(p);
    if is_named_segment(open) {
        done.push(open)
    } else {
        done
    }
}

/// `p` starts at the root.
pub open spec fn has_root(p: Seq<char>) -> bool {
    p.len() > 0 && p[0] == '/'
}

/// `p` is relative and starts with a `.` component (which is kept).
pub open spec fn has_leading_cur_dir(p: Seq<char>) -> bool {
    p.len() > 0 && p[0] == '.' && (p.len() == 1 || p[1] == '/')
}

/// `a` and `b` name the same path component by component, as `Path`'s
/// equality compares them on Unix: the root, a leading `.`, then the named
/// components.
pub open spec fn same_path(a: Seq<char>, b: Seq<char>) -> bool {
    &&& has_root(a) == has_root(b)
    &&& has_leading_cur_dir(a) == has_leading_cur_dir(b)
    &&& named_components(a) == named_components(b)
}

pub open spec fn segments_view(s: Seq<Vec<char>>) -> Seq<Seq<char>> {
    s.map_values(|v: Vec<char>| v@)
}

fn is_named(s: &Vec<char>) -> (res: bool)
    ensures
        res == is_named_segment(s@),
{
    if s.len() == 0 {
        return false;
    }
    if s.len() == 1 && s[0] == '.' {
        assert(s@ =~= seq!['.']);
        return false;
    }
    proof {
        if s@ == seq!['.'] {
            assert(s@.len() == 1 && s@[0] == '.');
        }
    }
    true
}

fn components(p: &str) -> (res: Vec<Vec<char>>)
    ensures
        segments_view(res@) == named_components(p@),
{
    let n = p.unicode_len();
    let mut done: Vec<Vec<char>> = Vec::new();
    let mut open: Vec<char> = Vec::new();
    let mut i: usize = 0;
    assert(p@.take(0) =~= Seq::<char>::empty());
    assert(segments_view(done@) =~= Seq::<Seq<char>>::empty());
    while i < n
        invariant
            n == p@.len(),
            i <= n,
            (segments_view(done@), open@) == segment_scan(p@.take(i as int)),
        decreases n - i,
    {
        let c = p.get_char(i);
        assert(p@.take(i + 1).drop_last() =~= p@.take(i as int));
        assert(p@.take(i + 1).last() == c);
        if c == '/' {
            if is_named(&open) {
                let ghost before = segments_view(done@);
                let ghost o = open@;
                done.push(open);
                assert(segments_view(done@) =~= before.push(o));
            }
            open = Vec::new();
            assert(open@ =~= Seq::<char>::empty());
        } else {
            open.push(c);
        }
        i = i + 1;
    }
    assert(p@.take(n as int) =~= p@);
    if is_named(&open) {
        let ghost before = segments_view(done@);
        let ghost o = open@;
        done.push(open);
        assert(segments_view(done@) =~= before.push(o));
    }
    done
}

fn same_chars(a: &Vec<char>, b: &Vec<char>) -> (res: bool)
    ensures
        res == (a@ == b@),
{
    if a.len() != b.len() {
        return false;
    }
    let mut i: usize = 0;
    while i < a.len()
        invariant
            a.len() == b.len(),
            i <= a.len(),
            forall|j: int| 0 <= j < i ==> a@[j] == b@[j],
        decreases a.len() - i,
    {
        if a[i] != b[i] {
            return false;
        }
        i = i + 1;
    }
    assert(a@ =~= b@);
    true
}

fn starts_root(p: &str) -> (res: bool)
    ensures
        res == has_root(p@),
{
    p.unicode_len() > 0 && p.get_char(0) == '/'
}

fn starts_cur_dir(p: &str) -> (res: bool)
    ensures
        res == has_leading_cur_dir(p@),
{
    let n = p.unicode_len();
    n > 0 && p.get_char(0) == '.' && (n == 1 || p.get_char(1) == '/')
}

/// Whether `a` and `b` name the same path (see [`same_path`]).
pub fn paths_equal(a: &str, b: &str) -> (res: bool)
    ensures
        res == same_path(a@, b@),
{
    if starts_root(a) != starts_root(b) || starts_cur_dir(a) != starts_cur_dir(b) {
        return false;
    }
    let ca = components(a);
    let cb = components(b);
    if ca.len() != cb.len() {
        assert(segments_view(ca@).len() != segments_view(cb@).len());
        return false;
    }
    let mut i: usize = 0;
    while i < ca.len()
        invariant
            ca.len() == cb.len(),
            i <= ca.len(),
            forall|j: int| 0 <= j < i ==> ca@[j]@ == cb@[j]@,
            segments_view(ca@) == named_components(a@),
            segments_view(cb@) == named_components(b@),
        decreases ca.len() - i,
    {
        if !same_chars(&ca[i], &cb[i]) {
            assert(segments_view(ca@)[i as int] == ca@[i as int]@);
            assert(segments_view(cb@)[i as int] == cb@[i as int]@);
            assert(segments_view(ca@)[i as int] != segments_view(cb@)[i as int]);
            assert(named_components(a@) != named_components(b@));
            return false;
        }
        i = i + 1;
    }
    assert(segments_view(ca@) =~= segments_view(cb@));
    true
}

} // verus!
