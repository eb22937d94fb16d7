//! Normal forms of filesystem paths and URI paths, and segment-wise prefix containment.
use vstd::prelude::*;

verus! {

/// The pieces of `p` between slashes, empty pieces included: `"/a//b"` gives
/// `["", "a", "", "b"]`, and the empty text gives one empty piece.
pub open spec fn split_slash(p: Seq<char>) -> Seq<Seq<char>>
    decreases p.len(),
{
    if p.len() == 0 {
        seq![Seq::empty()]
    } else {
        let prev = split_slash(p.drop_last());
        if p.last() == '/' {
            prev.push(Seq::empty())
        } else {
            prev.update(prev.len() - 1, prev.last().push(p.last()))
        }
    }
}

/// The non-empty segments of `segs`, each preceded by one slash.
pub open spec fn join_nonempty(segs: Seq<Seq<char>>) -> Seq<char>
    decreases segs.len(),
{
    if segs.len() == 0 {
        Seq::empty()
    } else {
        let rest = join_nonempty(segs.drop_last());
        if segs.last().len() == 0 {
            rest
        } else {
            rest + seq!['/'] + segs.last()
        }
    }
}

/// `.` or `..`.
pub open spec fn is_dot_segment(s: Seq<char>) -> bool {
    s == seq!['.'] || s == seq!['.', '.']
}

pub open spec fn has_dot_segment(segs: Seq<Seq<char>>) -> bool {
    exists|k: int| 0 <= k < segs.len() && is_dot_segment(#[trigger] segs[k])
}

pub open spec fn has_char(p: Seq<char>, c: char) -> bool {
    exists|k: int| 0 <= k < p.len() && p[k] == c
}

/// The normal form of a filesystem path: it must be absolute, hold no NUL and no `.` or
/// `..` segment; empty segments are dropped and the rest joined by single slashes.
pub open spec fn normalize_fs(p: Seq<char>) -> Option<Seq<char>> {
    if p.len() > 0 && p[0] == '/' && !has_char(p, '\0') && !has_dot_segment(split_slash(p)) {
        let joined = join_nonempty(split_slash(p));
        Some(if joined.len() == 0 { seq!['/'] } else { joined })
    } else {
        None
    }
}

/// `%` followed by two ASCII hexadecimal digits, somewhere in `p`.
pub open spec fn has_pct_triplet(p: Seq<char>) -> bool {
    exists|i: int| 0 <= i && i + 2 < p.len() && #[trigger] p[i] == '%' && is_ascii_hex(p[i + 1])
        && is_ascii_hex(p[i + 2])
}

pub open spec fn is_ascii_hex(c: char) -> bool {
    ('0' <= c && c <= '9') || ('a' <= c && c <= 'f') || ('A' <= c && c <= 'F')
}

/// The normal form of the path of a URI: as for a filesystem path, with the empty path read
/// as `/`, and with any backslash or percent-encoded byte refused.
pub open spec fn normalize_uri(p: Seq<char>) -> Option<Seq<char>> {
    let raw = if p.len() == 0 { seq!['/'] } else { p };
    if has_char(raw, '\\') || has_pct_triplet(raw) {
        None
    } else {
        normalize_fs(raw)
    }
}

/// `candidate` lies under `prefix` at a segment boundary; the prefix `/` holds every
/// absolute path.
pub open spec fn within_prefix(candidate: Seq<char>, prefix: Seq<char>) -> bool {
    if prefix == seq!['/'] {
        candidate.len() > 0 && candidate[0] == '/'
    } else {
        candidate == prefix || (prefix.len() < candidate.len() && candidate.take(prefix.len() as int)
            == prefix && candidate[prefix.len() as int] == '/')
    }
}

/// Whether `a` and `b` hold the same characters.
pub fn chars_eq(a: &[char], b: &[char]) -> (r: bool)
    ensures
        r == (a@ == b@),
{
    if a.len() != b.len() {
        return false;
    }
    let mut i: usize = 0;
    while i < a.len()
        invariant
            a@.len() == b@.len(),
            i <= a@.len(),
            forall|k: int| 0 <= k < i ==> a@[k] == b@[k],
        decreases a.len() - i,
    {
        if a[i] != b[i] {
            return false;
        }
        i += 1;
    }
    assert(a@ =~= b@);
    true
}

fn is_dot_range(p: &[char], start: usize, end: usize) -> (r: bool)
    requires
        start <= end <= p@.len(),
    ensures
        r == is_dot_segment(p@.subrange(start as int, end as int)),
{
    let seg = Ghost(p@.subrange(start as int, end as int));
    if end - start == 1 {
        if p[start] == '.' {
            assert(seg@ =~= seq!['.']);
            true
        } else {
            assert(seg@[0] != seq!['.', '.'][0]);
            false
        }
    } else if end - start == 2 {
        if p[start] == '.' && p[start + 1] == '.' {
            assert(seg@ =~= seq!['.', '.']);
            true
        } else {
            assert(seg@[0] != seq!['.', '.'][0] || seg@[1] != seq!['.', '.'][1]);
            false
        }
    } else {
        assert(seg@.len() != 1 && seg@.len() != 2);
        false
    }
}

fn push_segment(out: &mut Vec<char>, p: &[char], start: usize, end: usize)
    requires
        start <= end <= p@.len(),
    ensures
        final(out)@ == if end > start {
            old(out)@ + seq!['/'] + p@.subrange(start as int, end as int)
        } else {
            old(out)@
        },
{
    if end > start {
        let ghost base = out@ + seq!['/'];
        out.push('/');
        let mut j: usize = start;
        while j < end
            invariant
                start <= j <= end <= p@.len(),
                out@ == base + p@.subrange(start as int, j as int),
            decreases end - j,
        {
            out.push(p[j]);
            j += 1;
            assert(out@ =~= base + p@.subrange(start as int, j as int));
        }
    }
}

/// The normal form of a filesystem path, or `None` where the path is refused.
pub fn normalize_fs_path(path: &[char]) -> (r: Option<Vec<char>>)
    ensures
        match r {
            Some(v) => normalize_fs(path@) == Some(v@),
            None => normalize_fs(path@) is None,
        },
{
    let n = path.len();
    if n == 0 || path[0] != '/' {
        return None;
    }
    let mut out: Vec<char> = Vec::new();
    let mut dot = false;
    let mut nul = false;
    let mut start: usize = 0;
    let mut i: usize = 0;
    let ghost mut done: Seq<Seq<char>> = Seq::empty();
    assert(path@.take(0) =~= Seq::<char>::empty());
    assert(path@.subrange(0, 0) =~= Seq::<char>::empty());
    while i < n
        invariant
            n == path@.len(),
            start <= i <= n,
            split_slash(path@.take(i as int)) == done.push(path@.subrange(start as int, i as int)),
            out@ == join_nonempty(done),
            dot == has_dot_segment(done),
            nul == has_char(path@.take(i as int), '\0'),
        decreases n - i,
    {
        let ghost prev = path@.take(i as int);
        let ghost cur = path@.subrange(start as int, i as int);
        assert(path@.take(i + 1).drop_last() =~= prev);
        assert(path@.take(i + 1).last() == path@[i as int]);
        let c = path[i];
        if c == '/' {
            if is_dot_range(path, start, i) {
                dot = true;
            }
            push_segment(&mut out, path, start, i);
            proof {
                let nd = done.push(cur);
                assert(nd.drop_last() =~= done);
                if is_dot_segment(cur) {
                    assert(is_dot_segment(nd[nd.len() - 1]));
                }
                if has_dot_segment(done) {
                    let k = choose|k: int| 0 <= k < done.len() && is_dot_segment(#[trigger] done[k]);
                    assert(nd[k] == done[k]);
                }
                if has_dot_segment(nd) {
                    let k = choose|k: int| 0 <= k < nd.len() && is_dot_segment(#[trigger] nd[k]);
                    if k < done.len() {
                        assert(done[k] == nd[k]);
                    }
                }
                done = nd;
                assert(path@.subrange(i + 1, i + 1) =~= Seq::<char>::empty());
            }
            start = i + 1;
        } else if c == '\0' {
            nul = true;
        }
        proof {
            let next = path@.take(i + 1);
            if has_char(next, '\0') {
                let k = choose|k: int| 0 <= k < next.len() && next[k] == '\0';
                if k < i {
                    assert(prev[k] == '\0');
                }
            }
            if has_char(prev, '\0') {
                let k = choose|k: int| 0 <= k < prev.len() && prev[k] == '\0';
                assert(next[k] == '\0');
            }
            if c == '\0' {
                assert(next[i as int] == '\0');
            }
            if c != '/' {
                assert(cur.push(c) =~= path@.subrange(start as int, i + 1));
                assert(done.push(cur).update(done.len() as int, cur.push(c)) =~= done.push(
                    path@.subrange(start as int, i + 1),
                ));
            }
        }
        i += 1;
    }
    assert(path@.take(n as int) =~= path@);
    if is_dot_range(path, start, n) {
        dot = true;
    }
    push_segment(&mut out, path, start, n);
    proof {
        let cur = path@.subrange(start as int, n as int);
        let nd = done.push(cur);
        assert(nd.drop_last() =~= done);
        if is_dot_segment(cur) {
            assert(is_dot_segment(nd[nd.len() - 1]));
        }
        if has_dot_segment(done) {
            let k = choose|k: int| 0 <= k < done.len() && is_dot_segment(#[trigger] done[k]);
            assert(nd[k] == done[k]);
        }
        if has_dot_segment(nd) {
            let k = choose|k: int| 0 <= k < nd.len() && is_dot_segment(#[trigger] nd[k]);
            if k < done.len() {
                assert(done[k] == nd[k]);
            }
        }
    }
    if dot || nul {
        return None;
    }
    if out.len() == 0 {
        let mut root: Vec<char> = Vec::new();
        root.push('/');
        assert(root@ =~= seq!['/']);
        return Some(root);
    }
    Some(out)
}

/// Whether `p` holds `%` followed by two ASCII hexadecimal digits.
pub fn contains_pct_encoded_triplet(p: &[char]) -> (r: bool)
    ensures
        r == has_pct_triplet(p@),
{
    let n = p.len();
    if n < 3 {
        return false;
    }
    let mut i: usize = 0;
    while i + 2 < n
        invariant
            n == p@.len(),
            n >= 3,
            i <= n - 2,
            forall|k: int|
                0 <= k < i ==> !(#[trigger] p@[k] == '%' && is_ascii_hex(p@[k + 1]) && is_ascii_hex(
                    p@[k + 2],
                )),
        decreases n - i,
    {
        let a = p[i + 1];
        let b = p[i + 2];
        if p[i] == '%' && (('0' <= a && a <= '9') || ('a' <= a && a <= 'f') || ('A' <= a && a
            <= 'F')) && (('0' <= b && b <= '9') || ('a' <= b && b <= 'f') || ('A' <= b && b
            <= 'F')) {
            return true;
        }
        i += 1;
    }
    false
}

fn has_char_exec(p: &[char], c: char) -> (r: bool)
    ensures
        r == has_char(p@, c),
{
    let mut i: usize = 0;
    while i < p.len()
        invariant
            i <= p@.len(),
            forall|k: int| 0 <= k < i ==> p@[k] != c,
        decreases p.len() - i,
    {
        if p[i] == c {
            return true;
        }
        i += 1;
    }
    false
}

/// The normal form of a URI path, or `None` where the path is refused.
pub fn normalize_uri_path(path: &[char]) -> (r: Option<Vec<char>>)
    ensures
        match r {
            Some(v) => normalize_uri(path@) == Some(v@),
            None => normalize_uri(path@) is None,
        },
{
    if path.len() == 0 {
        let root = ['/'];
        assert(root@ =~= seq!['/']);
        let slice = root.as_slice();
        if has_char_exec(slice, '\\') || contains_pct_encoded_triplet(slice) {
            return None;
        }
        return normalize_fs_path(slice);
    }
    if has_char_exec(path, '\\') || contains_pct_encoded_triplet(path) {
        return None;
    }
    normalize_fs_path(path)
}

/// Whether the normalized path `candidate` lies under the normalized path `prefix`.
pub fn is_within_prefix(candidate: &[char], prefix: &[char]) -> (r: bool)
    ensures
        r == within_prefix(candidate@, prefix@),
{
    if prefix.len() == 1 && prefix[0] == '/' {
        assert(prefix@ =~= seq!['/']);
        return candidate.len() > 0 && candidate[0] == '/';
    }
    assert(prefix@ != seq!['/']) by {
        if prefix@ == seq!['/'] {
            assert(prefix@.len() == 1 && prefix@[0] == '/');
        }
    }
    if chars_eq(candidate, prefix) {
        return true;
    }
    let m = prefix.len();
    if m >= candidate.len() {
        return false;
    }
    let mut i: usize = 0;
    while i < m
        invariant
            m == prefix@.len(),
            m < candidate@.len(),
            i <= m,
            forall|k: int| 0 <= k < i ==> candidate@[k] == prefix@[k],
        decreases m - i,
    {
        if candidate[i] != prefix[i] {
            assert(candidate@.take(m as int)[i as int] != prefix@[i as int]);
            return false;
        }
        i += 1;
    }
    assert(candidate@.take(m as int) =~= prefix@);
    candidate[m] == '/'
}

} // verus!
