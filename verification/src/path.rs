//! File-system paths as strings, read the way the platform reads them.
//!
//! On Unix a path is split on `/`.  On Windows `\\` separates segments as
//! well, and a drive such as `C:` at the start is a prefix that comes
//! before everything else.  After the prefix, a separator is the root.
//! Empty segments (repeated or trailing separators) and `.` segments after
//! the first one carry no component; `..` is the parent component; every
//! other segment is a normal component.  A lone `.` first in the body of a
//! path without a root is the current-directory component.
use vstd::prelude::*;
use crate::platform::Platform;
use crate::text::{chars_of, extend_chars, slice_to_vec, string_from_chars};

verus! {

/// Whether `c` separates path segments: `/` everywhere, and `\\` on Windows too.
pub open spec fn is_sep(pl: Platform, c: char) -> bool {
    c == '/' || (pl == Platform::Windows && c == '\\')
}

/// The separator that joining puts between two paths.
pub open spec fn main_sep(pl: Platform) -> char {
    match pl {
        Platform::Windows => '\\',
        Platform::Unix => '/',
    }
}

/// An ASCII letter, as names a drive.
pub open spec fn is_drive_letter(c: char) -> bool {
    ('a' <= c && c <= 'z') || ('A' <= c && c <= 'Z')
}

/// The length of the prefix of `p`: two for a Windows drive such as `C:`,
/// zero otherwise.
pub open spec fn prefix_len(pl: Platform, p: Seq<char>) -> int {
    if pl == Platform::Windows && p.len() >= 2 && is_drive_letter(p[0]) && p[1] == ':' {
        2
    } else {
        0
    }
}

/// `p` has a root: a separator right after its prefix.
pub open spec fn has_root(pl: Platform, p: Seq<char>) -> bool {
    prefix_len(pl, p) < p.len() && is_sep(pl, p[prefix_len(pl, p)])
}

/// `p` is absolute: it has a root, and on Windows a drive before it.
pub open spec fn is_absolute(pl: Platform, p: Seq<char>) -> bool {
    has_root(pl, p) && (pl == Platform::Unix || prefix_len(pl, p) == 2)
}

/// `p` starts (after its prefix) with the current directory: a lone `.`
/// first in a path without a root.
pub open spec fn has_cur_dir(pl: Platform, p: Seq<char>) -> bool {
    let k = prefix_len(pl, p);
    &&& k < p.len()
    &&& p[k] == '.'
    &&& (k + 1 == p.len() || is_sep(pl, p[k + 1]))
}

/// `p[j]` is a lone `.` segment.
pub open spec fn lone_dot_at(pl: Platform, p: Seq<char>, j: int) -> bool {
    &&& prefix_len(pl, p) <= j < p.len()
    &&& p[j] == '.'
    &&& (j == prefix_len(pl, p) || is_sep(pl, p[j - 1]))
    &&& (j + 1 == p.len() || is_sep(pl, p[j + 1]))
}

/// From index `k` on, `p` holds only separators and lone `.` segments.
pub open spec fn ignorable_from(pl: Platform, p: Seq<char>, k: int) -> bool {
    forall|j: int| #![trigger p[j]] k <= j < p.len() ==> (is_sep(pl, p[j]) || lone_dot_at(pl, p, j))
}

/// `p[a..b]` is a whole segment: non-empty, after the prefix, bounded by
/// separators or the ends of the body of `p`.
pub open spec fn is_segment(pl: Platform, p: Seq<char>, a: int, b: int) -> bool {
    &&& prefix_len(pl, p) <= a < b <= p.len()
    &&& (a == prefix_len(pl, p) || is_sep(pl, p[a - 1]))
    &&& (b == p.len() || is_sep(pl, p[b]))
    &&& forall|i: int| a <= i < b ==> !is_sep(pl, #[trigger] p[i])
}

/// `p[a..b]` is the segment that gives the last component of `p`
/// (a normal component or `..`).
pub open spec fn is_last_segment(pl: Platform, p: Seq<char>, a: int, b: int) -> bool {
    &&& is_segment(pl, p, a, b)
    &&& !(b == a + 1 && p[a] == '.')
    &&& ignorable_from(pl, p, b)
}

/// `p` has a segment that gives its last component.
pub open spec fn has_last_segment(pl: Platform, p: Seq<char>) -> bool {
    exists|a: int, b: int| is_last_segment(pl, p, a, b)
}

/// The bounds of the segment that gives the last component of `p`.
pub open spec fn last_bounds(pl: Platform, p: Seq<char>) -> (int, int)
    recommends
        has_last_segment(pl, p),
{
    choose|a: int, b: int| is_last_segment(pl, p, a, b)
}

/// The text of the segment that gives the last component of `p`.
pub open spec fn last_segment(pl: Platform, p: Seq<char>) -> Seq<char>
    recommends
        has_last_segment(pl, p),
{
    p.subrange(last_bounds(pl, p).0, last_bounds(pl, p).1)
}

/// The dot-dot segment.
pub open spec fn dot_dot() -> Seq<char> {
    seq!['.', '.']
}

/// The file name of `p`: its last component when that is a normal one.
pub open spec fn spec_file_name(pl: Platform, p: Seq<char>) -> Option<Seq<char>> {
    if has_last_segment(pl, p) && last_segment(pl, p) != dot_dot() {
        Some(last_segment(pl, p))
    } else {
        None
    }
}

/// The text of the last component of `p`, if `p` has any component: a
/// segment, else the root (as the platform's separator), else the current
/// directory `.`, else the prefix.
pub open spec fn spec_last_component(pl: Platform, p: Seq<char>) -> Option<Seq<char>> {
    if has_last_segment(pl, p) {
        Some(last_segment(pl, p))
    } else if has_root(pl, p) {
        Some(seq![main_sep(pl)])
    } else if prefix_len(pl, p) < p.len() {
        Some(seq!['.'])
    } else if prefix_len(pl, p) > 0 {
        Some(p)
    } else {
        None
    }
}

/// `base` joined with `rel`: `rel` itself when it is absolute or has a
/// prefix; the prefix of `base` followed by `rel` when `rel` has a root but
/// no prefix; otherwise the two with the platform's separator between them,
/// unless `base` is empty, is a lone prefix, or already ends with a separator.
pub open spec fn spec_join(pl: Platform, base: Seq<char>, rel: Seq<char>) -> Seq<char> {
    if is_absolute(pl, rel) || prefix_len(pl, rel) > 0 {
        rel
    } else if has_root(pl, rel) {
        base.take(prefix_len(pl, base)) + rel
    } else if base.len() == prefix_len(pl, base) || is_sep(pl, base[base.len() - 1]) {
        base + rel
    } else {
        base + seq![main_sep(pl)] + rel
    }
}

/// The last segment of a path is unique.
pub proof fn lemma_last_segment_unique(pl: Platform, p: Seq<char>, a1: int, b1: int, a2: int, b2: int)
    requires
        is_last_segment(pl, p, a1, b1),
        is_last_segment(pl, p, a2, b2),
    ensures
        a1 == a2 && b1 == b2,
{
    if b1 < b2 {
        let j = b2 - 1;
        assert(!is_sep(pl, p[j]));
        assert(is_sep(pl, p[j]) || lone_dot_at(pl, p, j));
        if a2 < j {
            assert(!is_sep(pl, p[j - 1]));
        }
        assert(a2 == j);
    } else if b2 < b1 {
        let j = b1 - 1;
        assert(!is_sep(pl, p[j]));
        assert(is_sep(pl, p[j]) || lone_dot_at(pl, p, j));
        if a1 < j {
            assert(!is_sep(pl, p[j - 1]));
        }
        assert(a1 == j);
    } else {
        if a1 < a2 {
            assert(is_sep(pl, p[a2 - 1]));
            assert(!is_sep(pl, p[a2 - 1]));
        } else if a2 < a1 {
            assert(is_sep(pl, p[a1 - 1]));
            assert(!is_sep(pl, p[a1 - 1]));
        }
    }
}

/// The bounds of the last segment, once one is known.
pub proof fn lemma_last_bounds(pl: Platform, p: Seq<char>, a: int, b: int)
    requires
        is_last_segment(pl, p, a, b),
    ensures
        has_last_segment(pl, p),
        last_bounds(pl, p) == (a, b),
        last_segment(pl, p) == p.subrange(a, b),
{
    let (a2, b2) = last_bounds(pl, p);
    lemma_last_segment_unique(pl, p, a, b, a2, b2);
}

/// A plain name: non-empty, without separators or a drive prefix, and
/// neither `.` nor `..`.
pub open spec fn is_plain_name(pl: Platform, n: Seq<char>) -> bool {
    &&& n.len() > 0
    &&& prefix_len(pl, n) == 0
    &&& forall|i: int| 0 <= i < n.len() ==> !is_sep(pl, #[trigger] n[i])
    &&& n != seq!['.']
    &&& n != dot_dot()
}

/// Joining a plain name onto a path gives a path whose file name is that name.
pub proof fn lemma_join_file_name(pl: Platform, base: Seq<char>, name: Seq<char>)
    requires
        is_plain_name(pl, name),
    ensures
        spec_file_name(pl, spec_join(pl, base, name)) == Some(name),
{
    let j = spec_join(pl, base, name);
    assert(!has_root(pl, name)) by {
        assert(!is_sep(pl, name[0]));
    }
    let a = j.len() - name.len();
    assert(j.subrange(a, j.len() as int) =~= name);
    assert forall|i: int| a <= i < j.len() implies !is_sep(pl, #[trigger] j[i]) by {
        assert(j[i] == name[i - a]);
    }
    if base.len() == prefix_len(pl, base) {
        assert(j =~= base + name);
        if base.len() == 2 {
            assert(j[0] == base[0] && j[1] == base[1]);
            assert(prefix_len(pl, j) == 2);
        } else {
            assert(j =~= name);
        }
    } else if is_sep(pl, base[base.len() - 1]) {
        assert(j =~= base + name);
        assert(j[a - 1] == base[base.len() - 1]);
        if prefix_len(pl, j) == 2 {
            assert(j[0] == base[0] && j[1] == base[1]);
            assert(prefix_len(pl, base) == 2);
        }
    } else {
        assert(j =~= base + seq![main_sep(pl)] + name);
        assert(j[a - 1] == main_sep(pl));
        if prefix_len(pl, j) == 2 {
            if base.len() >= 2 {
                assert(j[0] == base[0] && j[1] == base[1]);
            }
        }
    }
    assert(!(j.len() == a + 1 && j[a] == '.')) by {
        if name.len() == 1 && name[0] == '.' {
            assert(name =~= seq!['.']);
        }
    }
    assert(is_last_segment(pl, j, a, j.len() as int));
    lemma_last_bounds(pl, j, a, j.len() as int);
    assert(last_segment(pl, j) =~= name);
}

/// Whether `c` separates path segments on the platform.
pub fn sep_char(pl: Platform, c: char) -> (r: bool)
    ensures
        r == is_sep(pl, c),
{
    match pl {
        Platform::Windows => c == '/' || c == '\\',
        Platform::Unix => c == '/',
    }
}

/// The separator that joining puts between two paths.
pub fn main_separator(pl: Platform) -> (r: char)
    ensures
        r == main_sep(pl),
{
    match pl {
        Platform::Windows => '\\',
        Platform::Unix => '/',
    }
}

/// The length of the prefix of a path (see `prefix_len`).
pub fn prefix_length(pl: Platform, p: &[char]) -> (r: usize)
    ensures
        r == prefix_len(pl, p@),
{
    match pl {
        Platform::Windows => {
            if p.len() >= 2 && (('a' <= p[0] && p[0] <= 'z') || ('A' <= p[0] && p[0] <= 'Z')) && p[1] == ':' {
                2
            } else {
                0
            }
        },
        Platform::Unix => 0,
    }
}

/// Locate the last segment of `p`, scanning from the end.
pub fn find_last_segment(pl: Platform, p: &[char]) -> (r: Option<(usize, usize)>)
    ensures
        match r {
            Some((a, b)) => is_last_segment(pl, p@, a as int, b as int),
            None => !has_last_segment(pl, p@) && ignorable_from(pl, p@, prefix_len(pl, p@)),
        },
{
    let n = p.len();
    let start = prefix_length(pl, p);
    // skip trailing separators and lone dots
    let mut b: usize = n;
    while b > start && (sep_char(pl, p[b - 1]) || (p[b - 1] == '.' && (b - 1 == start || sep_char(pl, p[b - 2]))))
        invariant
            n == p@.len(),
            start == prefix_len(pl, p@),
            start <= b <= n,
            ignorable_from(pl, p@, b as int),
            start < b < n ==> (is_sep(pl, p@[b as int]) || lone_dot_at(pl, p@, b as int)),
        decreases b,
    {
        if !sep_char(pl, p[b - 1]) {
            assert(lone_dot_at(pl, p@, b - 1));
        }
        b = b - 1;
    }
    if b == start {
        assert forall|a: int, bb: int| !is_last_segment(pl, p@, a, bb) by {
            if is_last_segment(pl, p@, a, bb) {
                let j = bb - 1;
                assert(!is_sep(pl, p@[j]));
                assert(is_sep(pl, p@[j]) || lone_dot_at(pl, p@, j));
                if a < j {
                    assert(!is_sep(pl, p@[j - 1]));
                }
            }
        }
        return None;
    }
    // p[b-1] is a non-separator that does not form a lone dot
    let mut a: usize = b - 1;
    while a > start && !sep_char(pl, p[a - 1])
        invariant
            n == p@.len(),
            start == prefix_len(pl, p@),
            start < b <= n,
            start <= a < b,
            forall|i: int| a <= i < b ==> !is_sep(pl, #[trigger] p@[i]),
        decreases a,
    {
        a = a - 1;
    }
    assert(!(b == a + 1 && p@[a as int] == '.'));
    Some((a, b))
}

/// The file name of a path (the last component, when it is a normal one).
pub fn file_name(pl: Platform, p: &str) -> (r: Option<String>)
    ensures
        match r {
            Some(s) => spec_file_name(pl, p@) == Some(s@),
            None => spec_file_name(pl, p@) is None,
        },
{
    let v = chars_of(p);
    match find_last_segment(pl, v.as_slice()) {
        Some((a, b)) => {
            proof {
                lemma_last_bounds(pl, p@, a as int, b as int);
            }
            let seg = slice_to_vec(v.as_slice(), a, b);
            if b - a == 2 && v[a] == '.' && v[a + 1] == '.' {
                assert(seg@ =~= dot_dot());
                None
            } else {
                proof {
                    if seg@ == dot_dot() {
                        assert(seg@.len() == 2);
                        assert(seg@[0] == v@[a as int]);
                        assert(seg@[1] == v@[a + 1]);
                    }
                }
                Some(string_from_chars(seg.as_slice()))
            }
        },
        None => None,
    }
}

/// The text of the last component of a path, if it has one.
pub fn last_component(pl: Platform, p: &str) -> (r: Option<String>)
    ensures
        match r {
            Some(s) => spec_last_component(pl, p@) == Some(s@),
            None => spec_last_component(pl, p@) is None,
        },
{
    let v = chars_of(p);
    match find_last_segment(pl, v.as_slice()) {
        Some((a, b)) => {
            proof {
                lemma_last_bounds(pl, p@, a as int, b as int);
            }
            let seg = slice_to_vec(v.as_slice(), a, b);
            Some(string_from_chars(seg.as_slice()))
        },
        None => {
            let k = prefix_length(pl, v.as_slice());
            if k < v.len() && sep_char(pl, v[k]) {
                let root: Vec<char> = vec![main_separator(pl)];
                assert(root@ =~= seq![main_sep(pl)]);
                Some(string_from_chars(root.as_slice()))
            } else if k < v.len() {
                let cur: Vec<char> = vec!['.'];
                assert(cur@ =~= seq!['.']);
                Some(string_from_chars(cur.as_slice()))
            } else if k > 0 {
                Some(string_from_chars(v.as_slice()))
            } else {
                None
            }
        },
    }
}

/// Join `rel` onto `base` (see `spec_join`).
pub fn join(pl: Platform, base: &str, rel: &str) -> (r: String)
    ensures
        r@ == spec_join(pl, base@, rel@),
{
    let vb = chars_of(base);
    let vr = chars_of(rel);
    let kr = prefix_length(pl, vr.as_slice());
    let kb = prefix_length(pl, vb.as_slice());
    let rel_root = kr < vr.len() && sep_char(pl, vr[kr]);
    let rel_absolute = rel_root && (match pl {
        Platform::Unix => true,
        Platform::Windows => kr == 2,
    });
    if rel_absolute || kr > 0 {
        return string_from_chars(vr.as_slice());
    }
    if rel_root {
        let mut out = slice_to_vec(vb.as_slice(), 0, kb);
        extend_chars(&mut out, vr.as_slice());
        assert(vb@.subrange(0, kb as int) =~= vb@.take(kb as int));
        return string_from_chars(out.as_slice());
    }
    let mut out = vb;
    if out.len() > kb && !sep_char(pl, out[out.len() - 1]) {
        out.push(main_separator(pl));
    }
    extend_chars(&mut out, vr.as_slice());
    string_from_chars(out.as_slice())
}

} // verus!

verus! {

/// The position of the last `.` of `n` among positions `1..k`, or 0 when there is none.
pub open spec fn last_inner_dot(n: Seq<char>, k: int) -> int
    decreases k,
{
    if k <= 1 {
        0
    } else if n[k - 1] == '.' {
        k - 1
    } else {
        last_inner_dot(n, k - 1)
    }
}

/// The stem of a file name: the whole name when its only `.` (if any) is
/// its first character, else the part before its final `.`.
pub open spec fn spec_file_stem(n: Seq<char>) -> Seq<char> {
    if last_inner_dot(n, n.len() as int) == 0 {
        n
    } else {
        n.take(last_inner_dot(n, n.len() as int))
    }
}

/// `p` with the extension of its file name set to `ext` (removed when `ext`
/// is empty), or nothing when `p` has no file name.
pub open spec fn spec_set_extension(pl: Platform, p: Seq<char>, ext: Seq<char>) -> Option<Seq<char>> {
    if has_last_segment(pl, p) && last_segment(pl, p) != dot_dot() {
        Some(p.take(last_bounds(pl, p).0) + spec_file_stem(last_segment(pl, p)) + (if ext.len() == 0 {
            Seq::<char>::empty()
        } else {
            seq!['.'] + ext
        }))
    } else {
        None
    }
}

/// `p` with the extension of its file name set to `ext` (see `spec_set_extension`).
pub fn set_extension(pl: Platform, p: &str, ext: &str) -> (r: Option<String>)
    ensures
        match r {
            Some(s) => spec_set_extension(pl, p@, ext@) == Some(s@),
            None => spec_set_extension(pl, p@, ext@) is None,
        },
{
    let v = chars_of(p);
    match find_last_segment(pl, v.as_slice()) {
        Some((a, b)) => {
            proof {
                lemma_last_bounds(pl, p@, a as int, b as int);
            }
            let seg = slice_to_vec(v.as_slice(), a, b);
            if b - a == 2 && v[a] == '.' && v[a + 1] == '.' {
                assert(seg@ =~= dot_dot());
                return None;
            }
            proof {
                if seg@ == dot_dot() {
                    assert(seg@[0] == v@[a as int] && seg@[1] == v@[a + 1]);
                }
            }
            // the stem ends before the last dot past the first character
            let mut k: usize = seg.len();
            while k > 1 && seg[k - 1] != '.'
                invariant
                    k <= seg@.len(),
                    last_inner_dot(seg@, seg@.len() as int) == last_inner_dot(seg@, k as int),
                decreases k,
            {
                k = k - 1;
            }
            let stem_end: usize = if k <= 1 { seg.len() } else { k - 1 };
            let mut out = slice_to_vec(v.as_slice(), 0, a);
            let stem = slice_to_vec(seg.as_slice(), 0, stem_end);
            assert(stem@ == spec_file_stem(seg@)) by {
                if k <= 1 {
                    assert(seg@.take(seg@.len() as int) =~= seg@);
                }
            }
            extend_chars(&mut out, stem.as_slice());
            let e = chars_of(ext);
            if e.len() > 0 {
                out.push('.');
                let ghost before = out@;
                extend_chars(&mut out, e.as_slice());
                assert(out@ =~= v@.take(a as int) + stem@ + (seq!['.'] + e@));
            } else {
                assert(out@ =~= v@.take(a as int) + stem@ + Seq::<char>::empty());
            }
            assert(v@.subrange(0, a as int) =~= p@.take(a as int));
            Some(string_from_chars(out.as_slice()))
        },
        None => None,
    }
}

} // verus!

verus! {

/// Where the body of `q` starts: after its prefix, its root and its
/// current directory, those it has.
pub open spec fn body_start(pl: Platform, q: Seq<char>) -> int {
    prefix_len(pl, q) + (if has_root(pl, q) {
        1int
    } else if has_cur_dir(pl, q) {
        1int
    } else {
        0int
    })
}

/// What is left of `q` once trailing separators and lone dots are dropped:
/// up to the end of its last segment, else its prefix, root and current
/// directory, those it has.
pub open spec fn trimmed_prefix(pl: Platform, q: Seq<char>) -> Seq<char> {
    if has_last_segment(pl, q) {
        q.take(last_bounds(pl, q).1)
    } else {
        q.take(body_start(pl, q))
    }
}

/// The parent of `p`: `p` without its last component, when that component
/// is a segment or the current directory; nothing for a root, a lone
/// prefix or an empty path.
pub open spec fn spec_parent(pl: Platform, p: Seq<char>) -> Option<Seq<char>> {
    if has_last_segment(pl, p) {
        Some(trimmed_prefix(pl, p.take(last_bounds(pl, p).0)))
    } else if p.len() == prefix_len(pl, p) || has_root(pl, p) {
        None
    } else {
        Some(p.take(prefix_len(pl, p)))
    }
}

/// See `trimmed_prefix`.
fn trimmed_prefix_exec(pl: Platform, q: &[char]) -> (r: Vec<char>)
    ensures
        r@ == trimmed_prefix(pl, q@),
{
    match find_last_segment(pl, q) {
        Some((a, b)) => {
            proof {
                lemma_last_bounds(pl, q@, a as int, b as int);
            }
            let r = slice_to_vec(q, 0, b);
            assert(r@ =~= q@.take(b as int));
            r
        },
        None => {
            let k = prefix_length(pl, q);
            let end: usize = if k < q.len() && sep_char(pl, q[k]) {
                k + 1
            } else if k < q.len() && q[k] == '.' && (k + 1 == q.len() || sep_char(pl, q[k + 1])) {
                k + 1
            } else {
                k
            };
            let r = slice_to_vec(q, 0, end);
            assert(r@ =~= q@.take(end as int));
            r
        },
    }
}

/// The parent of a path (see `spec_parent`).
pub fn parent(pl: Platform, p: &str) -> (r: Option<String>)
    ensures
        match r {
            Some(s) => spec_parent(pl, p@) == Some(s@),
            None => spec_parent(pl, p@) is None,
        },
{
    let v = chars_of(p);
    match find_last_segment(pl, v.as_slice()) {
        Some((a, b)) => {
            proof {
                lemma_last_bounds(pl, p@, a as int, b as int);
            }
            let q = slice_to_vec(v.as_slice(), 0, a);
            assert(q@ =~= p@.take(a as int));
            proof {
                // the part before the last segment keeps the prefix
                assert(prefix_len(pl, q@) == prefix_len(pl, p@));
            }
            let t = trimmed_prefix_exec(pl, q.as_slice());
            Some(string_from_chars(t.as_slice()))
        },
        None => {
            let k = prefix_length(pl, v.as_slice());
            if k == v.len() || sep_char(pl, v[k]) {
                None
            } else {
                let q = slice_to_vec(v.as_slice(), 0, k);
                assert(q@ =~= p@.take(k as int));
                Some(string_from_chars(q.as_slice()))
            }
        },
    }
}

} // verus!
