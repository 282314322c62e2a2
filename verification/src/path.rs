//! Request paths: trimming, the safety check that every request path must
//! pass, joining onto a base directory, and the extension of a file name.
//! Paths follow POSIX rules: `/` separates segments and a leading `/` makes
//! a path absolute.

use vstd::prelude::*;
use crate::text::{from_chars, to_chars};

verus! {

/// The characters that Unicode classes as white space.
pub open spec fn is_space(c: char) -> bool {
    let n = c as u32;
    (0x09 <= n && n <= 0x0D) || n == 0x20 || n == 0x85 || n == 0xA0 || n == 0x1680 || (0x2000 <= n
        && n <= 0x200A) || n == 0x2028 || n == 0x2029 || n == 0x202F || n == 0x205F || n == 0x3000
}

/// `s` without its leading white space.
pub open spec fn trim_front(s: Seq<char>) -> Seq<char>
    decreases s.len(),
{
    if s.len() > 0 && is_space(s[0]) {
        trim_front(s.subrange(1, s.len() as int))
    } else {
        s
    }
}

/// `s` without its trailing white space.
pub open spec fn trim_back(s: Seq<char>) -> Seq<char>
    decreases s.len(),
{
    if s.len() > 0 && is_space(s.last()) {
        trim_back(s.drop_last())
    } else {
        s
    }
}

/// `s` without surrounding white space.
pub open spec fn trimmed(s: Seq<char>) -> Seq<char> {
    trim_back(trim_front(s))
}

/// A path is absolute when it begins with the separator.
pub open spec fn is_absolute(p: Seq<char>) -> bool {
    p.len() > 0 && p[0] == '/'
}

/// A segment that is exactly `..` begins at position `i` of `p`.
pub open spec fn parent_segment_at(p: Seq<char>, i: int) -> bool {
    &&& 0 <= i && i + 2 <= p.len()
    &&& p[i] == '.' && p[i + 1] == '.'
    &&& (i == 0 || p[i - 1] == '/')
    &&& (i + 2 == p.len() || p[i + 2] == '/')
}

/// Some segment of `p` refers to a parent directory.
pub open spec fn has_parent_segment(p: Seq<char>) -> bool {
    exists|i: int| parent_segment_at(p, i)
}

/// What a request path must be, once trimmed, to be let through.
pub open spec fn safe_relative(p: Seq<char>) -> bool {
    p.len() > 0 && !is_absolute(p) && !has_parent_segment(p)
}

/// The relative path that a raw request path stands for, if it is safe.
pub open spec fn sanitized(raw: Seq<char>) -> Option<Seq<char>> {
    let t = trimmed(raw);
    if safe_relative(t) {
        Some(t)
    } else {
        None
    }
}

/// The characters of an optional string.
pub open spec fn text_of(o: Option<String>) -> Option<Seq<char>> {
    match o {
        Some(s) => Some(s@),
        None => None,
    }
}

/// `rel` resolved against `base`: an absolute `rel` replaces `base`;
/// otherwise one separator stands between them unless `base` is empty or
/// already ends with one.
pub open spec fn joined(base: Seq<char>, rel: Seq<char>) -> Seq<char> {
    if is_absolute(rel) {
        rel
    } else if base.len() > 0 && base.last() != '/' {
        base + seq!['/'] + rel
    } else {
        base + rel
    }
}

/// Where the file name of `p[..e]` ends: trailing separators and trailing
/// `.` segments do not count.
pub open spec fn name_end(p: Seq<char>, e: int) -> int
    decreases e,
{
    if e <= 0 {
        0
    } else if p[e - 1] == '/' || (p[e - 1] == '.' && (e == 1 || p[e - 2] == '/')) {
        name_end(p, e - 1)
    } else {
        e
    }
}

/// Where the segment that ends at `e` begins.
pub open spec fn name_start(p: Seq<char>, e: int) -> int
    decreases e,
{
    if e <= 0 {
        0
    } else if p[e - 1] == '/' {
        e
    } else {
        name_start(p, e - 1)
    }
}

/// The last segment of a path, unless the path ends in the root or in `..`.
pub open spec fn file_name(p: Seq<char>) -> Option<Seq<char>> {
    let e = name_end(p, p.len() as int);
    let name = p.subrange(name_start(p, e), e);
    if e == 0 || name == seq!['.', '.'] {
        None
    } else {
        Some(name)
    }
}

/// The position of the last `.` in `name[..e]`, or -1.
pub open spec fn last_dot(name: Seq<char>, e: int) -> int
    decreases e,
{
    if e <= 0 {
        -1
    } else if name[e - 1] == '.' {
        e - 1
    } else {
        last_dot(name, e - 1)
    }
}

/// The extension of a path: what follows the last `.` of its file name.
/// There is none without a file name, without a `.` in it, or when the only
/// `.` is the first character.
pub open spec fn extension(p: Seq<char>) -> Option<Seq<char>> {
    match file_name(p) {
        None => None,
        Some(name) => {
            let d = last_dot(name, name.len() as int);
            if d <= 0 {
                None
            } else {
                Some(name.subrange(d + 1, name.len() as int))
            }
        },
    }
}

/// Whether a character is white space.
pub fn is_space_char(c: char) -> (r: bool)
    ensures
        r == is_space(c),
{
    let n: u32 = c as u32;
    (0x09 <= n && n <= 0x0D) || n == 0x20 || n == 0x85 || n == 0xA0 || n == 0x1680 || (0x2000 <= n
        && n <= 0x200A) || n == 0x2028 || n == 0x2029 || n == 0x202F || n == 0x205F || n == 0x3000
}

/// The bounds of `s` without its surrounding white space.
pub fn trim_bounds(s: &[char]) -> (r: (usize, usize))
    ensures
        r.0 <= r.1 <= s.len(),
        s@.subrange(r.0 as int, r.1 as int) == trimmed(s@),
{
    let n: usize = s.len();
    let mut lo: usize = 0;
    assert(s@.subrange(0, n as int) =~= s@);
    while lo < n && is_space_char(s[lo])
        invariant
            n == s.len(),
            lo <= n,
            trim_front(s@.subrange(lo as int, n as int)) == trim_front(s@),
        decreases n - lo,
    {
        assert(s@.subrange(lo as int, n as int).subrange(1, n - lo) =~= s@.subrange(
            lo + 1,
            n as int,
        ));
        lo += 1;
    }
    let mut hi: usize = n;
    while hi > lo && is_space_char(s[hi - 1])
        invariant
            n == s.len(),
            lo <= hi <= n,
            trim_back(s@.subrange(lo as int, hi as int)) == trim_back(
                s@.subrange(lo as int, n as int),
            ),
        decreases hi,
    {
        assert(s@.subrange(lo as int, hi as int).drop_last() =~= s@.subrange(
            lo as int,
            hi - 1,
        ));
        hi -= 1;
    }
    (lo, hi)
}

/// Whether a `..` segment begins at position `i`.
fn is_parent_at(p: &[char], i: usize) -> (r: bool)
    ensures
        r == parent_segment_at(p@, i as int),
{
    let n: usize = p.len();
    if n < 2 || i > n - 2 {
        return false;
    }
    p[i] == '.' && p[i + 1] == '.' && (i == 0 || p[i - 1] == '/') && (i + 2 == n || p[i + 2]
        == '/')
}

/// Whether some segment of the path is `..`.
pub fn has_parent(p: &[char]) -> (r: bool)
    ensures
        r == has_parent_segment(p@),
{
    let mut i: usize = 0;
    while i < p.len()
        invariant
            i <= p.len(),
            forall|k: int| 0 <= k < i ==> !parent_segment_at(p@, k),
        decreases p.len() - i,
    {
        if is_parent_at(p, i) {
            return true;
        }
        i += 1;
    }
    false
}

/// The path sanitizer on characters: the trimmed path if it is safe.
pub fn sanitize_chars(raw: &[char]) -> (r: Option<Vec<char>>)
    ensures
        match r {
            Some(p) => sanitized(raw@) == Some(p@),
            None => sanitized(raw@).is_none(),
        },
{
    let (lo, hi) = trim_bounds(raw);
    let mut t: Vec<char> = Vec::new();
    let mut i: usize = lo;
    while i < hi
        invariant
            lo <= i <= hi <= raw.len(),
            t@ == raw@.subrange(lo as int, i as int),
        decreases hi - i,
    {
        t.push(raw[i]);
        assert(raw@.subrange(lo as int, i + 1) =~= raw@.subrange(lo as int, i as int).push(
            raw@[i as int],
        ));
        i += 1;
    }
    if t.len() == 0 || t[0] == '/' || has_parent(t.as_slice()) {
        None
    } else {
        Some(t)
    }
}

/// Checks a raw request path. It is trimmed of surrounding white space and
/// then refused if it is empty, absolute, or has a `..` segment; otherwise
/// the trimmed path is returned as it stands.
pub fn sanitize_path(raw: &str) -> (r: Option<String>)
    ensures
        text_of(r) == sanitized(raw@),
{
    let chars = to_chars(raw);
    match sanitize_chars(chars.as_slice()) {
        Some(p) => Some(from_chars(p.as_slice())),
        None => None,
    }
}

/// A path that is absolute is never let through.
pub proof fn lemma_absolute_is_refused(raw: Seq<char>)
    requires
        is_absolute(trimmed(raw)),
    ensures
        sanitized(raw).is_none(),
{
}

/// A path with a `..` segment is never let through.
pub proof fn lemma_traversal_is_refused(raw: Seq<char>)
    requires
        has_parent_segment(trimmed(raw)),
    ensures
        sanitized(raw).is_none(),
{
}

/// What the sanitizer lets through is not empty, not absolute, and has no
/// `..` segment.
pub proof fn lemma_sanitized_is_safe(raw: Seq<char>)
    requires
        sanitized(raw).is_some(),
    ensures
        safe_relative(sanitized(raw).unwrap()),
        sanitized(raw).unwrap() == trimmed(raw),
{
}

/// Joining a safe relative path onto a base brings in no `..` segment: the
/// result has one only if the base has.
pub proof fn lemma_join_stays_inside(base: Seq<char>, rel: Seq<char>)
    requires
        !is_absolute(rel),
        !has_parent_segment(rel),
        !has_parent_segment(base),
    ensures
        !has_parent_segment(joined(base, rel)),
        crate::text::starts_with(joined(base, rel), base),
{
    let j = joined(base, rel);
    assert(j.subrange(0, base.len() as int) =~= base);
    let gap: int = if base.len() > 0 && base.last() != '/' {
        1
    } else {
        0
    };
    assert forall|i: int| !parent_segment_at(j, i) by {
        if parent_segment_at(j, i) {
            if i + 2 <= base.len() {
                assert(parent_segment_at(base, i));
            } else if i >= base.len() + gap {
                assert(parent_segment_at(rel, i - base.len() - gap));
            }
        }
    }
}

/// Resolves `rel` against `base`.
pub fn join(base: &[char], rel: &[char]) -> (out: Vec<char>)
    ensures
        out@ == joined(base@, rel@),
{
    let mut out: Vec<char> = Vec::new();
    if rel.len() > 0 && rel[0] == '/' {
        out.extend_from_slice(rel);
        assert(out@ =~= rel@);
        return out;
    }
    out.extend_from_slice(base);
    if base.len() > 0 && base[base.len() - 1] != '/' {
        out.push('/');
    }
    out.extend_from_slice(rel);
    assert(out@ =~= joined(base@, rel@));
    out
}

/// The extension of a path, if its file name has one.
pub fn extension_of(p: &[char]) -> (r: Option<Vec<char>>)
    ensures
        match r {
            Some(e) => extension(p@) == Some(e@),
            None => extension(p@).is_none(),
        },
{
    let mut e: usize = p.len();
    while e > 0 && (p[e - 1] == '/' || (p[e - 1] == '.' && (e == 1 || p[e - 2] == '/')))
        invariant
            e <= p.len(),
            name_end(p@, e as int) == name_end(p@, p@.len() as int),
        decreases e,
    {
        e -= 1;
    }
    if e == 0 {
        return None;
    }
    let mut b: usize = e;
    while b > 0 && p[b - 1] != '/'
        invariant
            b <= e <= p.len(),
            name_start(p@, b as int) == name_start(p@, e as int),
        decreases b,
    {
        b -= 1;
    }
    let ghost name = p@.subrange(b as int, e as int);
    if e - b == 2 && p[b] == '.' && p[b + 1] == '.' {
        assert(name =~= seq!['.', '.']);
        return None;
    }
    assert(name != seq!['.', '.']) by {
        if name == seq!['.', '.'] {
            assert(name.len() == 2);
            assert(name[0] == '.' && name[1] == '.');
        }
    }
    let mut d: usize = e;
    while d > b && p[d - 1] != '.'
        invariant
            b <= d <= e <= p.len(),
            name == p@.subrange(b as int, e as int),
            last_dot(name, d - b) == last_dot(name, e - b),
        decreases d,
    {
        assert(name[d - b - 1] == p@[d - 1]);
        d -= 1;
    }
    if d > b {
        assert(name[d - b - 1] == p@[d - 1]);
    }
    if d <= b + 1 {
        return None;
    }
    let mut out: Vec<char> = Vec::new();
    let mut i: usize = d;
    while i < e
        invariant
            d <= i <= e <= p.len(),
            out@ == p@.subrange(d as int, i as int),
        decreases e - i,
    {
        out.push(p[i]);
        assert(p@.subrange(d as int, i + 1) =~= p@.subrange(d as int, i as int).push(p@[i as int]));
        i += 1;
    }
    assert(out@ =~= name.subrange(d - b, name.len() as int));
    Some(out)
}

} // verus!
