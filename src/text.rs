//! Byte-string helpers: literals, prefixes, substrings and whitespace.
use vstd::prelude::*;

verus! {

/// The bytes of an ASCII string.
pub open spec fn ascii_bytes(s: Seq<char>) -> Seq<u8> {
    Seq::new(s.len(), |i: int| s[i] as u8)
}

/// Appends the bytes of an ASCII string literal.
pub fn push_ascii(out: &mut Vec<u8>, s: &str)
    requires
        s.is_ascii(),
    ensures
        final(out)@ == old(out)@ + ascii_bytes(s@),
{
    broadcast use vstd::string::is_ascii_spec_bytes;

    let b = s.as_bytes();
    push_bytes(out, b);
}

/// The bytes of an ASCII string literal.
pub fn ascii_vec(s: &str) -> (r: Vec<u8>)
    requires
        s.is_ascii(),
    ensures
        r@ == ascii_bytes(s@),
{
    let mut r: Vec<u8> = Vec::new();
    push_ascii(&mut r, s);
    assert(r@ =~= ascii_bytes(s@));
    r
}

/// Appends a byte slice.
pub fn push_bytes(out: &mut Vec<u8>, b: &[u8])
    ensures
        final(out)@ == old(out)@ + b@,
{
    let mut i: usize = 0;
    while i < b.len()
        invariant
            0 <= i <= b@.len(),
            out@ == old(out)@ + b@.subrange(0, i as int),
        decreases b@.len() - i,
    {
        out.push(b[i]);
        i = i + 1;
        assert(out@ =~= old(out)@ + b@.subrange(0, i as int));
    }
    assert(b@.subrange(0, i as int) =~= b@);
}

/// Copies `b[lo..hi]` into a new vector.
pub fn copy_range(b: &[u8], lo: usize, hi: usize) -> (r: Vec<u8>)
    requires
        lo <= hi <= b@.len(),
    ensures
        r@ == b@.subrange(lo as int, hi as int),
{
    let mut r: Vec<u8> = Vec::new();
    let mut i: usize = lo;
    while i < hi
        invariant
            lo <= i <= hi <= b@.len(),
            r@ == b@.subrange(lo as int, i as int),
        decreases hi - i,
    {
        r.push(b[i]);
        i = i + 1;
        assert(r@ =~= b@.subrange(lo as int, i as int));
    }
    r
}

/// The whitespace characters below 0x80.
pub open spec fn is_space(b: u8) -> bool {
    b == 0x20 || b == 0x09 || b == 0x0a || b == 0x0b || b == 0x0c || b == 0x0d
}

/// The three-byte UTF-8 encodings of whitespace: U+1680, U+2000 to U+200A, U+2028,
/// U+2029, U+202F, U+205F and U+3000.
pub open spec fn is_wide_space(a: u8, b: u8, c: u8) -> bool {
    (a == 0xe1 && b == 0x9a && c == 0x80) || (a == 0xe2 && b == 0x80 && ((0x80 <= c <= 0x8a)
        || c == 0xa8 || c == 0xa9 || c == 0xaf)) || (a == 0xe2 && b == 0x81 && c == 0x9f) || (a
        == 0xe3 && b == 0x80 && c == 0x80)
}

/// The two-byte UTF-8 encodings of whitespace: U+0085 and U+00A0.
pub open spec fn is_narrow_space(a: u8, b: u8) -> bool {
    a == 0xc2 && (b == 0x85 || b == 0xa0)
}

/// The byte length of the whitespace character (`char::is_whitespace`) encoded at
/// position `i` of `t`, or 0 when none is.
pub open spec fn space_at(t: Seq<u8>, i: int) -> int {
    if 0 <= i < t.len() && is_space(t[i]) {
        1
    } else if 0 <= i && i + 2 <= t.len() && is_narrow_space(t[i], t[i + 1]) {
        2
    } else if 0 <= i && i + 3 <= t.len() && is_wide_space(t[i], t[i + 1], t[i + 2]) {
        3
    } else {
        0
    }
}

/// The byte length of the whitespace character that ends just before position `j` of
/// `t` and starts no earlier than `lo`, or 0 when none does.
pub open spec fn space_before(t: Seq<u8>, lo: int, j: int) -> int {
    if lo <= j - 1 && j <= t.len() && is_space(t[j - 1]) {
        1
    } else if lo <= j - 2 && j <= t.len() && is_narrow_space(t[j - 2], t[j - 1]) {
        2
    } else if lo <= j - 3 && j <= t.len() && is_wide_space(t[j - 3], t[j - 2], t[j - 1]) {
        3
    } else {
        0
    }
}

fn ascii_space(b: u8) -> (r: bool)
    ensures
        r == is_space(b),
{
    b == 0x20 || b == 0x09 || b == 0x0a || b == 0x0b || b == 0x0c || b == 0x0d
}

fn narrow_space(a: u8, b: u8) -> (r: bool)
    ensures
        r == is_narrow_space(a, b),
{
    a == 0xc2 && (b == 0x85 || b == 0xa0)
}

fn wide_space(a: u8, b: u8, c: u8) -> (r: bool)
    ensures
        r == is_wide_space(a, b, c),
{
    (a == 0xe1 && b == 0x9a && c == 0x80) || (a == 0xe2 && b == 0x80 && ((0x80 <= c && c <= 0x8a)
        || c == 0xa8 || c == 0xa9 || c == 0xaf)) || (a == 0xe2 && b == 0x81 && c == 0x9f) || (a
        == 0xe3 && b == 0x80 && c == 0x80)
}

/// Length of the whitespace character at position `i`.
pub fn space_len(t: &[u8], i: usize) -> (r: usize)
    requires
        i < t@.len(),
    ensures
        r == space_at(t@, i as int),
        r <= t@.len() - i,
{
    let n = t.len();
    if ascii_space(t[i]) {
        1
    } else if n - i > 1 && narrow_space(t[i], t[i + 1]) {
        2
    } else if n - i > 2 && wide_space(t[i], t[i + 1], t[i + 2]) {
        3
    } else {
        0
    }
}

/// Length of the whitespace character that ends before position `j`, not before `lo`.
pub fn space_len_before(t: &[u8], lo: usize, j: usize) -> (r: usize)
    requires
        lo < j <= t@.len(),
    ensures
        r == space_before(t@, lo as int, j as int),
        r <= j - lo,
{
    if ascii_space(t[j - 1]) {
        1
    } else if j - lo >= 2 && narrow_space(t[j - 2], t[j - 1]) {
        2
    } else if j - lo >= 3 && wide_space(t[j - 3], t[j - 2], t[j - 1]) {
        3
    } else {
        0
    }
}

/// ASCII lower-casing of one byte; other bytes stay as they are.
pub open spec fn lower(b: u8) -> u8 {
    if 0x41 <= b <= 0x5a {
        (b + 0x20) as u8
    } else {
        b
    }
}

/// `s` starts with `p`, comparing letters without regard to ASCII case.
pub open spec fn starts_with_ci(s: Seq<u8>, p: Seq<u8>) -> bool {
    p.len() <= s.len() && forall|i: int| 0 <= i < p.len() ==> lower(#[trigger] s[i]) == p[i]
}

/// `s` starts with `p` exactly.
pub open spec fn starts_with(s: Seq<u8>, p: Seq<u8>) -> bool {
    p.len() <= s.len() && s.subrange(0, p.len() as int) == p
}

/// `p` occurs somewhere in `s`.
pub open spec fn contains(s: Seq<u8>, p: Seq<u8>) -> bool {
    exists|i: int| 0 <= i && i + p.len() <= s.len() && #[trigger] s.subrange(i, i + p.len()) == p
}

pub fn has_prefix_ci(s: &[u8], p: &[u8]) -> (r: bool)
    ensures
        r == starts_with_ci(s@, p@),
{
    if p.len() > s.len() {
        return false;
    }
    let mut i: usize = 0;
    while i < p.len()
        invariant
            0 <= i <= p@.len() <= s@.len(),
            forall|j: int| 0 <= j < i ==> lower(#[trigger] s@[j]) == p@[j],
        decreases p@.len() - i,
    {
        let c = s[i];
        let l = if 0x41 <= c && c <= 0x5a { c + 0x20 } else { c };
        if l != p[i] {
            return false;
        }
        i = i + 1;
    }
    true
}

pub fn has_prefix(s: &[u8], p: &[u8]) -> (r: bool)
    ensures
        r == starts_with(s@, p@),
{
    if p.len() > s.len() {
        return false;
    }
    let mut i: usize = 0;
    while i < p.len()
        invariant
            0 <= i <= p@.len() <= s@.len(),
            forall|j: int| 0 <= j < i ==> s@[j] == p@[j],
        decreases p@.len() - i,
    {
        if s[i] != p[i] {
            assert(s@.subrange(0, p@.len() as int)[i as int] != p@[i as int]);
            return false;
        }
        i = i + 1;
    }
    assert(s@.subrange(0, p@.len() as int) =~= p@);
    true
}

/// Whether `p` starts at position `i` of `s`.
fn matches_at(s: &[u8], p: &[u8], i: usize) -> (r: bool)
    requires
        i + p@.len() <= s@.len(),
    ensures
        r == (s@.subrange(i as int, i + p@.len()) == p@),
{
    let n = s.len();
    let mut j: usize = 0;
    while j < p.len()
        invariant
            0 <= j <= p@.len(),
            n == s@.len(),
            i + p@.len() <= s@.len(),
            forall|k: int| 0 <= k < j ==> s@[i + k] == p@[k],
        decreases p@.len() - j,
    {
        if s[i + j] != p[j] {
            assert(s@.subrange(i as int, i + p@.len())[j as int] != p@[j as int]);
            return false;
        }
        j = j + 1;
    }
    assert(s@.subrange(i as int, i + p@.len()) =~= p@);
    true
}

pub fn has_substring(s: &[u8], p: &[u8]) -> (r: bool)
    ensures
        r == contains(s@, p@),
{
    if p.len() > s.len() {
        return false;
    }
    let last: usize = s.len() - p.len();
    let mut i: usize = 0;
    loop
        invariant
            last + p@.len() == s@.len(),
            0 <= i <= last,
            forall|k: int| 0 <= k < i ==> #[trigger] s@.subrange(k, k + p@.len()) != p@,
        decreases last - i,
    {
        if matches_at(s, p, i) {
            return true;
        }
        if i == last {
            return false;
        }
        i = i + 1;
    }
}

/// Where `s` stops being whitespace, scanning forward from `i`.
pub open spec fn trim_start_from(s: Seq<u8>, i: int) -> int
    decreases s.len() - i,
{
    if i < 0 || i >= s.len() || space_at(s, i) == 0 {
        i
    } else {
        trim_start_from(s, i + space_at(s, i))
    }
}

/// Where `s` stops being whitespace, scanning backward from `j` down to `lo`.
pub open spec fn trim_end_from(s: Seq<u8>, lo: int, j: int) -> int
    decreases j - lo,
{
    if j <= lo || space_before(s, lo, j) == 0 {
        j
    } else {
        trim_end_from(s, lo, j - space_before(s, lo, j))
    }
}

/// `s` without leading and trailing whitespace, as `str::trim` leaves it.
pub open spec fn trimmed(s: Seq<u8>) -> Seq<u8> {
    let lo = trim_start_from(s, 0);
    s.subrange(lo, trim_end_from(s, lo, s.len() as int))
}

pub fn trim(s: &[u8]) -> (r: Vec<u8>)
    ensures
        r@ == trimmed(s@),
{
    let mut lo: usize = 0;
    let mut done = false;
    while !done && lo < s.len()
        invariant
            0 <= lo <= s@.len(),
            trim_start_from(s@, lo as int) == trim_start_from(s@, 0),
            done ==> trim_start_from(s@, lo as int) == lo,
        decreases s@.len() - lo + if done {
            0int
        } else {
            1int
        },
    {
        let w = space_len(s, lo);
        if w == 0 {
            done = true;
        } else {
            lo = lo + w;
        }
    }
    let mut hi: usize = s.len();
    done = false;
    while !done && hi > lo
        invariant
            lo <= hi <= s@.len(),
            lo == trim_start_from(s@, 0),
            trim_end_from(s@, lo as int, hi as int) == trim_end_from(
                s@,
                lo as int,
                s@.len() as int,
            ),
            done ==> trim_end_from(s@, lo as int, hi as int) == hi,
        decreases hi - lo + if done {
            0int
        } else {
            1int
        },
    {
        let w = space_len_before(s, lo, hi);
        if w == 0 {
            done = true;
        } else {
            hi = hi - w;
        }
    }
    copy_range(s, lo, hi)
}

} // verus!
