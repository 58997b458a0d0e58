//! Lines, tokens and header lines of a decoded request head.
use vstd::prelude::*;

use crate::text::{
    ascii_bytes, ascii_vec, copy_range, has_prefix_ci, push_bytes, space_at,
    space_len, starts_with_ci, trim, trimmed,
};

verus! {

/// Position of the first `\n` at or after `i`, or the length of `t` when there is none.
pub open spec fn newline_from(t: Seq<u8>, i: int) -> int
    decreases t.len() - i,
{
    if i >= t.len() {
        t.len() as int
    } else if t[i] == 0x0a {
        i
    } else {
        newline_from(t, i + 1)
    }
}

/// A line as `str::lines` yields it: without its `\n`, and without a `\r` before that.
pub open spec fn strip_cr(l: Seq<u8>) -> Seq<u8> {
    if l.len() > 0 && l.last() == 0x0d {
        l.drop_last()
    } else {
        l
    }
}

/// The first line of `t`.
pub open spec fn first_line(t: Seq<u8>) -> Seq<u8> {
    let e = newline_from(t, 0);
    if e < t.len() {
        strip_cr(t.subrange(0, e))
    } else {
        t
    }
}

/// Where the line after the first one starts.
pub open spec fn second_line_start(t: Seq<u8>) -> int {
    let e = newline_from(t, 0);
    if e < t.len() {
        e + 1
    } else {
        t.len() as int
    }
}

proof fn lemma_newline_from_bounds(t: Seq<u8>, i: int)
    requires
        0 <= i <= t.len(),
    ensures
        i <= newline_from(t, i) <= t.len(),
        newline_from(t, i) < t.len() ==> t[newline_from(t, i)] == 0x0a,
    decreases t.len() - i,
{
    if i < t.len() && t[i] != 0x0a {
        lemma_newline_from_bounds(t, i + 1);
    }
}

fn line_end(t: &[u8], i: usize) -> (e: usize)
    requires
        i <= t@.len(),
    ensures
        e == newline_from(t@, i as int),
        i <= e <= t@.len(),
{
    let mut j: usize = i;
    while j < t.len() && t[j] != 0x0a
        invariant
            i <= j <= t@.len(),
            newline_from(t@, j as int) == newline_from(t@, i as int),
        decreases t@.len() - j,
    {
        j = j + 1;
    }
    j
}

fn strip_cr_range(t: &[u8], lo: usize, hi: usize) -> (r: Vec<u8>)
    requires
        lo <= hi <= t@.len(),
    ensures
        r@ == strip_cr(t@.subrange(lo as int, hi as int)),
{
    if hi > lo && t[hi - 1] == 0x0d {
        let r = copy_range(t, lo, hi - 1);
        assert(r@ =~= t@.subrange(lo as int, hi as int).drop_last());
        r
    } else {
        copy_range(t, lo, hi)
    }
}

/// The first line of the text.
pub fn first_line_of(t: &[u8]) -> (r: Vec<u8>)
    ensures
        r@ == first_line(t@),
{
    let e = line_end(t, 0);
    if e < t.len() {
        strip_cr_range(t, 0, e)
    } else {
        assert(t@.subrange(0, t@.len() as int) =~= t@);
        copy_range(t, 0, t.len())
    }
}

/// The whitespace-separated tokens of `l` from position `i` on; `start` is where the
/// token under way began, or negative when none is.
pub open spec fn tokens_from(l: Seq<u8>, start: int, i: int) -> Seq<Seq<u8>>
    decreases l.len() - i,
{
    if i >= l.len() {
        if start >= 0 {
            seq![l.subrange(start, l.len() as int)]
        } else {
            Seq::empty()
        }
    } else if space_at(l, i) > 0 {
        if start >= 0 {
            seq![l.subrange(start, i)] + tokens_from(l, -1, i + space_at(l, i))
        } else {
            tokens_from(l, -1, i + space_at(l, i))
        }
    } else {
        tokens_from(l, if start >= 0 { start } else { i }, i + 1)
    }
}

/// The whitespace-separated tokens of `l`, as `str::split_whitespace` gives them for
/// UTF-8 text.
pub open spec fn tokens(l: Seq<u8>) -> Seq<Seq<u8>> {
    tokens_from(l, -1, 0)
}

pub open spec fn views(v: Seq<Vec<u8>>) -> Seq<Seq<u8>> {
    v.map_values(|x: Vec<u8>| x@)
}

/// Splits a line into its whitespace-separated tokens.
pub fn split_tokens(l: &[u8]) -> (r: Vec<Vec<u8>>)
    ensures
        views(r@) == tokens(l@),
{
    let mut r: Vec<Vec<u8>> = Vec::new();
    let mut start: usize = 0;
    let mut in_token = false;
    let mut i: usize = 0;
    while i < l.len()
        invariant
            0 <= i <= l@.len(),
            in_token ==> start < i,
            views(r@) + tokens_from(l@, if in_token { start as int } else { -1 }, i as int)
                == tokens(l@),
        decreases l@.len() - i,
    {
        let w = space_len(l, i);
        if w > 0 {
            if in_token {
                let tok = copy_range(l, start, i);
                let ghost before = r@;
                r.push(tok);
                assert(views(r@) =~= views(before).push(tok@));
                assert(views(r@) + tokens_from(l@, -1, i + w) =~= views(before) + (seq![
                    l@.subrange(start as int, i as int),
                ] + tokens_from(l@, -1, i + w)));
                in_token = false;
            }
            i = i + w;
        } else {
            if !in_token {
                start = i;
                in_token = true;
            }
            i = i + 1;
        }
    }
    if in_token {
        let tok = copy_range(l, start, l.len());
        let ghost before = r@;
        r.push(tok);
        assert(views(r@) =~= views(before).push(tok@));
        assert(views(r@) =~= views(before) + seq![l@.subrange(start as int, l@.len() as int)]);
    } else {
        assert(views(r@) =~= views(r@) + tokens_from(l@, -1, i as int));
    }
    r
}

/// Whether a header line reaches the upstream server.
pub open spec fn forwarded_line(l: Seq<u8>) -> bool {
    !starts_with_ci(l, ascii_bytes("connection:"@)) && !starts_with_ci(l, ascii_bytes("proxy-"@))
}

/// The header lines that are forwarded, from the line that starts at `s` (scanning at
/// `i`) up to the first empty line.
pub open spec fn kept_lines_from(t: Seq<u8>, s: int, i: int) -> Seq<Seq<u8>>
    decreases t.len() - i,
{
    if i >= t.len() {
        if s < t.len() && forwarded_line(t.subrange(s, t.len() as int)) {
            seq![t.subrange(s, t.len() as int)]
        } else {
            Seq::empty()
        }
    } else if t[i] == 0x0a {
        let l = strip_cr(t.subrange(s, i));
        if l.len() == 0 {
            Seq::empty()
        } else if forwarded_line(l) {
            seq![l] + kept_lines_from(t, i + 1, i + 1)
        } else {
            kept_lines_from(t, i + 1, i + 1)
        }
    } else {
        kept_lines_from(t, s, i + 1)
    }
}

/// The header lines after the request line that are forwarded upstream.
pub open spec fn kept_lines(t: Seq<u8>) -> Seq<Seq<u8>> {
    kept_lines_from(t, second_line_start(t), second_line_start(t))
}

proof fn lemma_kept_lines_from_filtered(t: Seq<u8>, s: int, i: int)
    requires
        0 <= s <= i,
    ensures
        forall|k: int|
            0 <= k < kept_lines_from(t, s, i).len() ==> forwarded_line(
                #[trigger] kept_lines_from(t, s, i)[k],
            ) && kept_lines_from(t, s, i)[k].len() > 0,
    decreases t.len() - i,
{
    if i < t.len() {
        if t[i] == 0x0a {
            lemma_kept_lines_from_filtered(t, i + 1, i + 1);
            let l = strip_cr(t.subrange(s, i));
            let rest = kept_lines_from(t, i + 1, i + 1);
            if l.len() > 0 && forwarded_line(l) {
                assert(kept_lines_from(t, s, i) == seq![l] + rest);
                assert forall|k: int| 0 <= k < (seq![l] + rest).len() implies forwarded_line(
                    #[trigger] (seq![l] + rest)[k],
                ) && (seq![l] + rest)[k].len() > 0 by {
                    if k > 0 {
                        assert((seq![l] + rest)[k] == rest[k - 1]);
                    }
                }
            }
        } else {
            lemma_kept_lines_from_filtered(t, s, i + 1);
            assert(kept_lines_from(t, s, i) == kept_lines_from(t, s, i + 1));
        }
    } else if s < t.len() && forwarded_line(t.subrange(s, t.len() as int)) {
        assert(kept_lines_from(t, s, i) == seq![t.subrange(s, t.len() as int)]);
        assert(kept_lines_from(t, s, i)[0] == t.subrange(s, t.len() as int));
    }
}

/// Every forwarded header line is non-empty and starts with neither `connection:` nor
/// `proxy-`, in any case.
pub proof fn lemma_kept_lines_filtered(t: Seq<u8>)
    ensures
        forall|k: int|
            0 <= k < kept_lines(t).len() ==> forwarded_line(#[trigger] kept_lines(t)[k])
                && kept_lines(t)[k].len() > 0,
{
    lemma_newline_from_bounds(t, 0);
    lemma_kept_lines_from_filtered(t, second_line_start(t), second_line_start(t));
}

/// Lines, each followed by `\r\n`.
pub open spec fn join_crlf(ls: Seq<Seq<u8>>) -> Seq<u8>
    decreases ls.len(),
{
    if ls.len() == 0 {
        Seq::empty()
    } else {
        join_crlf(ls.drop_last()) + ls.last() + seq![0x0du8, 0x0au8]
    }
}

proof fn lemma_join_push(ls: Seq<Seq<u8>>, l: Seq<u8>)
    ensures
        join_crlf(ls.push(l)) == join_crlf(ls) + l + seq![0x0du8, 0x0au8],
{
    assert(ls.push(l).drop_last() =~= ls);
}

fn is_forwarded_line(l: &[u8]) -> (r: bool)
    ensures
        r == forwarded_line(l@),
{
    proof {
        reveal_strlit("connection:");
        reveal_strlit("proxy-");
    }
    let c = ascii_vec("connection:");
    let p = ascii_vec("proxy-");
    !has_prefix_ci(l, c.as_slice()) && !has_prefix_ci(l, p.as_slice())
}

/// Appends the forwarded header lines of `t`, each followed by `\r\n`.
pub fn push_kept_lines(out: &mut Vec<u8>, t: &[u8])
    ensures
        final(out)@ == old(out)@ + join_crlf(kept_lines(t@)),
{
    let e0 = line_end(t, 0);
    let s0: usize = if e0 < t.len() { e0 + 1 } else { t.len() };
    let mut s: usize = s0;
    let mut i: usize = s0;
    let ghost acc: Seq<Seq<u8>> = Seq::empty();
    while i < t.len()
        invariant
            s <= i <= t@.len(),
            s0 as int == second_line_start(t@),
            acc + kept_lines_from(t@, s as int, i as int) == kept_lines(t@),
            out@ == old(out)@ + join_crlf(acc),
        decreases t@.len() - i,
    {
        if t[i] == 0x0a {
            let l = strip_cr_range(t, s, i);
            if l.len() == 0 {
                assert(acc =~= kept_lines(t@));
                return;
            }
            if is_forwarded_line(l.as_slice()) {
                proof {
                    lemma_join_push(acc, l@);
                    assert(acc + kept_lines_from(t@, s as int, i as int) =~= acc.push(l@)
                        + kept_lines_from(t@, i + 1, i + 1));
                    acc = acc.push(l@);
                }
                push_bytes(out, l.as_slice());
                out.push(0x0d);
                out.push(0x0a);
                assert(out@ =~= old(out)@ + join_crlf(acc));
            }
            s = i + 1;
        }
        i = i + 1;
    }
    if s < t.len() {
        let l = copy_range(t, s, t.len());
        if is_forwarded_line(l.as_slice()) {
            proof {
                lemma_join_push(acc, l@);
                assert(acc + kept_lines_from(t@, s as int, i as int) =~= acc.push(l@));
                acc = acc.push(l@);
            }
            push_bytes(out, l.as_slice());
            out.push(0x0d);
            out.push(0x0a);
            assert(out@ =~= old(out)@ + join_crlf(acc));
        }
    }
    assert(acc =~= kept_lines(t@));
}

/// The value of a `Host:` line, if `l` is one.
pub open spec fn host_value(l: Seq<u8>) -> Option<Seq<u8>> {
    if starts_with_ci(l, ascii_bytes("host:"@)) {
        Some(trimmed(l.subrange(5, l.len() as int)))
    } else {
        None
    }
}

/// The value of the first `Host:` line of `t`, scanning from position `i` in the line
/// that starts at `s`.
pub open spec fn host_from(t: Seq<u8>, s: int, i: int) -> Option<Seq<u8>>
    decreases t.len() - i,
{
    if i >= t.len() {
        if s < t.len() {
            host_value(t.subrange(s, t.len() as int))
        } else {
            None
        }
    } else if t[i] == 0x0a {
        match host_value(strip_cr(t.subrange(s, i))) {
            Some(h) => Some(h),
            None => host_from(t, i + 1, i + 1),
        }
    } else {
        host_from(t, s, i + 1)
    }
}

/// The value of the first line of `t` that starts with `host:` in any case.
pub open spec fn host_header(t: Seq<u8>) -> Option<Seq<u8>> {
    host_from(t, 0, 0)
}

pub open spec fn opt_view(o: Option<Vec<u8>>) -> Option<Seq<u8>> {
    match o {
        Some(v) => Some(v@),
        None => None,
    }
}

fn line_host_value(l: &[u8]) -> (r: Option<Vec<u8>>)
    ensures
        opt_view(r) == host_value(l@),
{
    proof {
        reveal_strlit("host:");
    }
    let h = ascii_vec("host:");
    if has_prefix_ci(l, h.as_slice()) {
        let rest = copy_range(l, 5, l.len());
        Some(trim(rest.as_slice()))
    } else {
        None
    }
}

/// Extracts the value of the `Host` header, matched without regard to case and
/// trimmed of surrounding whitespace.
pub fn extract_host_header(t: &[u8]) -> (r: Option<Vec<u8>>)
    ensures
        opt_view(r) == host_header(t@),
{
    let mut s: usize = 0;
    let mut i: usize = 0;
    while i < t.len()
        invariant
            s <= i <= t@.len(),
            host_from(t@, s as int, i as int) == host_header(t@),
        decreases t@.len() - i,
    {
        if t[i] == 0x0a {
            let l = strip_cr_range(t, s, i);
            let h = line_host_value(l.as_slice());
            if h.is_some() {
                assert(host_from(t@, s as int, i as int) == host_value(l@));
                assert(opt_view(h) == host_header(t@));
                return h;
            }
            s = i + 1;
        }
        i = i + 1;
    }
    if s < t.len() {
        let l = copy_range(t, s, t.len());
        line_host_value(l.as_slice())
    } else {
        None
    }
}

} // verus!
