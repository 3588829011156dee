//! Byte-string primitives shared by the whole engine.
//!
//! Process names, command lines, desktop-entry fields and manifest contents
//! all arrive as byte strings; every transformation on them is built from the
//! verified helpers here.

use vstd::prelude::*;
use vstd::slice::slice_to_vec;

verus! {

/// ASCII whitespace: space, tab, line feed, vertical tab, form feed,
/// carriage return.
pub open spec fn is_ws(b: u8) -> bool {
    b == 32 || b == 9 || b == 10 || b == 11 || b == 12 || b == 13
}

/// ASCII lowercasing of a single byte; bytes outside `A`..=`Z` are unchanged.
pub open spec fn lower_byte(b: u8) -> u8 {
    if 65 <= b && b <= 90 {
        (b + 32) as u8
    } else {
        b
    }
}

/// ASCII lowercasing of a byte string.
pub open spec fn lower(s: Seq<u8>) -> Seq<u8> {
    s.map_values(|b: u8| lower_byte(b))
}

/// ASCII decimal digit.
pub open spec fn is_digit(b: u8) -> bool {
    48 <= b && b <= 57
}

/// ASCII letter.
pub open spec fn is_alpha(b: u8) -> bool {
    (65 <= b && b <= 90) || (97 <= b && b <= 122)
}

pub fn byte_is_ws(b: u8) -> (r: bool)
    ensures
        r == is_ws(b),
{
    b == 32 || b == 9 || b == 10 || b == 11 || b == 12 || b == 13
}

pub fn byte_is_digit(b: u8) -> (r: bool)
    ensures
        r == is_digit(b),
{
    48 <= b && b <= 57
}

pub fn byte_is_alpha(b: u8) -> (r: bool)
    ensures
        r == is_alpha(b),
{
    (65 <= b && b <= 90) || (97 <= b && b <= 122)
}

pub fn byte_to_lower(b: u8) -> (r: u8)
    ensures
        r == lower_byte(b),
{
    if 65 <= b && b <= 90 {
        b + 32
    } else {
        b
    }
}

pub fn to_lower(s: &[u8]) -> (r: Vec<u8>)
    ensures
        r@ == lower(s@),
{
    let mut out: Vec<u8> = Vec::new();
    let mut i: usize = 0;
    while i < s.len()
        invariant
            i <= s.len(),
            out@ == lower(s@.subrange(0, i as int)),
        decreases s.len() - i,
    {
        out.push(byte_to_lower(s[i]));
        proof {
            assert(s@.subrange(0, i + 1).map_values(|b: u8| lower_byte(b)) =~= s@.subrange(
                0,
                i as int,
            ).map_values(|b: u8| lower_byte(b)).push(lower_byte(s@[i as int])));
        }
        i = i + 1;
    }
    proof {
        assert(s@.subrange(0, s@.len() as int) =~= s@);
    }
    out
}

pub fn bytes_eq(a: &[u8], b: &[u8]) -> (r: bool)
    ensures
        r == (a@ == b@),
{
    if a.len() != b.len() {
        proof {
            assert(a@ != b@);
        }
        return false;
    }
    let mut i: usize = 0;
    while i < a.len()
        invariant
            i <= a.len(),
            a.len() == b.len(),
            forall|j: int| 0 <= j < i ==> a@[j] == b@[j],
        decreases a.len() - i,
    {
        if a[i] != b[i] {
            proof {
                assert(a@ != b@);
            }
            return false;
        }
        i = i + 1;
    }
    proof {
        assert(a@ =~= b@);
    }
    true
}

/// The needle `n` occurs in `h` starting at position `i`.
pub open spec fn matches_at(h: Seq<u8>, n: Seq<u8>, i: int) -> bool {
    0 <= i && i + n.len() <= h.len() && h.subrange(i, i + n.len() as int) == n
}

/// The needle `n` occurs somewhere in `h`.
pub open spec fn contains_seq(h: Seq<u8>, n: Seq<u8>) -> bool {
    exists|i: int| matches_at(h, n, i)
}

fn matches_at_exec(h: &[u8], n: &[u8], i: usize) -> (r: bool)
    requires
        i + n@.len() <= h@.len(),
    ensures
        r == matches_at(h@, n@, i as int),
{
    let hlen: usize = h.len();
    let mut j: usize = 0;
    while j < n.len()
        invariant
            j <= n.len(),
            i + n@.len() <= h@.len(),
            hlen == h@.len(),
            forall|k: int| 0 <= k < j ==> h@[i + k] == n@[k],
        decreases n.len() - j,
    {
        proof {
            assert(i + j < hlen);
        }
        if h[i + j] != n[j] {
            proof {
                assert(h@.subrange(i as int, i + n@.len() as int)[j as int] == h@[i + j]);
                assert(h@.subrange(i as int, i + n@.len() as int) != n@);
            }
            return false;
        }
        j = j + 1;
    }
    proof {
        assert(h@.subrange(i as int, i + n@.len() as int) =~= n@);
    }
    true
}

/// Leftmost occurrence of `n` in `h` at or after `start`, if any.
pub fn find_from(h: &[u8], n: &[u8], start: usize) -> (r: Option<usize>)
    ensures
        match r {
            Some(i) => start <= i && matches_at(h@, n@, i as int) && forall|j: int|
                start <= j < i ==> !matches_at(h@, n@, j),
            None => forall|j: int| j >= start ==> !matches_at(h@, n@, j),
        },
{
    if n.len() > h.len() {
        return None;
    }
    let last = h.len() - n.len();
    if start > last {
        proof {
            assert(forall|j: int| j >= start ==> !matches_at(h@, n@, j));
        }
        return None;
    }
    let mut i: usize = start;
    loop
        invariant
            n@.len() <= h@.len(),
            last == h@.len() - n@.len(),
            start <= i <= last,
            forall|j: int| start <= j < i ==> !matches_at(h@, n@, j),
        decreases last - i,
    {
        if matches_at_exec(h, n, i) {
            return Some(i);
        }
        if i == last {
            proof {
                assert(forall|j: int| j > last ==> !matches_at(h@, n@, j));
            }
            return None;
        }
        i = i + 1;
    }
}

/// Whether `n` occurs anywhere in `h`.
pub fn contains_bytes(h: &[u8], n: &[u8]) -> (r: bool)
    ensures
        r == contains_seq(h@, n@),
{
    let r = find_from(h, n, 0);
    match r {
        Some(i) => {
            proof {
                assert(matches_at(h@, n@, i as int));
            }
            true
        },
        None => {
            proof {
                assert(forall|j: int| j >= 0 ==> !matches_at(h@, n@, j));
                assert(forall|j: int| matches_at(h@, n@, j) ==> j >= 0);
            }
            false
        },
    }
}

/// `p` is a prefix of `s`.
pub open spec fn starts_with(s: Seq<u8>, p: Seq<u8>) -> bool {
    p.len() <= s.len() && s.subrange(0, p.len() as int) == p
}

/// `p` is a suffix of `s`.
pub open spec fn ends_with(s: Seq<u8>, p: Seq<u8>) -> bool {
    p.len() <= s.len() && s.subrange(s.len() - p.len(), s.len() as int) == p
}

pub fn starts_with_exec(s: &[u8], p: &[u8]) -> (r: bool)
    ensures
        r == starts_with(s@, p@),
{
    if p.len() > s.len() {
        return false;
    }
    matches_at_exec(s, p, 0)
}

pub fn ends_with_exec(s: &[u8], p: &[u8]) -> (r: bool)
    ensures
        r == ends_with(s@, p@),
{
    if p.len() > s.len() {
        return false;
    }
    let i = s.len() - p.len();
    matches_at_exec(s, p, i)
}

/// Which bytes a trim operation removes from the ends of a string.
#[derive(Clone, Copy, PartialEq, Eq, Structural)]
pub enum Strip {
    Whitespace,
    Hyphen,
    DoubleQuote,
    SingleQuote,
    Slash,
}

pub open spec fn strip_match(c: Strip, b: u8) -> bool {
    match c {
        Strip::Whitespace => is_ws(b),
        Strip::Hyphen => b == 45,
        Strip::DoubleQuote => b == 34,
        Strip::SingleQuote => b == 39,
        Strip::Slash => b == 47,
    }
}

pub fn strip_match_exec(c: Strip, b: u8) -> (r: bool)
    ensures
        r == strip_match(c, b),
{
    match c {
        Strip::Whitespace => byte_is_ws(b),
        Strip::Hyphen => b == 45,
        Strip::DoubleQuote => b == 34,
        Strip::SingleQuote => b == 39,
        Strip::Slash => b == 47,
    }
}

pub open spec fn trim_front_spec(s: Seq<u8>, c: Strip) -> Seq<u8>
    decreases s.len(),
{
    if s.len() > 0 && strip_match(c, s[0]) {
        trim_front_spec(s.drop_first(), c)
    } else {
        s
    }
}

pub open spec fn trim_back_spec(s: Seq<u8>, c: Strip) -> Seq<u8>
    decreases s.len(),
{
    if s.len() > 0 && strip_match(c, s.last()) {
        trim_back_spec(s.drop_last(), c)
    } else {
        s
    }
}

/// Both ends stripped of bytes in class `c`.
pub open spec fn trim_spec(s: Seq<u8>, c: Strip) -> Seq<u8> {
    trim_back_spec(trim_front_spec(s, c), c)
}

proof fn lemma_trim_front_skip(s: Seq<u8>, c: Strip, i: int)
    requires
        0 <= i <= s.len(),
        forall|j: int| 0 <= j < i ==> strip_match(c, s[j]),
    ensures
        trim_front_spec(s, c) == trim_front_spec(s.skip(i), c),
    decreases i,
{
    if i > 0 {
        assert(s.drop_first() =~= s.skip(1));
        lemma_trim_front_skip(s.skip(1), c, i - 1);
        assert(s.skip(1).skip(i - 1) =~= s.skip(i));
    } else {
        assert(s.skip(0) =~= s);
    }
}

proof fn lemma_trim_back_take(s: Seq<u8>, c: Strip, i: int)
    requires
        0 <= i <= s.len(),
        forall|j: int| i <= j < s.len() ==> strip_match(c, s[j]),
    ensures
        trim_back_spec(s, c) == trim_back_spec(s.take(i), c),
    decreases s.len() - i,
{
    if i < s.len() {
        assert(s.drop_last() =~= s.take(s.len() - 1));
        lemma_trim_back_take(s.take(s.len() - 1), c, i);
        assert(s.take(s.len() - 1).take(i) =~= s.take(i));
    } else {
        assert(s.take(i) =~= s);
    }
}

/// Copy of `s` with bytes of class `c` removed from both ends.
pub fn trim_bytes(s: &[u8], c: Strip) -> (r: Vec<u8>)
    ensures
        r@ == trim_spec(s@, c),
{
    let mut lo: usize = 0;
    while lo < s.len() && strip_match_exec(c, s[lo])
        invariant
            lo <= s.len(),
            forall|j: int| 0 <= j < lo ==> strip_match(c, s@[j]),
        decreases s.len() - lo,
    {
        lo = lo + 1;
    }
    proof {
        lemma_trim_front_skip(s@, c, lo as int);
        if lo < s@.len() {
            assert(s@.skip(lo as int)[0] == s@[lo as int]);
        }
        assert(trim_front_spec(s@, c) == s@.skip(lo as int));
    }
    let mut hi: usize = s.len();
    while hi > lo && strip_match_exec(c, s[hi - 1])
        invariant
            lo <= hi <= s.len(),
            forall|j: int| hi <= j < s.len() ==> strip_match(c, s@[j]),
        decreases hi,
    {
        hi = hi - 1;
    }
    proof {
        let t = s@.skip(lo as int);
        lemma_trim_back_take(t, c, hi - lo as int);
        if hi > lo {
            assert(t.take(hi - lo as int).last() == s@[hi - 1]);
        }
        assert(trim_back_spec(t, c) == t.take(hi - lo as int));
        assert(t.take(hi - lo as int) =~= s@.subrange(lo as int, hi as int));
    }
    subrange_vec(s, lo, hi)
}

/// How the views of a list of byte strings relate to its deep view.
pub proof fn lemma_dv(list: &Vec<Vec<u8>>)
    ensures
        list.deep_view().len() == list@.len(),
        forall|i: int| 0 <= i < list@.len() ==> #[trigger] list.deep_view()[i] == list@[i]@,
{
    assert forall|i: int| 0 <= i < list@.len() implies #[trigger] list.deep_view()[i]
        == list@[i]@ by {
        assert(list@[i].deep_view() =~= list@[i]@);
    }
}

/// Copy of `s` with bytes of class `c` removed from the end only.
pub fn trim_back_bytes(s: &[u8], c: Strip) -> (r: Vec<u8>)
    ensures
        r@ == trim_back_spec(s@, c),
{
    let mut hi: usize = s.len();
    while hi > 0 && strip_match_exec(c, s[hi - 1])
        invariant
            hi <= s.len(),
            forall|j: int| hi <= j < s.len() ==> strip_match(c, s@[j]),
        decreases hi,
    {
        hi = hi - 1;
    }
    proof {
        lemma_trim_back_take(s@, c, hi as int);
        if hi > 0 {
            assert(s@.take(hi as int).last() == s@[hi - 1]);
        }
        assert(trim_back_spec(s@, c) == s@.take(hi as int));
        assert(s@.take(hi as int) =~= s@.subrange(0, hi as int));
    }
    subrange_vec(s, 0, hi)
}

/// Greatest index with `s[i] == b`, if any.
pub open spec fn rindex_of(s: Seq<u8>, b: u8) -> Option<int>
    decreases s.len(),
{
    if s.len() == 0 {
        None
    } else if s.last() == b {
        Some(s.len() - 1)
    } else {
        rindex_of(s.drop_last(), b)
    }
}

pub fn rfind_byte(s: &[u8], b: u8) -> (r: Option<usize>)
    ensures
        match r {
            Some(i) => i < s@.len() && rindex_of(s@, b) == Some(i as int),
            None => rindex_of(s@, b) is None,
        },
{
    let mut i: usize = s.len();
    proof {
        assert(s@.take(s@.len() as int) =~= s@);
    }
    while i > 0
        invariant
            i <= s@.len(),
            rindex_of(s@, b) == rindex_of(s@.take(i as int), b),
        decreases i,
    {
        i = i - 1;
        if s[i] == b {
            proof {
                assert(s@.take(i + 1).last() == s@[i as int]);
            }
            return Some(i);
        }
        proof {
            assert(s@.take(i + 1).last() == s@[i as int]);
            assert(s@.take(i + 1).drop_last() =~= s@.take(i as int));
        }
    }
    proof {
        assert(s@.take(0) =~= Seq::<u8>::empty());
    }
    None
}

/// Least index `i >= from` with `s[i] == b`, if any.
pub open spec fn index_of_from(s: Seq<u8>, b: u8, from: int) -> Option<int>
    decreases s.len() - from
        when 0 <= from <= s.len()
{
    if from >= s.len() {
        None
    } else if s[from] == b {
        Some(from)
    } else {
        index_of_from(s, b, from + 1)
    }
}

pub proof fn lemma_index_of_from_props(s: Seq<u8>, b: u8, from: int)
    requires
        0 <= from <= s.len(),
    ensures
        match index_of_from(s, b, from) {
            Some(i) => from <= i < s.len() && s[i] == b && forall|j: int|
                from <= j < i ==> s[j] != b,
            None => forall|j: int| from <= j < s.len() ==> s[j] != b,
        },
    decreases s.len() - from,
{
    if from < s.len() && s[from] != b {
        lemma_index_of_from_props(s, b, from + 1);
    }
}

pub fn find_byte_from(s: &[u8], b: u8, from: usize) -> (r: Option<usize>)
    requires
        from <= s@.len(),
    ensures
        match r {
            Some(i) => index_of_from(s@, b, from as int) == Some(i as int) && from <= i < s@.len()
                && s@[i as int] == b,
            None => index_of_from(s@, b, from as int) is None,
        },
{
    let mut i: usize = from;
    while i < s.len()
        invariant
            from <= i <= s@.len(),
            index_of_from(s@, b, from as int) == index_of_from(s@, b, i as int),
        decreases s.len() - i,
    {
        if s[i] == b {
            return Some(i);
        }
        i = i + 1;
    }
    None
}

/// Pieces of `s` between occurrences of `b`, from position `from` on
/// (`n` separators yield `n + 1` pieces).
pub open spec fn split_from(s: Seq<u8>, b: u8, from: int) -> Seq<Seq<u8>>
    decreases s.len() - from
        when 0 <= from <= s.len()
        via split_from_dec
{
    match index_of_from(s, b, from) {
        None => seq![s.subrange(from, s.len() as int)],
        Some(i) => seq![s.subrange(from, i)] + split_from(s, b, i + 1),
    }
}

#[via_fn]
proof fn split_from_dec(s: Seq<u8>, b: u8, from: int) {
    if 0 <= from <= s.len() {
        lemma_index_of_from_props(s, b, from);
    }
}

pub open spec fn split_spec(s: Seq<u8>, b: u8) -> Seq<Seq<u8>> {
    split_from(s, b, 0)
}

pub fn split_byte(s: &[u8], b: u8) -> (r: Vec<Vec<u8>>)
    ensures
        r.deep_view() == split_spec(s@, b),
        r.len() >= 1,
{
    let mut out: Vec<Vec<u8>> = Vec::new();
    let mut start: usize = 0;
    loop
        invariant
            start <= s@.len(),
            split_spec(s@, b) == out.deep_view() + split_from(s@, b, start as int),
        decreases s@.len() - start,
    {
        let slen = s.len();
        match find_byte_from(s, b, start) {
            Some(i) => {
                let piece = subrange_vec(s, start, i);
                out.push(piece);
                proof {
                    assert(i < slen);
                    assert(out.deep_view() + split_from(s@, b, i + 1) =~~= split_spec(s@, b));
                }
                start = i + 1;
            },
            None => {
                let piece = subrange_vec(s, start, s.len());
                out.push(piece);
                proof {
                    assert(out.deep_view() =~~= split_spec(s@, b));
                }
                return out;
            },
        }
    }
}

/// First index `>= from` holding a non-whitespace byte (or the length).
pub open spec fn skip_ws_from(s: Seq<u8>, from: int) -> int
    decreases s.len() - from
        when 0 <= from <= s.len()
{
    if from >= s.len() {
        s.len() as int
    } else if is_ws(s[from]) {
        skip_ws_from(s, from + 1)
    } else {
        from
    }
}

/// First index `>= from` holding a whitespace byte (or the length).
pub open spec fn token_end(s: Seq<u8>, from: int) -> int
    decreases s.len() - from
        when 0 <= from <= s.len()
{
    if from >= s.len() {
        s.len() as int
    } else if is_ws(s[from]) {
        from
    } else {
        token_end(s, from + 1)
    }
}

pub proof fn lemma_token_end_bounds(s: Seq<u8>, from: int)
    requires
        0 <= from <= s.len(),
    ensures
        from <= token_end(s, from) <= s.len(),
        from < s.len() && !is_ws(s[from]) ==> from < token_end(s, from),
    decreases s.len() - from,
{
    if from < s.len() && !is_ws(s[from]) {
        lemma_token_end_bounds(s, from + 1);
    }
}

/// The whitespace-separated tokens of `s`, from position `from` on.
pub open spec fn tokens_from(s: Seq<u8>, from: int) -> Seq<Seq<u8>>
    decreases s.len() - from
        when 0 <= from <= s.len()
        via tokens_from_dec
{
    if from >= s.len() {
        Seq::empty()
    } else if is_ws(s[from]) {
        tokens_from(s, from + 1)
    } else {
        seq![s.subrange(from, token_end(s, from))] + tokens_from(s, token_end(s, from))
    }
}

#[via_fn]
proof fn tokens_from_dec(s: Seq<u8>, from: int) {
    if 0 <= from <= s.len() && from < s.len() && !is_ws(s[from]) {
        lemma_token_end_bounds(s, from);
    }
}

/// The whitespace-separated tokens of `s` (no token is empty).
pub open spec fn tokens_spec(s: Seq<u8>) -> Seq<Seq<u8>> {
    tokens_from(s, 0)
}

pub fn split_tokens(s: &[u8]) -> (r: Vec<Vec<u8>>)
    ensures
        r.deep_view() == tokens_spec(s@),
{
    let mut out: Vec<Vec<u8>> = Vec::new();
    let mut i: usize = 0;
    while i < s.len()
        invariant
            i <= s@.len(),
            tokens_spec(s@) == out.deep_view() + tokens_from(s@, i as int),
        decreases s.len() - i,
    {
        if byte_is_ws(s[i]) {
            i = i + 1;
        } else {
            let mut j: usize = i;
            while j < s.len() && !byte_is_ws(s[j])
                invariant
                    i <= j <= s@.len(),
                    token_end(s@, i as int) == token_end(s@, j as int),
                decreases s.len() - j,
            {
                j = j + 1;
            }
            proof {
                assert(token_end(s@, i as int) == j as int);
            }
            let piece = subrange_vec(s, i, j);
            out.push(piece);
            proof {
                assert(out.deep_view() + tokens_from(s@, j as int) =~~= tokens_spec(s@));
            }
            i = j;
        }
    }
    proof {
        assert(out.deep_view() =~~= tokens_spec(s@));
    }
    out
}

/// The pieces joined with a single space between consecutive pieces.
pub open spec fn join_space(parts: Seq<Seq<u8>>) -> Seq<u8>
    decreases parts.len(),
{
    if parts.len() == 0 {
        Seq::empty()
    } else if parts.len() == 1 {
        parts[0]
    } else {
        parts[0] + seq![32u8] + join_space(parts.drop_first())
    }
}

proof fn lemma_join_space_push(parts: Seq<Seq<u8>>, x: Seq<u8>)
    ensures
        join_space(parts.push(x)) == if parts.len() == 0 {
            x
        } else {
            join_space(parts) + seq![32u8] + x
        },
    decreases parts.len(),
{
    if parts.len() == 0 {
        assert(parts.push(x)[0] =~= x);
    } else {
        assert(parts.push(x).drop_first() =~= parts.drop_first().push(x));
        lemma_join_space_push(parts.drop_first(), x);
        if parts.len() == 1 {
            assert(join_space(parts) == parts[0]);
        }
    }
}

pub fn join_with_space(parts: &Vec<Vec<u8>>) -> (r: Vec<u8>)
    ensures
        r@ == join_space(parts.deep_view()),
{
    let mut out: Vec<u8> = Vec::new();
    let mut i: usize = 0;
    while i < parts.len()
        invariant
            i <= parts@.len(),
            out@ == join_space(parts.deep_view().take(i as int)),
        decreases parts.len() - i,
    {
        if i > 0 {
            out.push(32);
        }
        let mut j: usize = 0;
        let part = &parts[i];
        let ghost mid = out@;
        while j < part.len()
            invariant
                j <= part@.len(),
                out@ == mid + part@.subrange(0, j as int),
            decreases part.len() - j,
        {
            out.push(part[j]);
            proof {
                assert(mid + part@.subrange(0, j + 1) =~= (mid + part@.subrange(0, j as int)).push(
                    part@[j as int],
                ));
            }
            j = j + 1;
        }
        proof {
            assert(part@.subrange(0, part@.len() as int) =~= part@);
            let pv = parts.deep_view();
            assert(pv.take(i as int).push(pv[i as int]) =~= pv.take(i + 1));
            lemma_join_space_push(pv.take(i as int), pv[i as int]);
            if i > 0 {
                assert(out@ =~= join_space(pv.take(i as int)) + seq![32u8] + pv[i as int]);
            } else {
                assert(out@ =~= pv[0]);
            }
        }
        i = i + 1;
    }
    proof {
        assert(parts.deep_view().take(parts.deep_view().len() as int) =~= parts.deep_view());
    }
    out
}

/// `s` with every non-overlapping occurrence of `pat` replaced by `rep`,
/// scanning left to right.
pub open spec fn replace_spec(s: Seq<u8>, pat: Seq<u8>, rep: Seq<u8>) -> Seq<u8>
    decreases s.len()
        when pat.len() > 0
{
    if s.len() == 0 {
        s
    } else if starts_with(s, pat) {
        rep + replace_spec(s.skip(pat.len() as int), pat, rep)
    } else {
        seq![s[0]] + replace_spec(s.drop_first(), pat, rep)
    }
}

pub fn replace_all(s: &[u8], pat: &[u8], rep: &[u8]) -> (r: Vec<u8>)
    requires
        pat@.len() > 0,
    ensures
        r@ == replace_spec(s@, pat@, rep@),
{
    let mut out: Vec<u8> = Vec::new();
    proof {
        assert(s@.skip(0) =~= s@);
        assert(out@ + replace_spec(s@, pat@, rep@) =~= replace_spec(s@, pat@, rep@));
    }
    let mut i: usize = 0;
    while i < s.len()
        invariant
            i <= s@.len(),
            pat@.len() > 0,
            replace_spec(s@, pat@, rep@) == out@ + replace_spec(s@.skip(i as int), pat@, rep@),
        decreases s.len() - i,
    {
        let ghost tail = s@.skip(i as int);
        let is_match = if s.len() - i >= pat.len() {
            matches_at_exec(s, pat, i)
        } else {
            false
        };
        proof {
            if i + pat@.len() <= s@.len() {
                assert(tail.subrange(0, pat@.len() as int) =~= s@.subrange(
                    i as int,
                    i + pat@.len(),
                ));
            }
            assert(is_match == starts_with(tail, pat@));
        }
        if is_match {
            let mut k: usize = 0;
            let ghost mid = out@;
            while k < rep.len()
                invariant
                    k <= rep@.len(),
                    out@ == mid + rep@.subrange(0, k as int),
                decreases rep.len() - k,
            {
                out.push(rep[k]);
                proof {
                    assert(mid + rep@.subrange(0, k + 1) =~= (mid + rep@.subrange(0, k as int)).push(
                        rep@[k as int],
                    ));
                }
                k = k + 1;
            }
            proof {
                assert(rep@.subrange(0, rep@.len() as int) =~= rep@);
                assert(tail.skip(pat@.len() as int) =~= s@.skip(i + pat@.len()));
                assert(out@ =~= mid + rep@);
                assert(out@ + replace_spec(s@.skip(i + pat@.len()), pat@, rep@) =~= mid
                    + replace_spec(tail, pat@, rep@));
            }
            i = i + pat.len();
        } else {
            out.push(s[i]);
            proof {
                assert(tail[0] == s@[i as int]);
                assert(tail.drop_first() =~= s@.skip(i + 1));
                assert(out@ + replace_spec(s@.skip(i + 1), pat@, rep@) =~= out@.drop_last() + (seq![
                    tail[0],
                ] + replace_spec(tail.drop_first(), pat@, rep@)));
            }
            i = i + 1;
        }
    }
    proof {
        assert(s@.skip(s@.len() as int) =~= Seq::<u8>::empty());
        assert(out@ + Seq::<u8>::empty() =~= out@);
    }
    out
}

/// Whether a list of byte strings contains `x`.
pub fn contains_string(list: &Vec<Vec<u8>>, x: &[u8]) -> (r: bool)
    ensures
        r == list.deep_view().contains(x@),
{
    proof {
        lemma_dv(list);
    }
    let mut i: usize = 0;
    while i < list.len()
        invariant
            i <= list@.len(),
            list.deep_view().len() == list@.len(),
            forall|j: int| 0 <= j < list@.len() ==> #[trigger] list.deep_view()[j] == list@[j]@,
            forall|j: int| 0 <= j < i ==> list.deep_view()[j] != x@,
        decreases list.len() - i,
    {
        if bytes_eq(list[i].as_slice(), x) {
            proof {
                assert(list.deep_view()[i as int] == x@);
            }
            return true;
        }
        i = i + 1;
    }
    false
}

/// `s` with later duplicates removed, first occurrences kept in order.
pub open spec fn dedup_spec(s: Seq<Seq<u8>>) -> Seq<Seq<u8>>
    decreases s.len(),
{
    if s.len() == 0 {
        s
    } else {
        let rest = dedup_spec(s.drop_last());
        if rest.contains(s.last()) {
            rest
        } else {
            rest.push(s.last())
        }
    }
}

pub fn dedup_strings(list: &Vec<Vec<u8>>) -> (r: Vec<Vec<u8>>)
    ensures
        r.deep_view() == dedup_spec(list.deep_view()),
{
    let mut out: Vec<Vec<u8>> = Vec::new();
    proof {
        lemma_dv(list);
    }
    let mut i: usize = 0;
    while i < list.len()
        invariant
            i <= list@.len(),
            list.deep_view().len() == list@.len(),
            forall|j: int| 0 <= j < list@.len() ==> #[trigger] list.deep_view()[j] == list@[j]@,
            out.deep_view() == dedup_spec(list.deep_view().take(i as int)),
        decreases list.len() - i,
    {
        proof {
            assert(list.deep_view().take(i + 1).drop_last() =~= list.deep_view().take(i as int));
            assert(list.deep_view().take(i + 1).last() == list.deep_view()[i as int]);
        }
        if !contains_string(&out, list[i].as_slice()) {
            let item = list[i].clone();
            proof {
                assert(item@ == list.deep_view()[i as int]);
            }
            out.push(item);
            proof {
                lemma_dv(&out);
                assert(out.deep_view() =~~= dedup_spec(list.deep_view().take(i + 1)));
            }
        } else {
            proof {
                assert(out.deep_view() =~~= dedup_spec(list.deep_view().take(i + 1)));
            }
        }
        i = i + 1;
    }
    proof {
        assert(list.deep_view().take(list.deep_view().len() as int) =~= list.deep_view());
    }
    out
}

/// Appends all of `src` to `dst`.
pub fn append_bytes(dst: &mut Vec<u8>, src: &[u8])
    ensures
        final(dst)@ == old(dst)@ + src@,
{
    let mut i: usize = 0;
    while i < src.len()
        invariant
            i <= src@.len(),
            dst@ == old(dst)@ + src@.subrange(0, i as int),
        decreases src.len() - i,
    {
        dst.push(src[i]);
        proof {
            assert(old(dst)@ + src@.subrange(0, i + 1) =~= (old(dst)@ + src@.subrange(
                0,
                i as int,
            )).push(src@[i as int]));
        }
        i = i + 1;
    }
    proof {
        assert(src@.subrange(0, src@.len() as int) =~= src@);
    }
}

/// `a` followed by `b`.
pub fn concat_bytes(a: &[u8], b: &[u8]) -> (r: Vec<u8>)
    ensures
        r@ == a@ + b@,
{
    let mut v = slice_to_vec(a);
    append_bytes(&mut v, b);
    v
}

/// Leftmost position at or after `from` where `n` occurs in `h`, if any.
pub open spec fn find_seq_from(h: Seq<u8>, n: Seq<u8>, from: int) -> Option<int>
    decreases h.len() - from
        when 0 <= from && n.len() > 0
{
    if from + n.len() > h.len() {
        None
    } else if h.subrange(from, from + n.len()) == n {
        Some(from)
    } else {
        find_seq_from(h, n, from + 1)
    }
}

pub proof fn lemma_find_seq_from_props(h: Seq<u8>, n: Seq<u8>, from: int)
    requires
        0 <= from,
        n.len() > 0,
    ensures
        match find_seq_from(h, n, from) {
            Some(i) => from <= i && i + n.len() <= h.len() && h.subrange(i, i + n.len()) == n,
            None => true,
        },
    decreases h.len() - from,
{
    if from + n.len() <= h.len() && h.subrange(from, from + n.len()) != n {
        lemma_find_seq_from_props(h, n, from + 1);
    }
}

pub fn find_seq_exec(h: &[u8], n: &[u8], from: usize) -> (r: Option<usize>)
    requires
        n@.len() > 0,
    ensures
        match r {
            Some(i) => find_seq_from(h@, n@, from as int) == Some(i as int) && from <= i && i
                + n@.len() <= h@.len(),
            None => find_seq_from(h@, n@, from as int) is None,
        },
{
    if n.len() > h.len() {
        return None;
    }
    let last = h.len() - n.len();
    if from > last {
        return None;
    }
    let mut i: usize = from;
    loop
        invariant
            0 < n@.len() <= h@.len(),
            last == h@.len() - n@.len(),
            from <= i <= last,
            find_seq_from(h@, n@, from as int) == find_seq_from(h@, n@, i as int),
        decreases last - i,
    {
        if matches_at_exec(h, n, i) {
            proof {
                lemma_find_seq_from_props(h@, n@, i as int);
            }
            return Some(i);
        }
        if i == last {
            proof {
                assert(find_seq_from(h@, n@, i + 1) is None);
            }
            return None;
        }
        i = i + 1;
    }
}

/// Lexicographic order on byte strings (a prefix comes first).
pub open spec fn lex_le(a: Seq<u8>, b: Seq<u8>) -> bool
    decreases a.len(),
{
    if a.len() == 0 {
        true
    } else if b.len() == 0 {
        false
    } else if a[0] < b[0] {
        true
    } else if a[0] > b[0] {
        false
    } else {
        lex_le(a.drop_first(), b.drop_first())
    }
}

pub proof fn lemma_lex_total(a: Seq<u8>, b: Seq<u8>)
    ensures
        lex_le(a, b) || lex_le(b, a),
    decreases a.len(),
{
    if a.len() > 0 && b.len() > 0 && a[0] == b[0] {
        lemma_lex_total(a.drop_first(), b.drop_first());
    }
}

pub proof fn lemma_lex_antisym(a: Seq<u8>, b: Seq<u8>)
    requires
        lex_le(a, b),
        lex_le(b, a),
    ensures
        a == b,
    decreases a.len(),
{
    if a.len() > 0 && b.len() > 0 && a[0] == b[0] {
        lemma_lex_antisym(a.drop_first(), b.drop_first());
        assert(a =~= seq![a[0]] + a.drop_first());
        assert(b =~= seq![b[0]] + b.drop_first());
    } else {
        assert(a.len() == 0 && b.len() == 0);
        assert(a =~= b);
    }
}

pub proof fn lemma_lex_trans(a: Seq<u8>, b: Seq<u8>, c: Seq<u8>)
    requires
        lex_le(a, b),
        lex_le(b, c),
    ensures
        lex_le(a, c),
    decreases a.len(),
{
    if a.len() > 0 && b.len() > 0 && c.len() > 0 && a[0] == b[0] && b[0] == c[0] {
        lemma_lex_trans(a.drop_first(), b.drop_first(), c.drop_first());
    }
}

proof fn lemma_lex_skip(a: Seq<u8>, b: Seq<u8>, i: int)
    requires
        0 <= i <= a.len(),
        i <= b.len(),
        forall|j: int| 0 <= j < i ==> a[j] == b[j],
    ensures
        lex_le(a, b) == lex_le(a.skip(i), b.skip(i)),
    decreases i,
{
    if i > 0 {
        assert(a.len() > 0 && b.len() > 0 && a[0] == b[0]);
        assert(a.drop_first() =~= a.skip(1));
        assert(b.drop_first() =~= b.skip(1));
        lemma_lex_skip(a.skip(1), b.skip(1), i - 1);
        assert(a.skip(1).skip(i - 1) =~= a.skip(i));
        assert(b.skip(1).skip(i - 1) =~= b.skip(i));
    } else {
        assert(a.skip(0) =~= a);
        assert(b.skip(0) =~= b);
    }
}

/// Whether `a` comes at or before `b` in lexicographic order.
pub fn lex_le_exec(a: &[u8], b: &[u8]) -> (r: bool)
    ensures
        r == lex_le(a@, b@),
{
    let mut i: usize = 0;
    loop
        invariant
            i <= a@.len(),
            i <= b@.len(),
            forall|j: int| 0 <= j < i ==> a@[j] == b@[j],
        decreases a@.len() - i,
    {
        proof {
            lemma_lex_skip(a@, b@, i as int);
        }
        if i >= a.len() {
            proof {
                assert(a@.skip(i as int).len() == 0);
            }
            return true;
        }
        if i >= b.len() {
            proof {
                assert(b@.skip(i as int).len() == 0 && a@.skip(i as int).len() > 0);
            }
            return false;
        }
        proof {
            assert(a@.skip(i as int)[0] == a@[i as int]);
            assert(b@.skip(i as int)[0] == b@[i as int]);
        }
        if a[i] < b[i] {
            return true;
        }
        if a[i] > b[i] {
            return false;
        }
        i = i + 1;
    }
}

/// Copy of `s[from..to]`.
pub fn subrange_vec(s: &[u8], from: usize, to: usize) -> (r: Vec<u8>)
    requires
        from <= to <= s@.len(),
    ensures
        r@ == s@.subrange(from as int, to as int),
{
    let mut out: Vec<u8> = Vec::new();
    let mut i: usize = from;
    while i < to
        invariant
            from <= i <= to <= s@.len(),
            out@ == s@.subrange(from as int, i as int),
        decreases to - i,
    {
        out.push(s[i]);
        proof {
            assert(s@.subrange(from as int, i + 1) =~= s@.subrange(from as int, i as int).push(
                s@[i as int],
            ));
        }
        i = i + 1;
    }
    out
}

} // verus!
