//! Steam metadata: application-id extraction from command lines, the quoted
//! key/value scanner shared by `appmanifest_*.acf` and `libraryfolders.vdf`
//! files, and the path construction around Steam library folders.

use vstd::prelude::*;
use vstd::slice::slice_to_vec;
use crate::bytes::{
    Strip, trim_spec, trim_bytes, is_digit, byte_is_digit, lower, to_lower, index_of_from,
    find_byte_from, find_seq_from, find_seq_exec, lemma_find_seq_from_props, subrange_vec,
    split_spec, split_byte, replace_spec, replace_all, dedup_spec, dedup_strings, starts_with,
    starts_with_exec, concat_bytes, append_bytes, lemma_dv, bytes_eq, lex_le,
};
use crate::keys::{file_name_spec, file_name_bytes};
use crate::bytes::{rfind_byte, rindex_of, contains_string, lex_le_exec};
use crate::lit::{
    lit_marker_appid, lit_marker_gameid_eq, lit_marker_dash_gameid, lit_marker_steam_app,
    lit_marker_rungameid, blit_marker_appid, blit_marker_gameid_eq, blit_marker_dash_gameid,
    blit_marker_steam_app, blit_marker_rungameid, lit_path_key, blit_path_key,
    lit_double_backslash, blit_double_backslash, lit_single_backslash, blit_single_backslash,
    lit_steamapps, blit_steamapps, lit_appmanifest_prefix, blit_appmanifest_prefix, lit_dot_acf,
    blit_dot_acf, lit_common, blit_common, lit_steam_app_id_prefix, blit_steam_app_id_prefix,
    lit_steam_rungameid_uri, blit_steam_rungameid_uri, lit_steam_app_name_prefix,
    blit_steam_app_name_prefix, lit_home_local_steam, blit_home_local_steam,
    lit_home_legacy_steam, blit_home_legacy_steam, lit_logo_png, blit_logo_png, lit_library_600x900,
    blit_library_600x900, lit_library_header, blit_library_header, lit_ext_png, blit_ext_png,
    lit_ext_jpg, blit_ext_jpg, lit_ext_jpeg, blit_ext_jpeg, lit_ext_webp, blit_ext_webp,
    lit_ext_svg, blit_ext_svg, lit_installdir_key, blit_installdir_key, lit_name_key,
    blit_name_key,
};
verus! {

// ---------------------------------------------------------------------------
// Decimal extraction after a marker
// ---------------------------------------------------------------------------
/// Bytes skipped between a marker and the digits of an application id.
pub open spec fn is_sep_byte(b: u8) -> bool {
    b == 32 || b == 61 || b == 58 || b == 47 || b == 45 || b == 34 || b == 39
}

/// Start of the digit run at or after `from`: separator bytes are skipped;
/// any other non-digit byte (or the end) means there is none.
pub open spec fn digits_start(s: Seq<u8>, from: int) -> Option<int>
    decreases s.len() - from
        when 0 <= from <= s.len()
{
    if from >= s.len() {
        None
    } else if is_digit(s[from]) {
        Some(from)
    } else if is_sep_byte(s[from]) {
        digits_start(s, from + 1)
    } else {
        None
    }
}

/// First index at or after `from` holding a non-digit (or the length).
pub open spec fn digits_end(s: Seq<u8>, from: int) -> int
    decreases s.len() - from
        when 0 <= from <= s.len()
{
    if from >= s.len() {
        s.len() as int
    } else if is_digit(s[from]) {
        digits_end(s, from + 1)
    } else {
        from
    }
}

/// The maximal decimal run found at or after `from` (separators skipped),
/// unless it is empty or the literal `0`.
pub open spec fn decimal_from_spec(s: Seq<u8>, from: int) -> Option<Seq<u8>> {
    match digits_start(s, from) {
        None => None,
        Some(st) => {
            let d = s.subrange(st, digits_end(s, st));
            if d == seq![48u8] {
                None
            } else {
                Some(d)
            }
        },
    }
}

fn extract_decimal_from(s: &[u8], from: usize) -> (r: Option<Vec<u8>>)
    requires
        from <= s@.len(),
    ensures
        match r {
            Some(d) => decimal_from_spec(s@, from as int) == Some(d@),
            None => decimal_from_spec(s@, from as int) is None,
        },
{
    let mut i: usize = from;
    loop
        invariant
            from <= i <= s@.len(),
            digits_start(s@, from as int) == digits_start(s@, i as int),
        ensures
            i < s@.len(),
            digits_start(s@, from as int) == Some(i as int),
        decreases s@.len() - i,
    {
        if i >= s.len() {
            return None;
        }
        let b = s[i];
        if byte_is_digit(b) {
            proof {
                assert(digits_start(s@, i as int) == Some(i as int));
            }
            break;
        }
        if b == 32 || b == 61 || b == 58 || b == 47 || b == 45 || b == 34 || b == 39 {
            i = i + 1;
        } else {
            return None;
        }
    }
    let st = i;
    let mut j: usize = st;
    loop
        invariant
            st <= j <= s@.len(),
            digits_end(s@, st as int) == digits_end(s@, j as int),
        ensures
            st <= j <= s@.len(),
            digits_end(s@, st as int) == j as int,
        decreases s@.len() - j,
    {
        if j >= s.len() {
            proof {
                assert(digits_end(s@, j as int) == j as int);
            }
            break;
        }
        if byte_is_digit(s[j]) {
            j = j + 1;
        } else {
            proof {
                assert(digits_end(s@, j as int) == j as int);
            }
            break;
        }
    }
    let d = subrange_vec(s, st, j);
    if d.len() == 1 && d[0] == 48 {
        proof {
            assert(d@ =~= seq![48u8]);
        }
        return None;
    }
    proof {
        if d@ == seq![48u8] {
            assert(d@.len() == 1 && d@[0] == 48);
        }
    }
    Some(d)
}

/// The first decimal id that one marker yields: the marker is searched
/// case-insensitively from `offset` on, and each occurrence is tried until
/// one is followed by usable digits.
pub open spec fn decimal_after_marker(s: Seq<u8>, marker: Seq<u8>, offset: int) -> Option<Seq<u8>>
    decreases s.len() - offset
        when 0 <= offset <= s.len() && marker.len() > 0
        via decimal_after_marker_dec
{
    match find_seq_from(lower(s), marker, offset) {
        None => None,
        Some(pos) => {
            let start = pos + marker.len();
            match decimal_from_spec(s, start) {
                Some(d) => Some(d),
                None => decimal_after_marker(s, marker, start),
            }
        },
    }
}

#[via_fn]
proof fn decimal_after_marker_dec(s: Seq<u8>, marker: Seq<u8>, offset: int) {
    if 0 <= offset <= s.len() && marker.len() > 0 {
        lemma_find_seq_from_props(lower(s), marker, offset);
    }
}

fn extract_decimal_after_marker(s: &[u8], low: &Vec<u8>, marker: &[u8]) -> (r: Option<Vec<u8>>)
    requires
        low@ == lower(s@),
        marker@.len() > 0,
    ensures
        match r {
            Some(d) => decimal_after_marker(s@, marker@, 0) == Some(d@),
            None => decimal_after_marker(s@, marker@, 0) is None,
        },
{
    let mut offset: usize = 0;
    loop
        invariant
            offset <= s@.len(),
            low@ == lower(s@),
            marker@.len() > 0,
            low@.len() == s@.len(),
            decimal_after_marker(s@, marker@, 0) == decimal_after_marker(
                s@,
                marker@,
                offset as int,
            ),
        decreases s@.len() - offset,
    {
        match find_seq_exec(low.as_slice(), marker, offset) {
            None => {
                return None;
            },
            Some(pos) => {
                let ll = low.len();
                proof {
                    assert(pos + marker@.len() <= ll);
                }
                let start = pos + marker.len();
                match extract_decimal_from(s, start) {
                    Some(d) => {
                        return Some(d);
                    },
                    None => {
                        offset = start;
                    },
                }
            },
        }
    }
}

/// The Steam application id found in `value`: the first of the markers
/// `appid=`, `gameid=`, `-gameid`, `steam_app_`, `rungameid/` (tried in that
/// order, case-insensitively) that is followed by a non-zero decimal run.
/// A value that is blank yields nothing.
pub open spec fn steam_id_spec(value: Seq<u8>) -> Option<Seq<u8>> {
    if trim_spec(value, Strip::Whitespace).len() == 0 {
        None
    } else if decimal_after_marker(value, lit_marker_appid(), 0) is Some {
        decimal_after_marker(value, lit_marker_appid(), 0)
    } else if decimal_after_marker(value, lit_marker_gameid_eq(), 0) is Some {
        decimal_after_marker(value, lit_marker_gameid_eq(), 0)
    } else if decimal_after_marker(value, lit_marker_dash_gameid(), 0) is Some {
        decimal_after_marker(value, lit_marker_dash_gameid(), 0)
    } else if decimal_after_marker(value, lit_marker_steam_app(), 0) is Some {
        decimal_after_marker(value, lit_marker_steam_app(), 0)
    } else {
        decimal_after_marker(value, lit_marker_rungameid(), 0)
    }
}

/// See [`steam_id_spec`].
pub fn extract_steam_app_id(value: &[u8]) -> (r: Option<Vec<u8>>)
    ensures
        match r {
            Some(d) => steam_id_spec(value@) == Some(d@),
            None => steam_id_spec(value@) is None,
        },
{
    let t = trim_bytes(value, Strip::Whitespace);
    if t.len() == 0 {
        return None;
    }
    let low = to_lower(value);
    let m1 = blit_marker_appid();
    if let Some(d) = extract_decimal_after_marker(value, &low, m1.as_slice()) {
        return Some(d);
    }
    let m2 = blit_marker_gameid_eq();
    if let Some(d) = extract_decimal_after_marker(value, &low, m2.as_slice()) {
        return Some(d);
    }
    let m3 = blit_marker_dash_gameid();
    if let Some(d) = extract_decimal_after_marker(value, &low, m3.as_slice()) {
        return Some(d);
    }
    let m4 = blit_marker_steam_app();
    if let Some(d) = extract_decimal_after_marker(value, &low, m4.as_slice()) {
        return Some(d);
    }
    let m5 = blit_marker_rungameid();
    extract_decimal_after_marker(value, &low, m5.as_slice())
}

// ---------------------------------------------------------------------------
// Quoted key/value lines
// ---------------------------------------------------------------------------
/// Carriage return stripped from a line end.
pub open spec fn strip_cr(l: Seq<u8>) -> Seq<u8> {
    if l.len() > 0 && l.last() == 13 {
        l.drop_last()
    } else {
        l
    }
}

/// The lines of `s`: split at `\n`, a `\r` before each split point removed,
/// and no final empty line after a trailing `\n`.
pub open spec fn lines_spec(s: Seq<u8>) -> Seq<Seq<u8>> {
    let parts = split_spec(s, 10);
    let main = parts.take(parts.len() - 1).map_values(|l: Seq<u8>| strip_cr(l));
    if parts.last().len() == 0 {
        main
    } else {
        main.push(parts.last())
    }
}

fn strip_cr_exec(l: &Vec<u8>) -> (r: Vec<u8>)
    ensures
        r@ == strip_cr(l@),
{
    if l.len() > 0 && l[l.len() - 1] == 13 {
        proof {
            assert(l@.drop_last() =~= l@.subrange(0, l@.len() - 1));
        }
        subrange_vec(l.as_slice(), 0, l.len() - 1)
    } else {
        l.clone()
    }
}

pub fn split_lines(s: &[u8]) -> (r: Vec<Vec<u8>>)
    ensures
        r.deep_view() == lines_spec(s@),
{
    let parts = split_byte(s, 10);
    let ghost pv = parts.deep_view();
    proof {
        lemma_dv(&parts);
    }
    let mut out: Vec<Vec<u8>> = Vec::new();
    let n = parts.len();
    let mut i: usize = 0;
    while i < n - 1
        invariant
            n == parts@.len(),
            n >= 1,
            i <= n - 1,
            pv == parts.deep_view(),
            pv.len() == parts@.len(),
            forall|k: int| 0 <= k < pv.len() ==> #[trigger] pv[k] == parts@[k]@,
            out.deep_view() == pv.take((n - 1) as int).map_values(|l: Seq<u8>| strip_cr(l)).take(
                i as int,
            ),
        decreases n - 1 - i,
    {
        let piece = strip_cr_exec(&parts[i]);
        out.push(piece);
        proof {
            lemma_dv(&out);
            let m = pv.take((n - 1) as int).map_values(|l: Seq<u8>| strip_cr(l));
            assert(m.take(i as int).push(m[i as int]) =~= m.take(i + 1));
            assert(out.deep_view() =~~= m.take(i + 1));
        }
        i = i + 1;
    }
    proof {
        let m = pv.take((n - 1) as int).map_values(|l: Seq<u8>| strip_cr(l));
        assert(m.take(m.len() as int) =~= m);
    }
    if parts[n - 1].len() > 0 {
        let last = parts[n - 1].clone();
        proof {
            assert(last@ == pv[n - 1]);
        }
        out.push(last);
        proof {
            lemma_dv(&out);
            assert(pv.last() == pv[n - 1]);
            assert(out.deep_view() =~~= lines_spec(s@));
        }
    } else {
        proof {
            assert(pv.last() == pv[n - 1]);
            assert(out.deep_view() =~~= lines_spec(s@));
        }
    }
    out
}

/// The quoted key and value of one manifest line: the key between the first
/// two `"` bytes, the value between the third and the fourth (or the line
/// end), both whitespace-trimmed; a line without three `"` bytes, or with a
/// blank key, carries nothing.
pub open spec fn quoted_kv_spec(line: Seq<u8>) -> Option<(Seq<u8>, Seq<u8>)> {
    match index_of_from(line, 34, 0) {
        None => None,
        Some(q1) => match index_of_from(line, 34, q1 + 1) {
            None => None,
            Some(q2) => match index_of_from(line, 34, q2 + 1) {
                None => None,
                Some(q3) => {
                    let vend = match index_of_from(line, 34, q3 + 1) {
                        Some(q4) => q4,
                        None => line.len() as int,
                    };
                    let key = trim_spec(line.subrange(q1 + 1, q2), Strip::Whitespace);
                    let value = trim_spec(line.subrange(q3 + 1, vend), Strip::Whitespace);
                    if key.len() == 0 {
                        None
                    } else {
                        Some((key, value))
                    }
                },
            },
        },
    }
}

/// See [`quoted_kv_spec`].
pub fn quoted_kv(line: &[u8]) -> (r: Option<(Vec<u8>, Vec<u8>)>)
    ensures
        match r {
            Some(kv) => quoted_kv_spec(line@) == Some((kv.0@, kv.1@)),
            None => quoted_kv_spec(line@) is None,
        },
{
    let n = line.len();
    let q1 = match find_byte_from(line, 34, 0) {
        Some(i) => i,
        None => {
            return None;
        },
    };
    proof {
        assert(q1 < n);
    }
    let q2 = match find_byte_from(line, 34, q1 + 1) {
        Some(i) => i,
        None => {
            return None;
        },
    };
    proof {
        assert(q2 < n);
    }
    let q3 = match find_byte_from(line, 34, q2 + 1) {
        Some(i) => i,
        None => {
            return None;
        },
    };
    proof {
        assert(q3 < n);
    }
    let vend = match find_byte_from(line, 34, q3 + 1) {
        Some(q4) => q4,
        None => n,
    };
    let keyraw = subrange_vec(line, q1 + 1, q2);
    let key = trim_bytes(keyraw.as_slice(), Strip::Whitespace);
    let valraw = subrange_vec(line, q3 + 1, vend);
    let value = trim_bytes(valraw.as_slice(), Strip::Whitespace);
    if key.len() == 0 {
        return None;
    }
    Some((key, value))
}

// ---------------------------------------------------------------------------
// ACF field lookup
// ---------------------------------------------------------------------------
/// The value of the first line whose quoted key equals `key` ignoring ASCII
/// case, scanning from line `i` on.
pub open spec fn acf_value_from(ls: Seq<Seq<u8>>, key: Seq<u8>, i: int) -> Option<Seq<u8>>
    decreases ls.len() - i
        when 0 <= i <= ls.len()
{
    if i >= ls.len() {
        None
    } else {
        match quoted_kv_spec(ls[i]) {
            Some(kv) => if lower(kv.0) == lower(key) {
                Some(kv.1)
            } else {
                acf_value_from(ls, key, i + 1)
            },
            None => acf_value_from(ls, key, i + 1),
        }
    }
}

/// The value of the first `"key" "value"` line of `content` whose key
/// equals `key` ignoring ASCII case.
pub open spec fn acf_value_spec(content: Seq<u8>, key: Seq<u8>) -> Option<Seq<u8>> {
    acf_value_from(lines_spec(content), key, 0)
}

/// See [`acf_value_spec`].
pub fn acf_value(content: &[u8], key: &[u8]) -> (r: Option<Vec<u8>>)
    ensures
        match r {
            Some(v) => acf_value_spec(content@, key@) == Some(v@),
            None => acf_value_spec(content@, key@) is None,
        },
{
    let ls = split_lines(content);
    let ghost lv = ls.deep_view();
    proof {
        lemma_dv(&ls);
    }
    let keylow = to_lower(key);
    let mut i: usize = 0;
    while i < ls.len()
        invariant
            i <= lv.len(),
            lv == ls.deep_view(),
            lv == lines_spec(content@),
            lv.len() == ls@.len(),
            forall|k: int| 0 <= k < lv.len() ==> #[trigger] lv[k] == ls@[k]@,
            keylow@ == lower(key@),
            acf_value_from(lv, key@, 0) == acf_value_from(lv, key@, i as int),
        decreases ls.len() - i,
    {
        match quoted_kv(ls[i].as_slice()) {
            Some(kv) => {
                let klow = to_lower(kv.0.as_slice());
                if bytes_eq(klow.as_slice(), keylow.as_slice()) {
                    proof {
                        assert(lv[i as int] == ls@[i as int]@);
                        assert(quoted_kv_spec(lv[i as int]) == Some((kv.0@, kv.1@)));
                        assert(acf_value_from(lv, key@, i as int) == Some(kv.1@));
                    }
                    return Some(kv.1);
                }
                proof {
                    assert(lv[i as int] == ls@[i as int]@);
                    assert(acf_value_from(lv, key@, i as int) == acf_value_from(
                        lv,
                        key@,
                        i + 1,
                    ));
                }
            },
            None => {
                proof {
                    assert(lv[i as int] == ls@[i as int]@);
                    assert(acf_value_from(lv, key@, i as int) == acf_value_from(
                        lv,
                        key@,
                        i + 1,
                    ));
                }
            },
        }
        i = i + 1;
    }
    proof {
        assert(acf_value_from(lv, key@, i as int) is None);
    }
    None
}

// ---------------------------------------------------------------------------
// VDF library roots
// ---------------------------------------------------------------------------
/// The unescaped values of the `"path"` lines from line `i` on, in order.
pub open spec fn vdf_collect(ls: Seq<Seq<u8>>, i: int) -> Seq<Seq<u8>>
    decreases ls.len() - i
        when 0 <= i <= ls.len()
{
    if i >= ls.len() {
        Seq::empty()
    } else {
        let rest = vdf_collect(ls, i + 1);
        match quoted_kv_spec(ls[i]) {
            Some(kv) => if kv.0 == lit_path_key() {
                seq![
                    replace_spec(kv.1, lit_double_backslash(), lit_single_backslash()),
                ] + rest
            } else {
                rest
            },
            None => rest,
        }
    }
}

/// The library roots named by a `libraryfolders.vdf` body: every `"path"`
/// value with `\\` unescaped to `\`, in file order, duplicates removed.
pub open spec fn vdf_roots_spec(content: Seq<u8>) -> Seq<Seq<u8>> {
    dedup_spec(vdf_collect(lines_spec(content), 0))
}

/// See [`vdf_roots_spec`].
pub fn steam_library_roots_from_vdf(content: &[u8]) -> (r: Vec<Vec<u8>>)
    ensures
        r.deep_view() == vdf_roots_spec(content@),
{
    let ls = split_lines(content);
    let ghost lv = ls.deep_view();
    proof {
        lemma_dv(&ls);
    }
    let pat = blit_double_backslash();
    let rep = blit_single_backslash();
    let pathkey = blit_path_key();
    let mut roots: Vec<Vec<u8>> = Vec::new();
    let mut i: usize = 0;
    proof {
        assert(roots.deep_view() =~~= Seq::<Seq<u8>>::empty());
    }
    while i < ls.len()
        invariant
            i <= lv.len(),
            lv == ls.deep_view(),
            lv.len() == ls@.len(),
            forall|k: int| 0 <= k < lv.len() ==> #[trigger] lv[k] == ls@[k]@,
            pat@ == lit_double_backslash(),
            rep@ == lit_single_backslash(),
            pathkey@ == lit_path_key(),
            vdf_collect(lv, 0) == roots.deep_view() + vdf_collect(lv, i as int),
        decreases ls.len() - i,
    {
        match quoted_kv(ls[i].as_slice()) {
            Some(kv) => {
                if bytes_eq(kv.0.as_slice(), pathkey.as_slice()) {
                    let unescaped = replace_all(kv.1.as_slice(), pat.as_slice(), rep.as_slice());
                    roots.push(unescaped);
                    proof {
                        lemma_dv(&roots);
                        assert(vdf_collect(lv, 0) =~~= roots.deep_view() + vdf_collect(lv, i + 1));
                    }
                } else {
                    proof {
                        assert(vdf_collect(lv, 0) =~~= roots.deep_view() + vdf_collect(lv, i + 1));
                    }
                }
            },
            None => {
                proof {
                    assert(vdf_collect(lv, 0) =~~= roots.deep_view() + vdf_collect(lv, i + 1));
                }
            },
        }
        i = i + 1;
    }
    proof {
        assert(vdf_collect(lv, 0) =~~= roots.deep_view());
    }
    dedup_strings(&roots)
}

// ---------------------------------------------------------------------------
// Path construction around Steam directories
// ---------------------------------------------------------------------------
/// `a` joined with `b` as paths: an absolute `b` replaces `a`; otherwise a
/// single `/` stands between them.
pub open spec fn path_join_spec(a: Seq<u8>, b: Seq<u8>) -> Seq<u8> {
    if b.len() > 0 && b[0] == 47 {
        b
    } else if a.len() == 0 {
        b
    } else if a.last() == 47 {
        a + b
    } else {
        a + seq![47u8] + b
    }
}

/// See [`path_join_spec`].
pub fn path_join(a: &[u8], b: &[u8]) -> (r: Vec<u8>)
    ensures
        r@ == path_join_spec(a@, b@),
{
    if b.len() > 0 && b[0] == 47 {
        return slice_to_vec(b);
    }
    if a.len() == 0 {
        return slice_to_vec(b);
    }
    if a[a.len() - 1] == 47 {
        return concat_bytes(a, b);
    }
    let mut v = slice_to_vec(a);
    v.push(47);
    append_bytes(&mut v, b);
    proof {
        assert(v@ =~= a@ + seq![47u8] + b@);
    }
    v
}

/// The `steamapps` directory of a library root: the root itself when its
/// last path component is already `steamapps` ignoring ASCII case.
pub open spec fn steamapps_dir_spec(root: Seq<u8>) -> Seq<u8> {
    match file_name_spec(root) {
        Some(n) => if lower(n) == lit_steamapps() {
            root
        } else {
            path_join_spec(root, lit_steamapps())
        },
        None => path_join_spec(root, lit_steamapps()),
    }
}

/// See [`steamapps_dir_spec`].
pub fn steamapps_dir(root: &[u8]) -> (r: Vec<u8>)
    ensures
        r@ == steamapps_dir_spec(root@),
{
    let sa = blit_steamapps();
    match file_name_bytes(root) {
        Some(n) => {
            let nl = to_lower(n.as_slice());
            if bytes_eq(nl.as_slice(), sa.as_slice()) {
                slice_to_vec(root)
            } else {
                path_join(root, sa.as_slice())
            }
        },
        None => path_join(root, sa.as_slice()),
    }
}

/// The path of the manifest for application `id` inside a `steamapps`
/// directory: `<steamapps>/appmanifest_<id>.acf`.
pub open spec fn manifest_path_spec(steamapps: Seq<u8>, id: Seq<u8>) -> Seq<u8> {
    path_join_spec(steamapps, lit_appmanifest_prefix() + id + lit_dot_acf())
}

/// See [`manifest_path_spec`].
pub fn manifest_path(steamapps: &[u8], id: &[u8]) -> (r: Vec<u8>)
    ensures
        r@ == manifest_path_spec(steamapps@, id@),
{
    let mut name = blit_appmanifest_prefix();
    append_bytes(&mut name, id);
    let acf = blit_dot_acf();
    append_bytes(&mut name, acf.as_slice());
    path_join(steamapps, name.as_slice())
}

/// The install directory recorded by a manifest, under
/// `<steamapps>/common/`; a manifest without an `installdir` field yields
/// nothing.
pub open spec fn install_path_spec(steamapps: Seq<u8>, manifest: Seq<u8>) -> Option<Seq<u8>> {
    match acf_value_spec(manifest, lit_installdir_key()) {
        None => None,
        Some(dir) => Some(path_join_spec(path_join_spec(steamapps, lit_common()), dir)),
    }
}

/// See [`install_path_spec`].
pub fn steam_install_path(steamapps: &[u8], manifest: &[u8]) -> (r: Option<Vec<u8>>)
    ensures
        match r {
            Some(p) => install_path_spec(steamapps@, manifest@) == Some(p@),
            None => install_path_spec(steamapps@, manifest@) is None,
        },
{
    let key = blit_installdir_key();
    match acf_value(manifest, key.as_slice()) {
        None => None,
        Some(dir) => {
            let common = blit_common();
            let base = path_join(steamapps, common.as_slice());
            Some(path_join(base.as_slice(), dir.as_slice()))
        },
    }
}

/// The candidate Steam installation roots, from plain environment values:
/// the compatibility root, then `<home>/.local/share/Steam`, then
/// `<home>/.steam/steam`, duplicates removed.
pub open spec fn steam_root_candidates_spec(compat: Option<Seq<u8>>, home: Option<Seq<u8>>) -> Seq<
    Seq<u8>,
> {
    let base = match compat {
        Some(c) => seq![c],
        None => Seq::empty(),
    };
    let with_home = match home {
        Some(h) => base + seq![h + lit_home_local_steam(), h + lit_home_legacy_steam()],
        None => base,
    };
    dedup_spec(with_home)
}

/// See [`steam_root_candidates_spec`].
pub fn steam_root_candidates(compat: Option<&Vec<u8>>, home: Option<&Vec<u8>>) -> (r: Vec<Vec<u8>>)
    ensures
        r.deep_view() == steam_root_candidates_spec(
            match compat {
                Some(c) => Some(c@),
                None => None,
            },
            match home {
                Some(h) => Some(h@),
                None => None,
            },
        ),
{
    let mut cands: Vec<Vec<u8>> = Vec::new();
    if let Some(c) = compat {
        cands.push(c.clone());
    }
    if let Some(h) = home {
        let l1 = blit_home_local_steam();
        cands.push(concat_bytes(h.as_slice(), l1.as_slice()));
        let l2 = blit_home_legacy_steam();
        cands.push(concat_bytes(h.as_slice(), l2.as_slice()));
    }
    proof {
        lemma_dv(&cands);
        let ghost_compat = match compat {
            Some(c) => Some(c@),
            None => None::<Seq<u8>>,
        };
        let ghost_home = match home {
            Some(h) => Some(h@),
            None => None::<Seq<u8>>,
        };
        let base: Seq<Seq<u8>> = match ghost_compat {
            Some(c) => seq![c],
            None => Seq::empty(),
        };
        let with_home: Seq<Seq<u8>> = match ghost_home {
            Some(h) => base + seq![h + lit_home_local_steam(), h + lit_home_legacy_steam()],
            None => base,
        };
        assert(cands.deep_view() =~~= with_home);
    }
    dedup_strings(&cands)
}

/// The full library-root list: every installation root itself, followed by
/// the roots its `libraryfolders.vdf` names, in order, duplicates removed.
/// `vdf_bodies[i]` is the body found under `roots[i]`, where one was read.
pub open spec fn library_roots_spec(roots: Seq<Seq<u8>>, vdf_bodies: Seq<Option<Seq<u8>>>) -> Seq<
    Seq<u8>,
>
    decreases roots.len()
        when roots.len() == vdf_bodies.len()
{
    if roots.len() == 0 {
        Seq::empty()
    } else {
        let head = match vdf_bodies[0] {
            Some(body) => seq![roots[0]] + vdf_roots_spec(body),
            None => seq![roots[0]],
        };
        head + library_roots_spec(roots.drop_first(), vdf_bodies.drop_first())
    }
}

/// See [`library_roots_spec`]; the result is duplicate-free in order.
pub fn steam_library_roots(roots: &Vec<Vec<u8>>, vdf_bodies: &Vec<Option<Vec<u8>>>) -> (r: Vec<
    Vec<u8>,
>)
    requires
        roots@.len() == vdf_bodies@.len(),
    ensures
        r.deep_view() == dedup_spec(library_roots_spec(roots.deep_view(), vdf_bodies.deep_view())),
{
    let ghost rv = roots.deep_view();
    let ghost bv = vdf_bodies.deep_view();
    proof {
        lemma_dv(roots);
    }
    let mut all: Vec<Vec<u8>> = Vec::new();
    let mut i: usize = 0;
    proof {
        assert(rv.skip(0) =~= rv);
        assert(bv.skip(0) =~= bv);
        assert(all.deep_view() + library_roots_spec(rv, bv) =~~= library_roots_spec(rv, bv));
    }
    while i < roots.len()
        invariant
            i <= rv.len(),
            rv == roots.deep_view(),
            bv == vdf_bodies.deep_view(),
            rv.len() == roots@.len(),
            bv.len() == vdf_bodies@.len(),
            rv.len() == bv.len(),
            forall|k: int| 0 <= k < rv.len() ==> #[trigger] rv[k] == roots@[k]@,
            library_roots_spec(rv, bv) == all.deep_view() + library_roots_spec(
                rv.skip(i as int),
                bv.skip(i as int),
            ),
        decreases roots.len() - i,
    {
        proof {
            assert(bv[i as int] == match vdf_bodies@[i as int] {
                Some(b) => Some(b@),
                None => None::<Seq<u8>>,
            });
        }
        let root = roots[i].clone();
        proof {
            assert(root@ == rv[i as int]);
        }
        all.push(root);
        match &vdf_bodies[i] {
            Some(body) => {
                let mut extra = steam_library_roots_from_vdf(body.as_slice());
                let ghost ev = extra.deep_view();
                proof {
                    lemma_dv(&extra);
                }
                let mut j: usize = 0;
                let ghost pre = all.deep_view();
                while j < extra.len()
                    invariant
                        j <= ev.len(),
                        ev == extra.deep_view(),
                        ev.len() == extra@.len(),
                        forall|q: int| 0 <= q < ev.len() ==> #[trigger] ev[q] == extra@[q]@,
                        all.deep_view() == pre + ev.take(j as int),
                    decreases extra.len() - j,
                {
                    let item = extra[j].clone();
                    proof {
                        assert(item@ == ev[j as int]);
                    }
                    all.push(item);
                    proof {
                        lemma_dv(&all);
                        assert(pre + ev.take(j + 1) =~~= (pre + ev.take(j as int)).push(
                            ev[j as int],
                        ));
                        assert(all.deep_view() =~~= pre + ev.take(j + 1));
                    }
                    j = j + 1;
                }
                proof {
                    assert(ev.take(ev.len() as int) =~= ev);
                    let tail_r = rv.skip(i as int);
                    let tail_b = bv.skip(i as int);
                    assert(tail_r[0] == rv[i as int]);
                    assert(tail_b[0] == bv[i as int]);
                    assert(tail_r.drop_first() =~= rv.skip(i + 1));
                    assert(tail_b.drop_first() =~= bv.skip(i + 1));
                    assert(library_roots_spec(rv, bv) =~~= all.deep_view() + library_roots_spec(
                        rv.skip(i + 1),
                        bv.skip(i + 1),
                    ));
                }
            },
            None => {
                proof {
                    lemma_dv(&all);
                    let tail_r = rv.skip(i as int);
                    let tail_b = bv.skip(i as int);
                    assert(tail_r[0] == rv[i as int]);
                    assert(tail_b[0] == bv[i as int]);
                    assert(tail_r.drop_first() =~= rv.skip(i + 1));
                    assert(tail_b.drop_first() =~= bv.skip(i + 1));
                    assert(library_roots_spec(rv, bv) =~~= all.deep_view() + library_roots_spec(
                        rv.skip(i + 1),
                        bv.skip(i + 1),
                    ));
                }
            },
        }
        i = i + 1;
    }
    proof {
        assert(rv.skip(rv.len() as int).len() == 0);
        assert(library_roots_spec(rv.skip(rv.len() as int), bv.skip(bv.len() as int))
            =~~= Seq::<Seq<u8>>::empty());
        assert(all.deep_view() =~~= library_roots_spec(rv, bv));
    }
    dedup_strings(&all)
}

// ---------------------------------------------------------------------------
// Identity strings of Steam applications
// ---------------------------------------------------------------------------
/// The application id under which a Steam title is aggregated:
/// `steam-app-<id>`.
pub open spec fn steam_app_id_spec(id: Seq<u8>) -> Seq<u8> {
    lit_steam_app_id_prefix() + id
}

/// See [`steam_app_id_spec`].
pub fn steam_app_identity(id: &[u8]) -> (r: Vec<u8>)
    ensures
        r@ == steam_app_id_spec(id@),
{
    let mut v = blit_steam_app_id_prefix();
    append_bytes(&mut v, id);
    v
}

/// The Steam id of an application id of the form `steam-app-<id>`, if any.
pub open spec fn steam_id_of_app_id(app_id: Seq<u8>) -> Option<Seq<u8>> {
    if starts_with(app_id, lit_steam_app_id_prefix()) {
        Some(app_id.skip(lit_steam_app_id_prefix().len() as int))
    } else {
        None
    }
}

/// See [`steam_id_of_app_id`].
pub fn steam_id_from_app_id(app_id: &[u8]) -> (r: Option<Vec<u8>>)
    ensures
        match r {
            Some(v) => steam_id_of_app_id(app_id@) == Some(v@),
            None => steam_id_of_app_id(app_id@) is None,
        },
{
    let prefix = blit_steam_app_id_prefix();
    if starts_with_exec(app_id, prefix.as_slice()) {
        proof {
            assert(app_id@.skip(prefix@.len() as int) =~= app_id@.subrange(
                prefix@.len() as int,
                app_id@.len() as int,
            ));
        }
        Some(subrange_vec(app_id, prefix.len(), app_id.len()))
    } else {
        None
    }
}

/// The launch URI of a Steam title: `steam://rungameid/<id>`.
pub open spec fn steam_uri_spec(id: Seq<u8>) -> Seq<u8> {
    lit_steam_rungameid_uri() + id
}

/// See [`steam_uri_spec`].
pub fn steam_uri(id: &[u8]) -> (r: Vec<u8>)
    ensures
        r@ == steam_uri_spec(id@),
{
    let mut v = blit_steam_rungameid_uri();
    append_bytes(&mut v, id);
    v
}

/// The synthesized display name used when no manifest names a title:
/// `Steam App <id>`.
pub open spec fn steam_fallback_name_spec(id: Seq<u8>) -> Seq<u8> {
    lit_steam_app_name_prefix() + id
}

/// See [`steam_fallback_name_spec`].
pub fn steam_fallback_name(id: &[u8]) -> (r: Vec<u8>)
    ensures
        r@ == steam_fallback_name_spec(id@),
{
    let mut v = blit_steam_app_name_prefix();
    append_bytes(&mut v, id);
    v
}

/// The display name a manifest body gives a title: its `name` value,
/// whitespace-trimmed, when that is not blank.
pub open spec fn manifest_name_spec(content: Seq<u8>) -> Option<Seq<u8>> {
    match acf_value_spec(content, lit_name_key()) {
        None => None,
        Some(v) => {
            let t = trim_spec(v, Strip::Whitespace);
            if t.len() == 0 {
                None
            } else {
                Some(t)
            }
        },
    }
}

/// See [`manifest_name_spec`].
pub fn manifest_name(content: &[u8]) -> (r: Option<Vec<u8>>)
    ensures
        match r {
            Some(v) => manifest_name_spec(content@) == Some(v@),
            None => manifest_name_spec(content@) is None,
        },
{
    let key = blit_name_key();
    match acf_value(content, key.as_slice()) {
        None => None,
        Some(v) => {
            let t = trim_bytes(v.as_slice(), Strip::Whitespace);
            if t.len() == 0 {
                None
            } else {
                Some(t)
            }
        },
    }
}

// ---------------------------------------------------------------------------
// Icon file choice
// ---------------------------------------------------------------------------
/// A file name with an image extension, ignoring ASCII case.
pub open spec fn has_image_ext(name: Seq<u8>) -> bool {
    match rindex_of(name, 46) {
        Some(p) => {
            let ext = lower(name.skip(p + 1));
            ext == lit_ext_png() || ext == lit_ext_jpg() || ext == lit_ext_jpeg() || ext
                == lit_ext_webp() || ext == lit_ext_svg()
        },
        None => false,
    }
}

/// The minimum of the image-named files under lexicographic order, if any.
pub open spec fn min_image_file(files: Seq<Seq<u8>>, i: int) -> Option<Seq<u8>>
    decreases files.len() - i
        when 0 <= i <= files.len()
{
    if i >= files.len() {
        None
    } else {
        let rest = min_image_file(files, i + 1);
        if has_image_ext(files[i]) {
            match rest {
                Some(m) => if lex_le(files[i], m) {
                    Some(files[i])
                } else {
                    Some(m)
                },
                None => Some(files[i]),
            }
        } else {
            rest
        }
    }
}

/// The icon file chosen from a directory listing: `logo.png`, then
/// `library_600x900.jpg`, then `library_header.jpg`, then the
/// lexicographically first file with an image extension.
pub open spec fn pick_icon_spec(files: Seq<Seq<u8>>) -> Option<Seq<u8>> {
    if files.contains(lit_logo_png()) {
        Some(lit_logo_png())
    } else if files.contains(lit_library_600x900()) {
        Some(lit_library_600x900())
    } else if files.contains(lit_library_header()) {
        Some(lit_library_header())
    } else {
        min_image_file(files, 0)
    }
}

fn has_image_ext_exec(name: &[u8]) -> (r: bool)
    ensures
        r == has_image_ext(name@),
{
    let n = name.len();
    match rfind_byte(name, 46) {
        Some(p) => {
            proof {
                assert(p < n);
                assert(name@.skip(p + 1) =~= name@.subrange(p + 1, name@.len() as int));
            }
            let raw = subrange_vec(name, p + 1, n);
            let ext = to_lower(raw.as_slice());
            let png = blit_ext_png();
            let jpg = blit_ext_jpg();
            let jpeg = blit_ext_jpeg();
            let webp = blit_ext_webp();
            let svg = blit_ext_svg();
            bytes_eq(ext.as_slice(), png.as_slice()) || bytes_eq(ext.as_slice(), jpg.as_slice())
                || bytes_eq(ext.as_slice(), jpeg.as_slice()) || bytes_eq(
                ext.as_slice(),
                webp.as_slice(),
            ) || bytes_eq(ext.as_slice(), svg.as_slice())
        },
        None => false,
    }
}

/// See [`pick_icon_spec`].
pub fn pick_icon_file(files: &Vec<Vec<u8>>) -> (r: Option<Vec<u8>>)
    ensures
        match r {
            Some(v) => pick_icon_spec(files.deep_view()) == Some(v@),
            None => pick_icon_spec(files.deep_view()) is None,
        },
{
    let ghost fv = files.deep_view();
    proof {
        lemma_dv(files);
    }
    let logo = blit_logo_png();
    if contains_string(files, logo.as_slice()) {
        return Some(logo);
    }
    let big = blit_library_600x900();
    if contains_string(files, big.as_slice()) {
        return Some(big);
    }
    let header = blit_library_header();
    if contains_string(files, header.as_slice()) {
        return Some(header);
    }
    let mut best: Option<Vec<u8>> = None;
    let mut i: usize = files.len();
    while i > 0
        invariant
            i <= fv.len(),
            fv == files.deep_view(),
            fv.len() == files@.len(),
            forall|k: int| 0 <= k < fv.len() ==> #[trigger] fv[k] == files@[k]@,
            match best {
                Some(b) => min_image_file(fv, i as int) == Some(b@),
                None => min_image_file(fv, i as int) is None,
            },
        decreases i,
    {
        i = i - 1;
        if has_image_ext_exec(files[i].as_slice()) {
            match best {
                Some(b) => {
                    if lex_le_exec(files[i].as_slice(), b.as_slice()) {
                        best = Some(files[i].clone());
                    } else {
                        best = Some(b);
                    }
                },
                None => {
                    best = Some(files[i].clone());
                },
            }
        }
    }
    best
}

} // verus!
