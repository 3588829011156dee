//! Exec-key normalization: turning executable paths, command lines and
//! desktop-entry `Exec=` values into comparable, alias-tolerant keys.

use vstd::prelude::*;
use crate::bytes::{
    Strip, strip_match, trim_front_spec, trim_back_spec, trim_spec, trim_bytes, trim_back_bytes,
    rindex_of, rfind_byte, subrange_vec, to_lower, lower, lower_byte, is_ws, is_alpha,
    byte_is_alpha, bytes_eq, ends_with, ends_with_exec, index_of_from, find_byte_from,
    tokens_spec, split_tokens, lemma_dv,
};
use crate::lit::{
    lit_flag_arch, lit_flag_branch, lit_flag_command, lit_flag_file_forwarding, blit_flag_arch,
    blit_flag_branch, blit_flag_command, blit_flag_file_forwarding, lit_steam, lit_gtk_launch,
    lit_xdg_open, lit_sh, lit_bash, lit_zsh, lit_fish, blit_steam, blit_gtk_launch, blit_xdg_open,
    blit_sh, blit_bash, blit_zsh, blit_fish, lit_env_word, blit_env_word, lit_flatpak,
    blit_flatpak, lit_run, blit_run, lit_dot_desktop, blit_dot_desktop, lit_hyphen_stable,
    lit_hyphen_beta, lit_hyphen_dev, lit_hyphen_bin, lit_hyphen_browser, lit_hyphen_desktop,
    lit_hyphen_applet, blit_hyphen_stable, blit_hyphen_beta, blit_hyphen_dev, blit_hyphen_bin,
    blit_hyphen_browser, blit_hyphen_desktop, blit_hyphen_applet,
};
use vstd::slice::slice_to_vec;

verus! {

// ---------------------------------------------------------------------------
// Path-like token reduction
// ---------------------------------------------------------------------------
/// The last path component of `s`: trailing `/` bytes are ignored, and an
/// empty name or a lone `.` / `..` component names no file.
pub open spec fn file_name_spec(s: Seq<u8>) -> Option<Seq<u8>> {
    let t = trim_back_spec(s, Strip::Slash);
    let name = match rindex_of(t, 47) {
        Some(i) => t.skip(i + 1),
        None => t,
    };
    if name.len() == 0 || name == seq![46u8] || name == seq![46u8, 46u8] {
        None
    } else {
        Some(name)
    }
}

/// `name` up to its last `.`; kept whole when the dot is first or absent.
pub open spec fn stem_spec(name: Seq<u8>) -> Seq<u8> {
    match rindex_of(name, 46) {
        Some(p) => if p > 0 {
            name.take(p)
        } else {
            name
        },
        None => name,
    }
}

/// A token reduced as a path: the stem of its file name, or the token itself
/// when it names no file.
pub open spec fn token_stem_spec(t: Seq<u8>) -> Seq<u8> {
    match file_name_spec(t) {
        Some(n) => stem_spec(n),
        None => t,
    }
}

/// The lowercased file name of a command token (the whole token when it
/// names no file), used to recognize wrapper commands.
pub open spec fn cmd_stem_spec(t: Seq<u8>) -> Seq<u8> {
    match file_name_spec(t) {
        Some(n) => lower(n),
        None => lower(t),
    }
}

pub fn file_name_bytes(s: &[u8]) -> (r: Option<Vec<u8>>)
    ensures
        match r {
            Some(v) => file_name_spec(s@) == Some(v@),
            None => file_name_spec(s@) is None,
        },
{
    let t = trim_back_bytes(s, Strip::Slash);
    let tl = t.len();
    let name: Vec<u8> = match rfind_byte(t.as_slice(), 47) {
        Some(i) => {
            proof {
                assert(i < tl);
                assert(t@.skip(i + 1) =~= t@.subrange(i + 1, t@.len() as int));
            }
            subrange_vec(t.as_slice(), i + 1, tl)
        },
        None => t,
    };
    if name.len() == 0 {
        return None;
    }
    if name.len() == 1 && name[0] == 46 {
        proof {
            assert(name@ =~= seq![46u8]);
        }
        return None;
    }
    if name.len() == 2 && name[0] == 46 && name[1] == 46 {
        proof {
            assert(name@ =~= seq![46u8, 46u8]);
        }
        return None;
    }
    proof {
        assert(name@ != seq![46u8] && name@ != seq![46u8, 46u8]) by {
            if name@ == seq![46u8] {
                assert(name@.len() == 1 && name@[0] == 46);
            }
            if name@ == seq![46u8, 46u8] {
                assert(name@.len() == 2 && name@[0] == 46 && name@[1] == 46);
            }
        }
    }
    Some(name)
}

pub fn stem_bytes(name: &[u8]) -> (r: Vec<u8>)
    ensures
        r@ == stem_spec(name@),
{
    match rfind_byte(name, 46) {
        Some(p) => {
            if p > 0 {
                proof {
                    assert(name@.take(p as int) =~= name@.subrange(0, p as int));
                }
                subrange_vec(name, 0, p)
            } else {
                slice_to_vec(name)
            }
        },
        None => slice_to_vec(name),
    }
}

pub fn token_stem_bytes(t: &[u8]) -> (r: Vec<u8>)
    ensures
        r@ == token_stem_spec(t@),
{
    match file_name_bytes(t) {
        Some(n) => stem_bytes(n.as_slice()),
        None => slice_to_vec(t),
    }
}

pub fn cmd_stem_bytes(t: &[u8]) -> (r: Vec<u8>)
    ensures
        r@ == cmd_stem_spec(t@),
{
    match file_name_bytes(t) {
        Some(n) => to_lower(n.as_slice()),
        None => to_lower(t),
    }
}

// ---------------------------------------------------------------------------
// Match-token extraction from a full command line
// ---------------------------------------------------------------------------
/// A token that `env` consumes: a `KEY=VALUE` assignment or a flag.
pub open spec fn is_assign_or_flag(t: Seq<u8>) -> bool {
    (t.len() > 0 && t[0] == 45) || index_of_from(t, 61, 0) is Some
}

/// First index at or after `i` whose token `env` would not consume.
pub open spec fn env_skip(toks: Seq<Seq<u8>>, i: int) -> int
    decreases toks.len() - i
        when 0 <= i <= toks.len()
{
    if i >= toks.len() {
        i
    } else if is_assign_or_flag(toks[i]) {
        env_skip(toks, i + 1)
    } else {
        i
    }
}

/// A `flatpak run` flag that takes a separate value token.
pub open spec fn is_value_flag(t: Seq<u8>) -> bool {
    t == lit_flag_arch() || t == lit_flag_branch() || t == lit_flag_command() || t
        == lit_flag_file_forwarding()
}

/// First index at or after `i` that is not part of `flatpak run`'s flags.
pub open spec fn flatpak_skip(toks: Seq<Seq<u8>>, i: int) -> int
    decreases toks.len() - i
        when 0 <= i <= toks.len()
{
    if i >= toks.len() {
        i
    } else if toks[i].len() > 0 && toks[i][0] == 45 {
        if is_value_flag(toks[i]) && i + 1 < toks.len() && !(toks[i + 1].len() > 0 && toks[i + 1][0]
            == 45) {
            flatpak_skip(toks, i + 2)
        } else {
            flatpak_skip(toks, i + 1)
        }
    } else {
        i
    }
}

/// Commands that only launch something else; a command line led by one of
/// them yields no match token of its own.
pub open spec fn is_indirection_stem(stem: Seq<u8>) -> bool {
    stem == lit_steam() || stem == lit_gtk_launch() || stem == lit_xdg_open() || stem == lit_sh()
        || stem == lit_bash() || stem == lit_zsh() || stem == lit_fish()
}

/// The token after an indirection check: `None` for a known wrapper shell.
pub open spec fn shell_or_token(toks: Seq<Seq<u8>>, i: int) -> Option<Seq<u8>> {
    if is_indirection_stem(cmd_stem_spec(toks[i])) {
        None
    } else {
        Some(toks[i])
    }
}

/// The token of a command line that names the real target program:
/// a leading `env` and its assignments are skipped, `flatpak run` resolves to
/// the token after its flags, and known wrapper shells yield no token.
pub open spec fn match_token_spec(value: Seq<u8>) -> Option<Seq<u8>> {
    let toks = tokens_spec(value);
    if toks.len() == 0 {
        None
    } else {
        let i0: int = if cmd_stem_spec(toks[0]) == lit_env_word() {
            env_skip(toks, 1)
        } else {
            0
        };
        if i0 >= toks.len() {
            None
        } else if cmd_stem_spec(toks[i0]) == lit_flatpak() && i0 + 1 < toks.len() && cmd_stem_spec(
            toks[i0 + 1],
        ) == lit_run() {
            let j = flatpak_skip(toks, i0 + 2);
            if j < toks.len() {
                Some(toks[j])
            } else {
                shell_or_token(toks, i0)
            }
        } else {
            shell_or_token(toks, i0)
        }
    }
}

fn is_assign_or_flag_exec(t: &[u8]) -> (r: bool)
    ensures
        r == is_assign_or_flag(t@),
{
    if t.len() > 0 && t[0] == 45 {
        return true;
    }
    match find_byte_from(t, 61, 0) {
        Some(_) => true,
        None => false,
    }
}

fn is_value_flag_exec(t: &[u8]) -> (r: bool)
    ensures
        r == is_value_flag(t@),
{
    let a = blit_flag_arch();
    let b = blit_flag_branch();
    let c = blit_flag_command();
    let d = blit_flag_file_forwarding();
    bytes_eq(t, a.as_slice()) || bytes_eq(t, b.as_slice()) || bytes_eq(t, c.as_slice()) || bytes_eq(
        t,
        d.as_slice(),
    )
}

fn is_indirection_stem_exec(stem: &[u8]) -> (r: bool)
    ensures
        r == is_indirection_stem(stem@),
{
    let a = blit_steam();
    let b = blit_gtk_launch();
    let c = blit_xdg_open();
    let d = blit_sh();
    let e = blit_bash();
    let f = blit_zsh();
    let g = blit_fish();
    bytes_eq(stem, a.as_slice()) || bytes_eq(stem, b.as_slice()) || bytes_eq(stem, c.as_slice())
        || bytes_eq(stem, d.as_slice()) || bytes_eq(stem, e.as_slice()) || bytes_eq(
        stem,
        f.as_slice(),
    ) || bytes_eq(stem, g.as_slice())
}

/// See [`match_token_spec`].
pub fn extract_match_token(value: &[u8]) -> (r: Option<Vec<u8>>)
    ensures
        match r {
            Some(v) => match_token_spec(value@) == Some(v@),
            None => match_token_spec(value@) is None,
        },
{
    let toks = split_tokens(value);
    let ghost tv = toks.deep_view();
    proof {
        lemma_dv(&toks);
    }
    if toks.len() == 0 {
        return None;
    }
    let mut index: usize = 0;
    let stem0 = cmd_stem_bytes(toks[0].as_slice());
    let envw = blit_env_word();
    if bytes_eq(stem0.as_slice(), envw.as_slice()) {
        index = 1;
        while index < toks.len() && is_assign_or_flag_exec(toks[index].as_slice())
            invariant
                1 <= index <= tv.len(),
                tv == toks.deep_view(),
                tv.len() == toks@.len(),
                forall|k: int| 0 <= k < tv.len() ==> #[trigger] tv[k] == toks@[k]@,
                env_skip(tv, 1) == env_skip(tv, index as int),
            decreases toks.len() - index,
        {
            index = index + 1;
        }
        proof {
            assert(env_skip(tv, index as int) == index as int);
        }
        if index >= toks.len() {
            return None;
        }
    }
    proof {
        assert(index < tv.len());
    }
    let stem_i = cmd_stem_bytes(toks[index].as_slice());
    let flatpak = blit_flatpak();
    let runw = blit_run();
    if bytes_eq(stem_i.as_slice(), flatpak.as_slice()) && index + 1 < toks.len() {
        let stem_n = cmd_stem_bytes(toks[index + 1].as_slice());
        if bytes_eq(stem_n.as_slice(), runw.as_slice()) {
            let mut idx: usize = index + 2;
            loop
                invariant
                    index + 2 <= idx <= tv.len(),
                    tv == toks.deep_view(),
                    tv.len() == toks@.len(),
                    forall|k: int| 0 <= k < tv.len() ==> #[trigger] tv[k] == toks@[k]@,
                    flatpak_skip(tv, index + 2) == flatpak_skip(tv, idx as int),
                ensures
                    idx <= tv.len(),
                    flatpak_skip(tv, index + 2) == idx as int,
                decreases tv.len() - idx,
            {
                if idx >= toks.len() {
                    proof {
                        assert(flatpak_skip(tv, idx as int) == idx as int);
                    }
                    break;
                }
                let flag = &toks[idx];
                if !(flag.len() > 0 && flag[0] == 45) {
                    proof {
                        assert(tv[idx as int] == toks@[idx as int]@);
                        assert(flatpak_skip(tv, idx as int) == idx as int);
                    }
                    break;
                }
                let takes_value = is_value_flag_exec(flag.as_slice());
                if takes_value && idx + 1 < toks.len() && !(toks[idx + 1].len() > 0 && toks[idx
                    + 1][0] == 45) {
                    idx = idx + 2;
                } else {
                    idx = idx + 1;
                }
            }
            if idx < toks.len() {
                let t = toks[idx].clone();
                proof {
                    assert(t@ == tv[idx as int]);
                }
                return Some(t);
            }
        }
    }
    if is_indirection_stem_exec(stem_i.as_slice()) {
        return None;
    }
    let t = toks[index].clone();
    proof {
        assert(t@ == tv[index as int]);
    }
    Some(t)
}

// ---------------------------------------------------------------------------
// Key normalization
// ---------------------------------------------------------------------------
/// Space, underscore and dot map to hyphen; every other byte is unchanged.
pub open spec fn sep_to_hyphen(b: u8) -> u8 {
    if b == 32 || b == 95 || b == 46 {
        45u8
    } else {
        b
    }
}

pub open spec fn hyphenate(s: Seq<u8>) -> Seq<u8> {
    s.map_values(|b: u8| sep_to_hyphen(b))
}

/// The normalized form of an exec key: whitespace-trimmed, separators
/// hyphenated, lowercased, hyphens trimmed from both ends.
pub open spec fn norm_key_spec(s: Seq<u8>) -> Seq<u8> {
    trim_spec(lower(hyphenate(trim_spec(s, Strip::Whitespace))), Strip::Hyphen)
}

fn hyphenate_exec(s: &[u8]) -> (r: Vec<u8>)
    ensures
        r@ == hyphenate(s@),
{
    let mut out: Vec<u8> = Vec::new();
    let mut i: usize = 0;
    while i < s.len()
        invariant
            i <= s.len(),
            out@ == hyphenate(s@.subrange(0, i as int)),
        decreases s.len() - i,
    {
        let b = s[i];
        if b == 32 || b == 95 || b == 46 {
            out.push(45);
        } else {
            out.push(b);
        }
        proof {
            assert(s@.subrange(0, i + 1).map_values(|b: u8| sep_to_hyphen(b)) =~= s@.subrange(
                0,
                i as int,
            ).map_values(|b: u8| sep_to_hyphen(b)).push(sep_to_hyphen(s@[i as int])));
        }
        i = i + 1;
    }
    proof {
        assert(s@.subrange(0, s@.len() as int) =~= s@);
    }
    out
}

/// Normalizes `value` into an exec key; `None` when nothing is left.
pub fn normalize_exec_key(value: &[u8]) -> (r: Option<Vec<u8>>)
    ensures
        match r {
            Some(k) => k@ == norm_key_spec(value@) && k@.len() > 0,
            None => norm_key_spec(value@).len() == 0,
        },
{
    let t1 = trim_bytes(value, Strip::Whitespace);
    let t2 = hyphenate_exec(t1.as_slice());
    let t3 = to_lower(t2.as_slice());
    let t4 = trim_bytes(t3.as_slice(), Strip::Hyphen);
    if t4.len() == 0 {
        None
    } else {
        Some(t4)
    }
}

// ---------------------------------------------------------------------------
// Alias derivation
// ---------------------------------------------------------------------------
/// `s` with every trailing repetition of `suf` removed.
pub open spec fn strip_suffix_all(s: Seq<u8>, suf: Seq<u8>) -> Seq<u8>
    decreases s.len()
        when suf.len() > 0
{
    if ends_with(s, suf) {
        strip_suffix_all(s.take(s.len() - suf.len()), suf)
    } else {
        s
    }
}

/// The alias of a normalized key: known channel suffixes, then known role
/// suffixes, stripped from the end.
pub open spec fn alias_spec(k: Seq<u8>) -> Seq<u8> {
    strip_suffix_all(
        strip_suffix_all(
            strip_suffix_all(
                strip_suffix_all(
                    strip_suffix_all(
                        strip_suffix_all(strip_suffix_all(k, lit_hyphen_stable()), lit_hyphen_beta()),
                        lit_hyphen_dev(),
                    ),
                    lit_hyphen_bin(),
                ),
                lit_hyphen_browser(),
            ),
            lit_hyphen_desktop(),
        ),
        lit_hyphen_applet(),
    )
}

fn strip_suffix_all_exec(s: Vec<u8>, suf: &[u8]) -> (r: Vec<u8>)
    requires
        suf@.len() > 0,
    ensures
        r@ == strip_suffix_all(s@, suf@),
    decreases s@.len(),
{
    if ends_with_exec(s.as_slice(), suf) {
        let cut = subrange_vec(s.as_slice(), 0, s.len() - suf.len());
        proof {
            assert(s@.take(s@.len() - suf@.len()) =~= s@.subrange(0, s@.len() - suf@.len()));
        }
        strip_suffix_all_exec(cut, suf)
    } else {
        s
    }
}

/// See [`alias_spec`].
pub fn alias_key(k: &[u8]) -> (r: Vec<u8>)
    ensures
        r@ == alias_spec(k@),
{
    let mut a = slice_to_vec(k);
    let s1 = blit_hyphen_stable();
    a = strip_suffix_all_exec(a, s1.as_slice());
    let s2 = blit_hyphen_beta();
    a = strip_suffix_all_exec(a, s2.as_slice());
    let s3 = blit_hyphen_dev();
    a = strip_suffix_all_exec(a, s3.as_slice());
    let s4 = blit_hyphen_bin();
    a = strip_suffix_all_exec(a, s4.as_slice());
    let s5 = blit_hyphen_browser();
    a = strip_suffix_all_exec(a, s5.as_slice());
    let s6 = blit_hyphen_desktop();
    a = strip_suffix_all_exec(a, s6.as_slice());
    let s7 = blit_hyphen_applet();
    a = strip_suffix_all_exec(a, s7.as_slice());
    a
}

// ---------------------------------------------------------------------------
// Candidate keys of one exec-like value
// ---------------------------------------------------------------------------
/// The token of `value` that keys are derived from: its match token, or the
/// whitespace-trimmed value itself, quotes stripped, a `.desktop` suffix
/// removed once, and reduced to a file stem.
pub open spec fn key_token_spec(value: Seq<u8>) -> Seq<u8> {
    let token = match match_token_spec(value) {
        Some(t) => t,
        None => trim_spec(value, Strip::Whitespace),
    };
    let t2 = trim_spec(trim_spec(token, Strip::DoubleQuote), Strip::SingleQuote);
    let t3 = if ends_with(t2, lit_dot_desktop()) {
        t2.take(t2.len() - lit_dot_desktop().len())
    } else {
        t2
    };
    token_stem_spec(t3)
}

/// The candidate keys of one exec-like value: the normalized key and, when
/// it differs and is non-empty, its alias.
pub open spec fn candidate_keys_spec(value: Seq<u8>) -> Seq<Seq<u8>> {
    let k = norm_key_spec(key_token_spec(value));
    if k.len() == 0 {
        Seq::empty()
    } else {
        let a = alias_spec(k);
        if a.len() > 0 && a != k {
            seq![k, a]
        } else {
            seq![k]
        }
    }
}

/// The single primary key of one exec-like value, when it normalizes.
pub open spec fn primary_keys_spec(value: Seq<u8>) -> Seq<Seq<u8>> {
    let k = norm_key_spec(key_token_spec(value));
    if k.len() == 0 {
        Seq::empty()
    } else {
        seq![k]
    }
}

fn key_token(value: &[u8]) -> (r: Vec<u8>)
    ensures
        r@ == key_token_spec(value@),
{
    let token = match extract_match_token(value) {
        Some(t) => t,
        None => trim_bytes(value, Strip::Whitespace),
    };
    let t2a = trim_bytes(token.as_slice(), Strip::DoubleQuote);
    let t2 = trim_bytes(t2a.as_slice(), Strip::SingleQuote);
    let suf = blit_dot_desktop();
    let t3 = if ends_with_exec(t2.as_slice(), suf.as_slice()) {
        proof {
            assert(t2@.take(t2@.len() - lit_dot_desktop().len()) =~= t2@.subrange(
                0,
                t2@.len() - lit_dot_desktop().len(),
            ));
        }
        subrange_vec(t2.as_slice(), 0, t2.len() - suf.len())
    } else {
        t2
    };
    token_stem_bytes(t3.as_slice())
}

/// See [`candidate_keys_spec`].
pub fn exec_candidate_keys(value: &[u8]) -> (r: Vec<Vec<u8>>)
    ensures
        r.deep_view() == candidate_keys_spec(value@),
{
    let token = key_token(value);
    let mut out: Vec<Vec<u8>> = Vec::new();
    match normalize_exec_key(token.as_slice()) {
        None => {
            proof {
                lemma_dv(&out);
                assert(out.deep_view() =~~= candidate_keys_spec(value@));
            }
            out
        },
        Some(k) => {
            let a = alias_key(k.as_slice());
            let differs = !bytes_eq(a.as_slice(), k.as_slice());
            out.push(k);
            if a.len() > 0 && differs {
                out.push(a);
            }
            proof {
                lemma_dv(&out);
                assert(out.deep_view() =~~= candidate_keys_spec(value@));
            }
            out
        },
    }
}

/// See [`primary_keys_spec`].
pub fn exec_primary_keys(value: &[u8]) -> (r: Vec<Vec<u8>>)
    ensures
        r.deep_view() == primary_keys_spec(value@),
{
    let token = key_token(value);
    let mut out: Vec<Vec<u8>> = Vec::new();
    match normalize_exec_key(token.as_slice()) {
        None => {},
        Some(k) => {
            out.push(k);
        },
    }
    proof {
        lemma_dv(&out);
        assert(out.deep_view() =~~= primary_keys_spec(value@));
    }
    out
}

/// An argument shaped like a program reference: not a flag, no `=`, at least
/// three bytes, at least one letter, and one of `/`, `-`, `.`.
pub open spec fn exec_like_arg_spec(arg: Seq<u8>) -> bool {
    &&& !(arg.len() > 0 && arg[0] == 45)
    &&& index_of_from(arg, 61, 0) is None
    &&& arg.len() >= 3
    &&& exists|i: int| 0 <= i < arg.len() && is_alpha(arg[i])
    &&& (index_of_from(arg, 47, 0) is Some || index_of_from(arg, 45, 0) is Some || index_of_from(
        arg,
        46,
        0,
    ) is Some)
}

/// See [`exec_like_arg_spec`].
pub fn is_exec_like_arg(arg: &[u8]) -> (r: bool)
    ensures
        r == exec_like_arg_spec(arg@),
{
    if arg.len() > 0 && arg[0] == 45 {
        return false;
    }
    if let Some(_) = find_byte_from(arg, 61, 0) {
        return false;
    }
    if arg.len() < 3 {
        return false;
    }
    let mut has_alpha = false;
    let mut i: usize = 0;
    while i < arg.len()
        invariant
            i <= arg@.len(),
            has_alpha == exists|j: int| 0 <= j < i && is_alpha(arg@[j]),
        decreases arg.len() - i,
    {
        if byte_is_alpha(arg[i]) {
            has_alpha = true;
        }
        i = i + 1;
    }
    if !has_alpha {
        return false;
    }
    let slash = find_byte_from(arg, 47, 0);
    let hyphen = find_byte_from(arg, 45, 0);
    let dot = find_byte_from(arg, 46, 0);
    slash.is_some() || hyphen.is_some() || dot.is_some()
}

// ---------------------------------------------------------------------------
// Idempotence of normalization
// ---------------------------------------------------------------------------
proof fn lemma_trim_front_is_suffix(s: Seq<u8>, c: Strip)
    ensures
        exists|a: int|
            0 <= a <= s.len() && trim_front_spec(s, c) == s.skip(a) && (forall|j: int|
                0 <= j < a ==> strip_match(c, s[j])) && (a < s.len() ==> !strip_match(c, s[a])),
    decreases s.len(),
{
    if s.len() > 0 && strip_match(c, s[0]) {
        lemma_trim_front_is_suffix(s.drop_first(), c);
        let a0 = choose|a0: int|
            0 <= a0 <= s.drop_first().len() && trim_front_spec(s.drop_first(), c)
                == s.drop_first().skip(a0) && (forall|j: int|
                0 <= j < a0 ==> strip_match(c, s.drop_first()[j])) && (a0 < s.drop_first().len()
                ==> !strip_match(c, s.drop_first()[a0]));
        assert(s.drop_first().skip(a0) =~= s.skip(a0 + 1));
        assert(trim_front_spec(s, c) == s.skip(a0 + 1));
        assert forall|j: int| 0 <= j < a0 + 1 implies strip_match(c, s[j]) by {
            if j > 0 {
                assert(s[j] == s.drop_first()[j - 1]);
            }
        }
        assert(a0 + 1 < s.len() ==> !strip_match(c, s[a0 + 1])) by {
            if a0 + 1 < s.len() {
                assert(s[a0 + 1] == s.drop_first()[a0]);
            }
        }
    } else {
        assert(s.skip(0) =~= s);
    }
}

proof fn lemma_trim_back_is_prefix(s: Seq<u8>, c: Strip)
    ensures
        exists|b: int|
            0 <= b <= s.len() && trim_back_spec(s, c) == s.take(b) && (b > 0 ==> !strip_match(
                c,
                s[b - 1],
            )),
    decreases s.len(),
{
    if s.len() > 0 && strip_match(c, s.last()) {
        lemma_trim_back_is_prefix(s.drop_last(), c);
        let b0 = choose|b0: int|
            0 <= b0 <= s.drop_last().len() && trim_back_spec(s.drop_last(), c) == s.drop_last().take(
                b0,
            ) && (b0 > 0 ==> !strip_match(c, s.drop_last()[b0 - 1]));
        assert(s.drop_last().take(b0) =~= s.take(b0));
        assert(trim_back_spec(s, c) == s.take(b0));
    } else {
        assert(s.take(s.len() as int) =~= s);
    }
}

/// Every byte of the normalized key comes from one of the input's bytes by
/// hyphenating separators and lowercasing, and the ends are not hyphens.
proof fn lemma_norm_key_shape(s: Seq<u8>)
    ensures
        forall|i: int|
            0 <= i < norm_key_spec(s).len() ==> exists|j: int|
                0 <= j < s.len() && #[trigger] norm_key_spec(s)[i] == lower_byte(
                    sep_to_hyphen(s[j]),
                ),
        norm_key_spec(s).len() > 0 ==> norm_key_spec(s)[0] != 45 && norm_key_spec(s)[norm_key_spec(
            s,
        ).len() - 1] != 45,
{
    let t = trim_spec(s, Strip::Whitespace);
    let m = lower(hyphenate(t));
    let k = norm_key_spec(s);
    lemma_trim_front_is_suffix(s, Strip::Whitespace);
    let a1 = choose|a: int| 0 <= a <= s.len() && trim_front_spec(s, Strip::Whitespace) == s.skip(a);
    lemma_trim_back_is_prefix(s.skip(a1), Strip::Whitespace);
    let b1 = choose|b: int|
        0 <= b <= s.skip(a1).len() && trim_back_spec(s.skip(a1), Strip::Whitespace) == s.skip(
            a1,
        ).take(b);
    assert(t == s.skip(a1).take(b1));
    assert(forall|i: int| 0 <= i < t.len() ==> t[i] == s[a1 + i]);
    assert(m.len() == t.len());
    assert(forall|i: int| 0 <= i < m.len() ==> m[i] == lower_byte(sep_to_hyphen(t[i])));
    lemma_trim_front_is_suffix(m, Strip::Hyphen);
    let a2 = choose|a: int|
        0 <= a <= m.len() && trim_front_spec(m, Strip::Hyphen) == m.skip(a) && (forall|j: int|
            0 <= j < a ==> strip_match(Strip::Hyphen, m[j])) && (a < m.len() ==> !strip_match(
            Strip::Hyphen,
            m[a],
        ));
    lemma_trim_back_is_prefix(m.skip(a2), Strip::Hyphen);
    let b2 = choose|b: int|
        0 <= b <= m.skip(a2).len() && trim_back_spec(m.skip(a2), Strip::Hyphen) == m.skip(a2).take(
            b,
        ) && (b > 0 ==> !strip_match(Strip::Hyphen, m.skip(a2)[b - 1]));
    assert(k == m.skip(a2).take(b2));
    assert(forall|i: int| 0 <= i < k.len() ==> k[i] == m[a2 + i]);
    assert forall|i: int| 0 <= i < k.len() implies exists|j: int|
        0 <= j < s.len() && #[trigger] k[i] == lower_byte(sep_to_hyphen(s[j])) by {
        assert(k[i] == m[a2 + i]);
        assert(m[a2 + i] == lower_byte(sep_to_hyphen(t[a2 + i])));
        assert(t[a2 + i] == s[a1 + a2 + i]);
    }
    if k.len() > 0 {
        assert(k[0] == m[a2 + 0]);
        assert(!strip_match(Strip::Hyphen, m[a2]));
        assert(k[k.len() - 1] == m.skip(a2)[b2 - 1]);
    }
}

/// Normalization is idempotent: applied to its own output it returns that
/// output unchanged. The law holds for every input whose whitespace bytes
/// are plain spaces; other whitespace inside the input can survive the first
/// pass at an end of the key and be trimmed only by the second.
pub proof fn lemma_normalize_idempotent(s: Seq<u8>)
    requires
        forall|i: int| 0 <= i < s.len() && is_ws(#[trigger] s[i]) ==> s[i] == 32,
    ensures
        norm_key_spec(norm_key_spec(s)) == norm_key_spec(s),
{
    let k = norm_key_spec(s);
    lemma_norm_key_shape(s);
    assert forall|i: int| 0 <= i < k.len() implies !is_ws(#[trigger] k[i]) && sep_to_hyphen(k[i])
        == k[i] && lower_byte(k[i]) == k[i] by {
        let j = choose|j: int| 0 <= j < s.len() && k[i] == lower_byte(sep_to_hyphen(s[j]));
        let b = s[j];
        if is_ws(b) {
            assert(b == 32);
        }
    }
    // First pass of the second application: whitespace trim is a no-op.
    assert(trim_front_spec(k, Strip::Whitespace) == k);
    assert(trim_back_spec(k, Strip::Whitespace) == k);
    assert(trim_spec(k, Strip::Whitespace) == k);
    // Hyphenation and lowercasing are no-ops.
    assert(hyphenate(k) =~= k);
    assert(lower(hyphenate(k)) =~= k);
    // The ends are not hyphens, so the final trim is a no-op.
    assert(trim_front_spec(k, Strip::Hyphen) == k);
    assert(trim_back_spec(k, Strip::Hyphen) == k);
}

} // verus!
