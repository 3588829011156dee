//! Session-environment values handed in as plain strings: locale
//! preference, the current desktop's name, and the diagnostics toggle.

use vstd::prelude::*;
use crate::bytes::{
    Strip, trim_spec, trim_bytes, lower, to_lower, index_of_from, find_byte_from, subrange_vec,
    split_spec, split_byte, contains_string, lemma_dv, bytes_eq,
};
use crate::lit::{
    lit_locale_default, blit_locale_default, lit_flag_one, blit_flag_one, lit_flag_true,
    blit_flag_true, lit_flag_yes, blit_flag_yes, lit_flag_on, blit_flag_on,
};

verus! {

/// A locale value truncated at its first `.` (encoding suffix dropped).
pub open spec fn truncate_dot(l: Seq<u8>) -> Seq<u8> {
    match index_of_from(l, 46, 0) {
        Some(i) => l.take(i),
        None => l,
    }
}

/// One locale list entry, cleaned: truncated at `.`, whitespace-trimmed.
pub open spec fn clean_locale(l: Seq<u8>) -> Seq<u8> {
    trim_spec(truncate_dot(l), Strip::Whitespace)
}

/// The cleaned, non-empty entries of `parts` from `i` on, first occurrences
/// only, appended to `acc`.
pub open spec fn locales_acc(parts: Seq<Seq<u8>>, i: int, acc: Seq<Seq<u8>>) -> Seq<Seq<u8>>
    decreases parts.len() - i
        when 0 <= i <= parts.len()
{
    if i >= parts.len() {
        acc
    } else {
        let c = clean_locale(parts[i]);
        if c.len() > 0 && !acc.contains(c) {
            locales_acc(parts, i + 1, acc.push(c))
        } else {
            locales_acc(parts, i + 1, acc)
        }
    }
}

/// The locale preference list: the `LANGUAGE` value split at `:`, each entry
/// cleaned, then the `LANG` value, duplicates removed; `en_US` when nothing
/// remains.
pub open spec fn select_locales_spec(language: Option<Seq<u8>>, lang: Option<Seq<u8>>) -> Seq<
    Seq<u8>,
> {
    let base = match language {
        Some(v) => locales_acc(split_spec(v, 58), 0, Seq::empty()),
        None => Seq::empty(),
    };
    let with_lang = match lang {
        Some(v) => {
            let c = clean_locale(v);
            if c.len() > 0 && !base.contains(c) {
                base.push(c)
            } else {
                base
            }
        },
        None => base,
    };
    if with_lang.len() == 0 {
        seq![lit_locale_default()]
    } else {
        with_lang
    }
}

fn clean_locale_exec(l: &[u8]) -> (r: Vec<u8>)
    ensures
        r@ == clean_locale(l@),
{
    let cut = match find_byte_from(l, 46, 0) {
        Some(i) => {
            proof {
                assert(l@.take(i as int) =~= l@.subrange(0, i as int));
            }
            subrange_vec(l, 0, i)
        },
        None => vstd::slice::slice_to_vec(l),
    };
    trim_bytes(cut.as_slice(), Strip::Whitespace)
}

/// See [`select_locales_spec`].
pub fn select_locales(language: Option<&Vec<u8>>, lang: Option<&Vec<u8>>) -> (r: Vec<Vec<u8>>)
    ensures
        r.deep_view() == select_locales_spec(
            match language {
                Some(v) => Some(v@),
                None => None,
            },
            match lang {
                Some(v) => Some(v@),
                None => None,
            },
        ),
{
    let mut out: Vec<Vec<u8>> = Vec::new();
    proof {
        assert(out.deep_view() =~~= Seq::<Seq<u8>>::empty());
    }
    if let Some(v) = language {
        let parts = split_byte(v.as_slice(), 58);
        let ghost pv = parts.deep_view();
        proof {
            lemma_dv(&parts);
        }
        let mut i: usize = 0;
        while i < parts.len()
            invariant
                i <= pv.len(),
                pv == parts.deep_view(),
                pv.len() == parts@.len(),
                forall|k: int| 0 <= k < pv.len() ==> #[trigger] pv[k] == parts@[k]@,
                locales_acc(pv, 0, Seq::empty()) == locales_acc(pv, i as int, out.deep_view()),
            decreases parts.len() - i,
        {
            let ghost old_dv = out.deep_view();
            let c = clean_locale_exec(parts[i].as_slice());
            if c.len() > 0 && !contains_string(&out, c.as_slice()) {
                let ghost cv = c@;
                out.push(c);
                proof {
                    lemma_dv(&out);
                    assert(out.deep_view() =~~= old_dv.push(cv));
                    assert(locales_acc(pv, i as int, old_dv) == locales_acc(
                        pv,
                        i + 1,
                        out.deep_view(),
                    ));
                }
            } else {
                proof {
                    assert(locales_acc(pv, i as int, old_dv) == locales_acc(pv, i + 1, old_dv));
                }
            }
            i = i + 1;
        }
        proof {
            assert(locales_acc(pv, pv.len() as int, out.deep_view()) == out.deep_view());
        }
    }
    if let Some(v) = lang {
        let c = clean_locale_exec(v.as_slice());
        if c.len() > 0 && !contains_string(&out, c.as_slice()) {
            out.push(c);
            proof {
                lemma_dv(&out);
            }
        }
    }
    if out.len() == 0 {
        let def = blit_locale_default();
        out.push(def);
        proof {
            lemma_dv(&out);
            assert(out.deep_view() =~~= seq![lit_locale_default()]);
        }
    }
    out
}

/// The first `:`-separated token of a desktop-environment name.
pub open spec fn first_colon_token_spec(v: Seq<u8>) -> Seq<u8> {
    match index_of_from(v, 58, 0) {
        Some(i) => v.take(i),
        None => v,
    }
}

/// See [`first_colon_token_spec`].
pub fn first_colon_token(v: &[u8]) -> (r: Vec<u8>)
    ensures
        r@ == first_colon_token_spec(v@),
{
    match find_byte_from(v, 58, 0) {
        Some(i) => {
            proof {
                assert(v@.take(i as int) =~= v@.subrange(0, i as int));
            }
            subrange_vec(v, 0, i)
        },
        None => vstd::slice::slice_to_vec(v),
    }
}

/// Whether a diagnostics environment value turns verbose logging on:
/// `1`, `true`, `yes` or `on`, ignoring case and surrounding whitespace.
pub open spec fn debug_flag_spec(v: Option<Seq<u8>>) -> bool {
    match v {
        Some(s) => {
            let n = lower(trim_spec(s, Strip::Whitespace));
            n == lit_flag_one() || n == lit_flag_true() || n == lit_flag_yes() || n == lit_flag_on()
        },
        None => false,
    }
}

/// See [`debug_flag_spec`].
pub fn debug_flag_enabled(v: Option<&Vec<u8>>) -> (r: bool)
    ensures
        r == debug_flag_spec(
            match v {
                Some(s) => Some(s@),
                None => None,
            },
        ),
{
    match v {
        Some(s) => {
            let t = trim_bytes(s.as_slice(), Strip::Whitespace);
            let n = to_lower(t.as_slice());
            let one = blit_flag_one();
            let tr = blit_flag_true();
            let yes = blit_flag_yes();
            let on = blit_flag_on();
            bytes_eq(n.as_slice(), one.as_slice()) || bytes_eq(n.as_slice(), tr.as_slice())
                || bytes_eq(n.as_slice(), yes.as_slice()) || bytes_eq(n.as_slice(), on.as_slice())
        },
        None => false,
    }
}

/// Whether this refresh cycle emits diagnostics: the toggle is on and the
/// cycle number is a multiple of five (sampling throttle).
pub open spec fn debug_tick_spec(cycle: u64, enabled: bool) -> bool {
    enabled && cycle % 5 == 0
}

/// See [`debug_tick_spec`].
pub fn debug_this_tick(cycle: u64, enabled: bool) -> (r: bool)
    ensures
        r == debug_tick_spec(cycle, enabled),
{
    enabled && cycle % 5 == 0
}

} // verus!
