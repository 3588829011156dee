//! The sort engine: a deterministic total order over aggregated entries,
//! driven by a user-selected column and direction, with fixed tie-breaks.

use vstd::prelude::*;
use vstd::multiset::Multiset;
use crate::aggregate::{AggregatedEntry, AggEntryView};
use crate::bytes::{
    lower, to_lower, lex_le, lex_le_exec, lemma_lex_total, lemma_lex_antisym, lemma_lex_trans,
    bytes_eq,
};

verus! {

broadcast use vstd::seq_lib::group_to_multiset_ensures;

/// The column the table is ordered by.
#[derive(Debug, Clone, Copy, Eq, PartialEq, Structural)]
pub enum SortColumn {
    Name,
    Cpu,
    Pid,
    Ram,
    Threads,
}

/// The direction of the primary column.
#[derive(Debug, Clone, Copy, Eq, PartialEq, Structural)]
pub enum SortDirection {
    Asc,
    Desc,
}

/// The active sort choice.
#[derive(Debug, Clone, Copy, Eq, PartialEq, Structural)]
pub struct SortState {
    pub column: SortColumn,
    pub direction: SortDirection,
}

/// The natural direction of a freshly selected column: names ascend,
/// every numeric column descends.
pub open spec fn default_direction_spec(column: SortColumn) -> SortDirection {
    match column {
        SortColumn::Name => SortDirection::Asc,
        SortColumn::Cpu => SortDirection::Desc,
        SortColumn::Pid => SortDirection::Desc,
        SortColumn::Ram => SortDirection::Desc,
        SortColumn::Threads => SortDirection::Desc,
    }
}

/// See [`default_direction_spec`].
pub fn default_direction(column: SortColumn) -> (r: SortDirection)
    ensures
        r == default_direction_spec(column),
{
    match column {
        SortColumn::Name => SortDirection::Asc,
        SortColumn::Cpu => SortDirection::Desc,
        SortColumn::Pid => SortDirection::Desc,
        SortColumn::Ram => SortDirection::Desc,
        SortColumn::Threads => SortDirection::Desc,
    }
}

/// Selecting the active column again flips its direction; selecting a new
/// column resets to that column's natural direction.
pub open spec fn toggle_sort_spec(s: SortState, column: SortColumn) -> SortState {
    if s.column == column {
        SortState {
            column: s.column,
            direction: match s.direction {
                SortDirection::Asc => SortDirection::Desc,
                SortDirection::Desc => SortDirection::Asc,
            },
        }
    } else {
        SortState { column, direction: default_direction_spec(column) }
    }
}

/// See [`toggle_sort_spec`].
pub fn toggle_sort(s: SortState, column: SortColumn) -> (r: SortState)
    ensures
        r == toggle_sort_spec(s, column),
{
    if s.column == column {
        SortState {
            column: s.column,
            direction: match s.direction {
                SortDirection::Asc => SortDirection::Desc,
                SortDirection::Desc => SortDirection::Asc,
            },
        }
    } else {
        SortState { column, direction: default_direction(column) }
    }
}

// ---------------------------------------------------------------------------
// The comparator
// ---------------------------------------------------------------------------
/// Strict lexicographic order.
pub open spec fn lex_lt(a: Seq<u8>, b: Seq<u8>) -> bool {
    lex_le(a, b) && a != b
}

/// Names compare case-insensitively first, case-sensitively on a tie.
pub open spec fn name_lt(a: Seq<u8>, b: Seq<u8>) -> bool {
    lex_lt(lower(a), lower(b)) || (lower(a) == lower(b) && lex_lt(a, b))
}

/// The strict primary-column order in ascending direction.
pub open spec fn column_lt(column: SortColumn, a: AggEntryView, b: AggEntryView) -> bool {
    match column {
        SortColumn::Name => name_lt(a.name, b.name),
        SortColumn::Cpu => a.cpu_centi < b.cpu_centi,
        SortColumn::Pid => a.pid < b.pid,
        SortColumn::Ram => a.rss_bytes < b.rss_bytes,
        SortColumn::Threads => a.threads < b.threads,
    }
}

/// A tie on the primary column.
pub open spec fn column_eq(column: SortColumn, a: AggEntryView, b: AggEntryView) -> bool {
    match column {
        SortColumn::Name => a.name == b.name,
        SortColumn::Cpu => a.cpu_centi == b.cpu_centi,
        SortColumn::Pid => a.pid == b.pid,
        SortColumn::Ram => a.rss_bytes == b.rss_bytes,
        SortColumn::Threads => a.threads == b.threads,
    }
}

/// The strict primary order with the chosen direction applied.
pub open spec fn primary_lt(s: SortState, a: AggEntryView, b: AggEntryView) -> bool {
    match s.direction {
        SortDirection::Asc => column_lt(s.column, a, b),
        SortDirection::Desc => column_lt(s.column, b, a),
    }
}

/// The fixed tie-break order: memory descending, then CPU descending,
/// then pid ascending.
pub open spec fn sec_le(a: AggEntryView, b: AggEntryView) -> bool {
    a.rss_bytes > b.rss_bytes || (a.rss_bytes == b.rss_bytes && (a.cpu_centi > b.cpu_centi || (
    a.cpu_centi == b.cpu_centi && a.pid <= b.pid)))
}

/// The complete order the table is shown in.
pub open spec fn entry_le(s: SortState, a: AggEntryView, b: AggEntryView) -> bool {
    primary_lt(s, a, b) || (column_eq(s.column, a, b) && sec_le(a, b))
}

/// A tie on the primary column excludes a strict primary order either way.
proof fn lemma_column_trichotomy(column: SortColumn, a: AggEntryView, b: AggEntryView)
    ensures
        column_lt(column, a, b) || column_lt(column, b, a) || column_eq(column, a, b),
        column_eq(column, a, b) ==> !column_lt(column, a, b) && !column_lt(column, b, a),
        !(column_lt(column, a, b) && column_lt(column, b, a)),
{
    if column is Name {
        lemma_lex_total(lower(a.name), lower(b.name));
        lemma_lex_total(a.name, b.name);
        if lex_le(lower(a.name), lower(b.name)) && lex_le(lower(b.name), lower(a.name)) {
            lemma_lex_antisym(lower(a.name), lower(b.name));
        }
        if lex_le(a.name, b.name) && lex_le(b.name, a.name) {
            lemma_lex_antisym(a.name, b.name);
        }
    }
}

proof fn lemma_column_lt_trans(column: SortColumn, a: AggEntryView, b: AggEntryView, c: AggEntryView)
    requires
        column_lt(column, a, b),
        column_lt(column, b, c),
    ensures
        column_lt(column, a, c),
{
    if column is Name {
        lemma_name_lt_trans(a.name, b.name, c.name);
    }
}

proof fn lemma_lex_lt_trans(a: Seq<u8>, b: Seq<u8>, c: Seq<u8>)
    requires
        lex_lt(a, b),
        lex_lt(b, c),
    ensures
        lex_lt(a, c),
{
    lemma_lex_trans(a, b, c);
    if a == c {
        lemma_lex_antisym(a, b);
    }
}

proof fn lemma_name_lt_trans(a: Seq<u8>, b: Seq<u8>, c: Seq<u8>)
    requires
        name_lt(a, b),
        name_lt(b, c),
    ensures
        name_lt(a, c),
{
    if lex_lt(lower(a), lower(b)) && lex_lt(lower(b), lower(c)) {
        lemma_lex_lt_trans(lower(a), lower(b), lower(c));
    } else if lex_lt(lower(a), lower(b)) {
        assert(lower(b) == lower(c));
    } else if lex_lt(lower(b), lower(c)) {
        assert(lower(a) == lower(b));
    } else {
        lemma_lex_lt_trans(a, b, c);
    }
}

/// A substitution step: a strict primary order is kept when one side is
/// replaced by a primary-tied entry.
proof fn lemma_column_lt_eq(column: SortColumn, a: AggEntryView, b: AggEntryView, c: AggEntryView)
    ensures
        column_lt(column, a, b) && column_eq(column, b, c) ==> column_lt(column, a, c),
        column_eq(column, a, b) && column_lt(column, b, c) ==> column_lt(column, a, c),
{
}

/// The order is total: of any two entries, one comes at or before the
/// other.
pub proof fn lemma_entry_le_total(s: SortState, a: AggEntryView, b: AggEntryView)
    ensures
        entry_le(s, a, b) || entry_le(s, b, a),
{
    lemma_column_trichotomy(s.column, a, b);
}

/// The order is transitive.
pub proof fn lemma_entry_le_trans(s: SortState, a: AggEntryView, b: AggEntryView, c: AggEntryView)
    requires
        entry_le(s, a, b),
        entry_le(s, b, c),
    ensures
        entry_le(s, a, c),
{
    lemma_column_trichotomy(s.column, a, b);
    lemma_column_trichotomy(s.column, b, c);
    lemma_column_trichotomy(s.column, a, c);
    lemma_column_lt_eq(s.column, a, b, c);
    lemma_column_lt_eq(s.column, b, c, a);
    lemma_column_lt_eq(s.column, c, a, b);
    lemma_column_lt_eq(s.column, a, c, b);
    lemma_column_lt_eq(s.column, b, a, c);
    lemma_column_lt_eq(s.column, c, b, a);
    if primary_lt(s, a, b) && primary_lt(s, b, c) {
        match s.direction {
            SortDirection::Asc => lemma_column_lt_trans(s.column, a, b, c),
            SortDirection::Desc => lemma_column_lt_trans(s.column, c, b, a),
        }
    }
}

/// Entries tied on the primary column are ordered by the fixed tie-breaks
/// alone — memory descending, then CPU descending, then pid ascending —
/// whatever the primary column and direction are.
pub proof fn lemma_tie_break_order(s: SortState, a: AggEntryView, b: AggEntryView)
    requires
        column_eq(s.column, a, b),
    ensures
        entry_le(s, a, b) <==> sec_le(a, b),
{
    lemma_column_trichotomy(s.column, a, b);
}

/// The list is ordered under the chosen sort.
pub open spec fn sorted_under(s: SortState, entries: Seq<AggEntryView>) -> bool {
    forall|i: int, j: int| 0 <= i < j < entries.len() ==> entry_le(s, entries[i], entries[j])
}

/// In any list ordered under the chosen sort, two entries tied on the
/// primary column stand in the fixed tie-break order: memory descending,
/// then CPU descending, then pid ascending.
pub proof fn lemma_sorted_tie_break(s: SortState, entries: Seq<AggEntryView>, i: int, j: int)
    requires
        sorted_under(s, entries),
        0 <= i < j < entries.len(),
        column_eq(s.column, entries[i], entries[j]),
    ensures
        sec_le(entries[i], entries[j]),
{
    lemma_tie_break_order(s, entries[i], entries[j]);
}

// ---------------------------------------------------------------------------
// The comparator, executably
// ---------------------------------------------------------------------------
fn name_lt_exec(a: &[u8], b: &[u8]) -> (r: bool)
    ensures
        r == name_lt(a@, b@),
{
    let la = to_lower(a);
    let lb = to_lower(b);
    let low_eq = bytes_eq(la.as_slice(), lb.as_slice());
    if !low_eq {
        lex_le_exec(la.as_slice(), lb.as_slice())
    } else {
        let eq = bytes_eq(a, b);
        if eq {
            false
        } else {
            lex_le_exec(a, b)
        }
    }
}

fn column_lt_exec(column: SortColumn, a: &AggregatedEntry, b: &AggregatedEntry) -> (r: bool)
    ensures
        r == column_lt(column, a@, b@),
{
    match column {
        SortColumn::Name => name_lt_exec(a.name.as_slice(), b.name.as_slice()),
        SortColumn::Cpu => a.cpu_centi < b.cpu_centi,
        SortColumn::Pid => a.pid < b.pid,
        SortColumn::Ram => a.rss_bytes < b.rss_bytes,
        SortColumn::Threads => a.threads < b.threads,
    }
}

fn column_eq_exec(column: SortColumn, a: &AggregatedEntry, b: &AggregatedEntry) -> (r: bool)
    ensures
        r == column_eq(column, a@, b@),
{
    match column {
        SortColumn::Name => bytes_eq(a.name.as_slice(), b.name.as_slice()),
        SortColumn::Cpu => a.cpu_centi == b.cpu_centi,
        SortColumn::Pid => a.pid == b.pid,
        SortColumn::Ram => a.rss_bytes == b.rss_bytes,
        SortColumn::Threads => a.threads == b.threads,
    }
}

fn sec_le_exec(a: &AggregatedEntry, b: &AggregatedEntry) -> (r: bool)
    ensures
        r == sec_le(a@, b@),
{
    a.rss_bytes > b.rss_bytes || (a.rss_bytes == b.rss_bytes && (a.cpu_centi > b.cpu_centi || (
    a.cpu_centi == b.cpu_centi && a.pid <= b.pid)))
}

fn entry_le_exec(s: SortState, a: &AggregatedEntry, b: &AggregatedEntry) -> (r: bool)
    ensures
        r == entry_le(s, a@, b@),
{
    let p = match s.direction {
        SortDirection::Asc => column_lt_exec(s.column, a, b),
        SortDirection::Desc => column_lt_exec(s.column, b, a),
    };
    if p {
        return true;
    }
    column_eq_exec(s.column, a, b) && sec_le_exec(a, b)
}

// ---------------------------------------------------------------------------
// Sorting
// ---------------------------------------------------------------------------
/// Orders the aggregated entries deterministically: the chosen column in
/// the chosen direction, ties broken by memory descending, CPU descending,
/// pid ascending. The same entries come back, reordered.
pub fn sort_process_entries(entries: Vec<AggregatedEntry>, s: SortState) -> (r: Vec<
    AggregatedEntry,
>)
    ensures
        r.deep_view().to_multiset() == entries.deep_view().to_multiset(),
        r@.len() == entries@.len(),
        sorted_under(s, r.deep_view()),
{
    let ghost orig = entries.deep_view();
    let mut work = entries;
    let mut out: Vec<AggregatedEntry> = Vec::new();
    proof {
        assert(out.deep_view() =~~= Seq::<AggEntryView>::empty());
        assert(out.deep_view().to_multiset().add(work.deep_view().to_multiset())
            =~= orig.to_multiset());
    }
    while work.len() > 0
        invariant
            out.deep_view().to_multiset().add(work.deep_view().to_multiset())
                == orig.to_multiset(),
            out@.len() + work@.len() == orig.len(),
            sorted_under(s, out.deep_view()),
            forall|o: int, w: int|
                0 <= o < out.deep_view().len() && 0 <= w < work.deep_view().len() ==> entry_le(
                    s,
                    out.deep_view()[o],
                    work.deep_view()[w],
                ),
        decreases work.len(),
    {
        let ghost wv = work.deep_view();
        let mut m: usize = 0;
        let mut k: usize = 1;
        while k < work.len()
            invariant
                m < k <= work@.len() || (k <= work@.len() && m < work@.len()),
                m < work@.len(),
                wv == work.deep_view(),
                wv.len() == work@.len(),
                forall|x: int| 0 <= x < k ==> entry_le(s, wv[m as int], wv[x]),
            decreases work.len() - k,
        {
            proof {
                assert(wv[k as int] == work@[k as int]@);
                assert(wv[m as int] == work@[m as int]@);
            }
            if !entry_le_exec(s, &work[m], &work[k]) {
                proof {
                    lemma_entry_le_total(s, wv[m as int], wv[k as int]);
                    assert forall|x: int| 0 <= x < k + 1 implies entry_le(s, wv[k as int], wv[x]) by {
                        if x < k {
                            lemma_entry_le_trans(s, wv[k as int], wv[m as int], wv[x]);
                        } else {
                            lemma_entry_le_total(s, wv[k as int], wv[k as int]);
                        }
                    }
                }
                m = k;
            } else {
                proof {
                    assert forall|x: int| 0 <= x < k + 1 implies entry_le(s, wv[m as int], wv[x]) by {
                    }
                }
            }
            k = k + 1;
        }
        proof {
            assert(forall|x: int| 0 <= x < wv.len() ==> entry_le(s, wv[m as int], wv[x]));
        }
        let ghost out_before = out.deep_view();
        let x = work.remove(m);
        proof {
            assert(x@ == wv[m as int]);
            assert(work.deep_view() =~~= wv.remove(m as int));
        }
        out.push(x);
        proof {
            assert(out.deep_view() =~~= out_before.push(wv[m as int]));
            // Multiset bookkeeping for one removal and one insertion.
            assert(wv.remove(m as int).to_multiset() == wv.to_multiset().remove(wv[m as int]));
            assert(out_before.push(wv[m as int]).to_multiset() == out_before.to_multiset().insert(
                wv[m as int],
            ));
            assert(wv.to_multiset().count(wv[m as int]) > 0) by {
                wv.to_multiset_ensures();
            }
            assert(out.deep_view().to_multiset().add(work.deep_view().to_multiset())
                =~= orig.to_multiset());
            // Order bookkeeping: the minimum goes after everything placed.
            assert forall|o: int, w: int|
                0 <= o < out.deep_view().len() && 0 <= w < work.deep_view().len() implies entry_le(
                s,
                out.deep_view()[o],
                work.deep_view()[w],
            ) by {
                if o < out_before.len() {
                    if w < m {
                        assert(work.deep_view()[w] == wv[w]);
                    } else {
                        assert(work.deep_view()[w] == wv[w + 1]);
                    }
                } else {
                    assert(out.deep_view()[o] == wv[m as int]);
                    if w < m {
                        assert(work.deep_view()[w] == wv[w]);
                    } else {
                        assert(work.deep_view()[w] == wv[w + 1]);
                    }
                }
            }
            assert forall|i: int, j: int|
                0 <= i < j < out.deep_view().len() implies entry_le(
                s,
                out.deep_view()[i],
                out.deep_view()[j],
            ) by {
                if j < out_before.len() {
                } else {
                    assert(out.deep_view()[j] == wv[m as int]);
                    assert(entry_le(s, out_before[i], wv[m as int]));
                }
            }
        }
    }
    proof {
        assert(work.deep_view().to_multiset() =~= Multiset::<AggEntryView>::empty());
        assert(out.deep_view().to_multiset() =~= orig.to_multiset());
    }
    out
}

} // verus!
