//! Per-tick resolution and aggregation: every eligible process is resolved
//! to an application identity, and the processes sharing one identity are
//! folded into a single entry.

use vstd::prelude::*;
use crate::bytes::{dedup_spec, dedup_strings, bytes_eq, lemma_dv};
use crate::process::{
    ProcessSample, SampleView, program_process_spec, is_program_process, process_keys_spec,
    process_candidate_keys, desktop_app_spec, desktop_app_for_process,
    steam_app_id_for_process_spec, steam_app_id_for_process, excluded_app_id_spec,
    is_excluded_app_id,
};
use crate::registry::Registry;
use crate::steam::{steam_app_id_spec, steam_app_identity, steam_fallback_name_spec,
    steam_fallback_name};

verus! {

// ---------------------------------------------------------------------------
// The Steam title cache
// ---------------------------------------------------------------------------
/// One cached Steam title: what the local manifests said about it.
pub struct SteamCacheEntry {
    /// The Steam application id (decimal digits).
    pub id: Vec<u8>,
    /// The manifest display name, when one was found.
    pub name: Option<Vec<u8>>,
    /// The icon file path, when one was found.
    pub icon: Option<Vec<u8>>,
}

/// Ghost image of a cached title.
pub ghost struct SteamCacheEntryView {
    pub id: Seq<u8>,
    pub name: Option<Seq<u8>>,
    pub icon: Option<Seq<u8>>,
}

impl View for SteamCacheEntry {
    type V = SteamCacheEntryView;

    open spec fn view(&self) -> SteamCacheEntryView {
        SteamCacheEntryView {
            id: self.id@,
            name: match self.name {
                Some(v) => Some(v@),
                None => None,
            },
            icon: match self.icon {
                Some(v) => Some(v@),
                None => None,
            },
        }
    }
}

/// The Steam title cache: grown lazily as ids are first seen, kept across
/// ticks, and cleared only by an explicit invalidation.
pub struct SteamCache {
    pub entries: Vec<SteamCacheEntry>,
}

impl SteamCache {
    /// Each id is cached at most once.
    pub open spec fn wf(&self) -> bool {
        forall|i: int, j: int|
            0 <= i < j < self.entries@.len() ==> self.entries@[i]@.id != self.entries@[j]@.id
    }

    pub open spec fn lookup_from(&self, id: Seq<u8>, i: int) -> Option<SteamCacheEntryView>
        decreases self.entries@.len() - i
            when 0 <= i <= self.entries@.len()
    {
        if i >= self.entries@.len() {
            None
        } else if self.entries@[i]@.id == id {
            Some(self.entries@[i]@)
        } else {
            self.lookup_from(id, i + 1)
        }
    }

    /// The cached record of `id`, if any.
    pub open spec fn lookup_spec(&self, id: Seq<u8>) -> Option<SteamCacheEntryView> {
        self.lookup_from(id, 0)
    }

    pub fn new() -> (r: SteamCache)
        ensures
            r.wf(),
            r.entries@.len() == 0,
    {
        SteamCache { entries: Vec::new() }
    }

    /// See [`SteamCache::lookup_spec`].
    pub fn lookup(&self, id: &[u8]) -> (r: Option<&SteamCacheEntry>)
        ensures
            match r {
                Some(e) => self.lookup_spec(id@) == Some(e@),
                None => self.lookup_spec(id@) is None,
            },
    {
        let mut i: usize = 0;
        while i < self.entries.len()
            invariant
                i <= self.entries@.len(),
                self.lookup_spec(id@) == self.lookup_from(id@, i as int),
            decreases self.entries.len() - i,
        {
            if bytes_eq(self.entries[i].id.as_slice(), id) {
                return Some(&self.entries[i]);
            }
            i = i + 1;
        }
        None
    }

    /// Caches a title first seen this tick; an id already cached is kept
    /// as it is.
    pub fn insert(&mut self, entry: SteamCacheEntry)
        requires
            old(self).wf(),
        ensures
            final(self).wf(),
            old(self).lookup_spec(entry@.id) is Some ==> *final(self) == *old(self),
            old(self).lookup_spec(entry@.id) is None ==> final(self).entries@ == old(
                self,
            ).entries@.push(entry),
    {
        let present = match self.lookup(entry.id.as_slice()) {
            Some(_) => true,
            None => false,
        };
        if !present {
            proof {
                lemma_cache_lookup_none(self, entry@.id, 0);
            }
            self.entries.push(entry);
        }
    }

    /// Forgets every cached title, forcing fresh metadata lookups.
    pub fn invalidate(&mut self)
        ensures
            final(self).wf(),
            final(self).entries@.len() == 0,
    {
        self.entries.clear();
    }
}

proof fn lemma_cache_lookup_none(c: &SteamCache, id: Seq<u8>, i: int)
    requires
        0 <= i <= c.entries@.len(),
        c.lookup_from(id, i) is None,
    ensures
        forall|j: int| i <= j < c.entries@.len() ==> c.entries@[j]@.id != id,
    decreases c.entries@.len() - i,
{
    if i < c.entries@.len() {
        lemma_cache_lookup_none(c, id, i + 1);
    }
}

// ---------------------------------------------------------------------------
// Resolution of one tick
// ---------------------------------------------------------------------------
/// One process resolved to an application identity, with its metrics.
pub struct ResolvedProc {
    /// The resolved application id.
    pub app_id: Vec<u8>,
    /// The Steam id behind the identity, when Steam resolved it.
    pub steam_id: Option<Vec<u8>>,
    /// The display name, when the registry resolved it.
    pub name: Option<Vec<u8>>,
    /// The icon reference, when the registry resolved it.
    pub icon: Option<Vec<u8>>,
    /// The process id.
    pub pid: u32,
    /// CPU usage in hundredths of a percent, before core normalization.
    pub cpu_centi: u64,
    /// Resident memory in bytes.
    pub rss_bytes: u64,
    /// The thread/task count, when the OS reports one.
    pub tasks: Option<u32>,
}

/// Ghost image of a resolved process.
pub ghost struct ResolvedView {
    pub app_id: Seq<u8>,
    pub steam_id: Option<Seq<u8>>,
    pub name: Option<Seq<u8>>,
    pub icon: Option<Seq<u8>>,
    pub pid: u32,
    pub cpu_centi: u64,
    pub rss_bytes: u64,
    pub tasks: Option<u32>,
}

impl View for ResolvedProc {
    type V = ResolvedView;

    open spec fn view(&self) -> ResolvedView {
        ResolvedView {
            app_id: self.app_id@,
            steam_id: match self.steam_id {
                Some(v) => Some(v@),
                None => None,
            },
            name: match self.name {
                Some(v) => Some(v@),
                None => None,
            },
            icon: match self.icon {
                Some(v) => Some(v@),
                None => None,
            },
            pid: self.pid,
            cpu_centi: self.cpu_centi,
            rss_bytes: self.rss_bytes,
            tasks: self.tasks,
        }
    }
}

impl DeepView for ResolvedProc {
    type V = ResolvedView;

    open spec fn deep_view(&self) -> ResolvedView {
        self.view()
    }
}

/// How one process resolves, or `None` when it is ineligible, matches no
/// identity, or belongs to an excluded component.
pub open spec fn resolve_one_spec(
    p: SampleView,
    table: Seq<SampleView>,
    reg: &Registry,
    current_uid: Option<u64>,
) -> Option<ResolvedView> {
    if !program_process_spec(p, current_uid) {
        None
    } else if process_keys_spec(p).len() == 0 {
        None
    } else {
        let resolved: Option<ResolvedView> = match desktop_app_spec(p, reg) {
            Some(m) => Some(
                ResolvedView {
                    app_id: m.app_id,
                    steam_id: None,
                    name: Some(m.name),
                    icon: m.icon,
                    pid: p.pid,
                    cpu_centi: p.cpu_centi,
                    rss_bytes: p.rss_bytes,
                    tasks: p.tasks,
                },
            ),
            None => match steam_app_id_for_process_spec(p, table) {
                Some(s) => Some(
                    ResolvedView {
                        app_id: steam_app_id_spec(s),
                        steam_id: Some(s),
                        name: None,
                        icon: None,
                        pid: p.pid,
                        cpu_centi: p.cpu_centi,
                        rss_bytes: p.rss_bytes,
                        tasks: p.tasks,
                    },
                ),
                None => None,
            },
        };
        match resolved {
            Some(r) => if excluded_app_id_spec(r.app_id) {
                None
            } else {
                Some(r)
            },
            None => None,
        }
    }
}

/// The resolved processes of a tick, in table order.
pub open spec fn resolve_tick_spec(
    table: Seq<SampleView>,
    reg: &Registry,
    current_uid: Option<u64>,
    i: int,
) -> Seq<ResolvedView>
    decreases table.len() - i
        when 0 <= i <= table.len()
{
    if i >= table.len() {
        Seq::empty()
    } else {
        let head: Seq<ResolvedView> = match resolve_one_spec(table[i], table, reg, current_uid) {
            Some(r) => seq![r],
            None => Seq::empty(),
        };
        head + resolve_tick_spec(table, reg, current_uid, i + 1)
    }
}

fn resolve_one(
    p: &ProcessSample,
    table: &Vec<ProcessSample>,
    reg: &Registry,
    current_uid: Option<u64>,
) -> (r: Option<ResolvedProc>)
    ensures
        match r {
            Some(rp) => resolve_one_spec(p@, table.deep_view(), reg, current_uid) == Some(rp@),
            None => resolve_one_spec(p@, table.deep_view(), reg, current_uid) is None,
        },
{
    if !is_program_process(p, current_uid) {
        return None;
    }
    let keys = process_candidate_keys(p);
    if keys.len() == 0 {
        return None;
    }
    let resolved: Option<ResolvedProc> = match desktop_app_for_process(p, reg) {
        Some(m) => Some(
            ResolvedProc {
                app_id: m.app_id.clone(),
                steam_id: None,
                name: Some(m.name.clone()),
                icon: match &m.icon {
                    Some(v) => Some(v.clone()),
                    None => None,
                },
                pid: p.pid,
                cpu_centi: p.cpu_centi,
                rss_bytes: p.rss_bytes,
                tasks: p.tasks,
            },
        ),
        None => match steam_app_id_for_process(p, table) {
            Some(s) => Some(
                ResolvedProc {
                    app_id: steam_app_identity(s.as_slice()),
                    steam_id: Some(s),
                    name: None,
                    icon: None,
                    pid: p.pid,
                    cpu_centi: p.cpu_centi,
                    rss_bytes: p.rss_bytes,
                    tasks: p.tasks,
                },
            ),
            None => None,
        },
    };
    match resolved {
        Some(rp) => {
            if is_excluded_app_id(rp.app_id.as_slice()) {
                None
            } else {
                Some(rp)
            }
        },
        None => None,
    }
}

/// See [`resolve_tick_spec`].
pub fn resolve_tick(
    table: &Vec<ProcessSample>,
    reg: &Registry,
    current_uid: Option<u64>,
) -> (r: Vec<ResolvedProc>)
    ensures
        r.deep_view() == resolve_tick_spec(table.deep_view(), reg, current_uid, 0),
{
    let ghost tv = table.deep_view();
    proof {
        assert forall|k: int| 0 <= k < tv.len() implies #[trigger] tv[k] == table@[k]@ by {}
    }
    let mut out: Vec<ResolvedProc> = Vec::new();
    let mut i: usize = 0;
    proof {
        assert(out.deep_view() + resolve_tick_spec(tv, reg, current_uid, 0) =~~= resolve_tick_spec(
            tv,
            reg,
            current_uid,
            0,
        ));
    }
    while i < table.len()
        invariant
            i <= tv.len(),
            tv == table.deep_view(),
            tv.len() == table@.len(),
            forall|k: int| 0 <= k < tv.len() ==> #[trigger] tv[k] == table@[k]@,
            resolve_tick_spec(tv, reg, current_uid, 0) == out.deep_view() + resolve_tick_spec(
                tv,
                reg,
                current_uid,
                i as int,
            ),
        decreases table.len() - i,
    {
        match resolve_one(&table[i], table, reg, current_uid) {
            Some(rp) => {
                out.push(rp);
                proof {
                    assert(out.deep_view() + resolve_tick_spec(tv, reg, current_uid, i + 1)
                        =~~= resolve_tick_spec(tv, reg, current_uid, 0));
                }
            },
            None => {
                proof {
                    assert(out.deep_view() + resolve_tick_spec(tv, reg, current_uid, i + 1)
                        =~~= resolve_tick_spec(tv, reg, current_uid, 0));
                }
            },
        }
        i = i + 1;
    }
    proof {
        assert(out.deep_view() =~~= resolve_tick_spec(tv, reg, current_uid, 0));
    }
    out
}

/// The Steam ids seen this tick that the cache does not hold yet, first
/// occurrences in order.
pub open spec fn missing_ids_raw(rs: Seq<ResolvedView>, cache: &SteamCache, i: int) -> Seq<Seq<u8>>
    decreases rs.len() - i
        when 0 <= i <= rs.len()
{
    if i >= rs.len() {
        Seq::empty()
    } else {
        let head: Seq<Seq<u8>> = match rs[i].steam_id {
            Some(s) => if cache.lookup_spec(s) is None {
                seq![s]
            } else {
                Seq::empty()
            },
            None => Seq::empty(),
        };
        head + missing_ids_raw(rs, cache, i + 1)
    }
}

/// See [`missing_ids_raw`]; duplicates removed. The surrounding program
/// loads metadata for these ids and inserts it into the cache before
/// aggregating.
pub fn missing_steam_ids(resolved: &Vec<ResolvedProc>, cache: &SteamCache) -> (r: Vec<Vec<u8>>)
    ensures
        r.deep_view() == dedup_spec(missing_ids_raw(resolved.deep_view(), cache, 0)),
{
    let ghost rv = resolved.deep_view();
    proof {
        assert forall|k: int| 0 <= k < rv.len() implies #[trigger] rv[k] == resolved@[k]@ by {}
    }
    let mut raw: Vec<Vec<u8>> = Vec::new();
    let mut i: usize = 0;
    proof {
        assert(raw.deep_view() + missing_ids_raw(rv, cache, 0) =~~= missing_ids_raw(rv, cache, 0));
    }
    while i < resolved.len()
        invariant
            i <= rv.len(),
            rv == resolved.deep_view(),
            rv.len() == resolved@.len(),
            forall|k: int| 0 <= k < rv.len() ==> #[trigger] rv[k] == resolved@[k]@,
            missing_ids_raw(rv, cache, 0) == raw.deep_view() + missing_ids_raw(
                rv,
                cache,
                i as int,
            ),
        decreases resolved.len() - i,
    {
        match &resolved[i].steam_id {
            Some(s) => {
                let absent = match cache.lookup(s.as_slice()) {
                    Some(_) => false,
                    None => true,
                };
                if absent {
                    raw.push(s.clone());
                    proof {
                        lemma_dv(&raw);
                        assert(raw.deep_view() + missing_ids_raw(rv, cache, i + 1)
                            =~~= missing_ids_raw(rv, cache, 0));
                    }
                } else {
                    proof {
                        assert(raw.deep_view() + missing_ids_raw(rv, cache, i + 1)
                            =~~= missing_ids_raw(rv, cache, 0));
                    }
                }
            },
            None => {
                proof {
                    assert(raw.deep_view() + missing_ids_raw(rv, cache, i + 1)
                        =~~= missing_ids_raw(rv, cache, 0));
                }
            },
        }
        i = i + 1;
    }
    proof {
        assert(raw.deep_view() =~~= missing_ids_raw(rv, cache, 0));
    }
    dedup_strings(&raw)
}

// ---------------------------------------------------------------------------
// Aggregation
// ---------------------------------------------------------------------------
/// One per-application rollup of a tick.
pub struct AggregatedEntry {
    /// The application identity.
    pub app_id: Vec<u8>,
    /// The display name.
    pub name: Vec<u8>,
    /// The icon reference, when one is known.
    pub icon: Option<Vec<u8>>,
    /// The minimum pid among the contributing processes.
    pub pid: u32,
    /// Summed, per-process-normalized CPU, in hundredths of a percent,
    /// clamped to `0 ..= 10000`.
    pub cpu_centi: u64,
    /// The maximum single-process resident memory, in bytes.
    pub rss_bytes: u64,
    /// The summed thread count, at least one.
    pub threads: u32,
}

/// Ghost image of a rollup.
pub ghost struct AggEntryView {
    pub app_id: Seq<u8>,
    pub name: Seq<u8>,
    pub icon: Option<Seq<u8>>,
    pub pid: u32,
    pub cpu_centi: u64,
    pub rss_bytes: u64,
    pub threads: u32,
}

impl View for AggregatedEntry {
    type V = AggEntryView;

    open spec fn view(&self) -> AggEntryView {
        AggEntryView {
            app_id: self.app_id@,
            name: self.name@,
            icon: match self.icon {
                Some(v) => Some(v@),
                None => None,
            },
            pid: self.pid,
            cpu_centi: self.cpu_centi,
            rss_bytes: self.rss_bytes,
            threads: self.threads,
        }
    }
}

impl DeepView for AggregatedEntry {
    type V = AggEntryView;

    open spec fn deep_view(&self) -> AggEntryView {
        self.view()
    }
}

/// A process's CPU share normalized by the core count and clamped to one
/// hundred percent, in hundredths.
pub open spec fn norm_cpu_spec(raw: u64, cores: u64) -> u64
    recommends
        cores >= 1,
{
    if cores == 0 {
        0
    } else if raw / cores > 10000 {
        10000
    } else {
        (raw / cores) as u64
    }
}

/// A missing task count stands for one thread.
pub open spec fn tasks_or_one(t: Option<u32>) -> u32 {
    match t {
        Some(n) => n,
        None => 1,
    }
}

pub open spec fn sat_add_u64(a: u64, b: u64) -> u64 {
    if a + b > u64::MAX {
        u64::MAX
    } else {
        (a + b) as u64
    }
}

pub open spec fn sat_add_u32(a: u32, b: u32) -> u32 {
    if a + b > u32::MAX {
        u32::MAX
    } else {
        (a + b) as u32
    }
}

/// The display name an identity aggregates under: the registry name, the
/// cached manifest name, or the synthesized Steam fallback.
pub open spec fn display_name_spec(r: ResolvedView, cache: &SteamCache) -> Seq<u8> {
    match r.name {
        Some(n) => n,
        None => match r.steam_id {
            Some(s) => match cache.lookup_spec(s) {
                Some(e) => match e.name {
                    Some(n) => n,
                    None => steam_fallback_name_spec(s),
                },
                None => steam_fallback_name_spec(s),
            },
            None => Seq::empty(),
        },
    }
}

/// The icon an identity aggregates under: the registry icon, the cached
/// icon, or the shared fallback Steam icon.
pub open spec fn display_icon_spec(
    r: ResolvedView,
    cache: &SteamCache,
    fallback: Option<Seq<u8>>,
) -> Option<Seq<u8>> {
    match r.name {
        Some(_) => r.icon,
        None => match r.steam_id {
            Some(s) => match cache.lookup_spec(s) {
                Some(e) => match e.icon {
                    Some(i) => Some(i),
                    None => fallback,
                },
                None => fallback,
            },
            None => None,
        },
    }
}

/// First index of `app_id` among the accumulated entries.
pub open spec fn find_app_spec(acc: Seq<AggEntryView>, app_id: Seq<u8>, i: int) -> Option<int>
    decreases acc.len() - i
        when 0 <= i <= acc.len()
{
    if i >= acc.len() {
        None
    } else if acc[i].app_id == app_id {
        Some(i)
    } else {
        find_app_spec(acc, app_id, i + 1)
    }
}

/// One process folded into the matching entry: CPU adds its normalized
/// share, the pid takes the minimum, the memory the maximum, the threads
/// add up.
pub open spec fn merge_entry(e: AggEntryView, r: ResolvedView, cores: u64) -> AggEntryView {
    AggEntryView {
        app_id: e.app_id,
        name: e.name,
        icon: e.icon,
        pid: if r.pid < e.pid {
            r.pid
        } else {
            e.pid
        },
        cpu_centi: sat_add_u64(e.cpu_centi, norm_cpu_spec(r.cpu_centi, cores)),
        rss_bytes: if r.rss_bytes > e.rss_bytes {
            r.rss_bytes
        } else {
            e.rss_bytes
        },
        threads: sat_add_u32(e.threads, tasks_or_one(r.tasks)),
    }
}

/// The first process of an identity opens its entry.
pub open spec fn new_entry(
    r: ResolvedView,
    cache: &SteamCache,
    cores: u64,
    fallback: Option<Seq<u8>>,
) -> AggEntryView {
    AggEntryView {
        app_id: r.app_id,
        name: display_name_spec(r, cache),
        icon: display_icon_spec(r, cache, fallback),
        pid: r.pid,
        cpu_centi: norm_cpu_spec(r.cpu_centi, cores),
        rss_bytes: r.rss_bytes,
        threads: tasks_or_one(r.tasks),
    }
}

/// The fold of all resolved processes from index `i` into `acc`.
pub open spec fn fold_agg(
    rs: Seq<ResolvedView>,
    cache: &SteamCache,
    cores: u64,
    fallback: Option<Seq<u8>>,
    i: int,
    acc: Seq<AggEntryView>,
) -> Seq<AggEntryView>
    decreases rs.len() - i
        when 0 <= i <= rs.len()
{
    if i >= rs.len() {
        acc
    } else {
        let r = rs[i];
        let next = match find_app_spec(acc, r.app_id, 0) {
            Some(j) => acc.update(j, merge_entry(acc[j], r, cores)),
            None => acc.push(new_entry(r, cache, cores, fallback)),
        };
        fold_agg(rs, cache, cores, fallback, i + 1, next)
    }
}

/// The final clamp of one entry: CPU to at most one hundred percent,
/// threads to at least one.
pub open spec fn finalize_entry(e: AggEntryView) -> AggEntryView {
    AggEntryView {
        cpu_centi: if e.cpu_centi > 10000 {
            10000
        } else {
            e.cpu_centi
        },
        threads: if e.threads == 0 {
            1
        } else {
            e.threads
        },
        ..e
    }
}

/// The aggregated entries of a tick, in first-appearance order.
pub open spec fn aggregate_spec(
    rs: Seq<ResolvedView>,
    cache: &SteamCache,
    cores: u64,
    fallback: Option<Seq<u8>>,
) -> Seq<AggEntryView> {
    fold_agg(rs, cache, cores, fallback, 0, Seq::empty()).map_values(
        |e: AggEntryView| finalize_entry(e),
    )
}

/// Distinct application ids among accumulated entries.
pub open spec fn ids_distinct(acc: Seq<AggEntryView>) -> bool {
    forall|i: int, j: int| 0 <= i < j < acc.len() ==> acc[i].app_id != acc[j].app_id
}

proof fn lemma_find_app_some(acc: Seq<AggEntryView>, app_id: Seq<u8>, i: int)
    requires
        0 <= i <= acc.len(),
    ensures
        match find_app_spec(acc, app_id, i) {
            Some(j) => i <= j < acc.len() && acc[j].app_id == app_id,
            None => true,
        },
    decreases acc.len() - i,
{
    if i < acc.len() && acc[i].app_id != app_id {
        lemma_find_app_some(acc, app_id, i + 1);
    }
}

proof fn lemma_find_app_none(acc: Seq<AggEntryView>, app_id: Seq<u8>, i: int)
    requires
        0 <= i <= acc.len(),
        find_app_spec(acc, app_id, i) is None,
    ensures
        forall|j: int| i <= j < acc.len() ==> acc[j].app_id != app_id,
    decreases acc.len() - i,
{
    if i < acc.len() {
        lemma_find_app_none(acc, app_id, i + 1);
    }
}

proof fn lemma_fold_agg_distinct(
    rs: Seq<ResolvedView>,
    cache: &SteamCache,
    cores: u64,
    fallback: Option<Seq<u8>>,
    i: int,
    acc: Seq<AggEntryView>,
)
    requires
        0 <= i <= rs.len(),
        ids_distinct(acc),
    ensures
        ids_distinct(fold_agg(rs, cache, cores, fallback, i, acc)),
    decreases rs.len() - i,
{
    if i < rs.len() {
        let r = rs[i];
        match find_app_spec(acc, r.app_id, 0) {
            Some(j) => {
                lemma_find_app_some(acc, r.app_id, 0);
                let next = acc.update(j, merge_entry(acc[j], r, cores));
                assert(ids_distinct(next)) by {
                    assert forall|a: int, b: int|
                        0 <= a < b < next.len() implies next[a].app_id != next[b].app_id by {
                        assert(next[a].app_id == acc[a].app_id);
                        assert(next[b].app_id == acc[b].app_id);
                    }
                }
                lemma_fold_agg_distinct(rs, cache, cores, fallback, i + 1, next);
            },
            None => {
                let next = acc.push(new_entry(r, cache, cores, fallback));
                lemma_find_app_none(acc, r.app_id, 0);
                assert(ids_distinct(next)) by {
                    assert forall|a: int, b: int|
                        0 <= a < b < next.len() implies next[a].app_id != next[b].app_id by {
                        if b < acc.len() {
                        } else {
                            assert(next[b] == new_entry(r, cache, cores, fallback));
                            assert(next[a].app_id == acc[a].app_id);
                        }
                    }
                }
                lemma_fold_agg_distinct(rs, cache, cores, fallback, i + 1, next);
            },
        }
    }
}

fn find_app(entries: &Vec<AggregatedEntry>, app_id: &[u8]) -> (r: Option<usize>)
    ensures
        match r {
            Some(i) => i < entries@.len() && find_app_spec(entries.deep_view(), app_id@, 0) == Some(
                i as int,
            ),
            None => find_app_spec(entries.deep_view(), app_id@, 0) is None,
        },
{
    let ghost ev = entries.deep_view();
    proof {
        assert forall|k: int| 0 <= k < ev.len() implies #[trigger] ev[k] == entries@[k]@ by {}
    }
    let mut i: usize = 0;
    while i < entries.len()
        invariant
            i <= ev.len(),
            ev == entries.deep_view(),
            ev.len() == entries@.len(),
            forall|k: int| 0 <= k < ev.len() ==> #[trigger] ev[k] == entries@[k]@,
            find_app_spec(ev, app_id@, 0) == find_app_spec(ev, app_id@, i as int),
        decreases entries.len() - i,
    {
        if bytes_eq(entries[i].app_id.as_slice(), app_id) {
            return Some(i);
        }
        i = i + 1;
    }
    None
}

fn sat_add_u64_exec(a: u64, b: u64) -> (r: u64)
    ensures
        r == sat_add_u64(a, b),
{
    if a > u64::MAX - b {
        u64::MAX
    } else {
        a + b
    }
}

fn sat_add_u32_exec(a: u32, b: u32) -> (r: u32)
    ensures
        r == sat_add_u32(a, b),
{
    if a > u32::MAX - b {
        u32::MAX
    } else {
        a + b
    }
}

fn norm_cpu(raw: u64, cores: u64) -> (r: u64)
    ensures
        r == norm_cpu_spec(raw, cores),
{
    if cores == 0 {
        0
    } else {
        let q = raw / cores;
        if q > 10000 {
            10000
        } else {
            q
        }
    }
}

fn display_name(r: &ResolvedProc, cache: &SteamCache) -> (out: Vec<u8>)
    ensures
        out@ == display_name_spec(r@, cache),
{
    match &r.name {
        Some(n) => n.clone(),
        None => match &r.steam_id {
            Some(s) => match cache.lookup(s.as_slice()) {
                Some(e) => match &e.name {
                    Some(n) => n.clone(),
                    None => steam_fallback_name(s.as_slice()),
                },
                None => steam_fallback_name(s.as_slice()),
            },
            None => Vec::new(),
        },
    }
}

fn display_icon(r: &ResolvedProc, cache: &SteamCache, fallback: Option<&Vec<u8>>) -> (out: Option<
    Vec<u8>,
>)
    ensures
        (match out {
            Some(v) => Some(v@),
            None => None,
        }) == display_icon_spec(
            r@,
            cache,
            match fallback {
                Some(f) => Some(f@),
                None => None,
            },
        ),
{
    match &r.name {
        Some(_) => match &r.icon {
            Some(v) => Some(v.clone()),
            None => None,
        },
        None => match &r.steam_id {
            Some(s) => match cache.lookup(s.as_slice()) {
                Some(e) => match &e.icon {
                    Some(i) => Some(i.clone()),
                    None => match fallback {
                        Some(f) => Some(f.clone()),
                        None => None,
                    },
                },
                None => match fallback {
                    Some(f) => Some(f.clone()),
                    None => None,
                },
            },
            None => None,
        },
    }
}

/// Folds the resolved processes of one tick into per-application entries:
/// one entry per distinct application id, CPU summed after per-process
/// normalization and clamped to at most one hundred percent, the minimum
/// pid, the maximum single-process memory, and at least one thread.
pub fn aggregate_resolved(
    resolved: &Vec<ResolvedProc>,
    cache: &SteamCache,
    core_count: u64,
    steam_fallback_icon: Option<&Vec<u8>>,
) -> (r: Vec<AggregatedEntry>)
    requires
        core_count >= 1,
    ensures
        r.deep_view() == aggregate_spec(
            resolved.deep_view(),
            cache,
            core_count,
            match steam_fallback_icon {
                Some(f) => Some(f@),
                None => None,
            },
        ),
        forall|i: int| 0 <= i < r@.len() ==> #[trigger] r@[i]@.cpu_centi <= 10000,
        forall|i: int| 0 <= i < r@.len() ==> #[trigger] r@[i]@.threads >= 1,
        forall|i: int, j: int| 0 <= i < j < r@.len() ==> r@[i]@.app_id != r@[j]@.app_id,
{
    let ghost rv = resolved.deep_view();
    let ghost fb: Option<Seq<u8>> = match steam_fallback_icon {
        Some(f) => Some(f@),
        None => None,
    };
    proof {
        assert forall|k: int| 0 <= k < rv.len() implies #[trigger] rv[k] == resolved@[k]@ by {}
    }
    let mut entries: Vec<AggregatedEntry> = Vec::new();
    let mut i: usize = 0;
    proof {
        assert(entries.deep_view() =~~= Seq::<AggEntryView>::empty());
    }
    while i < resolved.len()
        invariant
            i <= rv.len(),
            rv == resolved.deep_view(),
            rv.len() == resolved@.len(),
            core_count >= 1,
            fb == (match steam_fallback_icon {
                Some(f) => Some(f@),
                None => None::<Seq<u8>>,
            }),
            forall|k: int| 0 <= k < rv.len() ==> #[trigger] rv[k] == resolved@[k]@,
            fold_agg(rv, cache, core_count, fb, 0, Seq::empty()) == fold_agg(
                rv,
                cache,
                core_count,
                fb,
                i as int,
                entries.deep_view(),
            ),
        decreases resolved.len() - i,
    {
        let r = &resolved[i];
        let ghost acc = entries.deep_view();
        match find_app(&entries, r.app_id.as_slice()) {
            Some(j) => {
                let cpu_add = norm_cpu(r.cpu_centi, core_count);
                let t_add: u32 = match r.tasks {
                    Some(n) => n,
                    None => 1,
                };
                let e = &mut entries[j];
                if r.pid < e.pid {
                    e.pid = r.pid;
                }
                e.cpu_centi = sat_add_u64_exec(e.cpu_centi, cpu_add);
                if r.rss_bytes > e.rss_bytes {
                    e.rss_bytes = r.rss_bytes;
                }
                e.threads = sat_add_u32_exec(e.threads, t_add);
                proof {
                    assert(entries.deep_view() =~~= acc.update(
                        j as int,
                        merge_entry(acc[j as int], rv[i as int], core_count),
                    ));
                }
            },
            None => {
                let name = display_name(r, cache);
                let icon = display_icon(r, cache, steam_fallback_icon);
                let cpu0 = norm_cpu(r.cpu_centi, core_count);
                let t0: u32 = match r.tasks {
                    Some(n) => n,
                    None => 1,
                };
                entries.push(
                    AggregatedEntry {
                        app_id: r.app_id.clone(),
                        name,
                        icon,
                        pid: r.pid,
                        cpu_centi: cpu0,
                        rss_bytes: r.rss_bytes,
                        threads: t0,
                    },
                );
                proof {
                    assert(entries.deep_view() =~~= acc.push(
                        new_entry(rv[i as int], cache, core_count, fb),
                    ));
                }
            },
        }
        i = i + 1;
    }
    let ghost folded = fold_agg(rv, cache, core_count, fb, 0, Seq::empty());
    proof {
        assert(entries.deep_view() == folded);
    }
    let mut out: Vec<AggregatedEntry> = Vec::new();
    let mut k: usize = 0;
    while k < entries.len()
        invariant
            k <= entries@.len(),
            folded == entries.deep_view(),
            folded.len() == entries@.len(),
            out.deep_view() == folded.map_values(|e: AggEntryView| finalize_entry(e)).take(
                k as int,
            ),
            out@.len() == k,
        decreases entries.len() - k,
    {
        let e = &entries[k];
        let cpu = if e.cpu_centi > 10000 {
            10000
        } else {
            e.cpu_centi
        };
        let threads = if e.threads == 0 {
            1
        } else {
            e.threads
        };
        out.push(
            AggregatedEntry {
                app_id: e.app_id.clone(),
                name: e.name.clone(),
                icon: match &e.icon {
                    Some(v) => Some(v.clone()),
                    None => None,
                },
                pid: e.pid,
                cpu_centi: cpu,
                rss_bytes: e.rss_bytes,
                threads,
            },
        );
        proof {
            let m = folded.map_values(|e: AggEntryView| finalize_entry(e));
            assert(entries@[k as int]@ == folded[k as int]);
            assert(m.take(k as int).push(m[k as int]) =~= m.take(k + 1));
            assert(out.deep_view() =~~= m.take(k + 1));
        }
        k = k + 1;
    }
    proof {
        let m = folded.map_values(|e: AggEntryView| finalize_entry(e));
        assert(m.take(m.len() as int) =~= m);
        assert(out.deep_view() =~~= aggregate_spec(rv, cache, core_count, fb));
        lemma_fold_agg_distinct(rv, cache, core_count, fb, 0, Seq::empty());
        assert forall|a: int| 0 <= a < out@.len() implies #[trigger] out@[a]@.cpu_centi
            <= 10000 by {
            assert(out@[a]@ == m[a]);
        }
        assert forall|a: int| 0 <= a < out@.len() implies #[trigger] out@[a]@.threads >= 1 by {
            assert(out@[a]@ == m[a]);
        }
        assert forall|a: int, b: int|
            0 <= a < b < out@.len() implies out@[a]@.app_id != out@[b]@.app_id by {
            assert(out@[a]@ == m[a] && out@[b]@ == m[b]);
            assert(m[a].app_id == folded[a].app_id && m[b].app_id == folded[b].app_id);
        }
    }
    out
}

/// Every aggregated entry's CPU stays within zero and one hundred percent,
/// its thread count is at least one, and no two entries share an
/// application id, whatever the tick's processes were.
pub proof fn lemma_aggregate_invariants(
    rs: Seq<ResolvedView>,
    cache: &SteamCache,
    cores: u64,
    fallback: Option<Seq<u8>>,
)
    ensures
        forall|i: int|
            0 <= i < aggregate_spec(rs, cache, cores, fallback).len() ==> #[trigger] aggregate_spec(
                rs,
                cache,
                cores,
                fallback,
            )[i].cpu_centi <= 10000,
        forall|i: int|
            0 <= i < aggregate_spec(rs, cache, cores, fallback).len() ==> #[trigger] aggregate_spec(
                rs,
                cache,
                cores,
                fallback,
            )[i].threads >= 1,
        ids_distinct(aggregate_spec(rs, cache, cores, fallback)),
{
    let folded = fold_agg(rs, cache, cores, fallback, 0, Seq::empty());
    let m = aggregate_spec(rs, cache, cores, fallback);
    lemma_fold_agg_distinct(rs, cache, cores, fallback, 0, Seq::empty());
    assert forall|i: int| 0 <= i < m.len() implies #[trigger] m[i].cpu_centi <= 10000 by {
        assert(m[i] == finalize_entry(folded[i]));
    }
    assert forall|i: int| 0 <= i < m.len() implies #[trigger] m[i].threads >= 1 by {
        assert(m[i] == finalize_entry(folded[i]));
    }
    assert forall|i: int, j: int| 0 <= i < j < m.len() implies m[i].app_id != m[j].app_id by {
        assert(m[i] == finalize_entry(folded[i]));
        assert(m[j] == finalize_entry(folded[j]));
    }
}

} // verus!
