//! The engine instance: exclusive owner of the registry, the Steam title
//! cache, the aggregated entries, the sort choice and the pending
//! selection. One tick flows through `tick_resolve`, metadata admission,
//! and `apply_tick`; actions read the selection.

use vstd::prelude::*;
use crate::registry::Registry;
use crate::aggregate::{
    SteamCache, SteamCacheEntry, ResolvedProc, AggregatedEntry, resolve_tick, resolve_tick_spec,
    missing_steam_ids, missing_ids_raw, aggregate_resolved, aggregate_spec,
};
use crate::bytes::dedup_spec;
use crate::process::ProcessSample;
use crate::sort::{SortState, SortColumn, SortDirection, toggle_sort, toggle_sort_spec,
    sort_process_entries, sorted_under};

verus! {

/// The identity a pending action is aimed at.
pub struct SelectedIdentity {
    /// The resolved application id.
    pub app_id: Vec<u8>,
    /// The display name shown for it.
    pub display_name: Vec<u8>,
    /// One representative pid.
    pub pid: u32,
}

/// Ghost image of a selection.
pub ghost struct SelectedView {
    pub app_id: Seq<u8>,
    pub display_name: Seq<u8>,
    pub pid: u32,
}

impl View for SelectedIdentity {
    type V = SelectedView;

    open spec fn view(&self) -> SelectedView {
        SelectedView { app_id: self.app_id@, display_name: self.display_name@, pid: self.pid }
    }
}

/// The monitor's engine state, owned by one instance: the registry is
/// rebuilt each tick, the Steam cache grows lazily and survives ticks, the
/// entry list is replaced whole each tick.
pub struct Engine {
    pub registry: Registry,
    pub steam_cache: SteamCache,
    pub entries: Vec<AggregatedEntry>,
    pub sort_state: SortState,
    pub selected: Option<SelectedIdentity>,
    pub refresh_cycle: u64,
}

impl Engine {
    pub open spec fn wf(&self) -> bool {
        self.registry.wf() && self.steam_cache.wf()
    }

    /// A fresh engine: nothing cached, nothing listed, ordered by memory
    /// descending.
    pub fn new() -> (r: Engine)
        ensures
            r.wf(),
            r.entries@.len() == 0,
            r.steam_cache.entries@.len() == 0,
            r.sort_state == (SortState {
                column: SortColumn::Ram,
                direction: SortDirection::Desc,
            }),
            r.selected is None,
            r.refresh_cycle == 0,
    {
        Engine {
            registry: Registry::new(),
            steam_cache: SteamCache::new(),
            entries: Vec::new(),
            sort_state: SortState { column: SortColumn::Ram, direction: SortDirection::Desc },
            selected: None,
            refresh_cycle: 0,
        }
    }

    /// Installs the registry rebuilt for this tick.
    pub fn set_registry(&mut self, reg: Registry)
        requires
            reg.wf(),
        ensures
            final(self).registry == reg,
            final(self).steam_cache == old(self).steam_cache,
            final(self).entries == old(self).entries,
            final(self).sort_state == old(self).sort_state,
            final(self).selected == old(self).selected,
            final(self).refresh_cycle == old(self).refresh_cycle,
            old(self).steam_cache.wf() ==> final(self).wf(),
    {
        self.registry = reg;
    }

    /// Resolves this tick's process table against the current registry.
    pub fn tick_resolve(&self, table: &Vec<ProcessSample>, current_uid: Option<u64>) -> (r: Vec<
        ResolvedProc,
    >)
        ensures
            r.deep_view() == resolve_tick_spec(table.deep_view(), &self.registry, current_uid, 0),
    {
        resolve_tick(table, &self.registry, current_uid)
    }

    /// The Steam ids of this tick that still need a metadata lookup.
    pub fn tick_missing(&self, resolved: &Vec<ResolvedProc>) -> (r: Vec<Vec<u8>>)
        ensures
            r.deep_view() == dedup_spec(
                missing_ids_raw(resolved.deep_view(), &self.steam_cache, 0),
            ),
    {
        missing_steam_ids(resolved, &self.steam_cache)
    }

    /// Caches one Steam title's metadata; an id already cached is kept.
    pub fn admit_steam_title(&mut self, entry: SteamCacheEntry)
        requires
            old(self).steam_cache.wf(),
        ensures
            final(self).steam_cache.wf(),
            final(self).registry == old(self).registry,
            final(self).entries == old(self).entries,
            final(self).sort_state == old(self).sort_state,
            final(self).selected == old(self).selected,
            final(self).refresh_cycle == old(self).refresh_cycle,
            old(self).steam_cache.lookup_spec(entry@.id) is Some ==> final(self).steam_cache
                == old(self).steam_cache,
            old(self).steam_cache.lookup_spec(entry@.id) is None ==> final(self).steam_cache.entries@
                == old(self).steam_cache.entries@.push(entry),
    {
        self.steam_cache.insert(entry);
    }

    /// Forgets every cached Steam title.
    pub fn invalidate_steam_cache(&mut self)
        ensures
            final(self).steam_cache.wf(),
            final(self).steam_cache.entries@.len() == 0,
            final(self).registry == old(self).registry,
            final(self).entries == old(self).entries,
            final(self).sort_state == old(self).sort_state,
            final(self).selected == old(self).selected,
            final(self).refresh_cycle == old(self).refresh_cycle,
    {
        self.steam_cache.invalidate();
    }

    /// Replaces the entry list with this tick's aggregation, ordered under
    /// the active sort, and counts the tick.
    pub fn apply_tick(
        &mut self,
        resolved: &Vec<ResolvedProc>,
        core_count: u64,
        steam_fallback_icon: Option<&Vec<u8>>,
    )
        requires
            core_count >= 1,
        ensures
            final(self).entries.deep_view().to_multiset() == aggregate_spec(
                resolved.deep_view(),
                &old(self).steam_cache,
                core_count,
                match steam_fallback_icon {
                    Some(f) => Some(f@),
                    None => None,
                },
            ).to_multiset(),
            sorted_under(old(self).sort_state, final(self).entries.deep_view()),
            final(self).registry == old(self).registry,
            final(self).steam_cache == old(self).steam_cache,
            final(self).sort_state == old(self).sort_state,
            final(self).selected == old(self).selected,
            final(self).refresh_cycle == (if old(self).refresh_cycle == u64::MAX {
                u64::MAX
            } else {
                (old(self).refresh_cycle + 1) as u64
            }),
    {
        let aggregated = aggregate_resolved(
            resolved,
            &self.steam_cache,
            core_count,
            steam_fallback_icon,
        );
        let sorted = sort_process_entries(aggregated, self.sort_state);
        self.entries = sorted;
        if self.refresh_cycle < u64::MAX {
            self.refresh_cycle = self.refresh_cycle + 1;
        }
    }

    /// Applies a header click: the active column flips direction, a new
    /// column starts in its natural direction, and the entries reorder.
    pub fn toggle_sort_column(&mut self, column: SortColumn)
        ensures
            final(self).sort_state == toggle_sort_spec(old(self).sort_state, column),
            sorted_under(final(self).sort_state, final(self).entries.deep_view()),
            final(self).entries.deep_view().to_multiset() == old(
                self,
            ).entries.deep_view().to_multiset(),
            final(self).registry == old(self).registry,
            final(self).steam_cache == old(self).steam_cache,
            final(self).selected == old(self).selected,
            final(self).refresh_cycle == old(self).refresh_cycle,
    {
        self.sort_state = toggle_sort(self.sort_state, column);
        let mut taken: Vec<AggregatedEntry> = Vec::new();
        std_mem_swap_entries(&mut self.entries, &mut taken);
        let sorted = sort_process_entries(taken, self.sort_state);
        self.entries = sorted;
    }

    /// Records the identity an action menu was opened on.
    pub fn select(&mut self, sel: SelectedIdentity)
        ensures
            final(self).selected == Some(sel),
            final(self).registry == old(self).registry,
            final(self).steam_cache == old(self).steam_cache,
            final(self).entries == old(self).entries,
            final(self).sort_state == old(self).sort_state,
            final(self).refresh_cycle == old(self).refresh_cycle,
    {
        self.selected = Some(sel);
    }

    /// Clears the pending selection (the menu closed or the action is
    /// done).
    pub fn clear_selection(&mut self)
        ensures
            final(self).selected is None,
            final(self).registry == old(self).registry,
            final(self).steam_cache == old(self).steam_cache,
            final(self).entries == old(self).entries,
            final(self).sort_state == old(self).sort_state,
            final(self).refresh_cycle == old(self).refresh_cycle,
    {
        self.selected = None;
    }
}

fn std_mem_swap_entries(a: &mut Vec<AggregatedEntry>, b: &mut Vec<AggregatedEntry>)
    ensures
        final(a)@ == old(b)@,
        final(b)@ == old(a)@,
{
    core::mem::swap(a, b);
}

} // verus!
