//! Eligibility, resolution, aggregation invariants, and the sort order.

use task_monitor_core::aggregate::{
    aggregate_resolved, missing_steam_ids, resolve_tick, ResolvedProc, SteamCache,
    SteamCacheEntry,
};
use task_monitor_core::process::{
    is_background_component_process, is_excluded_app_id, is_program_process,
    looks_like_background_component, process_candidate_keys, resolved_app_id_for_process,
    steam_app_id_for_process, ProcessSample,
};
use task_monitor_core::registry::{build_registry, DesktopEntryInfo, Registry};
use task_monitor_core::sort::{
    default_direction, sort_process_entries, toggle_sort, SortColumn, SortDirection, SortState,
};

fn entry_descriptor(id: &str, name: &str, exec: &str) -> DesktopEntryInfo {
    DesktopEntryInfo {
        id: id.as_bytes().to_vec(),
        name: name.as_bytes().to_vec(),
        icon: None,
        exec_value: Some(exec.as_bytes().to_vec()),
        wm_class: None,
        mime_types: Vec::new(),
        path: None,
    }
}

fn sample(pid: u32, exe: &str, name: &str, cpu_centi: u64, rss: u64, tasks: u32) -> ProcessSample {
    ProcessSample {
        pid,
        parent: None,
        uid: Some(1000),
        name: name.as_bytes().to_vec(),
        exe: Some(exe.as_bytes().to_vec()),
        cmd: vec![exe.as_bytes().to_vec()],
        cpu_centi,
        rss_bytes: rss,
        tasks: Some(tasks),
    }
}

#[test]
fn eligibility_filters_kernel_threads_daemons_and_other_users() {
    let good = sample(10, "/usr/bin/gedit", "gedit", 0, 0, 1);
    assert!(is_program_process(&good, Some(1000)));
    assert!(!is_program_process(&good, Some(1001)));

    let mut kernel = sample(2, "/usr/bin/x", "[kworker/0:1]", 0, 0, 1);
    kernel.exe = Some(Vec::new());
    assert!(!is_program_process(&kernel, Some(1000)));

    let daemon = sample(3, "/usr/libexec/foo-daemon", "foo-daemon", 0, 0, 1);
    assert!(is_background_component_process(&daemon));
    assert!(!is_program_process(&daemon, Some(1000)));

    assert!(looks_like_background_component(b"NetworkHelper"));
    assert!(looks_like_background_component(b" polkit-Service "));
    assert!(!looks_like_background_component(b"gedit"));

    assert!(is_excluded_app_id(b"com-system-cosmic-launcher"));
    assert!(is_excluded_app_id(b"xdg-desktop-portal-gtk"));
    assert!(!is_excluded_app_id(b"firefox"));
}

#[test]
fn candidate_keys_fall_back_to_the_process_name() {
    let mut p = sample(5, "/opt/tool/mytool-bin", "MyTool", 0, 0, 1);
    p.cmd = Vec::new();
    let keys = process_candidate_keys(&p);
    assert_eq!(keys, vec![b"mytool-bin".to_vec(), b"mytool".to_vec()]);

    let mut bare = sample(6, "", "gedit", 0, 0, 1);
    bare.exe = None;
    bare.cmd = Vec::new();
    assert_eq!(process_candidate_keys(&bare), vec![b"gedit".to_vec()]);
}

#[test]
fn parent_chains_resolve_steam_titles() {
    let mut child = sample(100, "/data/game/bin", "game", 0, 0, 1);
    child.parent = Some(50);
    let mut launcher = sample(50, "/usr/bin/reaper", "reaper", 0, 0, 1);
    launcher.cmd = vec![
        b"SteamLaunch".to_vec(),
        b"AppId=1903340".to_vec(),
        b"--".to_vec(),
    ];
    let table = vec![child, launcher];
    assert_eq!(
        steam_app_id_for_process(&table[0], &table),
        Some(b"1903340".to_vec())
    );
    let reg = Registry::new();
    assert_eq!(
        resolved_app_id_for_process(&table[0], &table, &reg),
        Some(b"steam-app-1903340".to_vec())
    );
}

#[test]
fn aggregation_folds_processes_and_keeps_its_invariants() {
    let descriptors = vec![entry_descriptor("firefox", "Firefox", "/usr/bin/firefox %u")];
    let reg = build_registry(&descriptors);
    let table = vec![
        sample(42, "/usr/bin/firefox", "firefox", 30000, 500, 2),
        sample(7, "/usr/bin/firefox", "firefox", 30000, 900, 3),
    ];
    let resolved = resolve_tick(&table, &reg, Some(1000));
    assert_eq!(resolved.len(), 2);
    let cache = SteamCache::new();
    let entries = aggregate_resolved(&resolved, &cache, 2, None);
    assert_eq!(entries.len(), 1);
    let e = &entries[0];
    assert_eq!(e.app_id, b"firefox".to_vec());
    assert_eq!(e.name, b"Firefox".to_vec());
    // 300% over two cores is 150%, clamped per process to 100%; the sum
    // clamps again to 100%.
    assert_eq!(e.cpu_centi, 10000);
    assert_eq!(e.pid, 7);
    assert_eq!(e.rss_bytes, 900);
    assert_eq!(e.threads, 5);
}

#[test]
fn steam_entries_name_from_the_cache_or_the_fallback() {
    let reg = Registry::new();
    let mut p = sample(9, "/data/game/bin", "steam_app_730", 0, 100, 1);
    p.cmd = vec![b"steam_app_730".to_vec()];
    let table = vec![p];
    let resolved = resolve_tick(&table, &reg, Some(1000));
    assert_eq!(resolved.len(), 1);
    assert_eq!(resolved[0].app_id, b"steam-app-730".to_vec());

    let empty_cache = SteamCache::new();
    let missing = missing_steam_ids(&resolved, &empty_cache);
    assert_eq!(missing, vec![b"730".to_vec()]);
    let entries = aggregate_resolved(&resolved, &empty_cache, 1, None);
    assert_eq!(entries[0].name, b"Steam App 730".to_vec());

    let mut cache = SteamCache::new();
    cache.insert(SteamCacheEntry {
        id: b"730".to_vec(),
        name: Some(b"Counter-Strike 2".to_vec()),
        icon: None,
    });
    assert!(missing_steam_ids(&resolved, &cache).is_empty());
    let named = aggregate_resolved(&resolved, &cache, 1, None);
    assert_eq!(named[0].name, b"Counter-Strike 2".to_vec());
}

fn plain_entry(app_id: &str, name: &str, pid: u32, cpu: u64, rss: u64) -> ResolvedProc {
    ResolvedProc {
        app_id: app_id.as_bytes().to_vec(),
        steam_id: None,
        name: Some(name.as_bytes().to_vec()),
        icon: None,
        pid,
        cpu_centi: cpu,
        rss_bytes: rss,
        tasks: Some(1),
    }
}

#[test]
fn ties_on_the_primary_column_order_by_ram_cpu_then_pid() {
    let cache = SteamCache::new();
    // All three share the display name; the name column cannot tell them
    // apart.
    let resolved = vec![
        plain_entry("app-a", "Term", 30, 500, 100),
        plain_entry("app-b", "Term", 20, 500, 900),
        plain_entry("app-c", "Term", 10, 900, 900),
    ];
    let entries = aggregate_resolved(&resolved, &cache, 1, None);
    let sorted = sort_process_entries(
        entries,
        SortState { column: SortColumn::Name, direction: SortDirection::Asc },
    );
    // RAM descending first, CPU descending next, pid ascending last.
    assert_eq!(sorted[0].app_id, b"app-c".to_vec());
    assert_eq!(sorted[1].app_id, b"app-b".to_vec());
    assert_eq!(sorted[2].app_id, b"app-a".to_vec());

    // The same tie-break order holds under another primary column and
    // direction: all three tie on threads.
    let resolved2 = vec![
        plain_entry("app-a", "A", 30, 500, 100),
        plain_entry("app-b", "B", 20, 500, 900),
        plain_entry("app-c", "C", 10, 900, 900),
    ];
    let entries2 = aggregate_resolved(&resolved2, &cache, 1, None);
    let sorted2 = sort_process_entries(
        entries2,
        SortState { column: SortColumn::Threads, direction: SortDirection::Desc },
    );
    assert_eq!(sorted2[0].app_id, b"app-c".to_vec());
    assert_eq!(sorted2[1].app_id, b"app-b".to_vec());
    assert_eq!(sorted2[2].app_id, b"app-a".to_vec());
}

#[test]
fn name_order_is_case_insensitive_first() {
    let cache = SteamCache::new();
    let resolved = vec![
        plain_entry("b", "beta", 1, 0, 0),
        plain_entry("a", "Alpha", 2, 0, 0),
        plain_entry("g", "gamma", 3, 0, 0),
    ];
    let entries = aggregate_resolved(&resolved, &cache, 1, None);
    let sorted = sort_process_entries(
        entries,
        SortState { column: SortColumn::Name, direction: SortDirection::Asc },
    );
    assert_eq!(sorted[0].name, b"Alpha".to_vec());
    assert_eq!(sorted[1].name, b"beta".to_vec());
    assert_eq!(sorted[2].name, b"gamma".to_vec());
}

#[test]
fn toggling_flips_the_active_column_and_resets_a_new_one() {
    let s = SortState { column: SortColumn::Ram, direction: SortDirection::Desc };
    let flipped = toggle_sort(s, SortColumn::Ram);
    assert_eq!(flipped.direction, SortDirection::Asc);
    let renamed = toggle_sort(flipped, SortColumn::Name);
    assert_eq!(renamed.column, SortColumn::Name);
    assert_eq!(renamed.direction, SortDirection::Asc);
    let to_cpu = toggle_sort(renamed, SortColumn::Cpu);
    assert_eq!(to_cpu.direction, SortDirection::Desc);
    assert_eq!(default_direction(SortColumn::Name), SortDirection::Asc);
    assert_eq!(default_direction(SortColumn::Pid), SortDirection::Desc);
}

#[test]
fn registry_ranking_prefers_exact_id_then_primary_keys() {
    // Both descriptors compete for the key `editor`: one is an exact id
    // match, the other only carries it as an exec key.
    let exact = entry_descriptor("editor", "Editor", "/usr/bin/editor-bin");
    let carrier = entry_descriptor("super-tool", "Super Tool", "/usr/bin/editor");
    let reg = build_registry(&vec![carrier, exact]);
    let hit = reg.lookup(b"editor").expect("editor key must be bound");
    assert_eq!(hit.app_id, b"editor".to_vec());
    // The other application keeps its own id key.
    let other = reg.lookup(b"super-tool").expect("id key must be bound");
    assert_eq!(other.app_id, b"super-tool".to_vec());
}

#[test]
fn descriptors_without_keys_fall_away() {
    let blank = DesktopEntryInfo {
        id: b"---".to_vec(),
        name: b"Broken".to_vec(),
        icon: None,
        exec_value: None,
        wm_class: None,
        mime_types: Vec::new(),
        path: None,
    };
    let reg = build_registry(&vec![blank]);
    assert_eq!(reg.entries.len(), 0);
}
