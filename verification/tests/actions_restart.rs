//! Launch candidates, exec sanitizing, the restart sequencer, identity
//! info, and pid selection for signal delivery.

use task_monitor_core::aggregate::SteamCache;
use task_monitor_core::engine::{Engine, SelectedIdentity};
use task_monitor_core::launch::{
    copy_info_payload, invocation_for_candidate, launch_candidates_for_selected,
    open_target_for_exe, sanitize_exec_command, LaunchCandidate, LaunchInvocation,
};
use task_monitor_core::process::{is_app_id_running, pids_resolving_to, ProcessSample};
use task_monitor_core::registry::{build_registry, DesktopEntryInfo, Registry};
use task_monitor_core::restart::{
    restart_action, restart_step, RestartAction, RestartEvent, RestartPhase, KILL_POLLS,
    TERM_POLLS,
};

fn descriptor_with_paths(id: &str, exec: &str, path: &str) -> DesktopEntryInfo {
    DesktopEntryInfo {
        id: id.as_bytes().to_vec(),
        name: id.as_bytes().to_vec(),
        icon: None,
        exec_value: Some(exec.as_bytes().to_vec()),
        wm_class: None,
        mime_types: Vec::new(),
        path: Some(path.as_bytes().to_vec()),
    }
}

#[test]
fn candidates_follow_the_fallback_order() {
    let descriptors = vec![descriptor_with_paths(
        "firefox.desktop",
        "/usr/bin/firefox %u",
        "/usr/share/applications/firefox.desktop",
    )];
    let reg = build_registry(&descriptors);
    let meta = reg.meta_for_app_id(b"firefox-desktop").expect("descriptor must resolve");
    let live_cmd = vec![b"/usr/bin/firefox".to_vec(), b"--new-window".to_vec()];
    let live_exe = b"/usr/bin/firefox".to_vec();
    let cands = launch_candidates_for_selected(
        b"firefox-desktop",
        Some(meta),
        &live_cmd,
        Some(&live_exe),
    );
    assert_eq!(cands.len(), 5);
    match &cands[0] {
        LaunchCandidate::GtkLaunch(id) => assert_eq!(id, &b"firefox".to_vec()),
        _ => panic!("expected an indirect desktop-entry launch first"),
    }
    match &cands[1] {
        LaunchCandidate::GioLaunch(p) => {
            assert_eq!(p, &b"/usr/share/applications/firefox.desktop".to_vec())
        },
        _ => panic!("expected the desktop file path second"),
    }
    match &cands[2] {
        LaunchCandidate::DesktopExec(e) => assert_eq!(e, &b"/usr/bin/firefox %u".to_vec()),
        _ => panic!("expected the raw exec string third"),
    }
    match &cands[3] {
        LaunchCandidate::Command { program, args } => {
            assert_eq!(program, &b"/usr/bin/firefox".to_vec());
            assert_eq!(args, &vec![b"--new-window".to_vec()]);
        },
        _ => panic!("expected the live command fourth"),
    }
    match &cands[4] {
        LaunchCandidate::Executable(p) => assert_eq!(p, &b"/usr/bin/firefox".to_vec()),
        _ => panic!("expected the bare executable last"),
    }
}

#[test]
fn steam_identities_lead_with_their_uri() {
    let live_cmd: Vec<Vec<u8>> = Vec::new();
    let cands = launch_candidates_for_selected(b"steam-app-730", None, &live_cmd, None);
    assert_eq!(cands.len(), 1);
    match &cands[0] {
        LaunchCandidate::SteamUri(uri) => {
            assert_eq!(uri, &b"steam://rungameid/730".to_vec());
        },
        _ => panic!("expected the steam uri"),
    }
    match invocation_for_candidate(&cands[0]) {
        Some(LaunchInvocation::OpenDetached(uri)) => {
            assert_eq!(uri, b"steam://rungameid/730".to_vec())
        },
        _ => panic!("a steam uri is opened detached"),
    }
}

#[test]
fn exec_strings_lose_field_codes_and_unescape_percents() {
    assert_eq!(
        sanitize_exec_command(b"/usr/bin/foo %U --new-window %f"),
        Some(b"/usr/bin/foo  --new-window".to_vec())
    );
    assert_eq!(
        sanitize_exec_command(b"show %%CPU%% use"),
        Some(b"show %CPU% use".to_vec())
    );
    assert_eq!(sanitize_exec_command(b"%f %U"), None);
}

#[test]
fn invocations_name_the_right_helpers() {
    match invocation_for_candidate(&LaunchCandidate::GtkLaunch(b"gedit".to_vec())) {
        Some(LaunchInvocation::Spawn { program, args }) => {
            assert_eq!(program, b"gtk-launch".to_vec());
            assert_eq!(args, vec![b"gedit".to_vec()]);
        },
        _ => panic!("gtk-launch spawn expected"),
    }
    match invocation_for_candidate(&LaunchCandidate::GioLaunch(b"/apps/a.desktop".to_vec())) {
        Some(LaunchInvocation::Spawn { program, args }) => {
            assert_eq!(program, b"gio".to_vec());
            assert_eq!(args, vec![b"launch".to_vec(), b"/apps/a.desktop".to_vec()]);
        },
        _ => panic!("gio launch spawn expected"),
    }
    match invocation_for_candidate(&LaunchCandidate::DesktopExec(b"run %f me".to_vec())) {
        Some(LaunchInvocation::Spawn { program, args }) => {
            assert_eq!(program, b"sh".to_vec());
            assert_eq!(args, vec![b"-lc".to_vec(), b"run  me".to_vec()]);
        },
        _ => panic!("shell spawn expected"),
    }
    assert!(invocation_for_candidate(&LaunchCandidate::DesktopExec(b"%f".to_vec())).is_none());
    match invocation_for_candidate(&LaunchCandidate::Executable(b"/bin/app".to_vec())) {
        Some(LaunchInvocation::Spawn { program, args }) => {
            assert_eq!(program, b"/bin/app".to_vec());
            assert!(args.is_empty());
        },
        _ => panic!("direct spawn expected"),
    }
}

#[test]
fn a_restart_runs_term_poll_launch_in_that_order() {
    let mut phase = RestartPhase::Start;
    assert_eq!(restart_action(&phase), RestartAction::SignalTerm);
    phase = restart_step(phase, RestartEvent::SignalDelivered);
    assert_eq!(phase, RestartPhase::WaitTerm { polls_left: TERM_POLLS });
    assert_eq!(restart_action(&phase), RestartAction::Poll);
    phase = restart_step(phase, RestartEvent::PollResult(true));
    assert_eq!(phase, RestartPhase::WaitTerm { polls_left: TERM_POLLS - 1 });
    phase = restart_step(phase, RestartEvent::PollResult(false));
    assert_eq!(phase, RestartPhase::LaunchFirst);
    assert_eq!(restart_action(&phase), RestartAction::Launch);
    phase = restart_step(phase, RestartEvent::LaunchResult(true));
    assert_eq!(phase, RestartPhase::Done { relaunched: true });
    assert_eq!(restart_action(&phase), RestartAction::Finished);
}

#[test]
fn a_failed_relaunch_escalates_to_a_kill_and_one_retry() {
    let mut phase = RestartPhase::LaunchFirst;
    phase = restart_step(phase, RestartEvent::LaunchResult(false));
    assert_eq!(phase, RestartPhase::Escalate);
    assert_eq!(restart_action(&phase), RestartAction::SignalKill);
    phase = restart_step(phase, RestartEvent::SignalDelivered);
    assert_eq!(phase, RestartPhase::WaitKill { polls_left: KILL_POLLS });
    phase = restart_step(phase, RestartEvent::PollResult(false));
    assert_eq!(phase, RestartPhase::LaunchSecond);
    phase = restart_step(phase, RestartEvent::LaunchResult(false));
    assert_eq!(phase, RestartPhase::Done { relaunched: false });
}

#[test]
fn exhausted_kill_polls_still_allow_the_final_relaunch() {
    let mut phase = RestartPhase::WaitKill { polls_left: 1 };
    phase = restart_step(phase, RestartEvent::PollResult(true));
    assert_eq!(phase, RestartPhase::LaunchSecond);
}

#[test]
fn identity_info_serializes_as_two_lines() {
    assert_eq!(
        copy_info_payload(b"firefox", 1234),
        b"app_id=firefox\npid=1234".to_vec()
    );
    assert_eq!(copy_info_payload(b"x", 0), b"app_id=x\npid=0".to_vec());
}

#[test]
fn locating_a_process_opens_the_executable_directory() {
    assert_eq!(open_target_for_exe(b"/usr/bin/gedit"), b"/usr/bin".to_vec());
    assert_eq!(open_target_for_exe(b"/gedit"), b"/".to_vec());
    assert_eq!(open_target_for_exe(b"gedit"), b"".to_vec());
}

#[test]
fn signal_targets_are_every_pid_of_the_identity() {
    let reg = Registry::new();
    let mk = |pid: u32, marker: &str| ProcessSample {
        pid,
        parent: None,
        uid: Some(1000),
        name: marker.as_bytes().to_vec(),
        exe: Some(b"/data/game/bin".to_vec()),
        cmd: vec![marker.as_bytes().to_vec()],
        cpu_centi: 0,
        rss_bytes: 0,
        tasks: Some(1),
    };
    let table = vec![
        mk(100, "steam_app_730"),
        mk(101, "steam_app_730"),
        mk(102, "steam_app_440"),
    ];
    let pids = pids_resolving_to(&table, &reg, Some(1000), b"steam-app-730");
    assert_eq!(pids, vec![100, 101]);
    assert!(is_app_id_running(&table, &reg, Some(1000), b"steam-app-730"));
    assert!(!is_app_id_running(&table, &reg, Some(1000), b"steam-app-9999"));
}

#[test]
fn the_engine_owns_selection_and_the_steam_cache() {
    let mut engine = Engine::new();
    assert!(engine.selected.is_none());
    engine.select(SelectedIdentity {
        app_id: b"firefox".to_vec(),
        display_name: b"Firefox".to_vec(),
        pid: 42,
    });
    assert!(engine.selected.is_some());
    engine.clear_selection();
    assert!(engine.selected.is_none());

    engine.admit_steam_title(task_monitor_core::aggregate::SteamCacheEntry {
        id: b"730".to_vec(),
        name: Some(b"Counter-Strike 2".to_vec()),
        icon: None,
    });
    assert_eq!(engine.steam_cache.entries.len(), 1);
    engine.invalidate_steam_cache();
    assert_eq!(engine.steam_cache.entries.len(), 0);
    let _unused: SteamCache = SteamCache::new();
}

#[test]
fn an_engine_tick_flows_resolve_admit_apply() {
    let mut engine = Engine::new();
    let descriptors = vec![descriptor_with_paths(
        "gedit",
        "/usr/bin/gedit %U",
        "/usr/share/applications/gedit.desktop",
    )];
    engine.set_registry(build_registry(&descriptors));
    let table = vec![ProcessSample {
        pid: 5,
        parent: None,
        uid: Some(1000),
        name: b"gedit".to_vec(),
        exe: Some(b"/usr/bin/gedit".to_vec()),
        cmd: vec![b"/usr/bin/gedit".to_vec()],
        cpu_centi: 2500,
        rss_bytes: 4096,
        tasks: Some(4),
    }];
    let resolved = engine.tick_resolve(&table, Some(1000));
    assert_eq!(resolved.len(), 1);
    assert!(engine.tick_missing(&resolved).is_empty());
    engine.apply_tick(&resolved, 1, None);
    assert_eq!(engine.refresh_cycle, 1);
    assert_eq!(engine.entries.len(), 1);
    assert_eq!(engine.entries[0].app_id, b"gedit".to_vec());
    assert_eq!(engine.entries[0].cpu_centi, 2500);
    engine.toggle_sort_column(task_monitor_core::sort::SortColumn::Ram);
    assert_eq!(
        engine.sort_state.direction,
        task_monitor_core::sort::SortDirection::Asc
    );
}
