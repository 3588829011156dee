//! Process samples and their classification: which processes are eligible,
//! which keys they match under, and how one resolves to an application
//! identity (registry first, Steam second).

use vstd::prelude::*;
use crate::bytes::{
    Strip, trim_spec, lower, contains_seq, contains_bytes, trim_bytes, to_lower, dedup_spec,
    dedup_strings, join_space, join_with_space, lemma_dv, bytes_eq,
};
use crate::keys::{
    file_name_spec, file_name_bytes, stem_spec, stem_bytes, token_stem_spec, token_stem_bytes,
    candidate_keys_spec, exec_candidate_keys, exec_like_arg_spec, is_exec_like_arg,
};
use crate::steam::{steam_id_spec, extract_steam_app_id, steam_app_id_spec, steam_app_identity};
use crate::registry::{Registry, DesktopAppMeta, MetaView};
use crate::lit::{
    lit_daemon, blit_daemon, lit_applet, blit_applet, lit_helper, blit_helper, lit_service,
    blit_service, lit_excl_cosmicapplet, blit_excl_cosmicapplet, lit_excl_cosmic_applet,
    blit_excl_cosmic_applet, lit_excl_cosmic_panel_button, blit_excl_cosmic_panel_button,
    lit_excl_cosmic_status_area, blit_excl_cosmic_status_area, lit_excl_cosmic_notifications,
    blit_excl_cosmic_notifications, lit_excl_cosmic_osd, blit_excl_cosmic_osd,
    lit_excl_cosmic_workspaces, blit_excl_cosmic_workspaces, lit_excl_cosmic_launcher,
    blit_excl_cosmic_launcher, lit_excl_cosmic_greeter, blit_excl_cosmic_greeter,
    lit_excl_xdg_desktop_portal, blit_excl_xdg_desktop_portal,
};

verus! {

/// One OS process, sampled at a tick, as plain values.
pub struct ProcessSample {
    /// The process id.
    pub pid: u32,
    /// The parent process id, when the OS reports one.
    pub parent: Option<u32>,
    /// The owning user id, when known.
    pub uid: Option<u64>,
    /// The process name.
    pub name: Vec<u8>,
    /// The executable path, when known.
    pub exe: Option<Vec<u8>>,
    /// The command-line argument vector.
    pub cmd: Vec<Vec<u8>>,
    /// CPU usage in hundredths of a percent, before core normalization.
    pub cpu_centi: u64,
    /// Resident memory in bytes.
    pub rss_bytes: u64,
    /// The thread/task count, when the OS reports one.
    pub tasks: Option<u32>,
}

/// Ghost image of a sample.
pub ghost struct SampleView {
    pub pid: u32,
    pub parent: Option<u32>,
    pub uid: Option<u64>,
    pub name: Seq<u8>,
    pub exe: Option<Seq<u8>>,
    pub cmd: Seq<Seq<u8>>,
    pub cpu_centi: u64,
    pub rss_bytes: u64,
    pub tasks: Option<u32>,
}

impl View for ProcessSample {
    type V = SampleView;

    open spec fn view(&self) -> SampleView {
        SampleView {
            pid: self.pid,
            parent: self.parent,
            uid: self.uid,
            name: self.name@,
            exe: match self.exe {
                Some(v) => Some(v@),
                None => None,
            },
            cmd: self.cmd.deep_view(),
            cpu_centi: self.cpu_centi,
            rss_bytes: self.rss_bytes,
            tasks: self.tasks,
        }
    }
}

impl DeepView for ProcessSample {
    type V = SampleView;

    open spec fn deep_view(&self) -> SampleView {
        self.view()
    }
}

// ---------------------------------------------------------------------------
// Background-component classification
// ---------------------------------------------------------------------------
/// A token that names a background component: once trimmed and lowercased
/// it is non-empty and mentions `daemon`, `applet`, `helper` or `service`.
pub open spec fn background_token_spec(token: Seq<u8>) -> bool {
    let t = lower(trim_spec(token, Strip::Whitespace));
    t.len() > 0 && (contains_seq(t, lit_daemon()) || contains_seq(t, lit_applet()) || contains_seq(
        t,
        lit_helper(),
    ) || contains_seq(t, lit_service()))
}

/// See [`background_token_spec`].
pub fn looks_like_background_component(token: &[u8]) -> (r: bool)
    ensures
        r == background_token_spec(token@),
{
    let tr = trim_bytes(token, Strip::Whitespace);
    let t = to_lower(tr.as_slice());
    if t.len() == 0 {
        return false;
    }
    let a = blit_daemon();
    let b = blit_applet();
    let c = blit_helper();
    let d = blit_service();
    contains_bytes(t.as_slice(), a.as_slice()) || contains_bytes(t.as_slice(), b.as_slice())
        || contains_bytes(t.as_slice(), c.as_slice()) || contains_bytes(t.as_slice(), d.as_slice())
}

/// The file stem of an executable path.
pub open spec fn exe_stem_spec(exe: Seq<u8>) -> Option<Seq<u8>> {
    match file_name_spec(exe) {
        Some(n) => Some(stem_spec(n)),
        None => None,
    }
}

fn exe_stem(exe: &[u8]) -> (r: Option<Vec<u8>>)
    ensures
        match r {
            Some(v) => exe_stem_spec(exe@) == Some(v@),
            None => exe_stem_spec(exe@) is None,
        },
{
    match file_name_bytes(exe) {
        Some(n) => Some(stem_bytes(n.as_slice())),
        None => None,
    }
}

/// A process that is itself a background component: its executable stem,
/// the stem of its first command token, or its name says so.
pub open spec fn background_process_spec(p: SampleView) -> bool {
    let by_exe = match p.exe {
        Some(e) => match exe_stem_spec(e) {
            Some(st) => background_token_spec(st),
            None => false,
        },
        None => false,
    };
    let by_cmd0 = p.cmd.len() > 0 && background_token_spec(token_stem_spec(p.cmd[0]));
    by_exe || by_cmd0 || background_token_spec(p.name)
}

/// See [`background_process_spec`].
pub fn is_background_component_process(p: &ProcessSample) -> (r: bool)
    ensures
        r == background_process_spec(p@),
{
    proof {
        lemma_dv(&p.cmd);
    }
    if let Some(e) = &p.exe {
        if let Some(st) = exe_stem(e.as_slice()) {
            if looks_like_background_component(st.as_slice()) {
                return true;
            }
        }
    }
    if p.cmd.len() > 0 {
        let st = token_stem_bytes(p.cmd[0].as_slice());
        if looks_like_background_component(st.as_slice()) {
            return true;
        }
    }
    looks_like_background_component(p.name.as_slice())
}

/// An eligible process: owned by the monitor's user (when that is known),
/// with a non-empty executable path, a visible non-kernel name, and not a
/// background component.
pub open spec fn program_process_spec(p: SampleView, current_uid: Option<u64>) -> bool {
    let uid_ok = match current_uid {
        Some(u) => p.uid == Some(u),
        None => true,
    };
    let exe_ok = match p.exe {
        Some(e) => e.len() > 0,
        None => false,
    };
    let name_ok = trim_spec(p.name, Strip::Whitespace).len() > 0 && !(p.name.len() > 0 && p.name[0]
        == 91);
    uid_ok && exe_ok && name_ok && !background_process_spec(p)
}

/// See [`program_process_spec`].
pub fn is_program_process(p: &ProcessSample, current_uid: Option<u64>) -> (r: bool)
    ensures
        r == program_process_spec(p@, current_uid),
{
    match current_uid {
        Some(u) => {
            let ok = match p.uid {
                Some(pu) => pu == u,
                None => false,
            };
            if !ok {
                return false;
            }
        },
        None => {},
    }
    let exe_ok = match &p.exe {
        Some(e) => e.len() > 0,
        None => false,
    };
    if !exe_ok {
        return false;
    }
    let t = trim_bytes(p.name.as_slice(), Strip::Whitespace);
    if t.len() == 0 {
        return false;
    }
    if p.name.len() > 0 && p.name[0] == 91 {
        return false;
    }
    !is_background_component_process(p)
}

/// An application id that belongs to the desktop shell or another excluded
/// component.
pub open spec fn excluded_app_id_spec(app_id: Seq<u8>) -> bool {
    contains_seq(app_id, lit_excl_cosmicapplet()) || contains_seq(app_id, lit_excl_cosmic_applet())
        || contains_seq(app_id, lit_excl_cosmic_panel_button()) || contains_seq(
        app_id,
        lit_excl_cosmic_status_area(),
    ) || contains_seq(app_id, lit_excl_cosmic_notifications()) || contains_seq(
        app_id,
        lit_excl_cosmic_osd(),
    ) || contains_seq(app_id, lit_excl_cosmic_workspaces()) || contains_seq(
        app_id,
        lit_excl_cosmic_launcher(),
    ) || contains_seq(app_id, lit_excl_cosmic_greeter()) || contains_seq(
        app_id,
        lit_excl_xdg_desktop_portal(),
    ) || contains_seq(app_id, lit_daemon())
}

/// See [`excluded_app_id_spec`].
pub fn is_excluded_app_id(app_id: &[u8]) -> (r: bool)
    ensures
        r == excluded_app_id_spec(app_id@),
{
    let l01 = blit_excl_cosmicapplet();
    let l02 = blit_excl_cosmic_applet();
    let l03 = blit_excl_cosmic_panel_button();
    let l04 = blit_excl_cosmic_status_area();
    let l05 = blit_excl_cosmic_notifications();
    let l06 = blit_excl_cosmic_osd();
    let l07 = blit_excl_cosmic_workspaces();
    let l08 = blit_excl_cosmic_launcher();
    let l09 = blit_excl_cosmic_greeter();
    let l10 = blit_excl_xdg_desktop_portal();
    let l11 = blit_daemon();
    contains_bytes(app_id, l01.as_slice()) || contains_bytes(app_id, l02.as_slice())
        || contains_bytes(app_id, l03.as_slice()) || contains_bytes(app_id, l04.as_slice())
        || contains_bytes(app_id, l05.as_slice()) || contains_bytes(app_id, l06.as_slice())
        || contains_bytes(app_id, l07.as_slice()) || contains_bytes(app_id, l08.as_slice())
        || contains_bytes(app_id, l09.as_slice()) || contains_bytes(app_id, l10.as_slice())
        || contains_bytes(app_id, l11.as_slice())
}

// ---------------------------------------------------------------------------
// Candidate keys of a process
// ---------------------------------------------------------------------------
/// Candidate keys of the exec-like command arguments from index `i` on.
pub open spec fn args_keys_from(cmd: Seq<Seq<u8>>, i: int) -> Seq<Seq<u8>>
    decreases cmd.len() - i
        when 0 <= i <= cmd.len()
{
    if i >= cmd.len() {
        Seq::empty()
    } else {
        let head: Seq<Seq<u8>> = if exec_like_arg_spec(cmd[i]) {
            candidate_keys_spec(cmd[i])
        } else {
            Seq::empty()
        };
        head + args_keys_from(cmd, i + 1)
    }
}

/// Every key a process may match under, before duplicates are removed:
/// from the executable stem, the joined command line, each exec-like
/// argument, and the first command token.
pub open spec fn process_keys_raw(p: SampleView) -> Seq<Seq<u8>> {
    let exe_part = match p.exe {
        Some(e) => match exe_stem_spec(e) {
            Some(st) => candidate_keys_spec(st),
            None => Seq::empty(),
        },
        None => Seq::empty(),
    };
    let cmd_part = if p.cmd.len() > 0 {
        candidate_keys_spec(join_space(p.cmd)) + args_keys_from(p.cmd, 0) + candidate_keys_spec(
            p.cmd[0],
        )
    } else {
        Seq::empty()
    };
    exe_part + cmd_part
}

/// The candidate keys of a process, in derivation order, duplicates
/// removed; the bare process name is the fallback when nothing else yields
/// a key.
pub open spec fn process_keys_spec(p: SampleView) -> Seq<Seq<u8>> {
    let base = dedup_spec(process_keys_raw(p));
    if base.len() == 0 {
        dedup_spec(candidate_keys_spec(p.name))
    } else {
        base
    }
}

/// See [`process_keys_spec`].
pub fn process_candidate_keys(p: &ProcessSample) -> (r: Vec<Vec<u8>>)
    ensures
        r.deep_view() == process_keys_spec(p@),
{
    let ghost cv = p@.cmd;
    proof {
        lemma_dv(&p.cmd);
    }
    let mut all: Vec<Vec<u8>> = Vec::new();
    proof {
        assert(all.deep_view() =~~= Seq::<Seq<u8>>::empty());
    }
    if let Some(e) = &p.exe {
        if let Some(st) = exe_stem(e.as_slice()) {
            let ks = exec_candidate_keys(st.as_slice());
            crate::registry::push_all(&mut all, ks);
        }
    }
    let ghost exe_part: Seq<Seq<u8>> = match p@.exe {
        Some(e) => match exe_stem_spec(e) {
            Some(st) => candidate_keys_spec(st),
            None => Seq::empty(),
        },
        None => Seq::empty(),
    };
    proof {
        assert(all.deep_view() =~~= exe_part);
    }
    if p.cmd.len() > 0 {
        let joined = join_with_space(&p.cmd);
        let ks = exec_candidate_keys(joined.as_slice());
        crate::registry::push_all(&mut all, ks);
        proof {
            assert(all.deep_view() =~~= exe_part + candidate_keys_spec(join_space(cv)));
        }
        let ghost before_args = all.deep_view();
        let mut i: usize = 0;
        while i < p.cmd.len()
            invariant
                i <= cv.len(),
                cv == p.cmd.deep_view(),
                cv.len() == p.cmd@.len(),
                forall|k: int| 0 <= k < cv.len() ==> #[trigger] cv[k] == p.cmd@[k]@,
                before_args + args_keys_from(cv, 0) == all.deep_view() + args_keys_from(
                    cv,
                    i as int,
                ),
            decreases p.cmd.len() - i,
        {
            if is_exec_like_arg(p.cmd[i].as_slice()) {
                let ks = exec_candidate_keys(p.cmd[i].as_slice());
                let ghost ksv = ks.deep_view();
                crate::registry::push_all(&mut all, ks);
                proof {
                    assert(args_keys_from(cv, i as int) =~~= ksv + args_keys_from(cv, i + 1));
                    assert(all.deep_view() + args_keys_from(cv, i + 1) =~~= before_args
                        + args_keys_from(cv, 0));
                }
            } else {
                proof {
                    assert(args_keys_from(cv, i as int) =~~= args_keys_from(cv, i + 1));
                }
            }
            i = i + 1;
        }
        proof {
            assert(args_keys_from(cv, cv.len() as int) =~~= Seq::<Seq<u8>>::empty());
            assert(all.deep_view() =~~= before_args + args_keys_from(cv, 0));
        }
        let ks0 = exec_candidate_keys(p.cmd[0].as_slice());
        crate::registry::push_all(&mut all, ks0);
        proof {
            assert(all.deep_view() =~~= process_keys_raw(p@));
        }
    } else {
        proof {
            assert(all.deep_view() =~~= process_keys_raw(p@));
        }
    }
    let base = dedup_strings(&all);
    if base.len() == 0 {
        let ks = exec_candidate_keys(p.name.as_slice());
        let deduped = dedup_strings(&ks);
        proof {
            assert(deduped.deep_view() =~~= process_keys_spec(p@));
        }
        deduped
    } else {
        base
    }
}

// ---------------------------------------------------------------------------
// Identity resolution
// ---------------------------------------------------------------------------
/// The first of `keys` bound in the registry, scanning from `i`.
pub open spec fn first_registry_hit(reg: &Registry, keys: Seq<Seq<u8>>, i: int) -> Option<MetaView>
    decreases keys.len() - i
        when 0 <= i <= keys.len()
{
    if i >= keys.len() {
        None
    } else {
        match reg.lookup_spec(keys[i]) {
            Some(m) => Some(m),
            None => first_registry_hit(reg, keys, i + 1),
        }
    }
}

/// The registry metadata a process resolves to: its first candidate key
/// with a binding wins.
pub open spec fn desktop_app_spec(p: SampleView, reg: &Registry) -> Option<MetaView> {
    first_registry_hit(reg, process_keys_spec(p), 0)
}

/// See [`desktop_app_spec`].
pub fn desktop_app_for_process<'a>(p: &ProcessSample, reg: &'a Registry) -> (r: Option<
    &'a DesktopAppMeta,
>)
    ensures
        match r {
            Some(m) => desktop_app_spec(p@, reg) == Some(m@),
            None => desktop_app_spec(p@, reg) is None,
        },
{
    let keys = process_candidate_keys(p);
    let ghost kv = keys.deep_view();
    proof {
        lemma_dv(&keys);
    }
    let mut i: usize = 0;
    while i < keys.len()
        invariant
            i <= kv.len(),
            kv == keys.deep_view(),
            kv == process_keys_spec(p@),
            kv.len() == keys@.len(),
            forall|k: int| 0 <= k < kv.len() ==> #[trigger] kv[k] == keys@[k]@,
            first_registry_hit(reg, kv, 0) == first_registry_hit(reg, kv, i as int),
        decreases keys.len() - i,
    {
        match reg.lookup(keys[i].as_slice()) {
            Some(m) => {
                return Some(m);
            },
            None => {},
        }
        i = i + 1;
    }
    None
}

/// The Steam id of one sample alone: its name, first command token, joined
/// command line, then each argument, first hit wins.
pub open spec fn args_steam_id(cmd: Seq<Seq<u8>>, i: int) -> Option<Seq<u8>>
    decreases cmd.len() - i
        when 0 <= i <= cmd.len()
{
    if i >= cmd.len() {
        None
    } else {
        match steam_id_spec(cmd[i]) {
            Some(id) => Some(id),
            None => args_steam_id(cmd, i + 1),
        }
    }
}

pub open spec fn sample_steam_id_spec(p: SampleView) -> Option<Seq<u8>> {
    if steam_id_spec(p.name) is Some {
        steam_id_spec(p.name)
    } else if p.cmd.len() > 0 && steam_id_spec(p.cmd[0]) is Some {
        steam_id_spec(p.cmd[0])
    } else if p.cmd.len() > 0 && steam_id_spec(join_space(p.cmd)) is Some {
        steam_id_spec(join_space(p.cmd))
    } else if p.cmd.len() > 0 {
        args_steam_id(p.cmd, 0)
    } else {
        None
    }
}

/// See [`sample_steam_id_spec`].
pub fn extract_steam_app_id_from_process(p: &ProcessSample) -> (r: Option<Vec<u8>>)
    ensures
        match r {
            Some(id) => sample_steam_id_spec(p@) == Some(id@),
            None => sample_steam_id_spec(p@) is None,
        },
{
    let ghost cv = p@.cmd;
    proof {
        lemma_dv(&p.cmd);
    }
    if let Some(id) = extract_steam_app_id(p.name.as_slice()) {
        return Some(id);
    }
    if p.cmd.len() == 0 {
        return None;
    }
    if let Some(id) = extract_steam_app_id(p.cmd[0].as_slice()) {
        return Some(id);
    }
    let joined = join_with_space(&p.cmd);
    if let Some(id) = extract_steam_app_id(joined.as_slice()) {
        return Some(id);
    }
    let mut i: usize = 0;
    while i < p.cmd.len()
        invariant
            i <= cv.len(),
            cv == p.cmd.deep_view(),
            cv == p@.cmd,
            cv.len() == p.cmd@.len(),
            cv.len() > 0,
            forall|k: int| 0 <= k < cv.len() ==> #[trigger] cv[k] == p.cmd@[k]@,
            steam_id_spec(p@.name) is None,
            steam_id_spec(cv[0]) is None,
            steam_id_spec(join_space(cv)) is None,
            args_steam_id(cv, 0) == args_steam_id(cv, i as int),
        decreases p.cmd.len() - i,
    {
        if let Some(id) = extract_steam_app_id(p.cmd[i].as_slice()) {
            proof {
                assert(args_steam_id(cv, i as int) == Some(id@));
            }
            return Some(id);
        }
        i = i + 1;
    }
    None
}

/// The first sample of the table with process id `pid`, from index `i` on.
pub open spec fn find_pid_spec(table: Seq<SampleView>, pid: u32, i: int) -> Option<SampleView>
    decreases table.len() - i
        when 0 <= i <= table.len()
{
    if i >= table.len() {
        None
    } else if table[i].pid == pid {
        Some(table[i])
    } else {
        find_pid_spec(table, pid, i + 1)
    }
}

/// The Steam id found by walking the parent chain: bounded to twelve
/// steps, stopped by a revisited pid or a parent that is not in the table.
pub open spec fn walk_steam_id(
    table: Seq<SampleView>,
    parent: Option<u32>,
    visited: Seq<u32>,
    depth: int,
) -> Option<Seq<u8>>
    decreases 12 - depth
        when 0 <= depth
{
    match parent {
        None => None,
        Some(pp) => {
            if depth >= 12 || visited.contains(pp) {
                None
            } else {
                match find_pid_spec(table, pp, 0) {
                    None => None,
                    Some(proc_entry) => match sample_steam_id_spec(proc_entry) {
                        Some(id) => Some(id),
                        None => walk_steam_id(table, proc_entry.parent, visited.push(pp), depth + 1),
                    },
                }
            }
        },
    }
}

/// The Steam id a process resolves to: the process itself first, then its
/// ancestors.
pub open spec fn steam_app_id_for_process_spec(p: SampleView, table: Seq<SampleView>) -> Option<
    Seq<u8>,
> {
    match sample_steam_id_spec(p) {
        Some(id) => Some(id),
        None => walk_steam_id(table, p.parent, Seq::empty(), 0),
    }
}

fn contains_u32(v: &Vec<u32>, x: u32) -> (r: bool)
    ensures
        r == v@.contains(x),
{
    let mut i: usize = 0;
    while i < v.len()
        invariant
            i <= v@.len(),
            forall|j: int| 0 <= j < i ==> v@[j] != x,
        decreases v.len() - i,
    {
        if v[i] == x {
            return true;
        }
        i = i + 1;
    }
    false
}

fn find_pid<'a>(table: &'a Vec<ProcessSample>, pid: u32) -> (r: Option<&'a ProcessSample>)
    ensures
        match r {
            Some(p) => find_pid_spec(table.deep_view(), pid, 0) == Some(p@),
            None => find_pid_spec(table.deep_view(), pid, 0) is None,
        },
{
    let ghost tv = table.deep_view();
    proof {
        assert forall|k: int| 0 <= k < tv.len() implies #[trigger] tv[k] == table@[k]@ by {}
    }
    let mut i: usize = 0;
    while i < table.len()
        invariant
            i <= tv.len(),
            tv == table.deep_view(),
            tv.len() == table@.len(),
            forall|k: int| 0 <= k < tv.len() ==> #[trigger] tv[k] == table@[k]@,
            find_pid_spec(tv, pid, 0) == find_pid_spec(tv, pid, i as int),
        decreases table.len() - i,
    {
        if table[i].pid == pid {
            return Some(&table[i]);
        }
        i = i + 1;
    }
    None
}

/// See [`steam_app_id_for_process_spec`].
pub fn steam_app_id_for_process(p: &ProcessSample, table: &Vec<ProcessSample>) -> (r: Option<
    Vec<u8>,
>)
    ensures
        match r {
            Some(id) => steam_app_id_for_process_spec(p@, table.deep_view()) == Some(id@),
            None => steam_app_id_for_process_spec(p@, table.deep_view()) is None,
        },
{
    let ghost tv = table.deep_view();
    if let Some(id) = extract_steam_app_id_from_process(p) {
        return Some(id);
    }
    let mut visited: Vec<u32> = Vec::new();
    let mut parent: Option<u32> = p.parent;
    let mut depth: usize = 0;
    proof {
        assert(visited@ =~= Seq::<u32>::empty());
    }
    loop
        invariant
            depth <= 12,
            tv == table.deep_view(),
            sample_steam_id_spec(p@) is None,
            walk_steam_id(tv, p@.parent, Seq::empty(), 0) == walk_steam_id(
                tv,
                parent,
                visited@,
                depth as int,
            ),
        decreases 12 - depth,
    {
        let pp = match parent {
            Some(pp) => pp,
            None => {
                return None;
            },
        };
        if depth >= 12 || contains_u32(&visited, pp) {
            return None;
        }
        let proc_entry = match find_pid(table, pp) {
            Some(q) => q,
            None => {
                return None;
            },
        };
        if let Some(id) = extract_steam_app_id_from_process(proc_entry) {
            return Some(id);
        }
        visited.push(pp);
        parent = proc_entry.parent;
        depth = depth + 1;
    }
}

/// The application id a process resolves to: a registry hit first, then a
/// Steam identity, else nothing.
pub open spec fn resolved_app_id_spec(p: SampleView, table: Seq<SampleView>, reg: &Registry) -> Option<
    Seq<u8>,
> {
    match desktop_app_spec(p, reg) {
        Some(m) => Some(m.app_id),
        None => match steam_app_id_for_process_spec(p, table) {
            Some(id) => Some(steam_app_id_spec(id)),
            None => None,
        },
    }
}

/// See [`resolved_app_id_spec`].
pub fn resolved_app_id_for_process(
    p: &ProcessSample,
    table: &Vec<ProcessSample>,
    reg: &Registry,
) -> (r: Option<Vec<u8>>)
    ensures
        match r {
            Some(id) => resolved_app_id_spec(p@, table.deep_view(), reg) == Some(id@),
            None => resolved_app_id_spec(p@, table.deep_view(), reg) is None,
        },
{
    match desktop_app_for_process(p, reg) {
        Some(m) => Some(m.app_id.clone()),
        None => match steam_app_id_for_process(p, table) {
            Some(id) => Some(steam_app_identity(id.as_slice())),
            None => None,
        },
    }
}

/// The pids of the table's processes that are owned by `current_uid` (when
/// known) and resolve to `app_id`, from index `i` on.
pub open spec fn pids_matching_spec(
    table: Seq<SampleView>,
    reg: &Registry,
    current_uid: Option<u64>,
    app_id: Seq<u8>,
    i: int,
) -> Seq<u32>
    decreases table.len() - i
        when 0 <= i <= table.len()
{
    if i >= table.len() {
        Seq::empty()
    } else {
        let p = table[i];
        let uid_ok = match current_uid {
            Some(u) => p.uid == Some(u),
            None => true,
        };
        let head: Seq<u32> = if uid_ok && resolved_app_id_spec(p, table, reg) == Some(app_id) {
            seq![p.pid]
        } else {
            Seq::empty()
        };
        head + pids_matching_spec(table, reg, current_uid, app_id, i + 1)
    }
}

/// See [`pids_matching_spec`]: every pid that an action on `app_id` (stop,
/// kill, restart) signals.
pub fn pids_resolving_to(
    table: &Vec<ProcessSample>,
    reg: &Registry,
    current_uid: Option<u64>,
    app_id: &[u8],
) -> (r: Vec<u32>)
    ensures
        r@ == pids_matching_spec(table.deep_view(), reg, current_uid, app_id@, 0),
{
    let ghost tv = table.deep_view();
    proof {
        assert forall|k: int| 0 <= k < tv.len() implies #[trigger] tv[k] == table@[k]@ by {}
    }
    let mut out: Vec<u32> = Vec::new();
    let mut i: usize = 0;
    proof {
        assert(out@ + pids_matching_spec(tv, reg, current_uid, app_id@, 0) =~= pids_matching_spec(
            tv,
            reg,
            current_uid,
            app_id@,
            0,
        ));
    }
    while i < table.len()
        invariant
            i <= tv.len(),
            tv == table.deep_view(),
            tv.len() == table@.len(),
            forall|k: int| 0 <= k < tv.len() ==> #[trigger] tv[k] == table@[k]@,
            pids_matching_spec(tv, reg, current_uid, app_id@, 0) == out@ + pids_matching_spec(
                tv,
                reg,
                current_uid,
                app_id@,
                i as int,
            ),
        decreases table.len() - i,
    {
        let p = &table[i];
        let uid_ok = match current_uid {
            Some(u) => match p.uid {
                Some(pu) => pu == u,
                None => false,
            },
            None => true,
        };
        if uid_ok {
            match resolved_app_id_for_process(p, table, reg) {
                Some(id) => {
                    if bytes_eq(id.as_slice(), app_id) {
                        out.push(p.pid);
                        proof {
                            assert(out@ + pids_matching_spec(tv, reg, current_uid, app_id@, i + 1)
                                =~= pids_matching_spec(tv, reg, current_uid, app_id@, 0));
                        }
                    } else {
                        proof {
                            assert(out@ + pids_matching_spec(tv, reg, current_uid, app_id@, i + 1)
                                =~= pids_matching_spec(tv, reg, current_uid, app_id@, 0));
                        }
                    }
                },
                None => {
                    proof {
                        assert(out@ + pids_matching_spec(tv, reg, current_uid, app_id@, i + 1)
                            =~= pids_matching_spec(tv, reg, current_uid, app_id@, 0));
                    }
                },
            }
        } else {
            proof {
                assert(out@ + pids_matching_spec(tv, reg, current_uid, app_id@, i + 1)
                    =~= pids_matching_spec(tv, reg, current_uid, app_id@, 0));
            }
        }
        i = i + 1;
    }
    proof {
        assert(out@ =~= pids_matching_spec(tv, reg, current_uid, app_id@, 0));
    }
    out
}

/// Whether any process of the table still resolves to `app_id` (the poll
/// made while waiting for an application to exit).
pub fn is_app_id_running(
    table: &Vec<ProcessSample>,
    reg: &Registry,
    current_uid: Option<u64>,
    app_id: &[u8],
) -> (r: bool)
    ensures
        r == (pids_matching_spec(table.deep_view(), reg, current_uid, app_id@, 0).len() > 0),
{
    let pids = pids_resolving_to(table, reg, current_uid, app_id);
    pids.len() > 0
}

} // verus!
