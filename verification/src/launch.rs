//! Launch candidates: the ordered ways to start or resume an application,
//! the sanitizing of desktop `Exec=` strings, and the concrete invocation
//! each candidate stands for. The surrounding program spawns the processes;
//! the order and content of what it runs is decided here.

use vstd::prelude::*;
use vstd::slice::slice_to_vec;
use crate::bytes::{
    Strip, trim_spec, trim_bytes, ends_with, ends_with_exec, replace_spec, replace_all,
    subrange_vec, append_bytes, lemma_dv, rindex_of, rfind_byte,
};
use crate::registry::{MetaView, DesktopAppMeta};
use crate::steam::{steam_id_of_app_id, steam_id_from_app_id, steam_uri_spec, steam_uri};
use crate::lit::{
    lit_dot_desktop, blit_dot_desktop, lit_gtk_launch, blit_gtk_launch, lit_gio, blit_gio,
    lit_launch_word, blit_launch_word, lit_sh, blit_sh, lit_dash_lc, blit_dash_lc, lit_fc_f,
    blit_fc_f, lit_fc_f_up, blit_fc_f_up, lit_fc_u, blit_fc_u, lit_fc_u_up, blit_fc_u_up,
    lit_fc_d, blit_fc_d, lit_fc_d_up, blit_fc_d_up, lit_fc_n, blit_fc_n, lit_fc_n_up,
    blit_fc_n_up, lit_fc_k, blit_fc_k, lit_fc_v, blit_fc_v, lit_fc_m, blit_fc_m, lit_fc_i,
    blit_fc_i, lit_fc_c, blit_fc_c, lit_percent_percent, blit_percent_percent, lit_percent,
    blit_percent, lit_info_app_id, blit_info_app_id, lit_info_pid, blit_info_pid,
};

verus! {

/// One way to start or resume an application, tried in order.
pub enum LaunchCandidate {
    /// A `steam://rungameid/` URI, opened detached.
    SteamUri(Vec<u8>),
    /// A desktop-entry id launched indirectly.
    GtkLaunch(Vec<u8>),
    /// A `.desktop` file path launched directly.
    GioLaunch(Vec<u8>),
    /// A raw desktop `Exec=` string, sanitized and run through a shell.
    DesktopExec(Vec<u8>),
    /// The live process's own program and arguments.
    Command { program: Vec<u8>, args: Vec<Vec<u8>> },
    /// The bare executable path.
    Executable(Vec<u8>),
}

/// Ghost image of a candidate.
pub ghost enum CandidateView {
    SteamUri(Seq<u8>),
    GtkLaunch(Seq<u8>),
    GioLaunch(Seq<u8>),
    DesktopExec(Seq<u8>),
    Command { program: Seq<u8>, args: Seq<Seq<u8>> },
    Executable(Seq<u8>),
}

impl View for LaunchCandidate {
    type V = CandidateView;

    open spec fn view(&self) -> CandidateView {
        match self {
            LaunchCandidate::SteamUri(v) => CandidateView::SteamUri(v@),
            LaunchCandidate::GtkLaunch(v) => CandidateView::GtkLaunch(v@),
            LaunchCandidate::GioLaunch(v) => CandidateView::GioLaunch(v@),
            LaunchCandidate::DesktopExec(v) => CandidateView::DesktopExec(v@),
            LaunchCandidate::Command { program, args } => CandidateView::Command {
                program: program@,
                args: args.deep_view(),
            },
            LaunchCandidate::Executable(v) => CandidateView::Executable(v@),
        }
    }
}

impl DeepView for LaunchCandidate {
    type V = CandidateView;

    open spec fn deep_view(&self) -> CandidateView {
        self.view()
    }
}

/// A desktop-entry id with one `.desktop` suffix removed.
pub open spec fn launch_id_spec(entry_id: Seq<u8>) -> Seq<u8> {
    if ends_with(entry_id, lit_dot_desktop()) {
        entry_id.take(entry_id.len() - lit_dot_desktop().len())
    } else {
        entry_id
    }
}

/// The ordered launch candidates of a selected identity: its Steam URI
/// when the id names a Steam title; the descriptor's entry id, file path
/// and raw `Exec=`; the live process's command; its bare executable.
pub open spec fn launch_candidates_spec(
    app_id: Seq<u8>,
    meta: Option<MetaView>,
    live_cmd: Seq<Seq<u8>>,
    live_exe: Option<Seq<u8>>,
) -> Seq<CandidateView> {
    let steam_part: Seq<CandidateView> = match steam_id_of_app_id(app_id) {
        Some(sid) => seq![CandidateView::SteamUri(steam_uri_spec(sid))],
        None => Seq::empty(),
    };
    let meta_part: Seq<CandidateView> = match meta {
        Some(m) => {
            let id_part: Seq<CandidateView> = match m.desktop_entry_id {
                Some(eid) => {
                    let lid = launch_id_spec(eid);
                    if trim_spec(lid, Strip::Whitespace).len() > 0 {
                        seq![CandidateView::GtkLaunch(lid)]
                    } else {
                        Seq::empty()
                    }
                },
                None => Seq::empty(),
            };
            let path_part: Seq<CandidateView> = match m.desktop_entry_path {
                Some(p) => seq![CandidateView::GioLaunch(p)],
                None => Seq::empty(),
            };
            let exec_part: Seq<CandidateView> = match m.exec_command {
                Some(e) => if trim_spec(e, Strip::Whitespace).len() > 0 {
                    seq![CandidateView::DesktopExec(e)]
                } else {
                    Seq::empty()
                },
                None => Seq::empty(),
            };
            id_part + path_part + exec_part
        },
        None => Seq::empty(),
    };
    let cmd_part: Seq<CandidateView> = if live_cmd.len() > 0 && trim_spec(
        live_cmd[0],
        Strip::Whitespace,
    ).len() > 0 {
        seq![
            CandidateView::Command {
                program: trim_spec(live_cmd[0], Strip::Whitespace),
                args: live_cmd.drop_first(),
            },
        ]
    } else {
        Seq::empty()
    };
    let exe_part: Seq<CandidateView> = match live_exe {
        Some(e) => if e.len() > 0 {
            seq![CandidateView::Executable(e)]
        } else {
            Seq::empty()
        },
        None => Seq::empty(),
    };
    steam_part + meta_part + cmd_part + exe_part
}

fn clone_tail(cmd: &Vec<Vec<u8>>) -> (r: Vec<Vec<u8>>)
    requires
        cmd@.len() > 0,
    ensures
        r.deep_view() == cmd.deep_view().drop_first(),
{
    let ghost cv = cmd.deep_view();
    proof {
        lemma_dv(cmd);
    }
    let mut out: Vec<Vec<u8>> = Vec::new();
    let mut i: usize = 1;
    proof {
        assert(out.deep_view() =~~= cv.drop_first().take(0));
    }
    while i < cmd.len()
        invariant
            1 <= i <= cv.len(),
            cv == cmd.deep_view(),
            cv.len() == cmd@.len(),
            cv.len() > 0,
            forall|k: int| 0 <= k < cv.len() ==> #[trigger] cv[k] == cmd@[k]@,
            out.deep_view() == cv.drop_first().take(i - 1),
        decreases cmd.len() - i,
    {
        let item = cmd[i].clone();
        proof {
            assert(item@ == cv[i as int]);
        }
        out.push(item);
        proof {
            lemma_dv(&out);
            assert(cv.drop_first().take(i - 1).push(cv[i as int]) =~= cv.drop_first().take(
                i as int,
            ));
            assert(out.deep_view() =~~= cv.drop_first().take(i as int));
        }
        i = i + 1;
    }
    proof {
        assert(cv.drop_first().take(cv.len() - 1) =~= cv.drop_first());
    }
    out
}

/// See [`launch_candidates_spec`]. The metadata is the registry's record
/// of the selected id; the command and executable are the live process's,
/// re-read at invocation time.
#[verifier::rlimit(100)]
pub fn launch_candidates_for_selected(
    app_id: &[u8],
    meta: Option<&DesktopAppMeta>,
    live_cmd: &Vec<Vec<u8>>,
    live_exe: Option<&Vec<u8>>,
) -> (r: Vec<LaunchCandidate>)
    ensures
        r.deep_view() == launch_candidates_spec(
            app_id@,
            match meta {
                Some(m) => Some(m@),
                None => None,
            },
            live_cmd.deep_view(),
            match live_exe {
                Some(e) => Some(e@),
                None => None,
            },
        ),
{
    let ghost mv: Option<MetaView> = match meta {
        Some(m) => Some(m@),
        None => None,
    };
    let ghost ev: Option<Seq<u8>> = match live_exe {
        Some(e) => Some(e@),
        None => None,
    };
    let ghost steam_part: Seq<CandidateView> = match steam_id_of_app_id(app_id@) {
        Some(sid) => seq![CandidateView::SteamUri(steam_uri_spec(sid))],
        None => Seq::empty(),
    };
    let mut out: Vec<LaunchCandidate> = Vec::new();
    if let Some(sid) = steam_id_from_app_id(app_id) {
        let uri = steam_uri(sid.as_slice());
        out.push(LaunchCandidate::SteamUri(uri));
    }
    proof {
        assert(out.deep_view() =~~= steam_part);
    }
    if let Some(m) = meta {
        if let Some(eid) = &m.desktop_entry_id {
            let suffix = blit_dot_desktop();
            let lid = if ends_with_exec(eid.as_slice(), suffix.as_slice()) {
                proof {
                    assert(eid@.take(eid@.len() - lit_dot_desktop().len()) =~= eid@.subrange(
                        0,
                        eid@.len() - lit_dot_desktop().len(),
                    ));
                }
                subrange_vec(eid.as_slice(), 0, eid.len() - suffix.len())
            } else {
                eid.clone()
            };
            let t = trim_bytes(lid.as_slice(), Strip::Whitespace);
            if t.len() > 0 {
                out.push(LaunchCandidate::GtkLaunch(lid));
            }
        }
        if let Some(p) = &m.desktop_entry_path {
            out.push(LaunchCandidate::GioLaunch(p.clone()));
        }
        if let Some(e) = &m.exec_command {
            let t = trim_bytes(e.as_slice(), Strip::Whitespace);
            if t.len() > 0 {
                out.push(LaunchCandidate::DesktopExec(e.clone()));
            }
        }
    }
    proof {
        let meta_part: Seq<CandidateView> = match mv {
            Some(m) => {
                let id_part: Seq<CandidateView> = match m.desktop_entry_id {
                    Some(eid) => {
                        let lid = launch_id_spec(eid);
                        if trim_spec(lid, Strip::Whitespace).len() > 0 {
                            seq![CandidateView::GtkLaunch(lid)]
                        } else {
                            Seq::empty()
                        }
                    },
                    None => Seq::empty(),
                };
                let path_part: Seq<CandidateView> = match m.desktop_entry_path {
                    Some(p) => seq![CandidateView::GioLaunch(p)],
                    None => Seq::empty(),
                };
                let exec_part: Seq<CandidateView> = match m.exec_command {
                    Some(e) => if trim_spec(e, Strip::Whitespace).len() > 0 {
                        seq![CandidateView::DesktopExec(e)]
                    } else {
                        Seq::empty()
                    },
                    None => Seq::empty(),
                };
                id_part + path_part + exec_part
            },
            None => Seq::empty(),
        };
        assert(out.deep_view() =~~= steam_part + meta_part);
    }
    let ghost before_cmd = out.deep_view();
    let ghost cmd_part: Seq<CandidateView> = if live_cmd.deep_view().len() > 0 && trim_spec(
        live_cmd.deep_view()[0],
        Strip::Whitespace,
    ).len() > 0 {
        seq![
            CandidateView::Command {
                program: trim_spec(live_cmd.deep_view()[0], Strip::Whitespace),
                args: live_cmd.deep_view().drop_first(),
            },
        ]
    } else {
        Seq::empty()
    };
    if live_cmd.len() > 0 {
        proof {
            lemma_dv(live_cmd);
        }
        let program = trim_bytes(live_cmd[0].as_slice(), Strip::Whitespace);
        if program.len() > 0 {
            let args = clone_tail(live_cmd);
            out.push(LaunchCandidate::Command { program, args });
        }
    }
    proof {
        assert(out.deep_view() =~~= before_cmd + cmd_part);
    }
    let ghost before_exe = out.deep_view();
    let ghost exe_part: Seq<CandidateView> = match ev {
        Some(e) => if e.len() > 0 {
            seq![CandidateView::Executable(e)]
        } else {
            Seq::empty()
        },
        None => Seq::empty(),
    };
    if let Some(e) = live_exe {
        if e.len() > 0 {
            out.push(LaunchCandidate::Executable(e.clone()));
        }
    }
    proof {
        assert(out.deep_view() =~~= before_exe + exe_part);
        assert(out.deep_view() =~~= launch_candidates_spec(app_id@, mv, live_cmd.deep_view(), ev));
    }
    out
}

// ---------------------------------------------------------------------------
// Exec-string sanitizing
// ---------------------------------------------------------------------------
/// A desktop `Exec=` value with its field codes removed and `%%` unescaped
/// to `%`, in that order.
pub open spec fn strip_field_codes_spec(e: Seq<u8>) -> Seq<u8> {
    let e1 = replace_spec(e, lit_fc_f(), Seq::empty());
    let e2 = replace_spec(e1, lit_fc_f_up(), Seq::empty());
    let e3 = replace_spec(e2, lit_fc_u(), Seq::empty());
    let e4 = replace_spec(e3, lit_fc_u_up(), Seq::empty());
    let e5 = replace_spec(e4, lit_fc_d(), Seq::empty());
    let e6 = replace_spec(e5, lit_fc_d_up(), Seq::empty());
    let e7 = replace_spec(e6, lit_fc_n(), Seq::empty());
    let e8 = replace_spec(e7, lit_fc_n_up(), Seq::empty());
    let e9 = replace_spec(e8, lit_fc_k(), Seq::empty());
    let e10 = replace_spec(e9, lit_fc_v(), Seq::empty());
    let e11 = replace_spec(e10, lit_fc_m(), Seq::empty());
    let e12 = replace_spec(e11, lit_fc_i(), Seq::empty());
    let e13 = replace_spec(e12, lit_fc_c(), Seq::empty());
    replace_spec(e13, lit_percent_percent(), lit_percent())
}

/// The shell command a raw `Exec=` value yields: field codes stripped,
/// `%%` unescaped, whitespace trimmed; nothing when that leaves it blank.
pub open spec fn sanitize_exec_spec(e: Seq<u8>) -> Option<Seq<u8>> {
    let t = trim_spec(strip_field_codes_spec(e), Strip::Whitespace);
    if t.len() == 0 {
        None
    } else {
        Some(t)
    }
}

/// See [`sanitize_exec_spec`].
pub fn sanitize_exec_command(e: &[u8]) -> (r: Option<Vec<u8>>)
    ensures
        match r {
            Some(v) => sanitize_exec_spec(e@) == Some(v@),
            None => sanitize_exec_spec(e@) is None,
        },
{
    let empty: Vec<u8> = Vec::new();
    let p01 = blit_fc_f();
    let mut cur = replace_all(e, p01.as_slice(), empty.as_slice());
    let p02 = blit_fc_f_up();
    cur = replace_all(cur.as_slice(), p02.as_slice(), empty.as_slice());
    let p03 = blit_fc_u();
    cur = replace_all(cur.as_slice(), p03.as_slice(), empty.as_slice());
    let p04 = blit_fc_u_up();
    cur = replace_all(cur.as_slice(), p04.as_slice(), empty.as_slice());
    let p05 = blit_fc_d();
    cur = replace_all(cur.as_slice(), p05.as_slice(), empty.as_slice());
    let p06 = blit_fc_d_up();
    cur = replace_all(cur.as_slice(), p06.as_slice(), empty.as_slice());
    let p07 = blit_fc_n();
    cur = replace_all(cur.as_slice(), p07.as_slice(), empty.as_slice());
    let p08 = blit_fc_n_up();
    cur = replace_all(cur.as_slice(), p08.as_slice(), empty.as_slice());
    let p09 = blit_fc_k();
    cur = replace_all(cur.as_slice(), p09.as_slice(), empty.as_slice());
    let p10 = blit_fc_v();
    cur = replace_all(cur.as_slice(), p10.as_slice(), empty.as_slice());
    let p11 = blit_fc_m();
    cur = replace_all(cur.as_slice(), p11.as_slice(), empty.as_slice());
    let p12 = blit_fc_i();
    cur = replace_all(cur.as_slice(), p12.as_slice(), empty.as_slice());
    let p13 = blit_fc_c();
    cur = replace_all(cur.as_slice(), p13.as_slice(), empty.as_slice());
    let pp = blit_percent_percent();
    let rep = blit_percent();
    cur = replace_all(cur.as_slice(), pp.as_slice(), rep.as_slice());
    let t = trim_bytes(cur.as_slice(), Strip::Whitespace);
    if t.len() == 0 {
        None
    } else {
        Some(t)
    }
}

// ---------------------------------------------------------------------------
// Concrete invocations
// ---------------------------------------------------------------------------
/// What the surrounding program runs for one candidate.
pub enum LaunchInvocation {
    /// Hand the value to the system opener, detached.
    OpenDetached(Vec<u8>),
    /// Spawn this program with these arguments, detached.
    Spawn { program: Vec<u8>, args: Vec<Vec<u8>> },
}

/// Ghost image of an invocation.
pub ghost enum InvocationView {
    OpenDetached(Seq<u8>),
    Spawn { program: Seq<u8>, args: Seq<Seq<u8>> },
}

impl View for LaunchInvocation {
    type V = InvocationView;

    open spec fn view(&self) -> InvocationView {
        match self {
            LaunchInvocation::OpenDetached(v) => InvocationView::OpenDetached(v@),
            LaunchInvocation::Spawn { program, args } => InvocationView::Spawn {
                program: program@,
                args: args.deep_view(),
            },
        }
    }
}

/// The invocation one candidate stands for: a Steam URI is opened; an
/// entry id goes through `gtk-launch`; a file path through `gio launch`;
/// an `Exec=` value through `sh -lc` once sanitized (a blank one fails the
/// candidate); a live command and a bare executable are spawned directly.
pub open spec fn invocation_for_spec(c: CandidateView) -> Option<InvocationView> {
    match c {
        CandidateView::SteamUri(u) => Some(InvocationView::OpenDetached(u)),
        CandidateView::GtkLaunch(id) => Some(
            InvocationView::Spawn { program: lit_gtk_launch(), args: seq![id] },
        ),
        CandidateView::GioLaunch(p) => Some(
            InvocationView::Spawn { program: lit_gio(), args: seq![lit_launch_word(), p] },
        ),
        CandidateView::DesktopExec(e) => match sanitize_exec_spec(e) {
            Some(cmd) => Some(
                InvocationView::Spawn { program: lit_sh(), args: seq![lit_dash_lc(), cmd] },
            ),
            None => None,
        },
        CandidateView::Command { program, args } => Some(
            InvocationView::Spawn { program, args },
        ),
        CandidateView::Executable(p) => Some(
            InvocationView::Spawn { program: p, args: Seq::empty() },
        ),
    }
}

/// See [`invocation_for_spec`].
pub fn invocation_for_candidate(c: &LaunchCandidate) -> (r: Option<LaunchInvocation>)
    ensures
        match r {
            Some(inv) => invocation_for_spec(c@) == Some(inv@),
            None => invocation_for_spec(c@) is None,
        },
{
    match c {
        LaunchCandidate::SteamUri(u) => Some(LaunchInvocation::OpenDetached(u.clone())),
        LaunchCandidate::GtkLaunch(id) => {
            let mut args: Vec<Vec<u8>> = Vec::new();
            args.push(id.clone());
            let inv = LaunchInvocation::Spawn { program: blit_gtk_launch(), args };
            proof {
                assert(inv@ == invocation_for_spec(c@)->Some_0) by {
                    assert(match inv@ {
                        InvocationView::Spawn { program, args: a } => a =~~= seq![id@],
                        _ => false,
                    });
                }
            }
            Some(inv)
        },
        LaunchCandidate::GioLaunch(p) => {
            let mut args: Vec<Vec<u8>> = Vec::new();
            args.push(blit_launch_word());
            args.push(p.clone());
            let inv = LaunchInvocation::Spawn { program: blit_gio(), args };
            proof {
                assert(match inv@ {
                    InvocationView::Spawn { program, args: a } => a =~~= seq![
                        lit_launch_word(),
                        p@,
                    ],
                    _ => false,
                });
            }
            Some(inv)
        },
        LaunchCandidate::DesktopExec(e) => match sanitize_exec_command(e.as_slice()) {
            Some(cmd) => {
                let mut args: Vec<Vec<u8>> = Vec::new();
                args.push(blit_dash_lc());
                args.push(cmd);
                let inv = LaunchInvocation::Spawn { program: blit_sh(), args };
                proof {
                    assert(match inv@ {
                        InvocationView::Spawn { program, args: a } => a
                            =~~= seq![lit_dash_lc(), sanitize_exec_spec(e@)->Some_0],
                        _ => false,
                    });
                }
                Some(inv)
            },
            None => None,
        },
        LaunchCandidate::Command { program, args } => {
            let mut cloned: Vec<Vec<u8>> = Vec::new();
            let ghost av = args.deep_view();
            proof {
                lemma_dv(args);
            }
            let mut i: usize = 0;
            while i < args.len()
                invariant
                    i <= av.len(),
                    av == args.deep_view(),
                    av.len() == args@.len(),
                    forall|k: int| 0 <= k < av.len() ==> #[trigger] av[k] == args@[k]@,
                    cloned.deep_view() == av.take(i as int),
                decreases args.len() - i,
            {
                let item = args[i].clone();
                proof {
                    assert(item@ == av[i as int]);
                }
                cloned.push(item);
                proof {
                    lemma_dv(&cloned);
                    assert(av.take(i as int).push(av[i as int]) =~= av.take(i + 1));
                    assert(cloned.deep_view() =~~= av.take(i + 1));
                }
                i = i + 1;
            }
            proof {
                assert(av.take(av.len() as int) =~= av);
            }
            Some(LaunchInvocation::Spawn { program: program.clone(), args: cloned })
        },
        LaunchCandidate::Executable(p) => {
            let args: Vec<Vec<u8>> = Vec::new();
            let inv = LaunchInvocation::Spawn { program: p.clone(), args };
            proof {
                assert(match inv@ {
                    InvocationView::Spawn { program, args: a } => a =~~= Seq::<Seq<u8>>::empty(),
                    _ => false,
                });
            }
            Some(inv)
        },
    }
}

// ---------------------------------------------------------------------------
// Identity info and path opening
// ---------------------------------------------------------------------------
/// The canonical decimal digits of a number.
pub open spec fn dec_digits(n: nat) -> Seq<u8>
    decreases n,
{
    if n < 10 {
        seq![(48 + n) as u8]
    } else {
        dec_digits(n / 10).push((48 + n % 10) as u8)
    }
}

/// Appends the decimal form of `n`.
pub fn push_decimal(out: &mut Vec<u8>, n: u32)
    ensures
        final(out)@ == old(out)@ + dec_digits(n as nat),
    decreases n,
{
    if n < 10 {
        out.push(48 + (n as u8));
        proof {
            assert(old(out)@ + dec_digits(n as nat) =~= old(out)@.push((48 + n) as u8));
        }
    } else {
        push_decimal(out, n / 10);
        out.push(48 + ((n % 10) as u8));
        proof {
            assert(old(out)@ + dec_digits(n as nat) =~= (old(out)@ + dec_digits(
                (n / 10) as nat,
            )).push((48 + n % 10) as u8));
        }
    }
}

/// The clipboard payload of a selected identity:
/// `app_id=<id>`, a line break, `pid=<pid>`.
pub open spec fn copy_info_spec(app_id: Seq<u8>, pid: u32) -> Seq<u8> {
    lit_info_app_id() + app_id + seq![10u8] + lit_info_pid() + dec_digits(pid as nat)
}

/// See [`copy_info_spec`].
pub fn copy_info_payload(app_id: &[u8], pid: u32) -> (r: Vec<u8>)
    ensures
        r@ == copy_info_spec(app_id@, pid),
{
    let mut out = blit_info_app_id();
    append_bytes(&mut out, app_id);
    out.push(10);
    let tag = blit_info_pid();
    append_bytes(&mut out, tag.as_slice());
    push_decimal(&mut out, pid);
    proof {
        assert(out@ =~= copy_info_spec(app_id@, pid));
    }
    out
}

/// The directory opened to locate a process: the parent directory of its
/// executable, or the executable path itself when it has no parent.
pub open spec fn parent_dir_spec(p: Seq<u8>) -> Option<Seq<u8>> {
    let u = crate::bytes::trim_back_spec(p, Strip::Slash);
    if u.len() == 0 {
        None
    } else {
        match rindex_of(u, 47) {
            None => Some(Seq::empty()),
            Some(i) => if i == 0 {
                Some(seq![47u8])
            } else {
                Some(u.take(i))
            },
        }
    }
}

/// See [`parent_dir_spec`]; falls back to the path itself.
pub fn open_target_for_exe(exe: &[u8]) -> (r: Vec<u8>)
    ensures
        r@ == (match parent_dir_spec(exe@) {
            Some(d) => d,
            None => exe@,
        }),
{
    let u = crate::bytes::trim_back_bytes(exe, Strip::Slash);
    if u.len() == 0 {
        return slice_to_vec(exe);
    }
    match rfind_byte(u.as_slice(), 47) {
        None => Vec::new(),
        Some(i) => {
            if i == 0 {
                let mut v: Vec<u8> = Vec::new();
                v.push(47);
                proof {
                    assert(v@ =~= seq![47u8]);
                }
                v
            } else {
                proof {
                    assert(u@.take(i as int) =~= u@.subrange(0, i as int));
                }
                subrange_vec(u.as_slice(), 0, i)
            }
        },
    }
}

} // verus!
