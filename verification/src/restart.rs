//! The restart sequencer: stop the selected application, wait for it to
//! leave the process table, relaunch it, and escalate to a hard kill when
//! the first relaunch fails. The surrounding program performs each action
//! (signals, polls, spawns) and feeds the outcome back as an event; every
//! decision is made here.

use vstd::prelude::*;

verus! {

/// How many 100-millisecond polls follow the termination signal (three
/// seconds).
pub const TERM_POLLS: u32 = 30;

/// How many 100-millisecond polls follow the escalation kill (one
/// second).
pub const KILL_POLLS: u32 = 10;

/// Where a restart stands.
#[derive(Debug, Clone, Copy, Eq, PartialEq, Structural)]
pub enum RestartPhase {
    /// Nothing has been done yet.
    Start,
    /// The termination signal is out; the application is being polled.
    WaitTerm { polls_left: u32 },
    /// The first relaunch attempt is due.
    LaunchFirst,
    /// The first relaunch failed or never became safe; a kill is due.
    Escalate,
    /// The kill signal is out; the application is being polled once more.
    WaitKill { polls_left: u32 },
    /// The final relaunch attempt is due; its outcome ends the restart.
    LaunchSecond,
    /// The restart is over.
    Done { relaunched: bool },
}

/// What the surrounding program must do next.
#[derive(Debug, Clone, Copy, Eq, PartialEq, Structural)]
pub enum RestartAction {
    /// Signal every process of the selected application to terminate.
    SignalTerm,
    /// Sleep briefly, then observe whether the application still runs.
    Poll,
    /// Try the launch candidates in order.
    Launch,
    /// Signal every surviving process to be killed.
    SignalKill,
    /// Nothing; the restart is complete.
    Finished,
}

/// What the surrounding program reports back.
#[derive(Debug, Clone, Copy, Eq, PartialEq, Structural)]
pub enum RestartEvent {
    /// The signals went out (delivery failures to exited processes are
    /// ignored).
    SignalDelivered,
    /// Whether any process still resolved to the application.
    PollResult(bool),
    /// Whether some launch candidate spawned.
    LaunchResult(bool),
}

/// The action each phase asks for.
pub open spec fn restart_action_spec(p: RestartPhase) -> RestartAction {
    match p {
        RestartPhase::Start => RestartAction::SignalTerm,
        RestartPhase::WaitTerm { .. } => RestartAction::Poll,
        RestartPhase::LaunchFirst => RestartAction::Launch,
        RestartPhase::Escalate => RestartAction::SignalKill,
        RestartPhase::WaitKill { .. } => RestartAction::Poll,
        RestartPhase::LaunchSecond => RestartAction::Launch,
        RestartPhase::Done { .. } => RestartAction::Finished,
    }
}

/// See [`restart_action_spec`].
pub fn restart_action(p: &RestartPhase) -> (r: RestartAction)
    ensures
        r == restart_action_spec(*p),
{
    match p {
        RestartPhase::Start => RestartAction::SignalTerm,
        RestartPhase::WaitTerm { .. } => RestartAction::Poll,
        RestartPhase::LaunchFirst => RestartAction::Launch,
        RestartPhase::Escalate => RestartAction::SignalKill,
        RestartPhase::WaitKill { .. } => RestartAction::Poll,
        RestartPhase::LaunchSecond => RestartAction::Launch,
        RestartPhase::Done { .. } => RestartAction::Finished,
    }
}

/// The event kind each phase's action can produce; a finished restart
/// accepts none.
pub open spec fn event_matches(p: RestartPhase, e: RestartEvent) -> bool {
    match restart_action_spec(p) {
        RestartAction::SignalTerm => e is SignalDelivered,
        RestartAction::SignalKill => e is SignalDelivered,
        RestartAction::Poll => e is PollResult,
        RestartAction::Launch => e is LaunchResult,
        RestartAction::Finished => false,
    }
}

/// One step of the sequencer. The polls after the termination signal run
/// out after [`TERM_POLLS`] observations and the relaunch is attempted
/// regardless; a failed first relaunch escalates to a kill, whose polls
/// likewise run out after [`KILL_POLLS`].
pub open spec fn restart_step_spec(p: RestartPhase, e: RestartEvent) -> RestartPhase {
    match p {
        RestartPhase::Start => RestartPhase::WaitTerm { polls_left: TERM_POLLS },
        RestartPhase::WaitTerm { polls_left } => match e {
            RestartEvent::PollResult(running) => if !running {
                RestartPhase::LaunchFirst
            } else if polls_left > 1 {
                RestartPhase::WaitTerm { polls_left: (polls_left - 1) as u32 }
            } else {
                RestartPhase::LaunchFirst
            },
            _ => p,
        },
        RestartPhase::LaunchFirst => match e {
            RestartEvent::LaunchResult(ok) => if ok {
                RestartPhase::Done { relaunched: true }
            } else {
                RestartPhase::Escalate
            },
            _ => p,
        },
        RestartPhase::Escalate => RestartPhase::WaitKill { polls_left: KILL_POLLS },
        RestartPhase::WaitKill { polls_left } => match e {
            RestartEvent::PollResult(running) => if !running {
                RestartPhase::LaunchSecond
            } else if polls_left > 1 {
                RestartPhase::WaitKill { polls_left: (polls_left - 1) as u32 }
            } else {
                RestartPhase::LaunchSecond
            },
            _ => p,
        },
        RestartPhase::LaunchSecond => match e {
            RestartEvent::LaunchResult(ok) => RestartPhase::Done { relaunched: ok },
            _ => p,
        },
        RestartPhase::Done { .. } => p,
    }
}

/// See [`restart_step_spec`].
pub fn restart_step(p: RestartPhase, e: RestartEvent) -> (r: RestartPhase)
    ensures
        r == restart_step_spec(p, e),
{
    match p {
        RestartPhase::Start => RestartPhase::WaitTerm { polls_left: TERM_POLLS },
        RestartPhase::WaitTerm { polls_left } => match e {
            RestartEvent::PollResult(running) => {
                if !running {
                    RestartPhase::LaunchFirst
                } else if polls_left > 1 {
                    RestartPhase::WaitTerm { polls_left: polls_left - 1 }
                } else {
                    RestartPhase::LaunchFirst
                }
            },
            _ => p,
        },
        RestartPhase::LaunchFirst => match e {
            RestartEvent::LaunchResult(ok) => {
                if ok {
                    RestartPhase::Done { relaunched: true }
                } else {
                    RestartPhase::Escalate
                }
            },
            _ => p,
        },
        RestartPhase::Escalate => RestartPhase::WaitKill { polls_left: KILL_POLLS },
        RestartPhase::WaitKill { polls_left } => match e {
            RestartEvent::PollResult(running) => {
                if !running {
                    RestartPhase::LaunchSecond
                } else if polls_left > 1 {
                    RestartPhase::WaitKill { polls_left: polls_left - 1 }
                } else {
                    RestartPhase::LaunchSecond
                }
            },
            _ => p,
        },
        RestartPhase::LaunchSecond => match e {
            RestartEvent::LaunchResult(ok) => RestartPhase::Done { relaunched: ok },
            _ => p,
        },
        RestartPhase::Done { .. } => p,
    }
}

/// A run of the sequencer: it begins at [`RestartPhase::Start`], every
/// event answers the phase's action, and every phase follows by one step.
pub open spec fn valid_restart_trace(phases: Seq<RestartPhase>, events: Seq<RestartEvent>) -> bool {
    &&& phases.len() == events.len() + 1
    &&& phases[0] == RestartPhase::Start
    &&& forall|i: int|
        0 <= i < events.len() ==> event_matches(phases[i], #[trigger] events[i]) && phases[i + 1]
            == restart_step_spec(phases[i], events[i])
}

/// The termination signal is issued before any relaunch attempt: in every
/// run, the very first action is the termination signal, and a launch
/// action never comes first.
pub proof fn lemma_restart_term_before_launch(phases: Seq<RestartPhase>, events: Seq<RestartEvent>)
    requires
        valid_restart_trace(phases, events),
    ensures
        forall|i: int|
            0 <= i < phases.len() && restart_action_spec(#[trigger] phases[i])
                is Launch ==> exists|j: int|
                0 <= j < i && restart_action_spec(#[trigger] phases[j]) is SignalTerm,
{
    assert forall|i: int|
        0 <= i < phases.len() && restart_action_spec(#[trigger] phases[i])
            is Launch implies exists|j: int|
        0 <= j < i && restart_action_spec(#[trigger] phases[j]) is SignalTerm by {
        assert(restart_action_spec(phases[0]) is SignalTerm);
        assert(i != 0);
        assert(0 <= 0 < i && restart_action_spec(phases[0]) is SignalTerm);
    }
}

/// A trace in which the termination polls never run out while the
/// application is still observed running.
pub open spec fn no_term_timeout(phases: Seq<RestartPhase>, events: Seq<RestartEvent>) -> bool {
    forall|i: int|
        0 <= i < events.len() && #[trigger] events[i] == RestartEvent::PollResult(true) ==> match phases[i] {
            RestartPhase::WaitTerm { polls_left } => polls_left > 1,
            _ => true,
        }
}

spec fn kill_behind(p: RestartPhase) -> bool {
    p is WaitKill || p is LaunchSecond
}

proof fn lemma_kill_behind(phases: Seq<RestartPhase>, events: Seq<RestartEvent>, i: int)
    requires
        valid_restart_trace(phases, events),
        0 <= i < phases.len(),
        kill_behind(phases[i]),
    ensures
        exists|j: int| 0 <= j < i && restart_action_spec(#[trigger] phases[j]) is SignalKill,
    decreases i,
{
    assert(phases[0] == RestartPhase::Start);
    assert(i > 0);
    let prev = phases[i - 1];
    assert(phases[i] == restart_step_spec(prev, events[i - 1]));
    if prev is Escalate {
        assert(restart_action_spec(phases[i - 1]) is SignalKill);
        assert(0 <= i - 1 < i && restart_action_spec(phases[i - 1]) is SignalKill);
    } else {
        assert(kill_behind(prev));
        lemma_kill_behind(phases, events, i - 1);
        let j = choose|j: int|
            0 <= j < i - 1 && restart_action_spec(#[trigger] phases[j]) is SignalKill;
        assert(0 <= j < i && restart_action_spec(phases[j]) is SignalKill);
    }
}

/// A relaunch attempt never follows an observation that the application
/// still runs, unless the escalation kill came first. The one run this
/// cannot hold of is a termination wait whose polls all saw the
/// application running: its polls run out and the first relaunch is
/// attempted anyway, so such runs are excluded here.
proof fn lemma_no_premature_at(phases: Seq<RestartPhase>, events: Seq<RestartEvent>, i: int)
    requires
        valid_restart_trace(phases, events),
        no_term_timeout(phases, events),
        0 < i < phases.len(),
        restart_action_spec(phases[i]) is Launch,
    ensures
        events[i - 1] == RestartEvent::PollResult(false) || exists|j: int|
            0 <= j < i && restart_action_spec(#[trigger] phases[j]) is SignalKill,
{
    let prev = phases[i - 1];
    assert(phases[i] == restart_step_spec(prev, events[i - 1]));
    assert(event_matches(prev, events[i - 1]));
    if phases[i] is LaunchFirst {
        assert(prev is WaitTerm);
        assert(events[i - 1] is PollResult);
        if events[i - 1] == RestartEvent::PollResult(true) {
            assert(false);
        } else {
            assert(events[i - 1] == RestartEvent::PollResult(false));
        }
    } else {
        assert(phases[i] is LaunchSecond);
        lemma_kill_behind(phases, events, i);
    }
}

pub proof fn lemma_restart_no_premature_launch(
    phases: Seq<RestartPhase>,
    events: Seq<RestartEvent>,
)
    requires
        valid_restart_trace(phases, events),
        no_term_timeout(phases, events),
    ensures
        forall|i: int|
            0 < i < phases.len() && restart_action_spec(#[trigger] phases[i]) is Launch ==> (
            events[i - 1] == RestartEvent::PollResult(false) || exists|j: int|
                0 <= j < i && restart_action_spec(#[trigger] phases[j]) is SignalKill),
{
    assert forall|i: int|
        0 < i < phases.len() && restart_action_spec(#[trigger] phases[i]) is Launch implies (
    events[i - 1] == RestartEvent::PollResult(false) || exists|j: int|
        0 <= j < i && restart_action_spec(#[trigger] phases[j]) is SignalKill) by {
        lemma_no_premature_at(phases, events, i);
    }
}

} // verus!
