//! Properties of the supervisor state machine, proved once and for all over
//! the transition function in [`crate::process_executor`].

use vstd::prelude::*;

use crate::process_executor::{
    count_cooldowns, count_launches, count_terminations, run, spec_action, spec_next, Event,
    ExitInfo, SupervisorState,
};
use crate::process_executor::Action;

verus! {

/// When each action can happen at all. A termination signal is only ever
/// sent to the identity the supervisor currently considers active, so a
/// stale instance is never signalled; a cooldown is only scheduled for an
/// exit that no termination request preceded; a launch happens only from a
/// state with no active instance; the loop stops only on a fatal error.
pub proof fn lemma_action_characterization(s: SupervisorState, e: Event)
    ensures
        spec_action(s, e) is SendTermination <==> (s is Running && e is FileChanged),
        (spec_action(s, e) matches Action::SendTermination(id) ==> s == SupervisorState::Running(
            id,
        )),
        spec_action(s, e) is StartCooldown <==> (s is Running && e is ProcessExited),
        spec_action(s, e) is Launch <==> ((s is NoInstance && e is FileChanged) || (
        s is AwaitingExpectedExit && e is ProcessExited) || (s is CooldownPending
            && e is RestartCooldownElapsed)),
        spec_action(s, e) is Stop <==> e is FatalError,
{
}

/// Repeated file changes while a teardown is already in flight are no-ops:
/// they send no further termination signal, request no launch, and leave the
/// supervisor waiting for the same expected exit.
pub proof fn lemma_changes_while_awaiting_ignored(es: Seq<Event>)
    requires
        forall|i: int| 0 <= i < es.len() ==> es[i] is FileChanged,
    ensures
        run(SupervisorState::AwaitingExpectedExit, es) == SupervisorState::AwaitingExpectedExit,
        count_terminations(SupervisorState::AwaitingExpectedExit, es) == 0,
        count_launches(SupervisorState::AwaitingExpectedExit, es) == 0,
    decreases es.len(),
{
    if es.len() > 0 {
        assert(es[0] is FileChanged);
        assert(forall|i: int|
            0 <= i < es.drop_first().len() ==> #[trigger] es.drop_first()[i] is FileChanged);
        lemma_changes_while_awaiting_ignored(es.drop_first());
    }
}

/// Any contiguous run of file-change events consumed while an instance is
/// running draws exactly one termination signal and no launch: the first
/// change sends the signal to that instance, every further change finds the
/// teardown already in flight.
pub proof fn lemma_one_termination_per_change_burst(id: u64, es: Seq<Event>)
    requires
        es.len() >= 1,
        forall|i: int| 0 <= i < es.len() ==> es[i] is FileChanged,
    ensures
        count_terminations(SupervisorState::Running(id), es) == 1,
        count_launches(SupervisorState::Running(id), es) == 0,
        run(SupervisorState::Running(id), es) == SupervisorState::AwaitingExpectedExit,
{
    assert(es[0] is FileChanged);
    assert(spec_action(SupervisorState::Running(id), es[0]) == Action::SendTermination(id));
    assert(forall|i: int|
        0 <= i < es.drop_first().len() ==> #[trigger] es.drop_first()[i] is FileChanged);
    lemma_changes_while_awaiting_ignored(es.drop_first());
}

/// An exit consumed while no termination was requested is a crash: it
/// schedules exactly one cooldown timer and launches nothing yet.
pub proof fn lemma_unexpected_exit_schedules_cooldown(id: u64, x: ExitInfo)
    ensures
        spec_action(SupervisorState::Running(id), Event::ProcessExited(x))
            == Action::StartCooldown,
        spec_next(SupervisorState::Running(id), Event::ProcessExited(x))
            == SupervisorState::CooldownPending,
{
}

/// While a cooldown is outstanding, no event other than its own elapse
/// schedules another cooldown, requests a launch, or moves the supervisor
/// out of the cooldown state: a crash is throttled by exactly one timer.
pub proof fn lemma_one_cooldown_outstanding(es: Seq<Event>)
    requires
        forall|i: int| 0 <= i < es.len() ==> !(es[i] is RestartCooldownElapsed),
    ensures
        run(SupervisorState::CooldownPending, es) == SupervisorState::CooldownPending,
        count_cooldowns(SupervisorState::CooldownPending, es) == 0,
        count_launches(SupervisorState::CooldownPending, es) == 0,
    decreases es.len(),
{
    if es.len() > 0 {
        assert(!(es[0] is RestartCooldownElapsed));
        assert(forall|i: int|
            0 <= i < es.drop_first().len() ==> !(#[trigger] es.drop_first()[i]
                is RestartCooldownElapsed));
        lemma_one_cooldown_outstanding(es.drop_first());
    }
}

/// An exit consumed while a termination was requested confirms it: the
/// response is exactly one immediate launch, with no cooldown.
pub proof fn lemma_expected_exit_relaunches_immediately(x: ExitInfo)
    ensures
        spec_action(SupervisorState::AwaitingExpectedExit, Event::ProcessExited(x))
            == Action::Launch,
        spec_next(SupervisorState::AwaitingExpectedExit, Event::ProcessExited(x))
            == SupervisorState::Launching,
{
}

/// A full reload, as one trace: from a running instance, a file change
/// followed by the exit that confirms the termination and by the start of
/// the replacement sends exactly one termination signal, performs exactly
/// one launch and no cooldown, and ends running the new instance. The old
/// instance's exit is consumed while the expected-exit flag is set, before
/// the replacement reaches the running state, so it is never mistaken for
/// a crash of the replacement.
pub proof fn lemma_reload_cycle(old_id: u64, new_id: u64, x: ExitInfo)
    ensures
        ({
            let es = seq![
                Event::FileChanged,
                Event::ProcessExited(x),
                Event::ProcessStarted(new_id),
            ];
            &&& run(SupervisorState::Running(old_id), es) == SupervisorState::Running(new_id)
            &&& count_terminations(SupervisorState::Running(old_id), es) == 1
            &&& count_launches(SupervisorState::Running(old_id), es) == 1
            &&& count_cooldowns(SupervisorState::Running(old_id), es) == 0
        }),
{
    let es = seq![Event::FileChanged, Event::ProcessExited(x), Event::ProcessStarted(new_id)];
    let es1 = seq![Event::ProcessExited(x), Event::ProcessStarted(new_id)];
    let es2 = seq![Event::ProcessStarted(new_id)];
    assert(es.drop_first() =~= es1);
    assert(es1.drop_first() =~= es2);
    assert(es2.drop_first() =~= Seq::<Event>::empty());
    assert(es[0] == Event::FileChanged);
    assert(es1[0] == Event::ProcessExited(x));
    assert(es2[0] == Event::ProcessStarted(new_id));
    let s0 = SupervisorState::Running(old_id);
    let s1 = SupervisorState::AwaitingExpectedExit;
    let s2 = SupervisorState::Launching;
    let s3 = SupervisorState::Running(new_id);
    assert(run(s3, Seq::<Event>::empty()) == s3);
    assert(count_terminations(s3, Seq::<Event>::empty()) == 0);
    assert(count_launches(s3, Seq::<Event>::empty()) == 0);
    assert(count_cooldowns(s3, Seq::<Event>::empty()) == 0);
    assert(run(s0, es) == run(s1, es1));
    assert(run(s1, es1) == run(s2, es2));
    assert(run(s2, es2) == run(s3, Seq::<Event>::empty()));
    assert(count_terminations(s0, es) == 1 + count_terminations(s1, es1));
    assert(count_terminations(s1, es1) == count_terminations(s2, es2));
    assert(count_terminations(s2, es2) == 0);
    assert(count_launches(s0, es) == count_launches(s1, es1));
    assert(count_launches(s1, es1) == 1 + count_launches(s2, es2));
    assert(count_launches(s2, es2) == 0);
    assert(count_cooldowns(s0, es) == count_cooldowns(s1, es1));
    assert(count_cooldowns(s1, es1) == count_cooldowns(s2, es2));
    assert(count_cooldowns(s2, es2) == 0);
}

/// A crash and its recovery, as one trace: an unexpected exit followed by
/// the cooldown's elapse and the start of the replacement schedules exactly
/// one cooldown timer, performs exactly one launch, sends no termination
/// signal, and ends running the new instance.
pub proof fn lemma_crash_cycle(old_id: u64, new_id: u64, x: ExitInfo)
    ensures
        ({
            let es = seq![
                Event::ProcessExited(x),
                Event::RestartCooldownElapsed,
                Event::ProcessStarted(new_id),
            ];
            &&& run(SupervisorState::Running(old_id), es) == SupervisorState::Running(new_id)
            &&& count_cooldowns(SupervisorState::Running(old_id), es) == 1
            &&& count_launches(SupervisorState::Running(old_id), es) == 1
            &&& count_terminations(SupervisorState::Running(old_id), es) == 0
        }),
{
    let es = seq![
        Event::ProcessExited(x),
        Event::RestartCooldownElapsed,
        Event::ProcessStarted(new_id),
    ];
    let es1 = seq![Event::RestartCooldownElapsed, Event::ProcessStarted(new_id)];
    let es2 = seq![Event::ProcessStarted(new_id)];
    assert(es.drop_first() =~= es1);
    assert(es1.drop_first() =~= es2);
    assert(es2.drop_first() =~= Seq::<Event>::empty());
    assert(es[0] == Event::ProcessExited(x));
    assert(es1[0] == Event::RestartCooldownElapsed);
    assert(es2[0] == Event::ProcessStarted(new_id));
    let s0 = SupervisorState::Running(old_id);
    let s1 = SupervisorState::CooldownPending;
    let s2 = SupervisorState::Launching;
    let s3 = SupervisorState::Running(new_id);
    assert(run(s3, Seq::<Event>::empty()) == s3);
    assert(count_terminations(s3, Seq::<Event>::empty()) == 0);
    assert(count_launches(s3, Seq::<Event>::empty()) == 0);
    assert(count_cooldowns(s3, Seq::<Event>::empty()) == 0);
    assert(run(s0, es) == run(s1, es1));
    assert(run(s1, es1) == run(s2, es2));
    assert(run(s2, es2) == run(s3, Seq::<Event>::empty()));
    assert(count_cooldowns(s0, es) == 1 + count_cooldowns(s1, es1));
    assert(count_cooldowns(s1, es1) == count_cooldowns(s2, es2));
    assert(count_cooldowns(s2, es2) == 0);
    assert(count_launches(s0, es) == count_launches(s1, es1));
    assert(count_launches(s1, es1) == 1 + count_launches(s2, es2));
    assert(count_launches(s2, es2) == 0);
    assert(count_terminations(s0, es) == count_terminations(s1, es1));
    assert(count_terminations(s1, es1) == count_terminations(s2, es2));
    assert(count_terminations(s2, es2) == 0);
}

/// An exit notification that arrives once its instance has been superseded
/// finds the supervisor with no active instance awaited: in every such state
/// it is ignored outright, so it triggers no spurious launch, no signal and
/// no cooldown, and the state does not move.
pub proof fn lemma_stale_exit_ignored(s: SupervisorState, x: ExitInfo)
    requires
        s is NoInstance || s is Launching || s is CooldownPending,
    ensures
        spec_next(s, Event::ProcessExited(x)) == s,
        spec_action(s, Event::ProcessExited(x)) == Action::Ignore,
{
}

} // verus!
