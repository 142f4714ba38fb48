use vstd::prelude::*;

verus! {

/// Restart cooldown applied after an unexpected exit when the configuration
/// does not set one: three seconds, in nanoseconds.
pub const DEFAULT_RELOAD_DELAY_NANOS: u64 = 3_000_000_000;

/// What the supervisor runs: the executable path, the arguments handed to it,
/// and the cooldown enforced before relaunching after an unexpected exit.
/// Durations are nanosecond counts. Read once at startup, never mutated.
#[derive(Clone, Debug)]
pub struct ProcessConfiguration {
    pub path: String,
    pub args: Option<Vec<String>>,
    pub restart_delay: Option<u64>,
}

impl ProcessConfiguration {
    /// The restart cooldown in force: the configured one, or the default.
    pub open spec fn spec_effective_restart_delay(&self) -> u64 {
        match self.restart_delay {
            Some(d) => d,
            None => DEFAULT_RELOAD_DELAY_NANOS,
        }
    }

    /// Returns the cooldown to wait after an unexpected exit, in nanoseconds.
    pub fn effective_restart_delay(&self) -> (d: u64)
        ensures
            d == self.spec_effective_restart_delay(),
    {
        match self.restart_delay {
            Some(d) => d,
            None => DEFAULT_RELOAD_DELAY_NANOS,
        }
    }

    /// Returns the arguments each launch passes to the executable: the
    /// configured list, or none at all.
    pub fn effective_args(&self) -> (a: Vec<String>)
        ensures
            (match self.args {
                Some(v) => a@.len() == v@.len() && (forall|j: int|
                    0 <= j < a@.len() ==> a@[j]@ == #[trigger] v@[j]@),
                None => a@.len() == 0,
            }),
    {
        match &self.args {
            None => Vec::new(),
            Some(v) => {
                let mut out: Vec<String> = Vec::new();
                let mut idx: usize = 0;
                while idx < v.len()
                    invariant
                        idx <= v.len(),
                        out@.len() == idx,
                        forall|j: int| 0 <= j < idx ==> out@[j]@ == #[trigger] v@[j]@,
                    decreases v.len() - idx,
                {
                    out.push(v[idx].as_str().to_owned());
                    idx += 1;
                }
                out
            },
        }
    }
}

/// How a supervised instance ended: a normal exit with its code, or an
/// abnormal termination described by the signal that ended it.
#[derive(Clone, Copy, PartialEq, Eq, Structural, Debug)]
pub enum ExitInfo {
    Code(i32),
    Signal(i32),
}

/// One notification consumed by the supervisor's decision loop. Events are
/// produced concurrently (exit waiters, the file watcher, cooldown timers)
/// but consumed one at a time, in arrival order.
#[derive(Clone, PartialEq, Eq, Debug)]
pub enum Event {
    /// The watched binary was modified or replaced.
    FileChanged,
    /// A launched instance terminated, with whatever exit information the
    /// host reported.
    ProcessExited(ExitInfo),
    /// A requested launch succeeded and produced an instance with this
    /// identity.
    ProcessStarted(u64),
    /// A previously scheduled restart cooldown ran to completion.
    RestartCooldownElapsed,
    /// An unrecoverable condition (launch failure, watch-establishment
    /// failure), with a human-readable message.
    FatalError(String),
}

/// What the supervisor asks its surroundings to do in response to an event.
/// Exactly one action is returned per consumed event.
#[derive(Clone, PartialEq, Eq, Debug)]
pub enum Action {
    /// Consume the event without doing anything.
    Ignore,
    /// Start a new instance of the configured executable. On success the
    /// launcher reports back with [`Event::ProcessStarted`]; on failure,
    /// with [`Event::FatalError`].
    Launch,
    /// Deliver the graceful-termination signal to the instance with this
    /// identity. Fire and forget: the death is observed later through
    /// [`Event::ProcessExited`].
    SendTermination(u64),
    /// Schedule a one-shot timer for the configured restart cooldown; its
    /// elapse is reported back as [`Event::RestartCooldownElapsed`].
    StartCooldown,
    /// Stop the decision loop and surface this error message.
    Stop(String),
}

/// Where the supervisor stands between two events. At most one instance is
/// considered active at any time.
#[derive(Clone, Copy, PartialEq, Eq, Structural, Debug)]
pub enum SupervisorState {
    /// No instance is running and nothing is outstanding.
    NoInstance,
    /// A launch was requested and its [`Event::ProcessStarted`] has not been
    /// consumed yet. An instance started from here already runs the latest
    /// binary, so further file changes need no action.
    Launching,
    /// The instance with this identity is considered active.
    Running(u64),
    /// The supervisor sent a termination signal itself and waits for the
    /// exit to confirm it; this is what tells a deliberate, reload-triggered
    /// kill apart from a crash.
    AwaitingExpectedExit,
    /// An unexpected exit was observed and the restart cooldown timer is
    /// outstanding. No instance is running.
    CooldownPending,
}

/// The successor state of the transition table: one state and one event in,
/// the next state out.
pub open spec fn spec_next(s: SupervisorState, e: Event) -> SupervisorState {
    match e {
        Event::FileChanged => match s {
            SupervisorState::NoInstance => SupervisorState::Launching,
            SupervisorState::Launching => SupervisorState::Launching,
            SupervisorState::Running(_) => SupervisorState::AwaitingExpectedExit,
            SupervisorState::AwaitingExpectedExit => SupervisorState::AwaitingExpectedExit,
            SupervisorState::CooldownPending => SupervisorState::CooldownPending,
        },
        Event::ProcessExited(_) => match s {
            SupervisorState::Running(_) => SupervisorState::CooldownPending,
            SupervisorState::AwaitingExpectedExit => SupervisorState::Launching,
            _ => s,
        },
        Event::ProcessStarted(id) => match s {
            SupervisorState::Launching => SupervisorState::Running(id),
            _ => s,
        },
        Event::RestartCooldownElapsed => match s {
            SupervisorState::CooldownPending => SupervisorState::Launching,
            _ => s,
        },
        Event::FatalError(_) => s,
    }
}

/// The action of the transition table: what the supervisor does when it
/// consumes the given event in the given state.
pub open spec fn spec_action(s: SupervisorState, e: Event) -> Action {
    match e {
        Event::FileChanged => match s {
            SupervisorState::NoInstance => Action::Launch,
            SupervisorState::Running(id) => Action::SendTermination(id),
            _ => Action::Ignore,
        },
        Event::ProcessExited(_) => match s {
            SupervisorState::Running(_) => Action::StartCooldown,
            SupervisorState::AwaitingExpectedExit => Action::Launch,
            _ => Action::Ignore,
        },
        Event::ProcessStarted(_) => Action::Ignore,
        Event::RestartCooldownElapsed => match s {
            SupervisorState::CooldownPending => Action::Launch,
            _ => Action::Ignore,
        },
        Event::FatalError(m) => Action::Stop(m),
    }
}

/// One decision of the supervisor: the state to continue in and the action
/// to perform before consuming the next event.
#[derive(Clone, PartialEq, Eq, Debug)]
pub struct Transition {
    pub next: SupervisorState,
    pub action: Action,
}

/// Consumes one event and decides the supervisor's response.
///
/// The table it implements:
/// - a file change launches when idle, sends exactly one termination signal
///   when an instance runs, and is otherwise ignored (a teardown already in
///   flight is not repeated; an outstanding cooldown runs to completion);
/// - an exit confirms a requested termination with an immediate relaunch,
///   classifies as a crash (cooldown, then relaunch) when none was
///   requested, and is ignored as stale when no instance is active;
/// - a cooldown elapse launches only when a cooldown is outstanding;
/// - a fatal error stops the loop, from any state.
pub fn step(state: SupervisorState, event: Event) -> (t: Transition)
    ensures
        t.next == spec_next(state, event),
        t.action == spec_action(state, event),
{
    match event {
        Event::FileChanged => match state {
            SupervisorState::NoInstance => Transition {
                next: SupervisorState::Launching,
                action: Action::Launch,
            },
            SupervisorState::Launching => Transition {
                next: SupervisorState::Launching,
                action: Action::Ignore,
            },
            SupervisorState::Running(id) => Transition {
                next: SupervisorState::AwaitingExpectedExit,
                action: Action::SendTermination(id),
            },
            SupervisorState::AwaitingExpectedExit => Transition {
                next: SupervisorState::AwaitingExpectedExit,
                action: Action::Ignore,
            },
            SupervisorState::CooldownPending => Transition {
                next: SupervisorState::CooldownPending,
                action: Action::Ignore,
            },
        },
        Event::ProcessExited(_) => match state {
            SupervisorState::Running(_) => Transition {
                next: SupervisorState::CooldownPending,
                action: Action::StartCooldown,
            },
            SupervisorState::AwaitingExpectedExit => Transition {
                next: SupervisorState::Launching,
                action: Action::Launch,
            },
            _ => Transition { next: state, action: Action::Ignore },
        },
        Event::ProcessStarted(id) => match state {
            SupervisorState::Launching => Transition {
                next: SupervisorState::Running(id),
                action: Action::Ignore,
            },
            _ => Transition { next: state, action: Action::Ignore },
        },
        Event::RestartCooldownElapsed => match state {
            SupervisorState::CooldownPending => Transition {
                next: SupervisorState::Launching,
                action: Action::Launch,
            },
            _ => Transition { next: state, action: Action::Ignore },
        },
        Event::FatalError(m) => Transition { next: state, action: Action::Stop(m) },
    }
}

/// The supervisor's first decision, before any event: request the initial
/// launch and wait for its outcome.
pub fn startup() -> (t: Transition)
    ensures
        t.next == SupervisorState::Launching,
        t.action == Action::Launch,
{
    Transition { next: SupervisorState::Launching, action: Action::Launch }
}

/// The state reached by consuming the given events in order.
pub open spec fn run(s: SupervisorState, es: Seq<Event>) -> SupervisorState
    decreases es.len(),
{
    if es.len() == 0 {
        s
    } else {
        run(spec_next(s, es[0]), es.drop_first())
    }
}

/// How many termination signals the given events make the supervisor send.
pub open spec fn count_terminations(s: SupervisorState, es: Seq<Event>) -> nat
    decreases es.len(),
{
    if es.len() == 0 {
        0
    } else {
        (if spec_action(s, es[0]) is SendTermination {
            1nat
        } else {
            0nat
        }) + count_terminations(spec_next(s, es[0]), es.drop_first())
    }
}

/// How many launches the given events make the supervisor request.
pub open spec fn count_launches(s: SupervisorState, es: Seq<Event>) -> nat
    decreases es.len(),
{
    if es.len() == 0 {
        0
    } else {
        (if spec_action(s, es[0]) is Launch {
            1nat
        } else {
            0nat
        }) + count_launches(spec_next(s, es[0]), es.drop_first())
    }
}

/// How many cooldown timers the given events make the supervisor schedule.
pub open spec fn count_cooldowns(s: SupervisorState, es: Seq<Event>) -> nat
    decreases es.len(),
{
    if es.len() == 0 {
        0
    } else {
        (if spec_action(s, es[0]) is StartCooldown {
            1nat
        } else {
            0nat
        }) + count_cooldowns(spec_next(s, es[0]), es.drop_first())
    }
}

} // verus!
