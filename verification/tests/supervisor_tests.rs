use rpod::cli::Cli;
use rpod::duration::parse_duration;
use rpod::file_watcher::NotifyFileWatcher;
use rpod::process_executor::{
    startup, step, Action, Event, ExitInfo, ProcessConfiguration, SupervisorState,
    DEFAULT_RELOAD_DELAY_NANOS,
};

#[test]
fn scenario_crash_waits_cooldown_then_relaunches() {
    // /bin/echo exits normally almost immediately: its exit was not a
    // requested termination, so it is a crash, throttled by the cooldown.
    let cfg = ProcessConfiguration {
        path: "/bin/echo".to_string(),
        args: Some(vec!["hi".to_string()]),
        restart_delay: Some(parse_duration("3s").unwrap()),
    };
    assert_eq!(cfg.effective_restart_delay(), 3_000_000_000);

    let t = startup();
    assert_eq!(t.action, Action::Launch);
    assert_eq!(t.next, SupervisorState::Launching);

    let t = step(t.next, Event::ProcessStarted(41));
    assert_eq!(t.action, Action::Ignore);
    assert_eq!(t.next, SupervisorState::Running(41));

    let t = step(t.next, Event::ProcessExited(ExitInfo::Code(0)));
    assert_eq!(t.action, Action::StartCooldown);
    assert_eq!(t.next, SupervisorState::CooldownPending);

    let t = step(t.next, Event::RestartCooldownElapsed);
    assert_eq!(t.action, Action::Launch);
    assert_eq!(t.next, SupervisorState::Launching);
}

#[test]
fn scenario_file_change_kills_once_and_relaunches_without_cooldown() {
    // A long-running instance sees a file change: exactly one termination
    // signal, and on the exit that confirms it an immediate relaunch.
    let t = step(SupervisorState::Running(7), Event::FileChanged);
    assert_eq!(t.action, Action::SendTermination(7));
    assert_eq!(t.next, SupervisorState::AwaitingExpectedExit);

    let t = step(t.next, Event::ProcessExited(ExitInfo::Signal(15)));
    assert_eq!(t.action, Action::Launch);
    assert_eq!(t.next, SupervisorState::Launching);
}

#[test]
fn scenario_launch_failure_is_fatal_and_final() {
    // An invalid launch path surfaces as a single fatal error that stops
    // the loop; nothing is retried.
    let t = startup();
    let msg = "unable to start process: /nonexistent".to_string();
    let t = step(t.next, Event::FatalError(msg.clone()));
    assert_eq!(t.action, Action::Stop(msg));
}

#[test]
fn scenario_two_changes_back_to_back_send_one_signal() {
    // Two file changes before any exit: only the first one signals.
    let t = step(SupervisorState::Running(9), Event::FileChanged);
    assert_eq!(t.action, Action::SendTermination(9));
    let t = step(t.next, Event::FileChanged);
    assert_eq!(t.action, Action::Ignore);
    assert_eq!(t.next, SupervisorState::AwaitingExpectedExit);
}

#[test]
fn repeated_changes_while_awaiting_exit_stay_no_ops() {
    let mut s = SupervisorState::AwaitingExpectedExit;
    for _ in 0..3 {
        let t = step(s, Event::FileChanged);
        assert_eq!(t.action, Action::Ignore);
        assert_eq!(t.next, SupervisorState::AwaitingExpectedExit);
        s = t.next;
    }
}

#[test]
fn stale_exit_is_ignored_everywhere_no_instance_is_awaited() {
    for s in [
        SupervisorState::NoInstance,
        SupervisorState::Launching,
        SupervisorState::CooldownPending,
    ] {
        let t = step(s, Event::ProcessExited(ExitInfo::Code(1)));
        assert_eq!(t.action, Action::Ignore);
        assert_eq!(t.next, s);
    }
}

#[test]
fn cooldown_is_scheduled_once_per_crash() {
    // The crash schedules one timer; while it is outstanding, further
    // events neither launch nor schedule another one.
    let t = step(SupervisorState::Running(3), Event::ProcessExited(ExitInfo::Code(2)));
    assert_eq!(t.action, Action::StartCooldown);
    let t2 = step(t.next, Event::FileChanged);
    assert_eq!(t2.action, Action::Ignore);
    assert_eq!(t2.next, SupervisorState::CooldownPending);
    let t3 = step(t2.next, Event::ProcessExited(ExitInfo::Code(2)));
    assert_eq!(t3.action, Action::Ignore);
    assert_eq!(t3.next, SupervisorState::CooldownPending);
}

#[test]
fn change_while_idle_launches() {
    let t = step(SupervisorState::NoInstance, Event::FileChanged);
    assert_eq!(t.action, Action::Launch);
    assert_eq!(t.next, SupervisorState::Launching);
}

#[test]
fn stale_cooldown_elapse_is_ignored() {
    let t = step(SupervisorState::Running(5), Event::RestartCooldownElapsed);
    assert_eq!(t.action, Action::Ignore);
    assert_eq!(t.next, SupervisorState::Running(5));
}

#[test]
fn default_restart_delay_is_three_seconds() {
    let cfg = ProcessConfiguration {
        path: "/bin/true".to_string(),
        args: None,
        restart_delay: None,
    };
    assert_eq!(cfg.effective_restart_delay(), DEFAULT_RELOAD_DELAY_NANOS);
    assert_eq!(DEFAULT_RELOAD_DELAY_NANOS, 3_000_000_000);
}

#[test]
fn effective_args_default_to_empty() {
    let cfg = ProcessConfiguration {
        path: "/bin/true".to_string(),
        args: None,
        restart_delay: None,
    };
    assert_eq!(cfg.effective_args(), Vec::<String>::new());
}

#[test]
fn effective_args_carry_the_configured_list() {
    let cfg = ProcessConfiguration {
        path: "/bin/true".to_string(),
        args: Some(vec!["a".to_string(), "b".to_string()]),
        restart_delay: None,
    };
    assert_eq!(cfg.effective_args(), vec!["a".to_string(), "b".to_string()]);
}

#[test]
fn cli_turns_into_a_configuration() {
    let cli = Cli {
        path: "/bin/sleep".to_string(),
        restart_delay: parse_duration("500ms").unwrap(),
        binary_args: vec!["60".to_string()],
    };
    let cfg = cli.into_configuration();
    assert_eq!(cfg.path, "/bin/sleep");
    assert_eq!(cfg.args, Some(vec!["60".to_string()]));
    assert_eq!(cfg.restart_delay, Some(500_000_000));
}

#[test]
fn notify_file_watcher_is_created_empty() {
    let w = NotifyFileWatcher::new();
    assert_eq!(w, NotifyFileWatcher);
}
