use pocket_runtime::capture::{console_transcript, CapturedStream, NamedCapture};
use pocket_runtime::duration::Duration;
use pocket_runtime::error::RuntimeError;
use pocket_runtime::protocol::Exit;
use pocket_runtime::runtime::lifecycle::{
    check_exit, check_guard, check_worker, cleanup_report, conclude_run, fail, failure_report,
    startup_next, status_text, CleanupFacts, GuardStatus, GuardWait, JoinedCaptures, RunAction,
    RunEvent, RunMachine, StartupNext, StartupStep, TranscriptEnd, WorkerEnd,
};
use pocket_runtime::runtime::RuntimePolicy;

const MAXIMUM_GRACE_MS: u32 = 60_000;

fn policy() -> RuntimePolicy {
    RuntimePolicy {
        execution_timeout: Some(Duration::from_secs(30)),
        execution_timeout_grace: Duration::from_millis(20),
        shutdown_namespace_grace: Duration::from_millis(750),
        shutdown_ack_timeout: Duration::from_secs(4),
        protocol_write_timeout: Duration::from_secs(2),
        ..RuntimePolicy::default()
    }
}

fn exit(signal: Option<u16>) -> Exit {
    Exit {
        code: if signal.is_none() { Some(0) } else { None },
        signal,
        elapsed_ns: 42,
        filesystem_clean: true,
    }
}

fn captured(bytes: &[u8]) -> CapturedStream {
    CapturedStream {
        bytes: bytes.to_vec(),
        truncated: false,
        total_bytes: bytes.len() as u64,
    }
}

/// Asks the machine what to do and hands it what came of it.
fn advance(machine: RunMachine, event: RunEvent) -> (RunAction, RunMachine) {
    let (action, machine) = machine.action();
    (action, machine.expect("an open run").accept(event))
}

#[test]
fn an_overdue_workload_is_stopped_and_then_shut_down() {
    let machine = RunMachine::wait(policy(), MAXIMUM_GRACE_MS, 15);
    let (action, machine) = advance(machine, RunEvent::TimedOut);
    assert!(matches!(
        action,
        RunAction::Receive { timeout } if timeout == Duration::from_secs(30)
    ));
    let (action, machine) = advance(machine, RunEvent::Sent);
    assert!(matches!(
        action,
        RunAction::SendSignal { signal: 15, timeout } if timeout == Duration::from_secs(2)
    ));
    let (action, machine) = advance(machine, RunEvent::TimedOut);
    assert!(matches!(
        action,
        RunAction::Receive { timeout } if timeout == Duration::from_millis(20)
    ));
    let (action, machine) = advance(machine, RunEvent::Sent);
    assert!(matches!(action, RunAction::SendShutdown { grace_ms: 750, .. }));
    let (action, machine) = advance(machine, RunEvent::Exit(exit(Some(9))));
    assert!(matches!(
        action,
        RunAction::Receive { timeout } if timeout == Duration::from_secs(4)
    ));
    let (action, machine) = machine.action();
    assert!(matches!(action, RunAction::Finish { exit } if exit.signal == Some(9)));
    assert!(machine.is_none());
}

#[test]
fn a_workload_that_ends_by_itself_is_not_signalled() {
    let (_, machine) = advance(
        RunMachine::wait(policy(), MAXIMUM_GRACE_MS, 15),
        RunEvent::Exit(exit(None)),
    );
    assert!(matches!(
        machine.action(),
        (RunAction::Finish { .. }, None)
    ));
}

#[test]
fn failures_name_their_stage() {
    let stage_of = |machine: RunMachine| match machine.action().0 {
        RunAction::Fail { stage } => stage,
        other => panic!("the run did not fail: {other:?}"),
    };
    let (_, failed) = advance(
        RunMachine::wait(policy(), MAXIMUM_GRACE_MS, 15),
        RunEvent::Failed,
    );
    assert_eq!(stage_of(failed), "workload EXIT");
    let stopping = RunMachine::terminate(policy(), MAXIMUM_GRACE_MS, 15, Duration::from_secs(1))
        .expect("terminate");
    let (_, failed) = advance(stopping, RunEvent::TimedOut);
    assert_eq!(stage_of(failed), "workload stop signal");
    assert!(
        RunMachine::terminate(policy(), MAXIMUM_GRACE_MS, 15, Duration::from_secs(0)).is_err()
    );

    // A grace that the protocol cannot carry is found only when it is needed.
    let stopping = RunMachine::terminate(policy(), 100, 15, Duration::from_secs(1)).expect("stop");
    let (_, graceful) = advance(stopping, RunEvent::Sent);
    let (_, machine) = advance(graceful, RunEvent::TimedOut);
    assert!(matches!(
        machine.action(),
        (
            RunAction::Misconfigured {
                stage: "SHUTDOWN configuration",
                ..
            },
            None
        )
    ));
}

#[test]
fn startup_steps_follow_one_another() {
    let mut steps = vec![StartupStep::ReceiveHello];
    while let StartupNext::Step(step) = startup_next(steps[steps.len() - 1], true) {
        steps.push(step);
    }
    assert_eq!(
        steps,
        [
            StartupStep::ReceiveHello,
            StartupStep::VerifyHello,
            StartupStep::ValidateOverlay,
            StartupStep::SendStart,
            StartupStep::ReceiveReady,
            StartupStep::VerifyReady,
            StartupStep::DeliverInput,
        ]
    );
    assert_eq!(
        startup_next(StartupStep::DeliverInput, true),
        StartupNext::Running
    );
    assert_eq!(
        startup_next(StartupStep::VerifyHello, false),
        StartupNext::Fail {
            stage: "workload readiness",
        }
    );
    assert_eq!(
        startup_next(StartupStep::DeliverInput, false),
        StartupNext::Fail {
            stage: "stdin delivery after READY",
        }
    );
}

const SUCCESS: GuardStatus = GuardStatus {
    code: Some(0),
    signal: None,
};

#[test]
fn guards_and_workers_must_end_well() {
    assert_eq!(status_text(SUCCESS), "exit 0");
    assert_eq!(
        status_text(GuardStatus {
            code: None,
            signal: Some(9),
        }),
        "signal 9"
    );
    assert_eq!(
        status_text(GuardStatus {
            code: None,
            signal: None,
        }),
        "unknown status"
    );
    let limit = Duration::from_secs(3);
    assert!(check_guard(Some(SUCCESS), limit).is_ok());
    assert!(matches!(
        check_guard(None, limit),
        Err(RuntimeError::Timeout {
            stage: "guard exit after guest EXIT",
            ..
        })
    ));
    assert!(matches!(
        check_guard(
            Some(GuardStatus {
                code: Some(3),
                signal: None,
            }),
            limit
        ),
        Err(RuntimeError::GuardStatus { status }) if status == "exit 3"
    ));
    assert!(check_worker("stdout", WorkerEnd::Finished).is_ok());
    for end in [
        WorkerEnd::Panicked,
        WorkerEnd::Late,
        WorkerEnd::Failed {
            reason: "reset".to_owned(),
        },
    ] {
        assert!(matches!(
            check_worker("stdout", end),
            Err(RuntimeError::StreamWorker { stream: "stdout", .. })
        ));
    }
    assert!(check_exit(exit(None)).is_ok());
    assert!(matches!(
        check_exit(Exit {
            filesystem_clean: false,
            ..exit(None)
        }),
        Err(RuntimeError::GuestFilesystemUnclean)
    ));
}

#[test]
fn a_finished_run_is_delivered_without_its_transcript() {
    let captures = || JoinedCaptures {
        stdout: captured(b"out"),
        stderr: captured(b"err"),
        console: captured(b"console"),
        guard_stdout: captured(b""),
        guard_stderr: captured(b""),
    };
    let output = conclude_run(
        "run-ab".to_owned(),
        true,
        exit(None),
        captures(),
        Some("disk full".to_owned()),
        Ok(()),
        Ok(()),
    )
    .expect("run output");
    assert_eq!(output.stdout.bytes, b"out");
    assert_eq!(output.console_log_error.as_deref(), Some("disk full"));
    assert!(conclude_run(
        "run-ab".to_owned(),
        true,
        exit(None),
        captures(),
        None,
        Err(RuntimeError::invalid("base", "changed")),
        Ok(()),
    )
    .is_err());
}

#[test]
fn a_failure_keeps_its_cause_through_diagnostics_and_cleanup() {
    let streams = vec![NamedCapture {
        role: "console",
        capture: Some(captured(b"panic")),
    }];
    let report = failure_report(
        &streams,
        TranscriptEnd::Failed {
            reason: "read-only".to_owned(),
        },
    );
    assert!(report.contains("panic"));
    assert!(report.ends_with("; console log not written: read-only"));
    let cleanup = cleanup_report(&CleanupFacts {
        guard: GuardWait::Unobserved {
            reason: "ECHILD".to_owned(),
            kill_error: None,
            reap_error: Some("gone".to_owned()),
        },
        workers: None,
        base: Some("base changed".to_owned()),
        directory: None,
    });
    assert_eq!(
        cleanup.as_deref(),
        Some("could not observe guard: ECHILD; could not reap guard: gone; base changed")
    );
    assert_eq!(
        cleanup_report(&CleanupFacts {
            guard: GuardWait::Exited,
            workers: None,
            base: None,
            directory: None,
        }),
        None
    );

    let error = fail(
        RuntimeError::invalid("x", "y"),
        "workload readiness",
        Some(GuardStatus {
            code: Some(4),
            signal: None,
        }),
        Some(report.clone()),
        cleanup,
    );
    let RuntimeError::Cleanup { primary, .. } = error else {
        panic!("the cleanup failure was lost");
    };
    let RuntimeError::Diagnostics {
        primary,
        diagnostic,
    } = *primary
    else {
        panic!("the diagnostic was lost");
    };
    assert_eq!(diagnostic, report);
    assert!(matches!(
        *primary,
        RuntimeError::GuardExitedEarly { stage: "workload readiness", status } if status == "exit 4"
    ));
    assert!(matches!(
        fail(RuntimeError::invalid("x", "y"), "s", None, Some(String::new()), None),
        RuntimeError::InvalidConfiguration { field: "x", .. }
    ));
}

#[test]
fn a_transcript_says_when_it_is_not_whole() {
    assert_eq!(console_transcript(&captured(b"boot")), b"boot");
    let cut = CapturedStream {
        bytes: b"boot".to_vec(),
        truncated: true,
        total_bytes: 9000,
    };
    assert_eq!(
        console_transcript(&cut),
        b"bootpocket: console capture truncated at 4 of 9000 bytes\n".to_vec()
    );
}
