//! A run from the first message of its guest to its outcome: the order of its
//! startup, the escalation that ends it, and what a failure is reported as.

use vstd::prelude::*;

use crate::capture::{diagnostics, failure_diagnostics, CapturedStream, NamedCapture};
use crate::duration::{Duration, NANOS_PER_MILLI};
use crate::error::{first_of, run_fault, RuntimeError, RuntimeFault};
use crate::numeral::{signed_decimal, signed_decimal_text};
use crate::protocol::Exit;
use crate::runtime::{
    grace_fault, policy_fault, shutdown_grace_ms, timeout_fault, validate_timeout, RuntimePolicy,
    MAX_TIMEOUT_SECS,
};
use crate::text::{join, join3, push_text, texts};

verus! {

// ---------------------------------------------------------------------------
// Startup
// ---------------------------------------------------------------------------

/// The steps of a startup, in their order.
#[derive(Debug, Clone, Copy, PartialEq, Eq, Structural)]
pub enum StartupStep {
    ReceiveHello,
    VerifyHello,
    ValidateOverlay,
    SendStart,
    ReceiveReady,
    VerifyReady,
    DeliverInput,
}

/// What follows a step of a startup.
#[derive(Debug, Clone, Copy, PartialEq, Eq)]
pub enum StartupNext {
    Step(StartupStep),
    /// The workload runs.
    Running,
    /// The run fails at the named stage.
    Fail { stage: &'static str },
}

pub open spec fn startup_rank(step: StartupStep) -> nat {
    match step {
        StartupStep::ReceiveHello => 0,
        StartupStep::VerifyHello => 1,
        StartupStep::ValidateOverlay => 2,
        StartupStep::SendStart => 3,
        StartupStep::ReceiveReady => 4,
        StartupStep::VerifyReady => 5,
        StartupStep::DeliverInput => 6,
    }
}

/// What follows a step of a startup.
pub open spec fn is_startup_next(step: StartupStep, succeeded: bool, next: StartupNext) -> bool {
    if succeeded {
        match next {
            StartupNext::Step(following) => startup_rank(following) == startup_rank(step) + 1,
            StartupNext::Running => step is DeliverInput,
            StartupNext::Fail { .. } => false,
        }
    } else {
        next is Fail && next->stage@ == if step is DeliverInput {
            "stdin delivery after READY"@
        } else {
            "workload readiness"@
        }
    }
}

/// Decides what follows a step of a startup. Input is delivered only after the
/// workload is ready: closing or filling the channel earlier can make the
/// guest's serial line report a hangup before the protocol starts.
pub fn startup_next(step: StartupStep, succeeded: bool) -> (next: StartupNext)
    ensures
        is_startup_next(step, succeeded, next),
{
    if !succeeded {
        return match step {
            StartupStep::DeliverInput => StartupNext::Fail { stage: "stdin delivery after READY" },
            _ => StartupNext::Fail { stage: "workload readiness" },
        };
    }
    match step {
        StartupStep::ReceiveHello => StartupNext::Step(StartupStep::VerifyHello),
        StartupStep::VerifyHello => StartupNext::Step(StartupStep::ValidateOverlay),
        StartupStep::ValidateOverlay => StartupNext::Step(StartupStep::SendStart),
        StartupStep::SendStart => StartupNext::Step(StartupStep::ReceiveReady),
        StartupStep::ReceiveReady => StartupNext::Step(StartupStep::VerifyReady),
        StartupStep::VerifyReady => StartupNext::Step(StartupStep::DeliverInput),
        StartupStep::DeliverInput => StartupNext::Running,
    }
}

/// A guest is told to start only once its overlay was found fresh, its overlay
/// is looked at only once its hello was verified, and input is delivered only
/// once its readiness was verified.
pub proof fn law_startup_keeps_its_order(step: StartupStep, succeeded: bool, next: StartupNext)
    requires
        is_startup_next(step, succeeded, next),
    ensures
        next == StartupNext::Step(StartupStep::ValidateOverlay) ==> succeeded
            && step is VerifyHello,
        next == StartupNext::Step(StartupStep::SendStart) ==> succeeded && step is ValidateOverlay,
        next == StartupNext::Step(StartupStep::DeliverInput) ==> succeeded && step is VerifyReady,
        next is Running ==> succeeded && step is DeliverInput,
{
}

// ---------------------------------------------------------------------------
// Waiting, stopping, shutting down
// ---------------------------------------------------------------------------

/// Where the end of a run stands.
#[derive(Debug)]
pub enum RunState {
    /// The workload runs until its deadline.
    Executing { timeout: Duration },
    /// The stop signal is to be sent.
    Stopping { grace: Duration },
    /// The workload has the grace to end by itself.
    Graceful { grace: Duration },
    /// The forced shutdown is to be requested.
    ShuttingDown { grace_ms: u32 },
    /// The guest has to acknowledge the forced shutdown.
    Acknowledging,
    /// The workload ended.
    Exited { exit: Exit },
    /// The run failed at the named stage.
    Failed { stage: &'static str },
    /// The policy has no shutdown that could be requested.
    Misconfigured { error: RuntimeError },
}

/// What to do about a run.
#[derive(Debug)]
pub enum RunAction {
    /// Wait for EXIT.
    Receive { timeout: Duration },
    SendSignal { signal: u16, timeout: Duration },
    SendShutdown { grace_ms: u32, timeout: Duration },
    /// Conclude with the exit.
    Finish { exit: Exit },
    /// Conclude with the failure that was met.
    Fail { stage: &'static str },
    /// Conclude with the configuration's failure.
    Misconfigured { stage: &'static str, error: RuntimeError },
}

/// What came of an action.
#[derive(Debug, Clone, Copy, PartialEq, Eq, Structural)]
pub enum RunEvent {
    Exit(Exit),
    TimedOut,
    Failed,
    Sent,
}

/// Whether an event can come of what is done in a state.
pub open spec fn expects(state: RunState, event: RunEvent) -> bool {
    match state {
        RunState::Executing { .. } => !(event is Sent),
        RunState::Stopping { .. } => !(event is Exit),
        RunState::Graceful { .. } => !(event is Sent),
        RunState::ShuttingDown { .. } => !(event is Exit),
        RunState::Acknowledging => !(event is Sent),
        _ => false,
    }
}

/// Whether a run is still to be ended.
pub open spec fn is_open(state: RunState) -> bool {
    match state {
        RunState::Exited { .. } => false,
        RunState::Failed { .. } => false,
        RunState::Misconfigured { .. } => false,
        _ => true,
    }
}

/// How far the end of a run has come.
pub open spec fn run_rank(state: RunState) -> nat {
    match state {
        RunState::Executing { .. } => 0,
        RunState::Stopping { .. } => 1,
        RunState::Graceful { .. } => 2,
        RunState::ShuttingDown { .. } => 3,
        RunState::Acknowledging => 4,
        _ => 5,
    }
}

/// The stage at which a failure in a state is reported.
pub open spec fn failing_stage(state: RunState) -> Seq<char> {
    match state {
        RunState::Executing { .. } => "workload EXIT"@,
        RunState::Stopping { .. } => "workload stop signal"@,
        RunState::Graceful { .. } => "graceful workload termination"@,
        RunState::ShuttingDown { .. } => "workload SHUTDOWN"@,
        _ => "workload EXIT after SHUTDOWN"@,
    }
}

/// Whether a run that outlived its stop signal's grace is shut down as the
/// policy says.
pub open spec fn is_shut_down(policy: RuntimePolicy, maximum_grace_ms: u32, next: RunState) -> bool {
    match grace_fault(policy.shutdown_namespace_grace@, maximum_grace_ms) {
        Some(fault) => next is Misconfigured && next->error@ == fault,
        None => next is ShuttingDown && next->grace_ms * NANOS_PER_MILLI
            == policy.shutdown_namespace_grace@,
    }
}

/// Whether `next` follows `state` when `event` came of its action.
pub open spec fn is_next(
    policy: RuntimePolicy,
    maximum_grace_ms: u32,
    state: RunState,
    event: RunEvent,
    next: RunState,
) -> bool {
    match (state, event) {
        (_, RunEvent::Exit(exit)) => next == (RunState::Exited { exit }),
        (RunState::Executing { .. }, RunEvent::TimedOut) => next == (RunState::Stopping {
            grace: policy.execution_timeout_grace,
        }),
        (RunState::Stopping { grace }, RunEvent::Sent) => next == (RunState::Graceful { grace }),
        (RunState::Graceful { .. }, RunEvent::TimedOut) => is_shut_down(
            policy,
            maximum_grace_ms,
            next,
        ),
        (RunState::ShuttingDown { .. }, RunEvent::Sent) => next is Acknowledging,
        _ => next is Failed && next->stage@ == failing_stage(state),
    }
}

/// The end of one run.
#[derive(Debug)]
pub struct RunMachine {
    policy: RuntimePolicy,
    maximum_grace_ms: u32,
    stop_signal: u16,
    state: RunState,
}

impl RunMachine {
    pub closed spec fn policy(self) -> RuntimePolicy {
        self.policy
    }

    pub closed spec fn maximum_grace_ms(self) -> u32 {
        self.maximum_grace_ms
    }

    pub closed spec fn stop_signal(self) -> u16 {
        self.stop_signal
    }

    pub closed spec fn state(self) -> RunState {
        self.state
    }

    /// Waits for a workload to end by itself, for no longer than a day.
    pub fn wait(policy: RuntimePolicy, maximum_grace_ms: u32, stop_signal: u16) -> (machine:
        RunMachine)
        ensures
            machine.policy() == policy,
            machine.maximum_grace_ms() == maximum_grace_ms,
            machine.stop_signal() == stop_signal,
            machine.state() is Executing,
            machine.state()->timeout@ == match policy.execution_timeout {
                Some(timeout) => timeout@,
                None => crate::builder::seconds(MAX_TIMEOUT_SECS as nat),
            },
    {
        let timeout = match policy.execution_timeout {
            Some(timeout) => timeout,
            None => Duration::from_secs(MAX_TIMEOUT_SECS),
        };
        RunMachine {
            policy,
            maximum_grace_ms,
            stop_signal,
            state: RunState::Executing { timeout },
        }
    }

    /// Requests the image's stop signal at once, and waits the supplied grace
    /// period for EXIT.
    pub fn terminate(
        policy: RuntimePolicy,
        maximum_grace_ms: u32,
        stop_signal: u16,
        grace: Duration,
    ) -> (machine: Result<RunMachine, RuntimeError>)
        ensures
            run_fault(machine) == timeout_fault(
                "termination_grace"@,
                grace@,
                MAX_TIMEOUT_SECS as nat,
            ),
            machine matches Ok(machine) ==> {
                &&& machine.policy() == policy
                &&& machine.maximum_grace_ms() == maximum_grace_ms
                &&& machine.stop_signal() == stop_signal
                &&& machine.state() == (RunState::Stopping { grace })
            },
    {
        if let Err(error) = validate_timeout("termination_grace", grace, MAX_TIMEOUT_SECS) {
            return Err(error);
        }
        Ok(
            RunMachine {
                policy,
                maximum_grace_ms,
                stop_signal,
                state: RunState::Stopping { grace },
            },
        )
    }

    /// What to do now: wait, send, or conclude. A run that is concluded with
    /// its configuration's failure hands the failure out.
    pub fn action(self) -> (action: (RunAction, Option<RunMachine>))
        ensures
            match self.state() {
                RunState::Executing { timeout } => action.0 == (RunAction::Receive { timeout }),
                RunState::Stopping { .. } => action.0 == (RunAction::SendSignal {
                    signal: self.stop_signal(),
                    timeout: self.policy().protocol_write_timeout,
                }),
                RunState::Graceful { grace } => action.0 == (RunAction::Receive {
                    timeout: grace,
                }),
                RunState::ShuttingDown { grace_ms } => action.0 == (RunAction::SendShutdown {
                    grace_ms,
                    timeout: self.policy().protocol_write_timeout,
                }),
                RunState::Acknowledging => action.0 == (RunAction::Receive {
                    timeout: self.policy().shutdown_ack_timeout,
                }),
                RunState::Exited { exit } => action.0 == (RunAction::Finish { exit }),
                RunState::Failed { stage } => action.0 == (RunAction::Fail { stage }),
                RunState::Misconfigured { error } => action.0 is Misconfigured
                    && action.0->Misconfigured_stage@ == "SHUTDOWN configuration"@
                    && action.0->Misconfigured_error == error,
            },
            is_open(self.state()) ==> action.1 == Some(self),
            !is_open(self.state()) ==> action.1 is None,
    {
        let write = self.policy.protocol_write_timeout;
        match &self.state {
            RunState::Executing { timeout } => {
                let timeout = *timeout;
                (RunAction::Receive { timeout }, Some(self))
            },
            RunState::Stopping { .. } => {
                (
                    RunAction::SendSignal { signal: self.stop_signal, timeout: write },
                    Some(self),
                )
            },
            RunState::Graceful { grace } => {
                let timeout = *grace;
                (RunAction::Receive { timeout }, Some(self))
            },
            RunState::ShuttingDown { grace_ms } => {
                let grace: u32 = *grace_ms;
                (RunAction::SendShutdown { grace_ms: grace, timeout: write }, Some(self))
            },
            RunState::Acknowledging => {
                let timeout = self.policy.shutdown_ack_timeout;
                (RunAction::Receive { timeout }, Some(self))
            },
            _ => match self.state {
                RunState::Exited { exit } => (RunAction::Finish { exit }, None),
                RunState::Failed { stage } => (RunAction::Fail { stage }, None),
                RunState::Misconfigured { error } => {
                    (RunAction::Misconfigured { stage: "SHUTDOWN configuration", error }, None)
                },
                _ => (RunAction::Fail { stage: "workload EXIT" }, None),
            },
        }
    }

    /// Takes what came of the action.
    pub fn accept(self, event: RunEvent) -> (next: RunMachine)
        requires
            expects(self.state(), event),
        ensures
            is_next(
                self.policy(),
                self.maximum_grace_ms(),
                self.state(),
                event,
                next.state(),
            ),
            next.policy() == self.policy(),
            next.maximum_grace_ms() == self.maximum_grace_ms(),
            next.stop_signal() == self.stop_signal(),
    {
        let state = match event {
            RunEvent::Exit(exit) => RunState::Exited { exit },
            RunEvent::TimedOut => match self.state {
                RunState::Executing { .. } => RunState::Stopping {
                    grace: self.policy.execution_timeout_grace,
                },
                RunState::Stopping { .. } => RunState::Failed { stage: "workload stop signal" },
                RunState::Graceful { .. } => {
                    match shutdown_grace_ms(
                        self.policy.shutdown_namespace_grace,
                        self.maximum_grace_ms,
                    ) {
                        Ok(grace_ms) => RunState::ShuttingDown { grace_ms },
                        Err(error) => RunState::Misconfigured { error },
                    }
                },
                RunState::ShuttingDown { .. } => RunState::Failed { stage: "workload SHUTDOWN" },
                _ => RunState::Failed { stage: "workload EXIT after SHUTDOWN" },
            },
            RunEvent::Sent => match self.state {
                RunState::Stopping { grace } => RunState::Graceful { grace },
                _ => RunState::Acknowledging,
            },
            RunEvent::Failed => match self.state {
                RunState::Executing { .. } => RunState::Failed { stage: "workload EXIT" },
                RunState::Stopping { .. } => RunState::Failed { stage: "workload stop signal" },
                RunState::Graceful { .. } => RunState::Failed {
                    stage: "graceful workload termination",
                },
                RunState::ShuttingDown { .. } => RunState::Failed { stage: "workload SHUTDOWN" },
                _ => RunState::Failed { stage: "workload EXIT after SHUTDOWN" },
            },
        };
        RunMachine {
            policy: self.policy,
            maximum_grace_ms: self.maximum_grace_ms,
            stop_signal: self.stop_signal,
            state,
        }
    }
}

/// A forced shutdown is requested only of a workload that was sent its stop
/// signal and outlived the grace that followed it.
pub proof fn law_shutdown_follows_the_stop_signal(
    policy: RuntimePolicy,
    maximum_grace_ms: u32,
    state: RunState,
    event: RunEvent,
    next: RunState,
)
    requires
        expects(state, event),
        is_next(policy, maximum_grace_ms, state, event, next),
    ensures
        next is ShuttingDown ==> state is Graceful && event is TimedOut,
        next is Graceful ==> state is Stopping && event is Sent,
        next is Acknowledging ==> state is ShuttingDown && event is Sent,
        next is Stopping ==> state is Executing && event is TimedOut,
{
}

/// Ending a run always comes to an end: every event takes it further.
pub proof fn law_every_event_ends_the_run_sooner(
    policy: RuntimePolicy,
    maximum_grace_ms: u32,
    state: RunState,
    event: RunEvent,
    next: RunState,
)
    requires
        expects(state, event),
        is_next(policy, maximum_grace_ms, state, event, next),
    ensures
        run_rank(state) < run_rank(next) <= 5,
{
}

/// A run under an accepted policy never fails for want of a shutdown that
/// could be requested.
pub proof fn law_accepted_policy_can_shut_down(
    policy: RuntimePolicy,
    maximum_grace_ms: u32,
    state: RunState,
    event: RunEvent,
    next: RunState,
)
    requires
        policy_fault(policy, maximum_grace_ms) is None,
        expects(state, event),
        is_next(policy, maximum_grace_ms, state, event, next),
    ensures
        !(next is Misconfigured),
{
}

// ---------------------------------------------------------------------------
// The guard and the streams
// ---------------------------------------------------------------------------

/// How a guard ended.
#[derive(Debug, Clone, Copy, PartialEq, Eq, Structural)]
pub struct GuardStatus {
    pub code: Option<i32>,
    pub signal: Option<i32>,
}

/// How a guard's end is spelled.
pub open spec fn status_spelling(status: GuardStatus) -> Seq<char> {
    match (status.code, status.signal) {
        (Some(code), _) => "exit "@ + signed_decimal(code as int),
        (None, Some(signal)) => "signal "@ + signed_decimal(signal as int),
        (None, None) => "unknown status"@,
    }
}

/// Spells how a guard ended.
pub fn status_text(status: GuardStatus) -> (text: String)
    ensures
        text@ == status_spelling(status),
{
    match (status.code, status.signal) {
        (Some(code), _) => join("exit ", &signed_decimal_text(code as i64)),
        (None, Some(signal)) => join("signal ", &signed_decimal_text(signal as i64)),
        (None, None) => "unknown status".to_owned(),
    }
}

/// How a thread that serves a stream ended.
#[derive(Debug)]
pub enum WorkerEnd {
    Finished,
    Failed { reason: String },
    Panicked,
    /// It was still running at the deadline.
    Late,
}

pub open spec fn worker_fault(stream: Seq<char>, end: WorkerEnd) -> Option<RuntimeFault> {
    match end {
        WorkerEnd::Finished => None,
        WorkerEnd::Failed { reason } => Some(
            RuntimeFault::StreamWorker { stream, reason: reason@ },
        ),
        WorkerEnd::Panicked => Some(
            RuntimeFault::StreamWorker { stream, reason: "worker panicked"@ },
        ),
        WorkerEnd::Late => Some(
            RuntimeFault::StreamWorker {
                stream,
                reason: "did not stop before the bounded cleanup deadline"@,
            },
        ),
    }
}

/// Refuses a stream whose thread did not end well and in time.
pub fn check_worker(stream: &'static str, end: WorkerEnd) -> (checked: Result<(), RuntimeError>)
    ensures
        run_fault(checked) == worker_fault(stream@, end),
{
    match end {
        WorkerEnd::Finished => Ok(()),
        WorkerEnd::Failed { reason } => Err(RuntimeError::StreamWorker { stream, reason }),
        WorkerEnd::Panicked => Err(
            RuntimeError::StreamWorker { stream, reason: "worker panicked".to_owned() },
        ),
        WorkerEnd::Late => Err(
            RuntimeError::StreamWorker {
                stream,
                reason: "did not stop before the bounded cleanup deadline".to_owned(),
            },
        ),
    }
}

// ---------------------------------------------------------------------------
// The outcome
// ---------------------------------------------------------------------------

/// Whether a guest's exit can be concluded, and the stage at which it fails.
pub open spec fn exit_fault(exit: Exit) -> Option<RuntimeFault> {
    if !exit.filesystem_clean {
        Some(RuntimeFault::GuestFilesystemUnclean)
    } else {
        None
    }
}

/// The stage at which an unclean filesystem is reported.
pub const UNCLEAN_STAGE: &'static str = "guest filesystem cleanup";

/// The stage at which a guard is waited for.
pub const GUARD_STAGE: &'static str = "guard exit after guest EXIT";

/// Refuses a guest that did not leave its filesystem clean.
pub fn check_exit(exit: Exit) -> (checked: Result<(), RuntimeError>)
    ensures
        run_fault(checked) == exit_fault(exit),
{
    if !exit.filesystem_clean {
        return Err(RuntimeError::GuestFilesystemUnclean);
    }
    Ok(())
}

/// Why the end of a guard is refused, if it is. The status is absent when the
/// guard outlived its time.
pub open spec fn guard_fault(status: Option<GuardStatus>, timeout: nat) -> Option<RuntimeFault> {
    match status {
        None => Some(RuntimeFault::Timeout { stage: GUARD_STAGE@, timeout }),
        Some(status) => if status.code == Some(0i32) {
            None
        } else {
            Some(RuntimeFault::GuardStatus { status: status_spelling(status) })
        },
    }
}

/// Refuses a guard that did not exit successfully and in time.
pub fn check_guard(status: Option<GuardStatus>, timeout: Duration) -> (checked: Result<
    (),
    RuntimeError,
>)
    ensures
        run_fault(checked) == guard_fault(status, timeout@),
{
    match status {
        None => Err(RuntimeError::Timeout { stage: GUARD_STAGE, timeout }),
        Some(status) => {
            let success = match status.code {
                Some(code) => code == 0,
                None => false,
            };
            if !success {
                return Err(RuntimeError::GuardStatus { status: status_text(status) });
            }
            Ok(())
        },
    }
}

/// What a finished run delivers.
#[derive(Debug, Clone, PartialEq, Eq)]
pub struct RunOutput {
    pub run_id: String,
    pub scaling_qualified: bool,
    pub guest_exit: Exit,
    pub stdout: CapturedStream,
    pub stderr: CapturedStream,
    pub console: CapturedStream,
    pub guard_stdout: CapturedStream,
    pub guard_stderr: CapturedStream,
    /// Why the requested console transcript could not be written, if it could
    /// not. A run that produced its result must still deliver it, so this is
    /// reported alongside the outcome rather than replacing it.
    pub console_log_error: Option<String>,
}

/// The streams of a finished run.
#[derive(Debug)]
pub struct JoinedCaptures {
    pub stdout: CapturedStream,
    pub stderr: CapturedStream,
    pub console: CapturedStream,
    pub guard_stdout: CapturedStream,
    pub guard_stderr: CapturedStream,
}

/// Why a finished run is not delivered, if it is not: its immutable base was
/// changed, or its directory could not be removed.
pub open spec fn conclusion_fault(
    base: Result<(), RuntimeError>,
    cleanup: Result<(), RuntimeError>,
) -> Option<RuntimeFault> {
    first_of(run_fault(base), run_fault(cleanup))
}

/// Delivers a finished run. A transcript that could not be written costs
/// nothing but the transcript.
pub fn conclude_run(
    run_id: String,
    scaling_qualified: bool,
    guest_exit: Exit,
    captures: JoinedCaptures,
    console_log_error: Option<String>,
    base: Result<(), RuntimeError>,
    cleanup: Result<(), RuntimeError>,
) -> (output: Result<RunOutput, RuntimeError>)
    ensures
        run_fault(output) == conclusion_fault(base, cleanup),
        output matches Ok(output) ==> output == (RunOutput {
            run_id,
            scaling_qualified,
            guest_exit,
            stdout: captures.stdout,
            stderr: captures.stderr,
            console: captures.console,
            guard_stdout: captures.guard_stdout,
            guard_stderr: captures.guard_stderr,
            console_log_error,
        }),
{
    if let Err(error) = base {
        return Err(error);
    }
    if let Err(error) = cleanup {
        return Err(error);
    }
    Ok(
        RunOutput {
            run_id,
            scaling_qualified,
            guest_exit,
            stdout: captures.stdout,
            stderr: captures.stderr,
            console: captures.console,
            guard_stdout: captures.guard_stdout,
            guard_stderr: captures.guard_stderr,
            console_log_error,
        },
    )
}

// ---------------------------------------------------------------------------
// Failure
// ---------------------------------------------------------------------------

/// What became of the transcript of a failed run.
#[derive(Debug)]
pub enum TranscriptEnd {
    /// None was asked for.
    Unwanted,
    Written,
    Failed { reason: String },
    /// The console was never captured.
    Uncaptured,
}

pub open spec fn transcript_note(transcript: TranscriptEnd) -> Seq<char> {
    match transcript {
        TranscriptEnd::Unwanted => Seq::empty(),
        TranscriptEnd::Written => Seq::empty(),
        TranscriptEnd::Failed { reason } => "; console log not written: "@ + reason@,
        TranscriptEnd::Uncaptured => {
            "; console log not written: console was never captured"@
        },
    }
}

/// The diagnostic of a failed run: what its streams held last, and what kept
/// its transcript from being written. That must not replace the real failure,
/// so it is folded into the text.
pub fn failure_report(streams: &Vec<NamedCapture>, transcript: TranscriptEnd) -> (report: String)
    ensures
        report@ == diagnostics(streams@) + transcript_note(transcript),
{
    let report = failure_diagnostics(streams);
    match transcript {
        TranscriptEnd::Failed { reason } => join3(
            &report,
            "; console log not written: ",
            &reason,
        ),
        TranscriptEnd::Uncaptured => join(
            &report,
            "; console log not written: console was never captured",
        ),
        _ => {
            assert(report@ + Seq::<char>::empty() =~= report@);
            report
        },
    }
}

/// Texts with `; ` between them.
pub open spec fn listed(items: Seq<Seq<char>>) -> Seq<char>
    decreases items.len(),
{
    if items.len() == 0 {
        Seq::empty()
    } else if items.len() == 1 {
        items[0]
    } else {
        listed(items.drop_last()) + "; "@ + items.last()
    }
}

/// How waiting for the guard of a failed run ended.
#[derive(Debug)]
pub enum GuardWait {
    /// There was no guard left.
    Gone,
    Exited,
    /// It outlived its time and was killed and reaped, with what went wrong.
    Killed { kill_error: Option<String>, reap_error: Option<String> },
    /// It could not be observed, and was killed and reaped, with what went
    /// wrong.
    Unobserved { reason: String, kill_error: Option<String>, reap_error: Option<String> },
}

pub open spec fn noted(prefix: Seq<char>, reason: Option<String>) -> Seq<Seq<char>> {
    match reason {
        Some(reason) => seq![prefix + reason@],
        None => Seq::empty(),
    }
}

/// What went wrong with the guard of a failed run.
pub open spec fn guard_notes(wait: GuardWait) -> Seq<Seq<char>> {
    match wait {
        GuardWait::Gone => Seq::empty(),
        GuardWait::Exited => Seq::empty(),
        GuardWait::Killed { kill_error, reap_error } => noted(
            "could not SIGKILL guard: "@,
            kill_error,
        ) + noted("could not reap guard: "@, reap_error),
        GuardWait::Unobserved { reason, kill_error, reap_error } => seq![
            "could not observe guard: "@ + reason@,
        ] + noted("could not SIGKILL guard: "@, kill_error) + noted(
            "could not reap guard: "@,
            reap_error,
        ),
    }
}

/// What came of the cleanup of a failed run.
#[derive(Debug)]
pub struct CleanupFacts {
    pub guard: GuardWait,
    /// Why the streams could not be collected, if they could not.
    pub workers: Option<String>,
    /// Why the immutable base is not known to be unchanged, if it is not.
    pub base: Option<String>,
    /// Why the run's directory could not be removed, if it could not.
    pub directory: Option<String>,
}

/// Everything that went wrong in a cleanup, in its order.
pub open spec fn cleanup_notes(facts: CleanupFacts) -> Seq<Seq<char>> {
    guard_notes(facts.guard) + noted(Seq::empty(), facts.workers) + noted(
        Seq::empty(),
        facts.base,
    ) + noted(Seq::empty(), facts.directory)
}

fn note(notes: &mut Vec<String>, prefix: &str, reason: &Option<String>)
    ensures
        texts(final(notes)@) == texts(old(notes)@) + noted(prefix@, *reason),
{
    if let Some(reason) = reason {
        let text = join(prefix, reason);
        push_text(notes, &text);
    }
    assert(texts(notes@) =~= texts(old(notes)@) + noted(prefix@, *reason));
}

/// Puts `; ` between texts.
fn list_texts(items: &Vec<String>) -> (text: String)
    ensures
        text@ == listed(texts(items@)),
{
    let ghost all = texts(items@);
    let mut text: String = "".to_owned();
    let mut i: usize = 0;
    proof {
        reveal_strlit("");
        assert(all.take(0) =~= Seq::<Seq<char>>::empty());
        assert(text@ =~= listed(all.take(0)));
    }
    while i < items.len()
        invariant
            i <= items@.len(),
            all == texts(items@),
            text@ == listed(all.take(i as int)),
        decreases items@.len() - i,
    {
        let ghost here = all.take(i + 1);
        assert(here.drop_last() =~= all.take(i as int));
        assert(here.last() == items@[i as int]@);
        if i == 0 {
            text = items[i].clone();
        } else {
            text = join3(&text, "; ", &items[i]);
        }
        i += 1;
    }
    assert(all.take(i as int) =~= all);
    text
}

/// What went wrong in the cleanup of a failed run, if anything did.
pub fn cleanup_report(facts: &CleanupFacts) -> (report: Option<String>)
    ensures
        match report {
            Some(report) => cleanup_notes(*facts).len() > 0 && report@ == listed(
                cleanup_notes(*facts),
            ),
            None => cleanup_notes(*facts).len() == 0,
        },
{
    let mut notes: Vec<String> = Vec::new();
    assert(texts(notes@) =~= Seq::<Seq<char>>::empty());
    match &facts.guard {
        GuardWait::Gone => {},
        GuardWait::Exited => {},
        GuardWait::Killed { kill_error, reap_error } => {
            note(&mut notes, "could not SIGKILL guard: ", kill_error);
            note(&mut notes, "could not reap guard: ", reap_error);
        },
        GuardWait::Unobserved { reason, kill_error, reap_error } => {
            push_text(&mut notes, &join("could not observe guard: ", reason));
            assert(texts(notes@) =~= seq!["could not observe guard: "@ + reason@]);
            note(&mut notes, "could not SIGKILL guard: ", kill_error);
            note(&mut notes, "could not reap guard: ", reap_error);
        },
    }
    assert(texts(notes@) =~= guard_notes(facts.guard));
    proof {
        reveal_strlit("");
        assert(""@ =~= Seq::<char>::empty());
    }
    note(&mut notes, "", &facts.workers);
    note(&mut notes, "", &facts.base);
    note(&mut notes, "", &facts.directory);
    assert(texts(notes@) == cleanup_notes(*facts));
    if notes.len() == 0 {
        assert(texts(notes@).len() == 0);
        return None;
    }
    assert(texts(notes@).len() > 0);
    Some(list_texts(&notes))
}

/// Whether an error is the cause of a failure: that the guard had already
/// exited, or else what was met.
pub open spec fn is_cause(
    error: RuntimeError,
    primary: RuntimeError,
    stage: Seq<char>,
    early: Option<GuardStatus>,
) -> bool {
    match early {
        Some(status) => error@ == (RuntimeFault::GuardExitedEarly {
            stage,
            status: status_spelling(status),
        }),
        None => error == primary,
    }
}

/// Whether an error reports a cause with its diagnostic, if there is one.
pub open spec fn is_diagnosed(
    error: RuntimeError,
    primary: RuntimeError,
    stage: Seq<char>,
    early: Option<GuardStatus>,
    diagnostic: Option<String>,
) -> bool {
    if diagnostic is Some && diagnostic->Some_0@.len() > 0 {
        error is Diagnostics && error->diagnostic@ == diagnostic->Some_0@ && is_cause(
            *error->Diagnostics_primary,
            primary,
            stage,
            early,
        )
    } else {
        is_cause(error, primary, stage, early)
    }
}

/// Whether an error is what a failure is reported as: its cause, with the
/// diagnostic and with what went wrong in the cleanup.
pub open spec fn is_failure(
    error: RuntimeError,
    primary: RuntimeError,
    stage: Seq<char>,
    early: Option<GuardStatus>,
    diagnostic: Option<String>,
    cleanup: Option<String>,
) -> bool {
    match cleanup {
        Some(cleanup) => error is Cleanup && error->cleanup@ == cleanup@ && is_diagnosed(
            *error->Cleanup_primary,
            primary,
            stage,
            early,
            diagnostic,
        ),
        None => is_diagnosed(error, primary, stage, early, diagnostic),
    }
}

/// Reports a failure. A guard that had already exited is the better cause;
/// neither a diagnostic nor a failed cleanup replaces it.
pub fn fail(
    primary: RuntimeError,
    stage: &'static str,
    early: Option<GuardStatus>,
    diagnostic: Option<String>,
    cleanup: Option<String>,
) -> (error: RuntimeError)
    ensures
        is_failure(error, primary, stage@, early, diagnostic, cleanup),
{
    let cause = match early {
        Some(status) => RuntimeError::GuardExitedEarly { stage, status: status_text(status) },
        None => primary,
    };
    let diagnosed = match diagnostic {
        Some(diagnostic) => {
            if crate::text::byte_len(&diagnostic) > 0 {
                RuntimeError::Diagnostics { primary: Box::new(cause), diagnostic }
            } else {
                cause
            }
        },
        None => cause,
    };
    match cleanup {
        Some(cleanup) => RuntimeError::Cleanup { primary: Box::new(diagnosed), cleanup },
        None => diagnosed,
    }
}

/// A run starts in one order and stops at the first step that fails.
pub proof fn law_startup_goes_step_by_step(step: StartupStep, succeeded: bool, next: StartupNext)
    requires
        call_ensures(startup_next, (step, succeeded), next),
    ensures
        !succeeded <==> next is Fail,
        !succeeded && !(step is DeliverInput) ==> next->stage@ == "workload readiness"@,
        !succeeded && step is DeliverInput ==> next->stage@ == "stdin delivery after READY"@,
        succeeded ==> match step {
            StartupStep::ReceiveHello => next == StartupNext::Step(StartupStep::VerifyHello),
            StartupStep::VerifyHello => next == StartupNext::Step(StartupStep::ValidateOverlay),
            StartupStep::ValidateOverlay => next == StartupNext::Step(StartupStep::SendStart),
            StartupStep::SendStart => next == StartupNext::Step(StartupStep::ReceiveReady),
            StartupStep::ReceiveReady => next == StartupNext::Step(StartupStep::VerifyReady),
            StartupStep::VerifyReady => next == StartupNext::Step(StartupStep::DeliverInput),
            StartupStep::DeliverInput => next is Running,
        },
{
}

/// Waiting takes the policy's time, and a day where it has none; terminating
/// goes straight to the stop signal with a grace of at most a day.
pub proof fn law_run_waits_as_the_policy_says(
    policy: RuntimePolicy,
    maximum_grace_ms: u32,
    stop_signal: u16,
    grace: Duration,
    waiting: RunMachine,
    ending: Result<RunMachine, RuntimeError>,
)
    requires
        call_ensures(RunMachine::wait, (policy, maximum_grace_ms, stop_signal), waiting),
        call_ensures(RunMachine::terminate, (policy, maximum_grace_ms, stop_signal, grace), ending),
    ensures
        waiting.state() is Executing,
        policy.execution_timeout matches Some(timeout) ==> waiting.state()->timeout@ == timeout@,
        policy.execution_timeout is None ==> waiting.state()->timeout@ == 86_400_000_000_000,
        waiting.stop_signal() == stop_signal && waiting.policy() == policy,
        ending is Ok <==> 0 < grace@ <= 86_400_000_000_000,
        ending matches Ok(ending) ==> ending.state() == (RunState::Stopping { grace })
            && ending.stop_signal() == stop_signal && ending.policy() == policy,
{
}

/// What is done in each state: waits last as long as they may, the stop signal
/// is the run's own, and nothing follows an end.
pub proof fn law_each_state_has_its_action(
    machine: RunMachine,
    action: (RunAction, Option<RunMachine>),
)
    requires
        call_ensures(RunMachine::action, (machine,), action),
    ensures
        machine.state() matches RunState::Executing { timeout } ==> action.0 == (
        RunAction::Receive { timeout }),
        machine.state() is Stopping ==> action.0 is SendSignal && action.0->signal
            == machine.stop_signal(),
        machine.state() matches RunState::Graceful { grace } ==> action.0 == (RunAction::Receive {
            timeout: grace,
        }),
        machine.state() matches RunState::ShuttingDown { grace_ms } ==> action.0 is SendShutdown
            && action.0->grace_ms == grace_ms,
        machine.state() is Acknowledging ==> action.0 == (RunAction::Receive {
            timeout: machine.policy().shutdown_ack_timeout,
        }),
        machine.state() matches RunState::Exited { exit } ==> action.0 == (RunAction::Finish {
            exit,
        }),
        machine.state() matches RunState::Failed { stage } ==> action.0 == (RunAction::Fail {
            stage,
        }),
        machine.state() is Misconfigured ==> action.0 is Misconfigured,
        machine.state() is Exited || machine.state() is Failed || machine.state() is Misconfigured
            <==> action.1 is None,
        action.1 matches Some(same) ==> same == machine,
{
}

/// What follows each event: an exit ends the run with that exit; a deadline
/// brings the stop signal, then the grace, then the shutdown with the policy's
/// own grace, then the wait for its answer; anything else fails the run.
pub proof fn law_each_event_has_its_state(machine: RunMachine, event: RunEvent, next: RunMachine)
    requires
        expects(machine.state(), event),
        call_ensures(RunMachine::accept, (machine, event), next),
    ensures
        next.policy() == machine.policy(),
        next.stop_signal() == machine.stop_signal(),
        event matches RunEvent::Exit(exit) ==> next.state() == (RunState::Exited { exit }),
        machine.state() is Executing && event is TimedOut ==> next.state() == (RunState::Stopping {
            grace: machine.policy().execution_timeout_grace,
        }),
        machine.state() matches RunState::Stopping { grace } ==> event is Sent ==> next.state()
            == (RunState::Graceful { grace }),
        machine.state() is Graceful && event is TimedOut && next.state() is ShuttingDown
            ==> next.state()->grace_ms * 1_000_000
            == machine.policy().shutdown_namespace_grace@,
        machine.state() is Graceful && event is TimedOut ==> next.state() is ShuttingDown
            || next.state() is Misconfigured,
        machine.state() is ShuttingDown && event is Sent ==> next.state() is Acknowledging,
        event is Failed ==> next.state() is Failed,
        machine.state() is Acknowledging && event is TimedOut ==> next.state() is Failed,
        next.state() is Failed ==> next.state()->Failed_stage@ == match machine.state() {
            RunState::Executing { .. } => "workload EXIT"@,
            RunState::Stopping { .. } => "workload stop signal"@,
            RunState::Graceful { .. } => "graceful workload termination"@,
            RunState::ShuttingDown { .. } => "workload SHUTDOWN"@,
            _ => "workload EXIT after SHUTDOWN"@,
        },
{
}

/// A run ends well exactly where the guest's filesystem is clean, the guard
/// exited with 0 in time and every worker finished.
pub proof fn law_good_end_is_clean(
    exit: Exit,
    cleaned: Result<(), RuntimeError>,
    status: Option<GuardStatus>,
    timeout: Duration,
    guarded: Result<(), RuntimeError>,
    stream: &'static str,
    end: WorkerEnd,
    worked: Result<(), RuntimeError>,
)
    requires
        call_ensures(check_exit, (exit,), cleaned),
        call_ensures(check_guard, (status, timeout), guarded),
        call_ensures(check_worker, (stream, end), worked),
    ensures
        cleaned is Ok <==> exit.filesystem_clean,
        guarded is Ok <==> (status matches Some(status) && status.code == Some(0i32)),
        worked is Ok <==> end is Finished,
        status is None ==> run_fault(guarded) == Some(
            RuntimeFault::Timeout { stage: "guard exit after guest EXIT"@, timeout: timeout@ },
        ),
{
}

/// A status is spelled by its exit code, else by its signal.
pub proof fn law_status_is_spelled_out(code: i32, signal: i32, other: Option<i32>)
    ensures
        status_spelling(GuardStatus { code: Some(code), signal: other }) == "exit "@
            + signed_decimal(code as int),
        status_spelling(GuardStatus { code: None, signal: Some(signal) }) == "signal "@
            + signed_decimal(signal as int),
        status_spelling(GuardStatus { code: None, signal: None }) == "unknown status"@,
{
}

/// A run's output is what the guest and its streams gave, and is given exactly
/// where the base is unchanged and the cleanup went well; a changed base is told
/// first.
pub proof fn law_output_needs_an_unchanged_base(
    run_id: String,
    scaling_qualified: bool,
    guest_exit: Exit,
    captures: JoinedCaptures,
    console_log_error: Option<String>,
    base: Result<(), RuntimeError>,
    cleanup: Result<(), RuntimeError>,
    output: Result<RunOutput, RuntimeError>,
)
    requires
        call_ensures(
            conclude_run,
            (run_id, scaling_qualified, guest_exit, captures, console_log_error, base, cleanup),
            output,
        ),
    ensures
        output is Ok <==> base is Ok && cleanup is Ok,
        base is Err ==> output->Err_0@ == base->Err_0@,
        base is Ok && cleanup is Err ==> output->Err_0@ == cleanup->Err_0@,
        output matches Ok(output) ==> {
            &&& output.run_id == run_id
            &&& output.guest_exit == guest_exit
            &&& output.scaling_qualified == scaling_qualified
            &&& output.stdout == captures.stdout
            &&& output.stderr == captures.stderr
            &&& output.console == captures.console
            &&& output.guard_stdout == captures.guard_stdout
            &&& output.guard_stderr == captures.guard_stderr
            &&& output.console_log_error == console_log_error
        },
{
}

/// A cleanup has nothing to report exactly where nothing went wrong.
pub proof fn law_clean_cleanup_says_nothing(facts: CleanupFacts, report: Option<String>)
    requires
        call_ensures(cleanup_report, (&facts,), report),
    ensures
        report is None <==> {
            &&& facts.workers is None
            &&& facts.base is None
            &&& facts.directory is None
            &&& match facts.guard {
                GuardWait::Gone => true,
                GuardWait::Exited => true,
                GuardWait::Killed { kill_error, reap_error } => kill_error is None && reap_error
                    is None,
                GuardWait::Unobserved { .. } => false,
            }
        },
{
}

/// A failure keeps what it was caused by: the guard's early end where there was
/// one, else the failure itself; what was captured and what went wrong in the
/// cleanup stand around it.
pub proof fn law_failure_keeps_its_cause(
    primary: RuntimeError,
    stage: &'static str,
    early: Option<GuardStatus>,
    diagnostic: Option<String>,
    cleanup: Option<String>,
    error: RuntimeError,
)
    requires
        call_ensures(fail, (primary, stage, early, diagnostic, cleanup), error),
    ensures
        early is None && diagnostic is None && cleanup is None ==> error == primary,
        early matches Some(status) ==> diagnostic is None && cleanup is None ==> error@ == (
        RuntimeFault::GuardExitedEarly { stage: stage@, status: status_spelling(status) }),
        cleanup matches Some(cleanup) ==> error is Cleanup && error->cleanup@ == cleanup@,
        cleanup is None && diagnostic is Some && diagnostic->Some_0@.len() > 0 ==> error
            is Diagnostics && error->diagnostic@ == diagnostic->Some_0@,
{
}

} // verus!
