//! The host's side of the conversations with a build's guests.

use vstd::prelude::*;

use crate::builder::contract::{BuilderDone, ValidatorDone};
use crate::builder::hello::{
    builder_hello_fault, validator_hello_fault, verify_builder_hello, verify_validator_hello,
    BuilderHello, ValidatorHello,
};
use crate::builder::logs::StageLog;
use crate::builder::prepare::{
    compare_evidence, evidence_fault, evidence_mismatch, mismatch_error,
};
use crate::builder::tree::{
    start_state, tree_fault, tree_refused, ManifestStructuralVerifier, TreeState,
};
use crate::capture::{lossy_tail, tail, CapturedStream};
use crate::duration::Duration;
use crate::error::{first_of, ErrorMessage, HostBuildError, HostBuildFault};
use crate::manifest::ProfileManifest;
use crate::oci_export::ManifestEntry;
use crate::text::lossy_spelling;

verus! {

/// Most bytes of a guest console that an error carries.
pub const DIAGNOSTIC_TAIL_BYTES: usize = 4096;

// ---------------------------------------------------------------------------
// The builder's conversation
// ---------------------------------------------------------------------------

/// A message from the builder guest. `Other` stands for one that only the host
/// may send.
#[derive(Debug)]
pub enum BuilderMessage {
    Hello(BuilderHello),
    ManifestBegin,
    ManifestChunk,
    ManifestEnd,
    AccountDb { sha256: String },
    Done(BuilderDone),
    Error(ErrorMessage),
    Other,
}

/// What the host waits for, or does, next.
#[derive(Debug, Clone, Copy, PartialEq, Eq, Structural)]
pub enum BuilderStage {
    AwaitHello,
    SendStart,
    AwaitManifest,
    ReadManifest,
    AwaitAccounts,
    AwaitDone,
    Complete,
}

/// How a stage is called in a timeout or a refusal.
pub open spec fn builder_stage_name(stage: BuilderStage) -> Seq<char> {
    match stage {
        BuilderStage::AwaitHello => "BUILD_HELLO"@,
        BuilderStage::SendStart => "BUILD_START"@,
        BuilderStage::AwaitManifest => "MANIFEST_BEGIN"@,
        BuilderStage::ReadManifest => "metadata manifest"@,
        BuilderStage::AwaitAccounts => "ACCOUNT_DB"@,
        BuilderStage::AwaitDone | BuilderStage::Complete => "BUILD_DONE"@,
    }
}

/// Which messages a stage waits for, as a refusal of others spells them.
pub open spec fn builder_expectation(stage: BuilderStage) -> Seq<char> {
    if stage is ReadManifest {
        "MANIFEST_CHUNK/END"@
    } else {
        builder_stage_name(stage)
    }
}

/// Where a builder's conversation stands.
pub struct BuilderTalk {
    pub stage: BuilderStage,
    pub tree: TreeState,
    pub accounts: Option<Seq<char>>,
}

pub open spec fn start_talk() -> BuilderTalk {
    BuilderTalk { stage: BuilderStage::AwaitHello, tree: start_state(), accounts: None }
}

/// Whether a stage waits for a message.
pub open spec fn builder_listens(stage: BuilderStage) -> bool {
    !(stage is SendStart) && !(stage is Complete)
}

/// Why a builder's final report is refused, if it is: it must name the account
/// database it sent and the marker it listed.
pub open spec fn report_fault(talk: BuilderTalk, done: BuilderDone) -> Option<HostBuildFault> {
    first_of(
        evidence_fault("account_db_sha256"@, talk.accounts->Some_0, done.account_db_sha256@),
        match talk.tree.marker {
            Some(marker) => evidence_fault(
                "generation_marker_sha256"@,
                marker,
                done.generation_marker_sha256@,
            ),
            None => Some(tree_refused("missing generation marker digest"@)),
        },
    )
}

pub open spec fn refused_if<T>(fault: Option<HostBuildFault>, value: T) -> Result<
    T,
    HostBuildFault,
> {
    match fault {
        Some(fault) => Err(fault),
        None => Ok(value),
    }
}

/// Where a conversation stands after a message, or why it ends. `kind` names
/// the kind of the message.
pub open spec fn builder_step(
    talk: BuilderTalk,
    manifest: ProfileManifest,
    message: BuilderMessage,
    kind: Seq<char>,
) -> Result<BuilderTalk, HostBuildFault> {
    match (talk.stage, message) {
        (_, BuilderMessage::Error(message)) => Err(
            HostBuildFault::Guest { stage: builder_stage_name(talk.stage), message },
        ),
        (BuilderStage::AwaitHello, BuilderMessage::Hello(hello)) => refused_if(
            builder_hello_fault(manifest, hello),
            BuilderTalk { stage: BuilderStage::SendStart, ..talk },
        ),
        (BuilderStage::AwaitManifest, BuilderMessage::ManifestBegin) => Ok(
            BuilderTalk { stage: BuilderStage::ReadManifest, ..talk },
        ),
        (BuilderStage::ReadManifest, BuilderMessage::ManifestChunk) => Ok(talk),
        (BuilderStage::ReadManifest, BuilderMessage::ManifestEnd) => refused_if(
            tree_fault(talk.tree),
            BuilderTalk { stage: BuilderStage::AwaitAccounts, ..talk },
        ),
        (BuilderStage::AwaitAccounts, BuilderMessage::AccountDb { sha256 }) => Ok(
            BuilderTalk { stage: BuilderStage::AwaitDone, accounts: Some(sha256@), ..talk },
        ),
        (BuilderStage::AwaitDone, BuilderMessage::Done(done)) => refused_if(
            report_fault(talk, done),
            BuilderTalk { stage: BuilderStage::Complete, ..talk },
        ),
        _ => Err(
            evidence_mismatch(
                "builder_message_kind"@,
                builder_expectation(talk.stage),
                kind,
            ),
        ),
    }
}

/// The error of a message that a stage does not wait for.
pub fn unexpected_builder(expected: &str, kind: &str) -> (error: HostBuildError)
    ensures
        error@ == evidence_mismatch("builder_message_kind"@, expected@, kind@),
{
    mismatch_error("builder_message_kind", expected, kind)
}

/// The error of a message that a stage does not wait for.
pub fn unexpected_validator(expected: &str, kind: &str) -> (error: HostBuildError)
    ensures
        error@ == evidence_mismatch("validator_message_kind"@, expected@, kind@),
{
    mismatch_error("validator_message_kind", expected, kind)
}

/// One conversation with a builder guest.
#[derive(Debug)]
pub struct BuilderConversation {
    stage: BuilderStage,
    verifier: ManifestStructuralVerifier,
    accounts: Option<String>,
}

impl View for BuilderConversation {
    type V = BuilderTalk;

    closed spec fn view(&self) -> BuilderTalk {
        BuilderTalk {
            stage: self.stage,
            tree: self.verifier@,
            accounts: match self.accounts {
                Some(digest) => Some(digest@),
                None => None,
            },
        }
    }
}

/// An account database was received before the final report is awaited.
pub open spec fn sound_talk(talk: BuilderTalk) -> bool {
    talk.stage is AwaitDone ==> talk.accounts is Some
}

impl BuilderConversation {
    pub fn new() -> (talk: BuilderConversation)
        ensures
            talk@ == start_talk(),
            sound_talk(talk@),
    {
        BuilderConversation {
            stage: BuilderStage::AwaitHello,
            verifier: ManifestStructuralVerifier::default(),
            accounts: None,
        }
    }

    pub fn stage(&self) -> (stage: BuilderStage)
        ensures
            stage == self@.stage,
    {
        self.stage
    }

    /// How the stage is called in a timeout or a refusal.
    pub fn stage_name(&self) -> (name: &'static str)
        ensures
            name@ == builder_stage_name(self@.stage),
    {
        match self.stage {
            BuilderStage::AwaitHello => "BUILD_HELLO",
            BuilderStage::SendStart => "BUILD_START",
            BuilderStage::AwaitManifest => "MANIFEST_BEGIN",
            BuilderStage::ReadManifest => "metadata manifest",
            BuilderStage::AwaitAccounts => "ACCOUNT_DB",
            BuilderStage::AwaitDone | BuilderStage::Complete => "BUILD_DONE",
        }
    }

    fn expectation(&self) -> (name: &'static str)
        ensures
            name@ == builder_expectation(self@.stage),
    {
        match self.stage {
            BuilderStage::ReadManifest => "MANIFEST_CHUNK/END",
            _ => self.stage_name(),
        }
    }

    /// Goes on once the start message was sent.
    pub fn started(&mut self)
        requires
            old(self)@.stage is SendStart,
        ensures
            final(self)@ == (BuilderTalk { stage: BuilderStage::AwaitManifest, ..old(self)@ }),
    {
        self.stage = BuilderStage::AwaitManifest;
    }

    /// Checks the next entry of the manifest that is being read.
    pub fn accept_entry(&mut self, entry: &ManifestEntry) -> (accepted: Result<(), HostBuildError>)
        requires
            entry.content_sha256 matches Some(digest) ==> 2 * digest@.len() <= isize::MAX,
        ensures
            final(self)@.stage == old(self)@.stage,
            final(self)@.accounts == old(self)@.accounts,
            match accepted {
                Ok(()) => crate::builder::tree::tree_step(old(self)@.tree, *entry) == Ok::<
                    _,
                    HostBuildFault,
                >(final(self)@.tree),
                Err(error) => crate::builder::tree::tree_step(old(self)@.tree, *entry) == Err::<
                    TreeState,
                    _,
                >(error@) && final(self)@ == old(self)@,
            },
    {
        self.verifier.accept_entry(entry)
    }

    /// Takes the next message. A finished conversation gives the report.
    pub fn receive(&mut self, manifest: &ProfileManifest, message: BuilderMessage, kind: &str) -> (received:
        Result<Option<BuilderDone>, HostBuildError>)
        requires
            builder_listens(old(self)@.stage),
            sound_talk(old(self)@),
        ensures
            sound_talk(final(self)@),
            match received {
                Ok(done) => builder_step(old(self)@, *manifest, message, kind@) == Ok::<
                    _,
                    HostBuildFault,
                >(final(self)@) && match done {
                    Some(done) => final(self)@.stage is Complete && message
                        == BuilderMessage::Done(done),
                    None => !(final(self)@.stage is Complete),
                },
                Err(error) => builder_step(old(self)@, *manifest, message, kind@) == Err::<
                    BuilderTalk,
                    _,
                >(error@) && final(self)@ == old(self)@,
            },
    {
        match (self.stage, message) {
            (_, BuilderMessage::Error(message)) => Err(
                HostBuildError::Guest { stage: self.stage_name(), message },
            ),
            (BuilderStage::AwaitHello, BuilderMessage::Hello(hello)) => {
                if let Err(error) = verify_builder_hello(manifest, &hello) {
                    return Err(error);
                }
                self.stage = BuilderStage::SendStart;
                Ok(None)
            },
            (BuilderStage::AwaitManifest, BuilderMessage::ManifestBegin) => {
                self.stage = BuilderStage::ReadManifest;
                Ok(None)
            },
            (BuilderStage::ReadManifest, BuilderMessage::ManifestChunk) => Ok(None),
            (BuilderStage::ReadManifest, BuilderMessage::ManifestEnd) => {
                if let Err(error) = self.verifier.finish() {
                    return Err(error);
                }
                self.stage = BuilderStage::AwaitAccounts;
                Ok(None)
            },
            (BuilderStage::AwaitAccounts, BuilderMessage::AccountDb { sha256 }) => {
                self.accounts = Some(sha256);
                self.stage = BuilderStage::AwaitDone;
                Ok(None)
            },
            (BuilderStage::AwaitDone, BuilderMessage::Done(done)) => {
                if let Some(accounts) = &self.accounts {
                    if let Err(error) = compare_evidence(
                        "account_db_sha256",
                        accounts,
                        &done.account_db_sha256,
                    ) {
                        return Err(error);
                    }
                }
                let marker = match self.verifier.marker_sha256() {
                    Ok(marker) => marker,
                    Err(error) => {
                        return Err(error);
                    },
                };
                if let Err(error) = compare_evidence(
                    "generation_marker_sha256",
                    &marker,
                    &done.generation_marker_sha256,
                ) {
                    return Err(error);
                }
                self.stage = BuilderStage::Complete;
                Ok(Some(done))
            },
            _ => Err(unexpected_builder(self.expectation(), kind)),
        }
    }
}

/// A report is taken only after the guest was verified, the whole manifest was
/// accepted and the account database was received, and it names both.
pub proof fn law_report_closes_the_conversation(
    talk: BuilderTalk,
    manifest: ProfileManifest,
    message: BuilderMessage,
    kind: Seq<char>,
)
    requires
        sound_talk(talk),
        builder_step(talk, manifest, message, kind) matches Ok(next) && next.stage is Complete,
        !(talk.stage is Complete),
    ensures
        talk.stage is AwaitDone,
        message matches BuilderMessage::Done(done) && talk.accounts == Some(done.account_db_sha256@)
            && talk.tree.marker == Some(done.generation_marker_sha256@),
{
}

// ---------------------------------------------------------------------------
// The validator's conversation
// ---------------------------------------------------------------------------

/// A message from the validator guest. `Other` stands for one that only the
/// host may send.
#[derive(Debug)]
pub enum ValidatorMessage {
    Hello(ValidatorHello),
    Done(ValidatorDone),
    Error(ErrorMessage),
    Other,
}

#[derive(Debug, Clone, Copy, PartialEq, Eq, Structural)]
pub enum ValidatorStage {
    AwaitHello,
    SendStart,
    AwaitDone,
    Complete,
}

pub open spec fn validator_stage_name(stage: ValidatorStage) -> Seq<char> {
    match stage {
        ValidatorStage::AwaitHello => "VALIDATE_HELLO"@,
        ValidatorStage::SendStart => "VALIDATE_START"@,
        ValidatorStage::AwaitDone | ValidatorStage::Complete => "VALIDATE_DONE"@,
    }
}

/// The stage after a message, or why the conversation ends.
pub open spec fn validator_step(
    stage: ValidatorStage,
    manifest: ProfileManifest,
    message: ValidatorMessage,
    kind: Seq<char>,
) -> Result<ValidatorStage, HostBuildFault> {
    match (stage, message) {
        (_, ValidatorMessage::Error(message)) => Err(
            HostBuildFault::Guest { stage: validator_stage_name(stage), message },
        ),
        (ValidatorStage::AwaitHello, ValidatorMessage::Hello(hello)) => refused_if(
            validator_hello_fault(manifest, hello),
            ValidatorStage::SendStart,
        ),
        (ValidatorStage::AwaitDone, ValidatorMessage::Done(_)) => Ok(ValidatorStage::Complete),
        _ => Err(
            evidence_mismatch("validator_message_kind"@, validator_stage_name(stage), kind),
        ),
    }
}

/// One conversation with a validator guest.
#[derive(Debug)]
pub struct ValidatorConversation {
    stage: ValidatorStage,
}

impl ValidatorConversation {
    pub closed spec fn at(self) -> ValidatorStage {
        self.stage
    }

    pub fn new() -> (talk: ValidatorConversation)
        ensures
            talk.at() == ValidatorStage::AwaitHello,
    {
        ValidatorConversation { stage: ValidatorStage::AwaitHello }
    }

    pub fn stage(&self) -> (stage: ValidatorStage)
        ensures
            stage == self.at(),
    {
        self.stage
    }

    /// How the stage is called in a timeout or a refusal.
    pub fn stage_name(&self) -> (name: &'static str)
        ensures
            name@ == validator_stage_name(self.at()),
    {
        match self.stage {
            ValidatorStage::AwaitHello => "VALIDATE_HELLO",
            ValidatorStage::SendStart => "VALIDATE_START",
            ValidatorStage::AwaitDone | ValidatorStage::Complete => "VALIDATE_DONE",
        }
    }

    /// Goes on once the start message was sent.
    pub fn started(&mut self)
        requires
            old(self).at() is SendStart,
        ensures
            final(self).at() == ValidatorStage::AwaitDone,
    {
        self.stage = ValidatorStage::AwaitDone;
    }

    /// Takes the next message. A finished conversation gives the report.
    pub fn receive(
        &mut self,
        manifest: &ProfileManifest,
        message: ValidatorMessage,
        kind: &str,
    ) -> (received: Result<Option<ValidatorDone>, HostBuildError>)
        requires
            !(old(self).at() is SendStart),
            !(old(self).at() is Complete),
        ensures
            match received {
                Ok(done) => validator_step(old(self).at(), *manifest, message, kind@) == Ok::<
                    _,
                    HostBuildFault,
                >(final(self).at()) && match done {
                    Some(done) => final(self).at() is Complete && message
                        == ValidatorMessage::Done(done),
                    None => !(final(self).at() is Complete),
                },
                Err(error) => validator_step(old(self).at(), *manifest, message, kind@) == Err::<
                    ValidatorStage,
                    _,
                >(error@) && final(self).at() == old(self).at(),
            },
    {
        match (self.stage, message) {
            (_, ValidatorMessage::Error(message)) => Err(
                HostBuildError::Guest { stage: self.stage_name(), message },
            ),
            (ValidatorStage::AwaitHello, ValidatorMessage::Hello(hello)) => {
                if let Err(error) = verify_validator_hello(manifest, &hello) {
                    return Err(error);
                }
                self.stage = ValidatorStage::SendStart;
                Ok(None)
            },
            (ValidatorStage::AwaitDone, ValidatorMessage::Done(done)) => {
                self.stage = ValidatorStage::Complete;
                Ok(Some(done))
            },
            _ => Err(unexpected_validator(self.stage_name(), kind)),
        }
    }
}

// ---------------------------------------------------------------------------
// The end of a guest
// ---------------------------------------------------------------------------

/// How a guard ended.
#[derive(Debug)]
pub struct GuardExit {
    pub success: bool,
    pub status: String,
}

/// Why a control-protocol failure happened: a deadline that passed, or
/// anything else.
pub fn classify_protocol(
    timed_out: bool,
    reason: &str,
    stage: &'static str,
    timeout: Duration,
) -> (error: HostBuildError)
    ensures
        error@ == if timed_out {
            HostBuildFault::Timeout { stage: stage@, timeout: timeout@ }
        } else {
            HostBuildFault::Protocol { reason: reason@ }
        },
{
    if timed_out {
        HostBuildError::Timeout { stage, timeout }
    } else {
        HostBuildError::Protocol { reason: reason.to_owned() }
    }
}

/// What a guest left behind.
#[derive(Debug)]
pub struct GuestCaptures {
    pub guard_stdout: CapturedStream,
    pub guard_stderr: CapturedStream,
    pub console: CapturedStream,
}

/// A failed conversation, and how its error reads.
#[derive(Debug)]
pub struct FailedTalk {
    pub error: HostBuildError,
    pub reason: String,
}

/// The end of a guest's console, as an error carries it.
pub open spec fn console_tail(console: CapturedStream) -> Seq<char> {
    lossy_spelling(tail(console.bytes@, DIAGNOSTIC_TAIL_BYTES as nat))
}

/// Why a guest's run failed, if it did. The conversation counts first: its
/// failure carries the console. Then the guard must have ended, and well.
pub open spec fn guest_run_fault(
    stage: Seq<char>,
    failed: Option<FailedTalk>,
    guard: Result<GuardExit, HostBuildError>,
    console: CapturedStream,
) -> Option<HostBuildFault> {
    match failed {
        Some(talk) => Some(
            HostBuildFault::GuestProtocol {
                stage,
                reason: talk.reason@,
                source: talk.error,
                diagnostic: console_tail(console),
            },
        ),
        None => match guard {
            Err(error) => Some(error@),
            Ok(exit) => if exit.success {
                None
            } else {
                Some(
                    HostBuildFault::GuardStatus {
                        stage,
                        status: exit.status@,
                        diagnostic: console_tail(console),
                    },
                )
            },
        },
    }
}

/// Whether logs are those of a guest's guard and console.
pub open spec fn logs_guest(
    logs: Seq<StageLog>,
    guard_stage: Seq<char>,
    console_stage: Seq<char>,
    captures: GuestCaptures,
) -> bool {
    &&& logs.len() == 2
    &&& logs[0].stage@ == guard_stage
    &&& logs[0].stdout == captures.guard_stdout
    &&& logs[0].stderr == captures.guard_stderr
    &&& logs[1].stage@ == console_stage
    &&& logs[1].stdout == captures.console
    &&& logs[1].stderr.bytes@.len() == 0
    &&& logs[1].stderr.total_bytes == 0
    &&& !logs[1].stderr.truncated
}

/// The names of a guest's stages.
#[derive(Debug, Clone, Copy)]
pub struct GuestStages {
    pub run: &'static str,
    pub guard: &'static str,
    pub console: &'static str,
}

/// The stages of the builder guest.
pub fn builder_stages() -> (stages: GuestStages)
    ensures
        stages.run@ == "builder-uml"@,
        stages.guard@ == "builder-guard"@,
        stages.console@ == "builder-console"@,
{
    GuestStages { run: "builder-uml", guard: "builder-guard", console: "builder-console" }
}

/// The stages of the validator guest.
pub fn validator_stages() -> (stages: GuestStages)
    ensures
        stages.run@ == "validator-uml"@,
        stages.guard@ == "validator-guard"@,
        stages.console@ == "validator-console"@,
{
    GuestStages { run: "validator-uml", guard: "validator-guard", console: "validator-console" }
}

/// Concludes a guest's run from how its conversation and its guard ended.
pub fn conclude_guest_run(
    stages: GuestStages,
    failed: Option<FailedTalk>,
    guard: Result<GuardExit, HostBuildError>,
    captures: GuestCaptures,
) -> (logs: Result<Vec<StageLog>, HostBuildError>)
    ensures
        match logs {
            Ok(logs) => guest_run_fault(stages.run@, failed, guard, captures.console) is None
                && logs_guest(logs@, stages.guard@, stages.console@, captures),
            Err(error) => guest_run_fault(stages.run@, failed, guard, captures.console) == Some(
                error@,
            ),
        },
{
    if let Some(talk) = failed {
        return Err(
            HostBuildError::GuestProtocol {
                stage: stages.run,
                reason: talk.reason,
                source: Box::new(talk.error),
                diagnostic: lossy_tail(&captures.console.bytes, DIAGNOSTIC_TAIL_BYTES),
            },
        );
    }
    let exit = match guard {
        Ok(exit) => exit,
        Err(error) => {
            return Err(error);
        },
    };
    if !exit.success {
        return Err(
            HostBuildError::GuardStatus {
                stage: stages.run,
                status: exit.status,
                diagnostic: lossy_tail(&captures.console.bytes, DIAGNOSTIC_TAIL_BYTES),
            },
        );
    }
    let mut logs: Vec<StageLog> = Vec::new();
    logs.push(
        StageLog {
            stage: stages.guard,
            stdout: captures.guard_stdout,
            stderr: captures.guard_stderr,
        },
    );
    logs.push(
        StageLog {
            stage: stages.console,
            stdout: captures.console,
            stderr: CapturedStream { bytes: Vec::new(), truncated: false, total_bytes: 0 },
        },
    );
    Ok(logs)
}

/// Why a helper's run failed, if it did.
pub open spec fn helper_run_fault(stage: Seq<char>, exit: GuardExit, stderr: CapturedStream) -> Option<
    HostBuildFault,
> {
    if exit.success {
        None
    } else {
        Some(
            HostBuildFault::GuardStatus {
                stage,
                status: exit.status@,
                diagnostic: console_tail(stderr),
            },
        )
    }
}

/// Concludes a helper's run from how its guard ended.
pub fn conclude_helper_run(
    stage: &'static str,
    exit: GuardExit,
    stdout: CapturedStream,
    stderr: CapturedStream,
) -> (log: Result<StageLog, HostBuildError>)
    ensures
        match log {
            Ok(log) => helper_run_fault(stage@, exit, stderr) is None && log == (StageLog {
                stage,
                stdout,
                stderr,
            }),
            Err(error) => helper_run_fault(stage@, exit, stderr) == Some(error@),
        },
{
    if !exit.success {
        return Err(
            HostBuildError::GuardStatus {
                stage,
                status: exit.status,
                diagnostic: lossy_tail(&stderr.bytes, DIAGNOSTIC_TAIL_BYTES),
            },
        );
    }
    Ok(StageLog { stage, stdout, stderr })
}

/// What to do about a guard that is waited for.
#[derive(Debug, Clone, Copy, PartialEq, Eq, Structural)]
pub enum WaitAction {
    /// Look again in a moment.
    Sleep,
    /// It ended: close its liveness pipe and take its status.
    Collect,
    /// Its time is up: close its liveness pipe and start the cleanup clock.
    Release,
    /// It ended after its time was up.
    TimedOut,
    /// It outlived the cleanup clock too: kill and reap it.
    Kill,
}

/// What to do about a guard, by whether it was released, has ended, and has
/// used up its time.
pub open spec fn wait_action(released: bool, ended: bool, expired: bool) -> WaitAction {
    if ended {
        if released {
            WaitAction::TimedOut
        } else {
            WaitAction::Collect
        }
    } else if expired {
        if released {
            WaitAction::Kill
        } else {
            WaitAction::Release
        }
    } else {
        WaitAction::Sleep
    }
}

/// Decides what to do about a guard that is waited for.
pub fn wait_guard(released: bool, ended: bool, expired: bool) -> (action: WaitAction)
    ensures
        action == wait_action(released, ended, expired),
{
    if ended {
        if released {
            WaitAction::TimedOut
        } else {
            WaitAction::Collect
        }
    } else if expired {
        if released {
            WaitAction::Kill
        } else {
            WaitAction::Release
        }
    } else {
        WaitAction::Sleep
    }
}

/// A guard is killed only after it was released and outlived its cleanup time,
/// and its status counts only if it ended in time.
pub proof fn law_guard_is_released_before_it_is_killed(released: bool, ended: bool, expired: bool)
    ensures
        wait_action(released, ended, expired) is Kill ==> released && expired && !ended,
        wait_action(released, ended, expired) is Collect <==> ended && !released,
{
}

/// A conversation with the builder goes from its hello to its start, its
/// manifest, its accounts and its report; each stage takes its own message and
/// nothing else.
pub proof fn law_builder_speaks_in_order(
    talk: BuilderTalk,
    manifest: ProfileManifest,
    message: BuilderMessage,
    kind: Seq<char>,
)
    ensures
        builder_step(talk, manifest, message, kind) matches Ok(next) ==> {
            &&& next.tree == talk.tree
            &&& match talk.stage {
                BuilderStage::AwaitHello => message is Hello && next.stage is SendStart
                    && builder_hello_fault(manifest, message->Hello_0) is None,
                BuilderStage::AwaitManifest => message is ManifestBegin && next.stage
                    is ReadManifest,
                BuilderStage::ReadManifest => (message is ManifestChunk && next == talk) || (message
                    is ManifestEnd && next.stage is AwaitAccounts && tree_fault(talk.tree) is None),
                BuilderStage::AwaitAccounts => message is AccountDb && next.stage is AwaitDone
                    && next.accounts == Some(message->sha256@),
                BuilderStage::AwaitDone => message is Done && next.stage is Complete,
                _ => false,
            }
        },
        message matches BuilderMessage::Error(told) ==> builder_step(
            talk,
            manifest,
            message,
            kind,
        ) == Err::<BuilderTalk, _>(
            HostBuildFault::Guest {
                stage: match talk.stage {
                    BuilderStage::AwaitHello => "BUILD_HELLO"@,
                    BuilderStage::SendStart => "BUILD_START"@,
                    BuilderStage::AwaitManifest => "MANIFEST_BEGIN"@,
                    BuilderStage::ReadManifest => "metadata manifest"@,
                    BuilderStage::AwaitAccounts => "ACCOUNT_DB"@,
                    _ => "BUILD_DONE"@,
                },
                message: told,
            },
        ),
{
}

/// A conversation with the validator goes from its hello to its start and its
/// report, in the same way.
pub proof fn law_validator_speaks_in_order(
    stage: ValidatorStage,
    manifest: ProfileManifest,
    message: ValidatorMessage,
    kind: Seq<char>,
)
    ensures
        validator_step(stage, manifest, message, kind) is Ok <==> {
            ||| stage is AwaitHello && message is Hello && validator_hello_fault(
                manifest,
                message->Hello_0,
            ) is None
            ||| stage is AwaitDone && message is Done
        },
        validator_step(stage, manifest, message, kind) matches Ok(next) ==> (stage is AwaitHello
            && next is SendStart) || (stage is AwaitDone && next is Complete),
        message matches ValidatorMessage::Error(told) ==> validator_step(
            stage,
            manifest,
            message,
            kind,
        ) == Err::<ValidatorStage, _>(
            HostBuildFault::Guest {
                stage: match stage {
                    ValidatorStage::AwaitHello => "VALIDATE_HELLO"@,
                    ValidatorStage::SendStart => "VALIDATE_START"@,
                    _ => "VALIDATE_DONE"@,
                },
                message: told,
            },
        ),
{
}

/// A guest's run is good exactly where the talk did not fail and the guard
/// exited well; its logs are then those of the guard and of the console.
pub proof fn law_guest_run_is_concluded(
    stages: GuestStages,
    failed: Option<FailedTalk>,
    guard: Result<GuardExit, HostBuildError>,
    captures: GuestCaptures,
    logs: Result<Vec<StageLog>, HostBuildError>,
)
    requires
        call_ensures(conclude_guest_run, (stages, failed, guard, captures), logs),
    ensures
        logs is Ok <==> failed is None && (guard matches Ok(exit) && exit.success),
        failed matches Some(talk) ==> logs->Err_0@ is GuestProtocol && logs->Err_0@->GuestProtocol_stage
            == stages.run@ && logs->Err_0@->GuestProtocol_reason == talk.reason@
            && logs->Err_0@->GuestProtocol_source == talk.error,
        failed is None && guard is Err ==> logs->Err_0@ == guard->Err_0@,
        failed is None && guard is Ok && !guard->Ok_0.success ==> logs->Err_0@ is GuardStatus
            && logs->Err_0@->GuardStatus_stage == stages.run@
            && logs->Err_0@->GuardStatus_status == guard->Ok_0.status@,
        logs matches Ok(logs) ==> {
            &&& logs@.len() == 2
            &&& logs@[0].stage@ == stages.guard@
            &&& logs@[0].stdout == captures.guard_stdout
            &&& logs@[0].stderr == captures.guard_stderr
            &&& logs@[1].stage@ == stages.console@
            &&& logs@[1].stdout == captures.console
            &&& logs@[1].stderr.bytes@.len() == 0
        },
{
}

/// A helper's run is good exactly where its guard exited well, and its log is
/// its own.
pub proof fn law_helper_run_is_concluded(
    stage: &'static str,
    exit: GuardExit,
    stdout: CapturedStream,
    stderr: CapturedStream,
    log: Result<StageLog, HostBuildError>,
)
    requires
        call_ensures(conclude_helper_run, (stage, exit, stdout, stderr), log),
    ensures
        log is Ok <==> exit.success,
        log matches Ok(log) ==> log.stage == stage && log.stdout == stdout && log.stderr == stderr,
        log matches Err(error) ==> error@ is GuardStatus && error@->GuardStatus_stage == stage@
            && error@->GuardStatus_status == exit.status@,
{
}

/// The stages of each guest.
pub proof fn law_each_guest_has_its_stages(builder: GuestStages, validator: GuestStages)
    requires
        call_ensures(builder_stages, (), builder),
        call_ensures(validator_stages, (), validator),
    ensures
        builder.run@ == "builder-uml"@,
        builder.guard@ == "builder-guard"@,
        builder.console@ == "builder-console"@,
        validator.run@ == "validator-uml"@,
        validator.guard@ == "validator-guard"@,
        validator.console@ == "validator-console"@,
{
}

/// A guard is waited for until it ends; at its deadline it is released, and at
/// the next one killed.
pub proof fn law_guard_is_waited_for(released: bool, ended: bool, expired: bool, action: WaitAction)
    requires
        call_ensures(wait_guard, (released, ended, expired), action),
    ensures
        action is Collect <==> ended && !released,
        action is TimedOut <==> ended && released,
        action is Release <==> !ended && expired && !released,
        action is Kill <==> !ended && expired && released,
        action is Sleep <==> !ended && !expired,
{
}

/// A passed deadline is told as one, with its stage and its length, and nothing
/// else is.
pub proof fn law_deadline_is_told_as_one(
    timed_out: bool,
    reason: &str,
    stage: &'static str,
    timeout: Duration,
    error: HostBuildError,
)
    requires
        call_ensures(classify_protocol, (timed_out, reason, stage, timeout), error),
    ensures
        timed_out ==> error@ == (HostBuildFault::Timeout { stage: stage@, timeout: timeout@ }),
        !timed_out ==> error@ == (HostBuildFault::Protocol { reason: reason@ }),
{
}

/// A conversation with the builder takes each message as the stage that it is
/// in does, keeps its stage where one is refused, and gives the report at its
/// end.
pub proof fn law_builder_conversation_follows(
    talk: &mut BuilderConversation,
    manifest: ProfileManifest,
    message: BuilderMessage,
    kind: &str,
    received: Result<Option<BuilderDone>, HostBuildError>,
)
    requires
        builder_listens(old(talk)@.stage),
        sound_talk(old(talk)@),
        call_ensures(BuilderConversation::receive, (talk, &manifest, message, kind), received),
    ensures
        received is Ok <==> builder_step(old(talk)@, manifest, message, kind@) is Ok,
        received is Ok ==> final(talk)@ == builder_step(old(talk)@, manifest, message, kind@)->Ok_0,
        received is Err ==> final(talk)@ == old(talk)@,
        received matches Ok(Some(done)) ==> message == BuilderMessage::Done(done),
        received matches Ok(None) ==> !(message is Done),
{
    law_builder_speaks_in_order(old(talk)@, manifest, message, kind@);
}

/// A start message brings the builder to its manifest, whose entries are
/// accepted one by one.
pub proof fn law_builder_is_started_once(talk: &mut BuilderConversation, fresh: BuilderConversation)
    requires
        old(talk)@.stage is SendStart,
        call_ensures(BuilderConversation::started, (talk,), ()),
        call_ensures(BuilderConversation::new, (), fresh),
    ensures
        final(talk)@.stage is AwaitManifest,
        final(talk)@.tree == old(talk)@.tree && final(talk)@.accounts == old(talk)@.accounts,
        fresh@.stage is AwaitHello && fresh@.accounts is None,
        fresh@.tree.previous is None && !fresh@.tree.saw_root && !fresh@.tree.saw_rootfs
            && fresh@.tree.marker is None,
{
}

/// A conversation with the validator follows its steps in the same way.
pub proof fn law_validator_conversation_follows(
    talk: &mut ValidatorConversation,
    manifest: ProfileManifest,
    message: ValidatorMessage,
    kind: &str,
    received: Result<Option<ValidatorDone>, HostBuildError>,
)
    requires
        !(old(talk).at() is SendStart),
        !(old(talk).at() is Complete),
        call_ensures(ValidatorConversation::receive, (talk, &manifest, message, kind), received),
    ensures
        received is Ok <==> validator_step(old(talk).at(), manifest, message, kind@) is Ok,
        received is Ok ==> final(talk).at() == validator_step(
            old(talk).at(),
            manifest,
            message,
            kind@,
        )->Ok_0,
        received is Err ==> final(talk).at() == old(talk).at(),
        received matches Ok(Some(done)) ==> message == ValidatorMessage::Done(done),
        received matches Ok(None) ==> !(message is Done),
{
    law_validator_speaks_in_order(old(talk).at(), manifest, message, kind@);
}

} // verus!
