//! The course of one build, from an authenticated layout to a published
//! generation.
//!
//! The machine says what to do next; whoever runs it does that and reports
//! what came of it.

use vstd::prelude::*;

use crate::builder::capacity::{
    capacity_retry, guest_capacity_resource, guest_resource, helper_capacity_resource,
    helper_resource, next_attempt, CapacityResource,
};
use crate::builder::contract::BuildSizingEvidence;
use crate::builder::prepare::{evidence_mismatch, mismatch_error, BuildSizes};
use crate::builder::sizing::{FilesystemSize, FilesystemSizing};
use crate::digest::{digest_text, sha256_of, ArtifactDigest, FileDigest};
use crate::error::{HostBuildError, HostBuildFault};
use crate::text::{decimal, decimal_text, join3};

verus! {

/// What a build does next.
#[derive(Debug, Clone, Copy, PartialEq, Eq, Structural)]
pub enum BuildAction {
    /// Authenticate the layout again, now that the derivation lock is held.
    VerifyLayout,
    /// Create the build directory and its private files.
    PrepareDirectory,
    /// Create the scratch filesystem and copy the layout into it.
    FormatPayload,
    /// Remove the scratch file of a failed attempt.
    DiscardPayload,
    /// Create the sidecars that the builder fills.
    CreateSidecars,
    /// Create the target filesystem.
    FormatTarget,
    /// Remove the target file of a failed attempt.
    DiscardTarget,
    /// Run the builder guest.
    RunBuilder,
    /// Read back the account database that the builder wrote.
    LoadAccounts,
    /// Check the target's structure.
    CheckTarget,
    /// Hash the target before it is validated.
    HashBase,
    /// Run the validator guest.
    RunValidator,
    /// Hash the target after it was validated.
    RehashBase,
    /// Write the remaining sidecars and publish.
    Publish,
    Finished,
}

/// What came of an action.
#[derive(Debug)]
pub enum BuildEvent {
    Done,
    Failed(HostBuildError),
    /// The layout is the one that was prepared, or how the two differ.
    LayoutVerified { unchanged: bool, expected: String, actual: String },
    /// The failed file is gone, or why it is not.
    Discarded { failure: Option<String> },
    Hashed { digest: ArtifactDigest, size: u64 },
}

impl BuildEvent {
    /// The target was read to its end.
    pub fn hashed(file: FileDigest) -> (event: BuildEvent)
        ensures
            event matches BuildEvent::Hashed { digest, size } && digest@ == sha256_of(
                file.bytes(),
            ) && size == file.bytes().len(),
    {
        let (digest, size) = file.finish();
        BuildEvent::Hashed { digest, size }
    }
}

/// The attempts at one filesystem.
#[derive(Debug, Clone, Copy, PartialEq, Eq, Structural)]
pub struct Attempts {
    pub sizing: FilesystemSizing,
    pub size: FilesystemSize,
    pub count: u8,
    pub resource: Option<CapacityResource>,
}

pub open spec fn first_attempt(sizing: FilesystemSizing) -> Attempts {
    Attempts { sizing, size: sizing.initial, count: 1, resource: None }
}

/// The attempt after one that ran out of a resource, if there is one.
pub open spec fn attempt_after(attempts: Attempts, resource: Option<CapacityResource>) -> Option<
    Attempts,
> {
    match resource {
        Some(resource) => match next_attempt(attempts.count as nat, attempts.sizing) {
            Some(size) => Some(
                Attempts {
                    sizing: attempts.sizing,
                    size,
                    count: (attempts.count + 1) as u8,
                    resource: Some(resource),
                },
            ),
            None => None,
        },
        None => None,
    }
}

fn retry_after(attempts: Attempts, resource: Option<CapacityResource>) -> (next: Option<Attempts>)
    ensures
        next == attempt_after(attempts, resource),
{
    match resource {
        Some(resource) => match capacity_retry(attempts.count, attempts.sizing) {
            Some(size) => Some(
                Attempts {
                    sizing: attempts.sizing,
                    size,
                    count: attempts.count + 1,
                    resource: Some(resource),
                },
            ),
            None => None,
        },
        None => None,
    }
}

/// Where a build stands.
pub struct BuildState {
    pub action: BuildAction,
    pub payload: Attempts,
    pub target: Attempts,
    pub base: Option<(Seq<u8>, u64)>,
    pub primary: Option<HostBuildError>,
}

pub open spec fn start_build(sizes: BuildSizes) -> BuildState {
    BuildState {
        action: BuildAction::VerifyLayout,
        payload: first_attempt(sizes.payload),
        target: first_attempt(sizes.target),
        base: None,
        primary: None,
    }
}

/// Whether an event can come of an action.
pub open spec fn expects(action: BuildAction, event: BuildEvent) -> bool {
    match event {
        BuildEvent::Done => !(action is VerifyLayout) && !(action is DiscardPayload) && !(
        action is DiscardTarget) && !(action is HashBase) && !(action is RehashBase) && !(
        action is Finished),
        BuildEvent::Failed(_) => !(action is DiscardPayload) && !(action is DiscardTarget) && !(
        action is Finished),
        BuildEvent::LayoutVerified { unchanged, expected, actual } => action is VerifyLayout,
        BuildEvent::Discarded { failure } => action is DiscardPayload || action is DiscardTarget,
        BuildEvent::Hashed { digest, size } => action is HashBase || action is RehashBase,
    }
}

/// The action after one that was done.
pub open spec fn action_after(action: BuildAction) -> BuildAction {
    match action {
        BuildAction::PrepareDirectory => BuildAction::FormatPayload,
        BuildAction::FormatPayload => BuildAction::CreateSidecars,
        BuildAction::CreateSidecars => BuildAction::FormatTarget,
        BuildAction::FormatTarget => BuildAction::RunBuilder,
        BuildAction::RunBuilder => BuildAction::LoadAccounts,
        BuildAction::LoadAccounts => BuildAction::CheckTarget,
        BuildAction::CheckTarget => BuildAction::HashBase,
        BuildAction::RunValidator => BuildAction::RehashBase,
        BuildAction::Publish => BuildAction::Finished,
        other => other,
    }
}

/// What a failed action comes to: a larger attempt after the failed file is
/// discarded, or the failure itself.
pub open spec fn failure_step(state: BuildState, error: HostBuildError) -> Result<
    BuildState,
    HostBuildFault,
> {
    match state.action {
        BuildAction::FormatPayload => match attempt_after(state.payload, helper_resource(error)) {
            Some(payload) => Ok(
                BuildState {
                    action: BuildAction::DiscardPayload,
                    payload,
                    primary: Some(error),
                    ..state
                },
            ),
            None => Err(error@),
        },
        BuildAction::FormatTarget => match attempt_after(state.target, helper_resource(error)) {
            Some(target) => Ok(
                BuildState {
                    action: BuildAction::DiscardTarget,
                    target,
                    primary: Some(error),
                    ..state
                },
            ),
            None => Err(error@),
        },
        BuildAction::RunBuilder => match attempt_after(state.target, guest_resource(error)) {
            Some(target) => Ok(
                BuildState {
                    action: BuildAction::DiscardTarget,
                    target,
                    primary: Some(error),
                    ..state
                },
            ),
            None => Err(error@),
        },
        _ => Err(error@),
    }
}

/// A digest and a size, as a mismatch spells them.
pub open spec fn base_text(digest: Seq<u8>, size: u64) -> Seq<char> {
    digest_text(digest) + ":"@ + decimal(size as nat)
}

/// Where a build stands after an event, or why it ends.
pub open spec fn build_step(state: BuildState, event: BuildEvent) -> Result<
    BuildState,
    HostBuildFault,
> {
    match event {
        BuildEvent::Done => Ok(BuildState { action: action_after(state.action), ..state }),
        BuildEvent::Failed(error) => failure_step(state, error),
        BuildEvent::LayoutVerified { unchanged, expected, actual } => if unchanged {
            Ok(BuildState { action: BuildAction::PrepareDirectory, ..state })
        } else {
            Err(evidence_mismatch("oci_layout"@, expected@, actual@))
        },
        BuildEvent::Discarded { failure } => match failure {
            Some(cleanup) => Err(
                HostBuildFault::Cleanup {
                    primary: state.primary->Some_0,
                    cleanup: cleanup@,
                },
            ),
            None => Ok(
                BuildState {
                    action: if state.action is DiscardPayload {
                        BuildAction::FormatPayload
                    } else {
                        BuildAction::FormatTarget
                    },
                    primary: None,
                    ..state
                },
            ),
        },
        BuildEvent::Hashed { digest, size } => if state.action is HashBase {
            if size != state.target.size.bytes {
                Err(
                    evidence_mismatch(
                        "base.size"@,
                        decimal(state.target.size.bytes as nat),
                        decimal(size as nat),
                    ),
                )
            } else {
                Ok(
                    BuildState {
                        action: BuildAction::RunValidator,
                        base: Some((digest@, size)),
                        ..state
                    },
                )
            }
        } else if state.base != Some((digest@, size)) {
            Err(
                evidence_mismatch(
                    "base.after_validation"@,
                    base_text(state.base->Some_0.0, state.base->Some_0.1),
                    base_text(digest@, size),
                ),
            )
        } else {
            Ok(BuildState { action: BuildAction::Publish, ..state })
        },
    }
}

/// Whether attempts are the first at its size, or the one after it.
pub open spec fn sound_attempts(attempts: Attempts) -> bool {
    ||| attempts.count == 1 && attempts.size == attempts.sizing.initial && attempts.resource is None
    ||| attempts.count == 2 && attempts.sizing.retry == Some(attempts.size)
        && attempts.resource is Some
}

/// Whether the target has been hashed.
pub open spec fn is_hashed(action: BuildAction) -> bool {
    action is RunValidator || action is RehashBase || action is Publish || action is Finished
}

/// What holds of every state of a build.
pub open spec fn sound(state: BuildState) -> bool {
    &&& sound_attempts(state.payload)
    &&& sound_attempts(state.target)
    &&& state.primary is Some <==> (state.action is DiscardPayload
        || state.action is DiscardTarget)
    &&& state.action is DiscardPayload ==> state.payload.count == 2
    &&& state.action is DiscardTarget ==> state.target.count == 2
    &&& state.base is Some <==> is_hashed(state.action)
    &&& state.base matches Some(base) ==> base.1 == state.target.size.bytes
}

/// One build.
#[derive(Debug)]
pub struct BuildMachine {
    action: BuildAction,
    payload: Attempts,
    target: Attempts,
    base: Option<(ArtifactDigest, u64)>,
    primary: Option<HostBuildError>,
}

impl View for BuildMachine {
    type V = BuildState;

    closed spec fn view(&self) -> BuildState {
        BuildState {
            action: self.action,
            payload: self.payload,
            target: self.target,
            base: match self.base {
                Some(base) => Some((base.0@, base.1)),
                None => None,
            },
            primary: self.primary,
        }
    }
}

impl BuildMachine {
    pub fn new(sizes: BuildSizes) -> (machine: BuildMachine)
        ensures
            machine@ == start_build(sizes),
            sound(machine@),
    {
        BuildMachine {
            action: BuildAction::VerifyLayout,
            payload: Attempts {
                sizing: sizes.payload,
                size: sizes.payload.initial,
                count: 1,
                resource: None,
            },
            target: Attempts {
                sizing: sizes.target,
                size: sizes.target.initial,
                count: 1,
                resource: None,
            },
            base: None,
            primary: None,
        }
    }

    /// What to do next.
    pub fn action(&self) -> (action: BuildAction)
        ensures
            action == self@.action,
    {
        self.action
    }

    /// The size of the scratch filesystem to format.
    pub fn payload_size(&self) -> (size: FilesystemSize)
        ensures
            size == self@.payload.size,
    {
        self.payload.size
    }

    /// The size of the target filesystem to format.
    pub fn target_size(&self) -> (size: FilesystemSize)
        ensures
            size == self@.target.size,
    {
        self.target.size
    }

    /// The digest and the size of the validated target.
    pub fn base(&self) -> (base: Option<(ArtifactDigest, u64)>)
        ensures
            match base {
                Some(base) => self@.base == Some((base.0@, base.1)),
                None => self@.base is None,
            },
    {
        self.base
    }

    /// The sizes the build ended with, and how it came to them.
    pub fn sizing_evidence(&self) -> (evidence: BuildSizingEvidence)
        ensures
            evidence.payload == self@.payload.size,
            evidence.payload_attempts == self@.payload.count,
            evidence.payload_retry_resource == self@.payload.resource,
            evidence.target == self@.target.size,
            evidence.target_attempts == self@.target.count,
            evidence.target_retry_resource == self@.target.resource,
    {
        BuildSizingEvidence {
            payload: self.payload.size,
            payload_attempts: self.payload.count,
            payload_retry_resource: self.payload.resource,
            target: self.target.size,
            target_attempts: self.target.count,
            target_retry_resource: self.target.resource,
        }
    }

    /// Goes on after what came of the action, or ends the build.
    pub fn accept(self, event: BuildEvent) -> (next: Result<BuildMachine, HostBuildError>)
        requires
            sound(self@),
            expects(self@.action, event),
        ensures
            match next {
                Ok(next) => build_step(self@, event) == Ok::<_, HostBuildFault>(next@) && sound(
                    next@,
                ),
                Err(error) => build_step(self@, event) == Err::<BuildState, _>(error@),
            },
    {
        match event {
            BuildEvent::Done => {
                let action = match self.action {
                    BuildAction::PrepareDirectory => BuildAction::FormatPayload,
                    BuildAction::FormatPayload => BuildAction::CreateSidecars,
                    BuildAction::CreateSidecars => BuildAction::FormatTarget,
                    BuildAction::FormatTarget => BuildAction::RunBuilder,
                    BuildAction::RunBuilder => BuildAction::LoadAccounts,
                    BuildAction::LoadAccounts => BuildAction::CheckTarget,
                    BuildAction::CheckTarget => BuildAction::HashBase,
                    BuildAction::RunValidator => BuildAction::RehashBase,
                    BuildAction::Publish => BuildAction::Finished,
                    other => other,
                };
                Ok(self.at(action))
            },
            BuildEvent::Failed(error) => self.fail(error),
            BuildEvent::LayoutVerified { unchanged, expected, actual } => {
                if unchanged {
                    Ok(self.at(BuildAction::PrepareDirectory))
                } else {
                    Err(mismatch_error("oci_layout", &expected, &actual))
                }
            },
            BuildEvent::Discarded { failure } => self.discard(failure),
            BuildEvent::Hashed { digest, size } => self.hashed(digest, size),
        }
    }

    fn at(self, action: BuildAction) -> (next: BuildMachine)
        ensures
            next@ == (BuildState { action, ..self@ }),
    {
        BuildMachine {
            action,
            payload: self.payload,
            target: self.target,
            base: self.base,
            primary: self.primary,
        }
    }

    fn fail(self, error: HostBuildError) -> (next: Result<BuildMachine, HostBuildError>)
        requires
            sound(self@),
        ensures
            match next {
                Ok(next) => failure_step(self@, error) == Ok::<_, HostBuildFault>(next@) && sound(
                    next@,
                ),
                Err(fault) => failure_step(self@, error) == Err::<BuildState, _>(fault@),
            },
    {
        match self.action {
            BuildAction::FormatPayload => match retry_after(
                self.payload,
                helper_capacity_resource(&error),
            ) {
                Some(payload) => Ok(
                    BuildMachine {
                        action: BuildAction::DiscardPayload,
                        payload,
                        target: self.target,
                        base: self.base,
                        primary: Some(error),
                    },
                ),
                None => Err(error),
            },
            BuildAction::FormatTarget => match retry_after(
                self.target,
                helper_capacity_resource(&error),
            ) {
                Some(target) => Ok(
                    BuildMachine {
                        action: BuildAction::DiscardTarget,
                        payload: self.payload,
                        target,
                        base: self.base,
                        primary: Some(error),
                    },
                ),
                None => Err(error),
            },
            BuildAction::RunBuilder => match retry_after(
                self.target,
                guest_capacity_resource(&error),
            ) {
                Some(target) => Ok(
                    BuildMachine {
                        action: BuildAction::DiscardTarget,
                        payload: self.payload,
                        target,
                        base: self.base,
                        primary: Some(error),
                    },
                ),
                None => Err(error),
            },
            _ => Err(error),
        }
    }

    fn discard(self, failure: Option<String>) -> (next: Result<BuildMachine, HostBuildError>)
        requires
            sound(self@),
            self@.action is DiscardPayload || self@.action is DiscardTarget,
        ensures
            match next {
                Ok(next) => build_step(self@, BuildEvent::Discarded { failure }) == Ok::<
                    _,
                    HostBuildFault,
                >(next@) && sound(next@),
                Err(error) => build_step(self@, BuildEvent::Discarded { failure }) == Err::<
                    BuildState,
                    _,
                >(error@),
            },
    {
        match (failure, self.primary) {
            (Some(cleanup), Some(primary)) => Err(
                HostBuildError::Cleanup { primary: Box::new(primary), cleanup },
            ),
            (_, _) => Ok(
                BuildMachine {
                    action: match self.action {
                        BuildAction::DiscardPayload => BuildAction::FormatPayload,
                        _ => BuildAction::FormatTarget,
                    },
                    payload: self.payload,
                    target: self.target,
                    base: self.base,
                    primary: None,
                },
            ),
        }
    }

    fn hashed(self, digest: ArtifactDigest, size: u64) -> (next: Result<
        BuildMachine,
        HostBuildError,
    >)
        requires
            sound(self@),
            self@.action is HashBase || self@.action is RehashBase,
        ensures
            match next {
                Ok(next) => build_step(self@, BuildEvent::Hashed { digest, size }) == Ok::<
                    _,
                    HostBuildFault,
                >(next@) && sound(next@),
                Err(error) => build_step(self@, BuildEvent::Hashed { digest, size }) == Err::<
                    BuildState,
                    _,
                >(error@),
            },
    {
        match self.base {
            None => {
                if size != self.target.size.bytes {
                    return Err(
                        mismatch_error(
                            "base.size",
                            &decimal_text(self.target.size.bytes),
                            &decimal_text(size),
                        ),
                    );
                }
                Ok(
                    BuildMachine {
                        action: BuildAction::RunValidator,
                        payload: self.payload,
                        target: self.target,
                        base: Some((digest, size)),
                        primary: self.primary,
                    },
                )
            },
            Some((before, before_size)) => {
                if !before.same(digest) || before_size != size {
                    return Err(
                        mismatch_error(
                            "base.after_validation",
                            &join3(&before.to_text(), ":", &decimal_text(before_size)),
                            &join3(&digest.to_text(), ":", &decimal_text(size)),
                        ),
                    );
                }
                Ok(self.at(BuildAction::Publish))
            },
        }
    }
}

// ---------------------------------------------------------------------------
// Laws
// ---------------------------------------------------------------------------

/// A build publishes only a target of the size it was made with whose bytes
/// validation left unchanged.
pub proof fn law_publication_needs_an_unchanged_base(state: BuildState, event: BuildEvent)
    requires
        sound(state),
        expects(state.action, event),
        build_step(state, event) matches Ok(next) && next.action is Publish,
    ensures
        state.action is RehashBase,
        event matches BuildEvent::Hashed { digest, size } && state.base == Some((digest@, size))
            && size == state.target.size.bytes,
{
}

/// Each filesystem gets at most one further attempt, at the larger size that
/// its sizing holds ready, and only after the failed file is discarded.
pub proof fn law_retry_follows_a_discard(state: BuildState, event: BuildEvent)
    requires
        sound(state),
        expects(state.action, event),
        build_step(state, event) is Ok,
    ensures
        ({
            let next = build_step(state, event)->Ok_0;
            &&& sound(next)
            &&& next.payload.count <= 2 && next.target.count <= 2
            &&& next.payload.count > state.payload.count ==> next.action is DiscardPayload
                && next.payload.sizing.retry == Some(next.payload.size)
            &&& next.target.count > state.target.count ==> next.action is DiscardTarget
                && next.target.sizing.retry == Some(next.target.size)
            &&& state.action is DiscardPayload ==> next.action is FormatPayload
            &&& state.action is DiscardTarget ==> next.action is FormatTarget
        }),
{
}

/// How many steps a build has ahead of it at most.
pub open spec fn steps_left(state: BuildState) -> int {
    match state.action {
        BuildAction::VerifyLayout => 20,
        BuildAction::PrepareDirectory => 19,
        BuildAction::FormatPayload => if state.payload.count == 1 {
            18
        } else {
            16
        },
        BuildAction::DiscardPayload => 17,
        BuildAction::CreateSidecars => 15,
        BuildAction::FormatTarget => if state.target.count == 1 {
            14
        } else {
            11
        },
        BuildAction::RunBuilder => if state.target.count == 1 {
            13
        } else {
            10
        },
        BuildAction::DiscardTarget => 12,
        BuildAction::LoadAccounts => 9,
        BuildAction::CheckTarget => 8,
        BuildAction::HashBase => 7,
        BuildAction::RunValidator => 6,
        BuildAction::RehashBase => 5,
        BuildAction::Publish => 4,
        BuildAction::Finished => 0,
    }
}

/// Every step brings a build closer to its end, so none runs forever.
pub proof fn law_every_step_makes_progress(state: BuildState, event: BuildEvent)
    requires
        sound(state),
        expects(state.action, event),
        build_step(state, event) is Ok,
    ensures
        0 <= steps_left(build_step(state, event)->Ok_0) < steps_left(state) <= 20,
{
}

/// What follows each step of a build. A build that goes well verifies the
/// layout, prepares, formats and fills the scratch filesystem, creates the
/// sidecars, formats the target, runs the builder, reads its accounts, checks
/// and hashes the target, validates it, hashes it again and publishes it.
pub proof fn law_build_goes_step_by_step(
    machine: BuildMachine,
    event: BuildEvent,
    next: Result<BuildMachine, HostBuildError>,
)
    requires
        sound(machine@),
        expects(machine@.action, event),
        call_ensures(BuildMachine::accept, (machine, event), next),
    ensures
        event is Done ==> next is Ok && next->Ok_0@.action == (match machine@.action {
            BuildAction::PrepareDirectory => BuildAction::FormatPayload,
            BuildAction::FormatPayload => BuildAction::CreateSidecars,
            BuildAction::CreateSidecars => BuildAction::FormatTarget,
            BuildAction::FormatTarget => BuildAction::RunBuilder,
            BuildAction::RunBuilder => BuildAction::LoadAccounts,
            BuildAction::LoadAccounts => BuildAction::CheckTarget,
            BuildAction::CheckTarget => BuildAction::HashBase,
            BuildAction::RunValidator => BuildAction::RehashBase,
            _ => BuildAction::Finished,
        }),
        event is Done ==> next->Ok_0@.payload == machine@.payload && next->Ok_0@.target
            == machine@.target && next->Ok_0@.base == machine@.base,
        event matches BuildEvent::LayoutVerified { unchanged, .. } ==> (next is Ok <==> unchanged),
        event is LayoutVerified && next is Ok ==> next->Ok_0@.action is PrepareDirectory,
{
}

/// A base is validated where it has the target's size, and published where it is
/// then the same.
pub proof fn law_base_is_hashed_around_its_validation(
    machine: BuildMachine,
    digest: ArtifactDigest,
    size: u64,
    next: Result<BuildMachine, HostBuildError>,
)
    requires
        sound(machine@),
        expects(machine@.action, BuildEvent::Hashed { digest, size }),
        call_ensures(BuildMachine::accept, (machine, BuildEvent::Hashed { digest, size }), next),
    ensures
        machine@.action is HashBase ==> (next is Ok <==> size == machine@.target.size.bytes),
        machine@.action is HashBase && next is Ok ==> next->Ok_0@.action is RunValidator
            && next->Ok_0@.base == Some((digest@, size)),
        machine@.action is RehashBase ==> (next is Ok <==> machine@.base == Some((digest@, size))),
        machine@.action is RehashBase && next is Ok ==> next->Ok_0@.action is Publish
            && next->Ok_0@.base == machine@.base,
{
}

/// A failure ends a build, unless the scratch filesystem or the target ran out
/// of room on the first attempt and there is a larger size: then the failed file
/// is discarded and that size is next, and the failure is kept until it is.
pub proof fn law_failed_attempt_is_repeated_larger(
    machine: BuildMachine,
    error: HostBuildError,
    next: Result<BuildMachine, HostBuildError>,
)
    requires
        sound(machine@),
        expects(machine@.action, BuildEvent::Failed(error)),
        call_ensures(BuildMachine::accept, (machine, BuildEvent::Failed(error)), next),
    ensures
        next is Ok <==> {
            ||| machine@.action is FormatPayload && helper_resource(error) is Some
                && machine@.payload.count == 1 && machine@.payload.sizing.retry is Some
            ||| machine@.action is FormatTarget && helper_resource(error) is Some
                && machine@.target.count == 1 && machine@.target.sizing.retry is Some
            ||| machine@.action is RunBuilder && guest_resource(error) is Some
                && machine@.target.count == 1 && machine@.target.sizing.retry is Some
        },
        next is Err ==> next->Err_0@ == error@,
        next is Ok && machine@.action is FormatPayload ==> {
            &&& next->Ok_0@.action is DiscardPayload
            &&& machine@.payload.sizing.retry == Some(next->Ok_0@.payload.size)
            &&& next->Ok_0@.payload.count == 2
            &&& next->Ok_0@.payload.resource == helper_resource(error)
            &&& next->Ok_0@.target == machine@.target
        },
        next is Ok && !(machine@.action is FormatPayload) ==> {
            &&& next->Ok_0@.action is DiscardTarget
            &&& machine@.target.sizing.retry == Some(next->Ok_0@.target.size)
            &&& next->Ok_0@.target.count == 2
            &&& next->Ok_0@.target.resource is Some
            &&& next->Ok_0@.payload == machine@.payload
        },
        next is Ok ==> next->Ok_0@.primary == Some(error),
{
}

/// A discarded attempt is made again in the new size; where the file could not
/// be discarded, the failure is told with the one that it followed.
pub proof fn law_discarded_attempt_is_made_again(
    machine: BuildMachine,
    failure: Option<String>,
    next: Result<BuildMachine, HostBuildError>,
)
    requires
        sound(machine@),
        expects(machine@.action, BuildEvent::Discarded { failure }),
        call_ensures(BuildMachine::accept, (machine, BuildEvent::Discarded { failure }), next),
    ensures
        next is Ok <==> failure is None,
        next is Ok && machine@.action is DiscardPayload ==> next->Ok_0@.action is FormatPayload,
        next is Ok && machine@.action is DiscardTarget ==> next->Ok_0@.action is FormatTarget,
        next is Ok ==> next->Ok_0@.payload == machine@.payload && next->Ok_0@.target
            == machine@.target && next->Ok_0@.primary is None,
        next is Err ==> next->Err_0@ == (HostBuildFault::Cleanup {
            primary: machine@.primary->Some_0,
            cleanup: failure->Some_0@,
        }),
{
}

/// What a build says of its sizes is what it used, each of its own filesystem.
pub proof fn law_evidence_is_what_was_used(
    machine: BuildMachine,
    evidence: BuildSizingEvidence,
    payload: FilesystemSize,
    target: FilesystemSize,
)
    requires
        call_ensures(BuildMachine::sizing_evidence, (&machine,), evidence),
        call_ensures(BuildMachine::payload_size, (&machine,), payload),
        call_ensures(BuildMachine::target_size, (&machine,), target),
    ensures
        payload == machine@.payload.size && evidence.payload == payload,
        target == machine@.target.size && evidence.target == target,
        evidence.payload_attempts == machine@.payload.count,
        evidence.target_attempts == machine@.target.count,
        evidence.payload_retry_resource == machine@.payload.resource,
        evidence.target_retry_resource == machine@.target.resource,
{
}

/// A build begins with the layout and with the first sizes.
pub proof fn law_build_begins_with_the_layout(sizes: BuildSizes, machine: BuildMachine)
    requires
        call_ensures(BuildMachine::new, (sizes,), machine),
    ensures
        machine@.action is VerifyLayout,
        machine@.payload.size == sizes.payload.initial && machine@.payload.sizing == sizes.payload,
        machine@.target.size == sizes.target.initial && machine@.target.sizing == sizes.target,
        machine@.payload.count == 1 && machine@.target.count == 1,
        machine@.base is None && machine@.primary is None,
{
}

} // verus!
