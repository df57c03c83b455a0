//! The order in which an adjusted image is made.

use vstd::prelude::*;

use crate::builder::adjust::{
    block_bytes_outcome, blocks_for, check_marker, check_replacement, check_resized, is_marker_plan,
    listed_blocks, marker_fault, marker_room_fault, offset_fault, parse_blocks,
    plan_marker_writes, replacement_fault, resize_plan, resize_steps, resized_fault, source_size,
    MarkerWrite, ResizeStep,
};
use crate::builder::sizing::{target_size_outcome, validate_target_size};
use crate::bytes::copy_between;
use crate::error::{build_fault, HostBuildError, HostBuildFault};

verus! {

/// What an adjustment does next.
#[derive(Debug, Clone, Copy, PartialEq, Eq, Structural)]
pub enum AdjustAction {
    /// Make the private directory and files of the operation.
    PrepareDirectory,
    /// Copy the source's base into the new generation.
    CopyBase,
    /// Take the next step of the resize.
    Resize { step: ResizeStep },
    /// Copy the generation marker out of the filesystem.
    ReadMarker,
    /// Give the marker the new generation's identity.
    EncodeMarker,
    /// Ask where the marker's blocks are.
    LocateMarker,
    /// Write the planned pieces of the marker.
    WriteMarker,
    /// Check the filesystem without writing it.
    VerifyFilesystem,
    /// Read the size that the filesystem declares.
    MeasureTarget,
    /// Carry the source's sidecars over unchanged. Those that name the base,
    /// its digest and the build record, go on naming the source's.
    CopySidecars,
    HashBase,
    Publish,
    /// Remove the private directory.
    CleanUp,
    Finished,
}

/// What came of an action.
#[derive(Debug)]
pub enum AdjustEvent {
    Done,
    Marker { bytes: Vec<u8> },
    Replacement { updated: Vec<u8> },
    Listing { output: Vec<u8> },
    Measured { blocks: u64 },
}

/// Where an adjustment stands.
pub struct AdjustState {
    pub action: AdjustAction,
    pub source_bytes: u64,
    pub target_bytes: u64,
    /// How many steps of the resize are done.
    pub resized: nat,
    /// The marker that is to replace the one in the image, or until there is
    /// one, the marker of the image.
    pub marker: Seq<u8>,
    pub writes: Seq<MarkerWrite>,
    /// Whether the planned writes stop short of the whole marker.
    pub blocked: bool,
    /// The size that the resized filesystem declares.
    pub observed: Option<u64>,
}

pub open spec fn adjust_rank(action: AdjustAction) -> nat {
    match action {
        AdjustAction::PrepareDirectory => 0,
        AdjustAction::CopyBase => 1,
        AdjustAction::Resize { .. } => 2,
        AdjustAction::ReadMarker => 3,
        AdjustAction::EncodeMarker => 4,
        AdjustAction::LocateMarker => 5,
        AdjustAction::WriteMarker => 6,
        AdjustAction::VerifyFilesystem => 7,
        AdjustAction::MeasureTarget => 8,
        AdjustAction::CopySidecars => 9,
        AdjustAction::HashBase => 10,
        AdjustAction::Publish => 11,
        AdjustAction::CleanUp => 12,
        AdjustAction::Finished => 13,
    }
}

/// Whether an event can come of an action.
pub open spec fn expects(action: AdjustAction, event: AdjustEvent) -> bool {
    match event {
        AdjustEvent::Done => !(action is ReadMarker) && !(action is EncodeMarker) && !(
        action is LocateMarker) && !(action is MeasureTarget) && !(action is Finished),
        AdjustEvent::Marker { .. } => action is ReadMarker,
        AdjustEvent::Replacement { .. } => action is EncodeMarker,
        AdjustEvent::Listing { .. } => action is LocateMarker,
        AdjustEvent::Measured { .. } => action is MeasureTarget,
    }
}

/// The steps of an adjustment's resize.
pub open spec fn plan_of(state: AdjustState) -> Seq<ResizeStep> {
    resize_plan(state.source_bytes, state.target_bytes)
}

/// Whether every write takes its bytes from inside a marker of `length` bytes.
pub open spec fn writes_within(writes: Seq<MarkerWrite>, length: nat) -> bool {
    forall|i: int|
        0 <= i < writes.len() ==> (#[trigger] writes[i]).start <= writes[i].end <= length
}

/// What holds of every state of an adjustment.
pub open spec fn sound(state: AdjustState) -> bool {
    let rank = adjust_rank(state.action);
    &&& rank < 2 ==> state.resized == 0
    &&& match state.action {
        AdjustAction::Resize { step } => state.resized < plan_of(state).len() && step == plan_of(
            state,
        )[state.resized as int],
        _ => rank > 2 ==> state.resized == plan_of(state).len(),
    }
    &&& rank > 3 ==> state.marker.len() > 0
    &&& state.action is WriteMarker ==> writes_within(state.writes, state.marker.len())
    &&& rank > 8 ==> state.observed == Some(state.target_bytes)
}

/// The action after one that was done.
pub open spec fn action_after(state: AdjustState) -> AdjustAction {
    match state.action {
        AdjustAction::PrepareDirectory => AdjustAction::CopyBase,
        AdjustAction::CopyBase => AdjustAction::Resize { step: plan_of(state)[0] },
        AdjustAction::Resize { .. } => if state.resized + 1 < plan_of(state).len() {
            AdjustAction::Resize { step: plan_of(state)[(state.resized + 1) as int] }
        } else {
            AdjustAction::ReadMarker
        },
        AdjustAction::WriteMarker => AdjustAction::VerifyFilesystem,
        AdjustAction::VerifyFilesystem => AdjustAction::MeasureTarget,
        AdjustAction::CopySidecars => AdjustAction::HashBase,
        AdjustAction::HashBase => AdjustAction::Publish,
        AdjustAction::Publish => AdjustAction::CleanUp,
        AdjustAction::CleanUp => AdjustAction::Finished,
        other => other,
    }
}

/// Whether an adjustment comes to an outcome after an event.
pub open spec fn is_adjust_step(
    state: AdjustState,
    event: AdjustEvent,
    outcome: Result<AdjustState, HostBuildFault>,
) -> bool {
    match event {
        AdjustEvent::Done => outcome == if state.action is WriteMarker && state.blocked {
            Err::<AdjustState, _>(offset_fault())
        } else {
            Ok(
                AdjustState {
                    action: action_after(state),
                    resized: if state.action is Resize {
                        state.resized + 1
                    } else {
                        state.resized
                    },
                    ..state
                },
            )
        },
        AdjustEvent::Marker { bytes } => outcome == match marker_fault(bytes@.len()) {
            Some(fault) => Err::<AdjustState, _>(fault),
            None => Ok(
                AdjustState { action: AdjustAction::EncodeMarker, marker: bytes@, ..state },
            ),
        },
        AdjustEvent::Replacement { updated } => outcome == match replacement_fault(
            updated@.len(),
            state.marker.len(),
        ) {
            Some(fault) => Err::<AdjustState, _>(fault),
            None => Ok(
                AdjustState { action: AdjustAction::LocateMarker, marker: updated@, ..state },
            ),
        },
        AdjustEvent::Listing { output } => match marker_room_fault(
            listed_blocks(output@).len(),
            state.marker.len(),
        ) {
            Some(fault) => outcome == Err::<AdjustState, _>(fault),
            None => {
                &&& outcome is Ok
                &&& is_marker_plan(
                    listed_blocks(output@),
                    state.marker.len(),
                    outcome->Ok_0.writes,
                    outcome->Ok_0.blocked,
                )
                &&& outcome->Ok_0 == (AdjustState {
                    action: AdjustAction::WriteMarker,
                    writes: outcome->Ok_0.writes,
                    blocked: outcome->Ok_0.blocked,
                    ..state
                })
            },
        },
        AdjustEvent::Measured { blocks } => outcome == match resized_fault(
            blocks,
            state.target_bytes,
        ) {
            Some(fault) => Err::<AdjustState, _>(fault),
            None => Ok(
                AdjustState {
                    action: AdjustAction::CopySidecars,
                    observed: Some(state.target_bytes),
                    ..state
                },
            ),
        },
    }
}

/// Why a source cannot be given a size, if it cannot.
pub open spec fn start_fault(source_blocks: u64, target_bytes: u64) -> Option<HostBuildFault> {
    match target_size_outcome(target_bytes) {
        Err(fault) => Some(fault),
        Ok(_) => match block_bytes_outcome(
            "source"@,
            source_blocks,
            "source size overflows"@,
        ) {
            Err(fault) => Some(fault),
            Ok(_) => None,
        },
    }
}

/// One adjustment of an image.
#[derive(Debug)]
pub struct AdjustMachine {
    action: AdjustAction,
    source_bytes: u64,
    target_bytes: u64,
    steps: Vec<ResizeStep>,
    resized: usize,
    marker: Vec<u8>,
    writes: Vec<MarkerWrite>,
    blocked: Option<HostBuildError>,
    observed: Option<u64>,
}

impl View for AdjustMachine {
    type V = AdjustState;

    closed spec fn view(&self) -> AdjustState {
        AdjustState {
            action: self.action,
            source_bytes: self.source_bytes,
            target_bytes: self.target_bytes,
            resized: self.resized as nat,
            marker: self.marker@,
            writes: self.writes@,
            blocked: self.blocked is Some,
            observed: self.observed,
        }
    }
}

impl AdjustMachine {
    #[verifier::type_invariant]
    closed spec fn planned(self) -> bool {
        &&& self.steps@ == resize_plan(self.source_bytes, self.target_bytes)
        &&& self.blocked matches Some(error) ==> error@ == offset_fault()
    }

    /// Starts an adjustment of a source that declares so many blocks.
    pub fn new(source_blocks: u64, target_bytes: u64) -> (machine: Result<
        AdjustMachine,
        HostBuildError,
    >)
        ensures
            build_fault(machine) == start_fault(source_blocks, target_bytes),
            machine matches Ok(machine) ==> {
                &&& sound(machine@)
                &&& machine@.action is PrepareDirectory
                &&& machine@.source_bytes == source_blocks * 4096
                &&& machine@.target_bytes == target_bytes
                &&& machine@.observed is None
            },
    {
        if let Err(error) = validate_target_size(target_bytes) {
            return Err(error);
        }
        let source_bytes: u64 = match source_size(source_blocks) {
            Ok(bytes) => bytes,
            Err(error) => {
                return Err(error);
            },
        };
        Ok(
            AdjustMachine {
                action: AdjustAction::PrepareDirectory,
                source_bytes,
                target_bytes,
                steps: resize_steps(source_bytes, target_bytes),
                resized: 0,
                marker: Vec::new(),
                writes: Vec::new(),
                blocked: None,
                observed: None,
            },
        )
    }

    /// What to do next.
    pub fn action(&self) -> (action: AdjustAction)
        ensures
            action == self@.action,
    {
        self.action
    }

    /// The pieces of the marker to write, in order: where each goes, and its
    /// bytes.
    pub fn marker_writes(&self) -> (pieces: Vec<(u64, Vec<u8>)>)
        requires
            sound(self@),
            self@.action is WriteMarker,
        ensures
            pieces@.len() == self@.writes.len(),
            forall|i: int|
                0 <= i < pieces@.len() ==> (#[trigger] pieces@[i]).0 == self@.writes[i].offset
                    && pieces@[i].1@ == self@.marker.subrange(
                    self@.writes[i].start as int,
                    self@.writes[i].end as int,
                ),
    {
        let mut pieces: Vec<(u64, Vec<u8>)> = Vec::new();
        let mut i: usize = 0;
        while i < self.writes.len()
            invariant
                i <= self.writes@.len(),
                self@.writes == self.writes@,
                self@.marker == self.marker@,
                writes_within(self@.writes, self@.marker.len()),
                pieces@.len() == i,
                forall|j: int|
                    0 <= j < i ==> (#[trigger] pieces@[j]).0 == self@.writes[j].offset
                        && pieces@[j].1@ == self@.marker.subrange(
                        self@.writes[j].start as int,
                        self@.writes[j].end as int,
                    ),
            decreases self.writes@.len() - i,
        {
            let write = self.writes[i];
            assert(self@.writes[i as int] == write);
            let bytes = copy_between(&self.marker, write.start, write.end);
            pieces.push((write.offset, bytes));
            i += 1;
        }
        pieces
    }

    fn at(self, action: AdjustAction) -> (next: AdjustMachine)
        ensures
            next@ == (AdjustState { action, ..self@ }),
    {
        proof {
            use_type_invariant(&self);
        }
        AdjustMachine {
            action,
            source_bytes: self.source_bytes,
            target_bytes: self.target_bytes,
            steps: self.steps,
            resized: self.resized,
            marker: self.marker,
            writes: self.writes,
            blocked: self.blocked,
            observed: self.observed,
        }
    }

    fn with_marker(self, action: AdjustAction, marker: Vec<u8>) -> (next: AdjustMachine)
        ensures
            next@ == (AdjustState { action, marker: marker@, ..self@ }),
    {
        proof {
            use_type_invariant(&self);
        }
        AdjustMachine {
            action,
            source_bytes: self.source_bytes,
            target_bytes: self.target_bytes,
            steps: self.steps,
            resized: self.resized,
            marker,
            writes: self.writes,
            blocked: self.blocked,
            observed: self.observed,
        }
    }

    /// Goes on after what came of the action, or ends the adjustment.
    pub fn accept(self, event: AdjustEvent) -> (next: Result<AdjustMachine, HostBuildError>)
        requires
            sound(self@),
            expects(self@.action, event),
        ensures
            match next {
                Ok(next) => is_adjust_step(self@, event, Ok(next@)) && sound(next@),
                Err(error) => is_adjust_step(self@, event, Err(error@)),
            },
    {
        match event {
            AdjustEvent::Done => self.done(),
            AdjustEvent::Marker { bytes } => {
                if let Err(error) = check_marker(&bytes) {
                    return Err(error);
                }
                Ok(self.with_marker(AdjustAction::EncodeMarker, bytes))
            },
            AdjustEvent::Replacement { updated } => {
                if let Err(error) = check_replacement(&updated, &self.marker) {
                    return Err(error);
                }
                Ok(self.with_marker(AdjustAction::LocateMarker, updated))
            },
            AdjustEvent::Listing { output } => self.located(output),
            AdjustEvent::Measured { blocks } => {
                if let Err(error) = check_resized(blocks, self.target_bytes) {
                    return Err(error);
                }
                proof {
                    use_type_invariant(&self);
                }
                Ok(
                    AdjustMachine {
                        action: AdjustAction::CopySidecars,
                        source_bytes: self.source_bytes,
                        target_bytes: self.target_bytes,
                        steps: self.steps,
                        resized: self.resized,
                        marker: self.marker,
                        writes: self.writes,
                        blocked: self.blocked,
                        observed: Some(self.target_bytes),
                    },
                )
            },
        }
    }

    fn done(self) -> (next: Result<AdjustMachine, HostBuildError>)
        requires
            sound(self@),
            expects(self@.action, AdjustEvent::Done),
        ensures
            match next {
                Ok(next) => is_adjust_step(self@, AdjustEvent::Done, Ok(next@)) && sound(next@),
                Err(error) => is_adjust_step(self@, AdjustEvent::Done, Err(error@)),
            },
    {
        proof {
            use_type_invariant(&self);
        }
        let action = match self.action {
            AdjustAction::PrepareDirectory => AdjustAction::CopyBase,
            AdjustAction::CopyBase => AdjustAction::Resize { step: self.steps[0] },
            AdjustAction::Resize { .. } => {
                return Ok(self.resize_done());
            },
            AdjustAction::WriteMarker => {
                if let Some(error) = self.blocked {
                    return Err(error);
                }
                AdjustAction::VerifyFilesystem
            },
            AdjustAction::VerifyFilesystem => AdjustAction::MeasureTarget,
            AdjustAction::CopySidecars => AdjustAction::HashBase,
            AdjustAction::HashBase => AdjustAction::Publish,
            AdjustAction::Publish => AdjustAction::CleanUp,
            AdjustAction::CleanUp => AdjustAction::Finished,
            other => other,
        };
        Ok(self.at(action))
    }

    fn resize_done(self) -> (next: AdjustMachine)
        requires
            sound(self@),
            self@.action is Resize,
        ensures
            is_adjust_step(self@, AdjustEvent::Done, Ok(next@)),
            sound(next@),
    {
        proof {
            use_type_invariant(&self);
        }
        let resized: usize = self.resized + 1;
        let action = if resized < self.steps.len() {
            AdjustAction::Resize { step: self.steps[resized] }
        } else {
            AdjustAction::ReadMarker
        };
        AdjustMachine {
            action,
            source_bytes: self.source_bytes,
            target_bytes: self.target_bytes,
            steps: self.steps,
            resized,
            marker: self.marker,
            writes: self.writes,
            blocked: self.blocked,
            observed: self.observed,
        }
    }

    fn located(self, output: Vec<u8>) -> (next: Result<AdjustMachine, HostBuildError>)
        requires
            sound(self@),
            self@.action is LocateMarker,
        ensures
            match next {
                Ok(next) => is_adjust_step(
                    self@,
                    AdjustEvent::Listing { output },
                    Ok(next@),
                ) && sound(next@),
                Err(error) => is_adjust_step(
                    self@,
                    AdjustEvent::Listing { output },
                    Err(error@),
                ),
            },
    {
        proof {
            use_type_invariant(&self);
        }
        let blocks = parse_blocks(&output);
        match plan_marker_writes(&blocks, self.marker.len()) {
            Ok(plan) => Ok(
                AdjustMachine {
                    action: AdjustAction::WriteMarker,
                    source_bytes: self.source_bytes,
                    target_bytes: self.target_bytes,
                    steps: self.steps,
                    resized: self.resized,
                    marker: self.marker,
                    writes: plan.writes,
                    blocked: plan.fault,
                    observed: self.observed,
                },
            ),
            Err(error) => Err(error),
        }
    }
}

// ---------------------------------------------------------------------------
// Laws
// ---------------------------------------------------------------------------

/// An adjusted image is published only after its filesystem was resized in
/// every planned step and declares exactly the size that was asked for.
pub proof fn law_only_an_exact_resize_is_published(
    state: AdjustState,
    event: AdjustEvent,
    next: AdjustState,
)
    requires
        sound(state),
        expects(state.action, event),
        is_adjust_step(state, event, Ok(next)),
        next.action is Publish,
    ensures
        state.action is HashBase,
        next.resized == plan_of(next).len(),
        next.observed == Some(next.target_bytes),
{
}

/// The marker in an adjusted image is replaced by one of the same length, so
/// no block of the filesystem is allocated or freed.
pub proof fn law_replacement_keeps_the_markers_length(
    state: AdjustState,
    event: AdjustEvent,
    next: AdjustState,
)
    requires
        sound(state),
        expects(state.action, event),
        is_adjust_step(state, event, Ok(next)),
        state.action is EncodeMarker,
    ensures
        next.action is LocateMarker,
        next.marker.len() == state.marker.len(),
        next.marker.len() > 0,
{
}

/// Every step brings an adjustment closer to its end.
pub proof fn law_every_step_brings_the_adjustment_further(
    state: AdjustState,
    event: AdjustEvent,
    next: AdjustState,
)
    requires
        sound(state),
        expects(state.action, event),
        is_adjust_step(state, event, Ok(next)),
    ensures
        adjust_rank(state.action) < adjust_rank(next.action) || (state.action is Resize
            && next.action is Resize && next.resized == state.resized + 1),
        next.target_bytes == state.target_bytes && next.source_bytes == state.source_bytes,
{
}

/// What follows each step of an adjustment.
pub proof fn law_adjustment_goes_step_by_step(
    machine: AdjustMachine,
    next: Result<AdjustMachine, HostBuildError>,
)
    requires
        sound(machine@),
        expects(machine@.action, AdjustEvent::Done),
        call_ensures(AdjustMachine::accept, (machine, AdjustEvent::Done), next),
    ensures
        next is Ok <==> !(machine@.action is WriteMarker && machine@.blocked),
        next is Ok ==> match machine@.action {
            AdjustAction::PrepareDirectory => next->Ok_0@.action is CopyBase,
            AdjustAction::CopyBase => next->Ok_0@.action is Resize,
            AdjustAction::Resize { .. } => next->Ok_0@.resized == machine@.resized + 1 && (
            next->Ok_0@.action is Resize || (next->Ok_0@.action is ReadMarker
                && next->Ok_0@.resized == plan_of(machine@).len())),
            AdjustAction::WriteMarker => next->Ok_0@.action is VerifyFilesystem,
            AdjustAction::VerifyFilesystem => next->Ok_0@.action is MeasureTarget,
            AdjustAction::CopySidecars => next->Ok_0@.action is HashBase,
            AdjustAction::HashBase => next->Ok_0@.action is Publish,
            AdjustAction::Publish => next->Ok_0@.action is CleanUp,
            AdjustAction::CleanUp => next->Ok_0@.action is Finished,
            _ => false,
        },
        next is Ok ==> next->Ok_0@.marker == machine@.marker && next->Ok_0@.writes
            == machine@.writes && next->Ok_0@.observed == machine@.observed,
        next is Ok ==> (next->Ok_0@.action matches AdjustAction::Resize { step } ==> step
            == plan_of(machine@)[next->Ok_0@.resized as int]),
{
}

/// The marker is read, replaced by one of the same length, and located; the
/// filesystem is accepted where it declares the wanted size.
pub proof fn law_adjustment_replaces_the_marker(
    machine: AdjustMachine,
    event: AdjustEvent,
    next: Result<AdjustMachine, HostBuildError>,
)
    requires
        sound(machine@),
        expects(machine@.action, event),
        call_ensures(AdjustMachine::accept, (machine, event), next),
    ensures
        event matches AdjustEvent::Marker { bytes } ==> (next is Ok <==> bytes@.len() > 0),
        event matches AdjustEvent::Marker { bytes } ==> next is Ok ==> next->Ok_0@.action
            is EncodeMarker && next->Ok_0@.marker == bytes@,
        event matches AdjustEvent::Replacement { updated } ==> (next is Ok <==> updated@.len()
            == machine@.marker.len()),
        event matches AdjustEvent::Replacement { updated } ==> next is Ok ==> next->Ok_0@.action
            is LocateMarker && next->Ok_0@.marker == updated@,
        event matches AdjustEvent::Listing { output } ==> (next is Ok <==> listed_blocks(
            output@,
        ).len() > 0 && machine@.marker.len() <= 4096 * listed_blocks(output@).len()),
        event is Listing && next is Ok ==> next->Ok_0@.action is WriteMarker
            && next->Ok_0@.marker == machine@.marker,
        event matches AdjustEvent::Measured { blocks } ==> (next is Ok <==> 4096 * blocks
            == machine@.target_bytes),
        event is Measured && next is Ok ==> next->Ok_0@.action is CopySidecars
            && next->Ok_0@.observed == Some(machine@.target_bytes),
{
    if event is Listing {
        let length = machine@.marker.len();
        assert(blocks_for(length) == (length + 4095) / 4096);
    }
}

} // verus!
