//! The host's side of the conversation with a workload's guest.

use vstd::prelude::*;

use crate::bytes::{copy_between, extend};
use crate::debug::{list_debug, list_debug_text};
use crate::duration::Duration;
use crate::error::{first_of, run_fault, ErrorMessage, RuntimeError, RuntimeFault};
use crate::image::account::lists_text;
use crate::manifest::ProfileManifest;
use crate::text::{decimal, decimal_text, same_text, texts};

verus! {

/// Most bytes that one read of a frame asks for.
pub const READ_CHUNK: usize = 8 * 1024;

// ---------------------------------------------------------------------------
// Frames
// ---------------------------------------------------------------------------

/// What a frame's header says.
#[derive(Debug, Clone, Copy, PartialEq, Eq, Structural)]
pub struct FrameHeader {
    pub sequence: u64,
    pub payload_len: u32,
}

#[derive(Debug, Clone, Copy, PartialEq, Eq, Structural)]
pub enum FrameSection {
    Header,
    Payload,
}

/// Why the bytes of a frame are refused.
#[derive(Debug, Clone, Copy, PartialEq, Eq, Structural)]
pub enum FrameError {
    SequenceMismatch { wanted: u64, found: u64 },
    PayloadTooLarge { actual: usize, maximum: usize },
    TrailingData { remaining: usize },
    UnexpectedEof { section: FrameSection, expected: usize, received: usize },
}

/// What reading a frame does next.
#[derive(Debug, Clone, Copy, PartialEq, Eq, Structural)]
pub enum FrameStep {
    /// Read at most this many further bytes.
    Read { count: usize },
    /// The frame is complete.
    Complete,
}

/// How a frame is laid out.
#[derive(Debug, Clone, Copy, PartialEq, Eq, Structural)]
pub struct FrameLimits {
    pub header_len: usize,
    pub max_payload: usize,
}

/// How many bytes are wanted before anything else is decided: the header's,
/// and once there is one, those of the whole frame.
pub open spec fn wanted_bytes(
    pending: nat,
    limits: FrameLimits,
    header: FrameHeader,
    sequence: u64,
) -> Result<nat, FrameError> {
    if pending < limits.header_len {
        Ok(limits.header_len as nat)
    } else if header.sequence != sequence {
        Err(FrameError::SequenceMismatch { wanted: sequence, found: header.sequence })
    } else if limits.header_len + header.payload_len > usize::MAX {
        Err(
            FrameError::PayloadTooLarge {
                actual: header.payload_len as usize,
                maximum: limits.max_payload,
            },
        )
    } else {
        Ok((limits.header_len + header.payload_len) as nat)
    }
}

pub open spec fn smaller(left: nat, right: nat) -> nat {
    if left <= right {
        left
    } else {
        right
    }
}

/// What reading a frame does next with so many bytes at hand. The header
/// counts only once all its bytes are there.
pub open spec fn frame_step(
    pending: nat,
    limits: FrameLimits,
    header: FrameHeader,
    sequence: u64,
) -> Result<FrameStep, FrameError> {
    match wanted_bytes(pending, limits, header, sequence) {
        Err(error) => Err(error),
        Ok(wanted) => if pending == wanted {
            Ok(FrameStep::Complete)
        } else if pending > wanted {
            Err(FrameError::TrailingData { remaining: (pending - wanted) as usize })
        } else {
            Ok(
                FrameStep::Read {
                    count: smaller((wanted - pending) as nat, READ_CHUNK as nat) as usize,
                },
            )
        },
    }
}

/// What a stream that ends inside a frame is refused with.
pub open spec fn frame_end(pending: nat, limits: FrameLimits, header: FrameHeader) -> FrameError {
    if pending < limits.header_len {
        FrameError::UnexpectedEof {
            section: FrameSection::Header,
            expected: limits.header_len,
            received: pending as usize,
        }
    } else {
        FrameError::UnexpectedEof {
            section: FrameSection::Payload,
            expected: header.payload_len as usize,
            received: (pending - limits.header_len) as usize,
        }
    }
}

/// What came of waiting for further bytes.
#[derive(Debug)]
pub enum ReadEvent {
    Arrived { bytes: Vec<u8> },
    /// The wait was interrupted, and goes on.
    Interrupted,
    /// The deadline passed.
    TimedOut,
    /// The stream ended.
    Ended,
}

/// Why a frame is not waited for any further.
#[derive(Debug, Clone, Copy, PartialEq, Eq, Structural)]
pub enum FrameStop {
    TimedOut,
    Refused(FrameError),
}

/// What has arrived of a frame after an event: only bytes change it.
pub open spec fn buffer_after(pending: Seq<u8>, event: ReadEvent) -> Seq<u8> {
    match event {
        ReadEvent::Arrived { bytes } => pending + bytes@,
        _ => pending,
    }
}

/// Whether an event ends the wait, and how.
pub open spec fn stop_after(
    pending: nat,
    event: ReadEvent,
    limits: FrameLimits,
    header: FrameHeader,
) -> Option<FrameStop> {
    match event {
        ReadEvent::TimedOut => Some(FrameStop::TimedOut),
        ReadEvent::Ended => Some(FrameStop::Refused(frame_end(pending, limits, header))),
        _ => None,
    }
}

/// The bytes of one frame as they arrive.
///
/// An incomplete header or payload is kept across a bounded timeout.
/// Graceful-stop escalation performs several consecutive waits on the same
/// byte stream; discarding a partial frame at any timeout would permanently
/// desynchronize that stream.
#[derive(Debug)]
pub struct FrameBuffer {
    pending: Vec<u8>,
}

impl View for FrameBuffer {
    type V = Seq<u8>;

    closed spec fn view(&self) -> Seq<u8> {
        self.pending@
    }
}

impl FrameBuffer {
    pub fn new() -> (buffer: FrameBuffer)
        ensures
            buffer@.len() == 0,
    {
        FrameBuffer { pending: Vec::new() }
    }

    /// The bytes of the header, once they are all there.
    pub fn header_bytes(&self, limits: FrameLimits) -> (bytes: Option<Vec<u8>>)
        ensures
            match bytes {
                Some(bytes) => self@.len() >= limits.header_len && bytes@ == self@.take(
                    limits.header_len as int,
                ),
                None => self@.len() < limits.header_len,
            },
    {
        if self.pending.len() < limits.header_len {
            return None;
        }
        let bytes = copy_between(&self.pending, 0, limits.header_len);
        assert(bytes@ =~= self@.take(limits.header_len as int));
        Some(bytes)
    }

    /// What to do next. `header` is what the header's bytes say, and is not
    /// looked at before they are all there.
    pub fn step(&self, limits: FrameLimits, header: FrameHeader, sequence: u64) -> (step: Result<
        FrameStep,
        FrameError,
    >)
        ensures
            step == frame_step(self@.len(), limits, header, sequence),
    {
        let pending: usize = self.pending.len();
        let wanted: usize = if pending < limits.header_len {
            limits.header_len
        } else {
            if header.sequence != sequence {
                return Err(
                    FrameError::SequenceMismatch { wanted: sequence, found: header.sequence },
                );
            }
            match limits.header_len.checked_add(header.payload_len as usize) {
                Some(wanted) => wanted,
                None => {
                    return Err(
                        FrameError::PayloadTooLarge {
                            actual: header.payload_len as usize,
                            maximum: limits.max_payload,
                        },
                    );
                },
            }
        };
        if pending == wanted {
            return Ok(FrameStep::Complete);
        }
        if pending > wanted {
            return Err(FrameError::TrailingData { remaining: pending - wanted });
        }
        let missing: usize = wanted - pending;
        let count: usize = if missing <= READ_CHUNK {
            missing
        } else {
            READ_CHUNK
        };
        Ok(FrameStep::Read { count })
    }

    /// Keeps what a read gave.
    pub fn accept(&mut self, chunk: &[u8])
        ensures
            final(self)@ == old(self)@ + chunk@,
    {
        extend(&mut self.pending, chunk);
    }

    /// Takes what came of waiting for further bytes, and says whether the wait
    /// is over. Nothing that has arrived is given up when it is.
    pub fn receive(&mut self, event: ReadEvent, limits: FrameLimits, header: FrameHeader) -> (stop:
        Option<FrameStop>)
        ensures
            final(self)@ == buffer_after(old(self)@, event),
            stop == stop_after(old(self)@.len(), event, limits, header),
    {
        match event {
            ReadEvent::Arrived { bytes } => {
                self.accept(&bytes);
                None
            },
            ReadEvent::Interrupted => None,
            ReadEvent::TimedOut => Some(FrameStop::TimedOut),
            ReadEvent::Ended => Some(FrameStop::Refused(self.end(limits, header))),
        }
    }

    /// Why the end of the stream is refused here.
    pub fn end(&self, limits: FrameLimits, header: FrameHeader) -> (error: FrameError)
        ensures
            error == frame_end(self@.len(), limits, header),
    {
        let pending: usize = self.pending.len();
        if pending < limits.header_len {
            FrameError::UnexpectedEof {
                section: FrameSection::Header,
                expected: limits.header_len,
                received: pending,
            }
        } else {
            FrameError::UnexpectedEof {
                section: FrameSection::Payload,
                expected: header.payload_len as usize,
                received: pending - limits.header_len,
            }
        }
    }

    /// Hands the complete frame out and starts the next one.
    pub fn take(&mut self) -> (frame: Vec<u8>)
        ensures
            frame@ == old(self)@,
            final(self)@.len() == 0,
    {
        let mut frame: Vec<u8> = Vec::new();
        std::mem::swap(&mut frame, &mut self.pending);
        frame
    }
}

/// A read never reaches past the frame: with what it asked for at most, the
/// buffer holds no more than is wanted, and every read asks for something.
pub proof fn law_reads_stop_at_the_frame_end(
    pending: nat,
    limits: FrameLimits,
    header: FrameHeader,
    sequence: u64,
    received: nat,
)
    requires
        frame_step(pending, limits, header, sequence) matches Ok(FrameStep::Read { count })
            && received <= count,
    ensures
        frame_step(pending, limits, header, sequence)->Ok_0->count > 0,
        pending + received <= wanted_bytes(pending, limits, header, sequence)->Ok_0,
        frame_step(pending, limits, header, sequence)->Ok_0->count <= READ_CHUNK,
{
}

/// A frame that arrives in pieces is complete exactly when all its bytes are
/// there: the header's and those of the payload it announces.
pub proof fn law_complete_frame_has_its_announced_length(
    pending: nat,
    limits: FrameLimits,
    header: FrameHeader,
    sequence: u64,
)
    requires
        pending >= limits.header_len,
        frame_step(pending, limits, header, sequence) == Ok::<_, FrameError>(FrameStep::Complete),
    ensures
        pending == limits.header_len + header.payload_len,
        header.sequence == sequence,
{
}

/// What has arrived of a frame after all events, those of calls that timed out
/// among them.
pub open spec fn arrived(events: Seq<ReadEvent>) -> Seq<u8>
    decreases events.len(),
{
    if events.len() == 0 {
        Seq::empty()
    } else {
        buffer_after(arrived(events.drop_last()), events.last())
    }
}

/// Whether every read gave the next bytes of a stream, at least one and no more
/// than it was asked for.
pub open spec fn reads_from(
    stream: Seq<u8>,
    events: Seq<ReadEvent>,
    limits: FrameLimits,
    header: FrameHeader,
    sequence: u64,
) -> bool
    decreases events.len(),
{
    events.len() > 0 ==> {
        let before = arrived(events.drop_last());
        &&& reads_from(stream, events.drop_last(), limits, header, sequence)
        &&& events.last() matches ReadEvent::Arrived { bytes } ==> {
            &&& before.len() + bytes@.len() <= stream.len()
            &&& bytes@ == stream.subrange(
                before.len() as int,
                (before.len() + bytes@.len()) as int,
            )
            &&& frame_step(before.len(), limits, header, sequence) matches Ok(
                FrameStep::Read { count },
            ) && 0 < bytes@.len() <= count
        }
    }
}

/// However a stream cuts its next frame into pieces, and however many waits
/// time out in between, what has arrived is the beginning of the frame. As long
/// as bytes of it are missing they are asked for, and none behind it; once they
/// are all there the frame is complete, and it is the one that was sent.
pub proof fn law_frame_survives_every_pause(
    frame: Seq<u8>,
    behind: Seq<u8>,
    events: Seq<ReadEvent>,
    limits: FrameLimits,
    header: FrameHeader,
)
    requires
        frame.len() == limits.header_len + header.payload_len <= usize::MAX,
        reads_from(frame + behind, events, limits, header, header.sequence),
    ensures
        arrived(events).len() <= frame.len(),
        arrived(events) == frame.take(arrived(events).len() as int),
        arrived(events).len() < frame.len() ==> (frame_step(
            arrived(events).len(),
            limits,
            header,
            header.sequence,
        ) matches Ok(FrameStep::Read { count }) && 0 < count <= frame.len() - arrived(
            events,
        ).len()),
        arrived(events).len() == frame.len() ==> arrived(events) == frame && frame_step(
            frame.len(),
            limits,
            header,
            header.sequence,
        ) == Ok::<_, FrameError>(FrameStep::Complete),
        forall|event: ReadEvent|
            event is TimedOut ==> #[trigger] arrived(events.push(event)) == arrived(events),
    decreases events.len(),
{
    assert forall|event: ReadEvent| event is TimedOut implies #[trigger] arrived(
        events.push(event),
    ) == arrived(events) by {
        assert(events.push(event).drop_last() =~= events);
    }
    if events.len() > 0 {
        let before = arrived(events.drop_last());
        law_frame_survives_every_pause(frame, behind, events.drop_last(), limits, header);
        if let ReadEvent::Arrived { bytes } = events.last() {
            let now = (before.len() + bytes@.len()) as int;
            assert(before + bytes@ =~= frame.take(now));
        }
    } else {
        assert(frame.take(0) =~= Seq::<u8>::empty());
    }
    if arrived(events).len() == frame.len() {
        assert(frame.take(frame.len() as int) =~= frame);
    }
}

// ---------------------------------------------------------------------------
// Hello
// ---------------------------------------------------------------------------

/// What a workload's guest says of itself.
#[derive(Debug, Clone)]
pub struct Hello {
    pub guest_contract_id: String,
    pub init_build_id: String,
    pub kernel_build_id: String,
    pub host_elf_machine: u16,
    pub guest_uts_machine: String,
    pub guest_page_size: u32,
    pub cpu_state_hwcap_policy: String,
    pub features: Vec<String>,
    pub online_cpus: u16,
    pub accepted_physmem_bytes: u64,
    pub guest_capability_policy: String,
}

pub open spec fn hello_mismatch(
    field: Seq<char>,
    expected: Seq<char>,
    actual: Seq<char>,
) -> RuntimeFault {
    RuntimeFault::HelloMismatch { field, expected, actual }
}

/// Why a text is refused, if it is.
pub open spec fn text_mismatch(
    field: Seq<char>,
    expected: Seq<char>,
    actual: Seq<char>,
) -> Option<RuntimeFault> {
    if expected != actual {
        Some(hello_mismatch(field, expected, actual))
    } else {
        None
    }
}

/// Why a number is refused, if it is.
pub open spec fn number_mismatch(field: Seq<char>, expected: nat, actual: nat) -> Option<
    RuntimeFault,
> {
    if expected != actual {
        Some(hello_mismatch(field, decimal(expected), decimal(actual)))
    } else {
        None
    }
}

/// Refuses a text that is not the expected one.
pub fn compare(field: &'static str, expected: &str, actual: &str) -> (checked: Result<
    (),
    RuntimeError,
>)
    ensures
        run_fault(checked) == text_mismatch(field@, expected@, actual@),
{
    if !same_text(expected, actual) {
        return Err(
            RuntimeError::HelloMismatch {
                field,
                expected: expected.to_owned(),
                actual: actual.to_owned(),
            },
        );
    }
    Ok(())
}

/// Refuses a number that is not the expected one.
pub fn compare_number(field: &'static str, expected: u64, actual: u64) -> (checked: Result<
    (),
    RuntimeError,
>)
    ensures
        run_fault(checked) == number_mismatch(field@, expected as nat, actual as nat),
{
    if expected != actual {
        return Err(
            RuntimeError::HelloMismatch {
                field,
                expected: decimal_text(expected),
                actual: decimal_text(actual),
            },
        );
    }
    Ok(())
}

/// Why the first missing feature is refused, if one is missing.
pub open spec fn missing_feature_fault(
    required: Seq<Seq<char>>,
    features: Seq<Seq<char>>,
) -> Option<RuntimeFault>
    decreases required.len(),
{
    if required.len() == 0 {
        None
    } else {
        first_of(
            missing_feature_fault(required.drop_last(), features),
            if features.contains(required.last()) {
                None
            } else {
                Some(hello_mismatch("features"@, required.last(), list_debug(features)))
            },
        )
    }
}

proof fn lemma_feature_prefix(required: Seq<Seq<char>>, features: Seq<Seq<char>>, n: int)
    requires
        0 <= n <= required.len(),
        missing_feature_fault(required.take(n), features) is Some,
    ensures
        missing_feature_fault(required, features) == missing_feature_fault(
            required.take(n),
            features,
        ),
    decreases required.len(),
{
    if n == required.len() {
        assert(required.take(n) =~= required);
    } else {
        assert(required.drop_last().take(n) =~= required.take(n));
        lemma_feature_prefix(required.drop_last(), features, n);
    }
}

fn check_features(required: &Vec<String>, features: &Vec<String>) -> (checked: Result<
    (),
    RuntimeError,
>)
    ensures
        run_fault(checked) == missing_feature_fault(texts(required@), texts(features@)),
{
    let ghost all = texts(required@);
    let mut i: usize = 0;
    assert(all.take(0) =~= Seq::<Seq<char>>::empty());
    while i < required.len()
        invariant
            i <= required@.len(),
            all == texts(required@),
            missing_feature_fault(all.take(i as int), texts(features@)) is None,
        decreases required@.len() - i,
    {
        assert(all.take(i + 1).drop_last() =~= all.take(i as int));
        assert(all.take(i + 1).last() == required@[i as int]@);
        if !lists_text(features, &required[i]) {
            proof {
                lemma_feature_prefix(all, texts(features@), i + 1);
            }
            return Err(
                RuntimeError::HelloMismatch {
                    field: "features",
                    expected: required[i].clone(),
                    actual: list_debug_text(features),
                },
            );
        }
        i += 1;
    }
    assert(all.take(i as int) =~= all);
    Ok(())
}

/// Why the identity of a guest is refused, if it is.
pub open spec fn identity_fault(manifest: ProfileManifest, hello: Hello) -> Option<RuntimeFault> {
    first_of(
        text_mismatch(
            "guest_contract_id"@,
            manifest.hello.guest_contract_id@,
            hello.guest_contract_id@,
        ),
        first_of(
            text_mismatch("init_build_id"@, manifest.hello.init_build_id@, hello.init_build_id@),
            first_of(
                text_mismatch(
                    "kernel_build_id"@,
                    manifest.hello.kernel_build_id@,
                    hello.kernel_build_id@,
                ),
                number_mismatch(
                    "host_elf_machine"@,
                    manifest.host_elf_machine as nat,
                    hello.host_elf_machine as nat,
                ),
            ),
        ),
    )
}

/// Why the machine of a guest is refused, if it is.
pub open spec fn machine_fault(manifest: ProfileManifest, hello: Hello) -> Option<RuntimeFault> {
    first_of(
        text_mismatch("guest_uts_machine"@, "x86_64"@, hello.guest_uts_machine@),
        first_of(
            number_mismatch(
                "guest_page_size"@,
                manifest.guest_page_size as nat,
                hello.guest_page_size as nat,
            ),
            first_of(
                text_mismatch(
                    "cpu_state_hwcap_policy"@,
                    manifest.contracts.cpu_state_hwcap_policy@,
                    hello.cpu_state_hwcap_policy@,
                ),
                text_mismatch(
                    "guest_capability_policy"@,
                    manifest.contracts.guest_capability_policy@,
                    hello.guest_capability_policy@,
                ),
            ),
        ),
    )
}

/// Why a guest's hello is refused, if it is. `online` is what the CPU rules
/// say of the CPUs that the guest has online.
pub open spec fn hello_fault(
    manifest: ProfileManifest,
    online: Result<(), String>,
    memory_bytes: u64,
    hello: Hello,
) -> Option<RuntimeFault> {
    first_of(
        identity_fault(manifest, hello),
        first_of(
            machine_fault(manifest, hello),
            match online {
                Err(reason) => Some(RuntimeFault::Cpu { reason: reason@ }),
                Ok(()) => first_of(
                    number_mismatch(
                        "accepted_physmem_bytes"@,
                        memory_bytes as nat,
                        hello.accepted_physmem_bytes as nat,
                    ),
                    missing_feature_fault(
                        texts(manifest.hello.required_features@),
                        texts(hello.features@),
                    ),
                ),
            },
        ),
    )
}

fn check_identity(manifest: &ProfileManifest, hello: &Hello) -> (checked: Result<(), RuntimeError>)
    ensures
        run_fault(checked) == identity_fault(*manifest, *hello),
{
    if let Err(error) = compare(
        "guest_contract_id",
        &manifest.hello.guest_contract_id,
        &hello.guest_contract_id,
    ) {
        return Err(error);
    }
    if let Err(error) = compare(
        "init_build_id",
        &manifest.hello.init_build_id,
        &hello.init_build_id,
    ) {
        return Err(error);
    }
    if let Err(error) = compare(
        "kernel_build_id",
        &manifest.hello.kernel_build_id,
        &hello.kernel_build_id,
    ) {
        return Err(error);
    }
    compare_number(
        "host_elf_machine",
        manifest.host_elf_machine as u64,
        hello.host_elf_machine as u64,
    )
}

fn check_machine(manifest: &ProfileManifest, hello: &Hello) -> (checked: Result<(), RuntimeError>)
    ensures
        run_fault(checked) == machine_fault(*manifest, *hello),
{
    if let Err(error) = compare("guest_uts_machine", "x86_64", &hello.guest_uts_machine) {
        return Err(error);
    }
    if let Err(error) = compare_number(
        "guest_page_size",
        manifest.guest_page_size as u64,
        hello.guest_page_size as u64,
    ) {
        return Err(error);
    }
    if let Err(error) = compare(
        "cpu_state_hwcap_policy",
        &manifest.contracts.cpu_state_hwcap_policy,
        &hello.cpu_state_hwcap_policy,
    ) {
        return Err(error);
    }
    compare(
        "guest_capability_policy",
        &manifest.contracts.guest_capability_policy,
        &hello.guest_capability_policy,
    )
}

/// Refuses a guest that is not exactly the profile's, or that was not given
/// the CPUs and the memory that were asked for.
pub fn verify_hello(
    manifest: &ProfileManifest,
    online: Result<(), String>,
    memory_bytes: u64,
    hello: &Hello,
) -> (checked: Result<(), RuntimeError>)
    ensures
        run_fault(checked) == hello_fault(*manifest, online, memory_bytes, *hello),
{
    if let Err(error) = check_identity(manifest, hello) {
        return Err(error);
    }
    if let Err(error) = check_machine(manifest, hello) {
        return Err(error);
    }
    if let Err(reason) = online {
        return Err(RuntimeError::Cpu { reason });
    }
    if let Err(error) = compare_number(
        "accepted_physmem_bytes",
        memory_bytes,
        hello.accepted_physmem_bytes,
    ) {
        return Err(error);
    }
    check_features(&manifest.hello.required_features, &hello.features)
}

// ---------------------------------------------------------------------------
// Messages
// ---------------------------------------------------------------------------

/// A workload is ready: who runs it, and where.
#[derive(Debug, Clone)]
pub struct Ready {
    pub guest_pid: u32,
    pub effective_uid: u32,
    pub effective_gid: u32,
    pub cwd: String,
}

/// How a workload ended.
#[derive(Debug, Clone, Copy, PartialEq, Eq, Structural)]
pub struct Exit {
    pub code: Option<u8>,
    pub signal: Option<u16>,
    pub elapsed_ns: u64,
    pub filesystem_clean: bool,
}

/// A message from a workload's guest. `Other` stands for one that only the
/// host may send.
#[derive(Debug)]
pub enum WorkloadMessage {
    Hello(Hello),
    Ready(Ready),
    Exit(Exit),
    Error(ErrorMessage),
    Other,
}

/// What a message that is not the awaited one comes to: the guest's own error,
/// or a refusal with the given reason.
pub open spec fn other_message(stage: Seq<char>, message: WorkloadMessage, reason: Seq<char>) -> RuntimeFault {
    match message {
        WorkloadMessage::Error(message) => RuntimeFault::Guest { stage, message },
        _ => RuntimeFault::Protocol { reason },
    }
}

fn refuse_message(stage: &'static str, message: WorkloadMessage, reason: &str) -> (error:
    RuntimeError)
    ensures
        error@ == other_message(stage@, message, reason@),
{
    match message {
        WorkloadMessage::Error(message) => RuntimeError::Guest { stage, message },
        _ => RuntimeError::Protocol { reason: reason.to_owned() },
    }
}

/// Takes the first message, which must be the guest's hello. `reason` says of
/// another kind that it is not the awaited one.
pub fn receive_hello(message: WorkloadMessage, reason: &str) -> (hello: Result<Hello, RuntimeError>)
    ensures
        match hello {
            Ok(hello) => message == WorkloadMessage::Hello(hello),
            Err(error) => !(message is Hello) && error@ == other_message(
                "HELLO"@,
                message,
                reason@,
            ),
        },
{
    match message {
        WorkloadMessage::Hello(hello) => Ok(hello),
        other => Err(refuse_message("HELLO", other, reason)),
    }
}

/// Takes the message after the start, which must say that the workload is
/// ready.
pub fn receive_ready(message: WorkloadMessage, reason: &str) -> (ready: Result<Ready, RuntimeError>)
    ensures
        match ready {
            Ok(ready) => message == WorkloadMessage::Ready(ready),
            Err(error) => !(message is Ready) && error@ == other_message(
                "READY"@,
                message,
                reason@,
            ),
        },
{
    match message {
        WorkloadMessage::Ready(ready) => Ok(ready),
        other => Err(refuse_message("READY", other, reason)),
    }
}

/// Takes the message that ends a workload.
pub fn receive_terminal(message: WorkloadMessage, reason: &str) -> (exit: Result<
    Exit,
    RuntimeError,
>)
    ensures
        match exit {
            Ok(exit) => message == WorkloadMessage::Exit(exit),
            Err(error) => !(message is Exit) && error@ == other_message(
                "RUNNING"@,
                message,
                reason@,
            ),
        },
{
    match message {
        WorkloadMessage::Exit(exit) => Ok(exit),
        other => Err(refuse_message("RUNNING", other, reason)),
    }
}

/// Why a control-protocol failure happened: a deadline that passed, or
/// anything else.
pub fn classify_protocol(
    timed_out: bool,
    reason: &str,
    stage: &'static str,
    timeout: Duration,
) -> (error: RuntimeError)
    ensures
        error@ == if timed_out {
            RuntimeFault::Timeout { stage: stage@, timeout: timeout@ }
        } else {
            RuntimeFault::Protocol { reason: reason@ }
        },
{
    if timed_out {
        RuntimeError::Timeout { stage, timeout }
    } else {
        RuntimeError::Protocol { reason: reason.to_owned() }
    }
}

/// A guest is the expected one exactly where every identity, the machine, the
/// policies and the memory are those of the profile and of the run, and where no
/// required feature is missing.
pub proof fn law_accepted_guest_is_the_profiles(
    manifest: ProfileManifest,
    online: Result<(), String>,
    memory_bytes: u64,
    hello: Hello,
    checked: Result<(), RuntimeError>,
)
    requires
        call_ensures(verify_hello, (&manifest, online, memory_bytes, &hello), checked),
    ensures
        checked is Ok <==> {
            &&& hello.guest_contract_id@ == manifest.hello.guest_contract_id@
            &&& hello.init_build_id@ == manifest.hello.init_build_id@
            &&& hello.kernel_build_id@ == manifest.hello.kernel_build_id@
            &&& hello.host_elf_machine == manifest.host_elf_machine
            &&& hello.guest_uts_machine@ == "x86_64"@
            &&& hello.guest_page_size == manifest.guest_page_size
            &&& hello.cpu_state_hwcap_policy@ == manifest.contracts.cpu_state_hwcap_policy@
            &&& hello.guest_capability_policy@ == manifest.contracts.guest_capability_policy@
            &&& online is Ok
            &&& hello.accepted_physmem_bytes == memory_bytes
            &&& forall|i: int|
                0 <= i < manifest.hello.required_features@.len() ==> texts(
                    hello.features@,
                ).contains((#[trigger] manifest.hello.required_features@[i])@)
        },
{
    let required = manifest.hello.required_features@;
    lemma_missing_feature(texts(required), texts(hello.features@));
    assert forall|i: int| 0 <= i < required.len() implies texts(required)[i]
        == (#[trigger] required[i])@ by {}
    if forall|i: int|
        0 <= i < required.len() ==> texts(hello.features@).contains(
            (#[trigger] required[i])@,
        ) {
        assert forall|i: int| 0 <= i < texts(required).len() implies texts(
            hello.features@,
        ).contains(#[trigger] texts(required)[i]) by {
            assert(required[i]@ == texts(required)[i]);
        }
    }
    if forall|i: int|
        0 <= i < texts(required).len() ==> texts(hello.features@).contains(
            #[trigger] texts(required)[i],
        ) {
        assert forall|i: int| 0 <= i < required.len() implies texts(hello.features@).contains(
            (#[trigger] required[i])@,
        ) by {
            assert(required[i]@ == texts(required)[i]);
        }
    }
}

proof fn lemma_missing_feature(required: Seq<Seq<char>>, features: Seq<Seq<char>>)
    ensures
        missing_feature_fault(required, features) is None <==> forall|i: int|
            0 <= i < required.len() ==> features.contains(#[trigger] required[i]),
    decreases required.len(),
{
    if required.len() > 0 {
        let front = required.drop_last();
        lemma_missing_feature(front, features);
        if missing_feature_fault(required, features) is None {
            assert forall|i: int| 0 <= i < required.len() implies features.contains(
                #[trigger] required[i],
            ) by {
                if i < front.len() {
                    assert(front[i] == required[i]);
                }
            }
        }
        if forall|i: int| 0 <= i < required.len() ==> features.contains(#[trigger] required[i]) {
            assert forall|i: int| 0 <= i < front.len() implies features.contains(
                #[trigger] front[i],
            ) by {
                assert(front[i] == required[i]);
            }
            assert(required[required.len() - 1] == required.last());
        }
    }
}

/// Where a step wants more bytes, it never wants more than the frame or 8 KiB; a
/// frame of another sequence number is refused with both numbers; bytes behind
/// the frame are refused with their count.
pub proof fn law_frames_keep_their_sequence(
    pending: nat,
    limits: FrameLimits,
    header: FrameHeader,
    sequence: u64,
)
    requires
        limits.header_len + header.payload_len <= usize::MAX,
        pending <= usize::MAX,
    ensures
        pending < limits.header_len ==> (frame_step(pending, limits, header, sequence) matches Ok(
            FrameStep::Read { count },
        ) && count <= 8192 && count <= limits.header_len - pending),
        pending >= limits.header_len && header.sequence != sequence ==> frame_step(
            pending,
            limits,
            header,
            sequence,
        ) == Err::<FrameStep, _>(
            FrameError::SequenceMismatch { wanted: sequence, found: header.sequence },
        ),
        header.sequence == sequence && pending > limits.header_len + header.payload_len
            ==> frame_step(pending, limits, header, sequence) == Err::<FrameStep, _>(
            FrameError::TrailingData {
                remaining: (pending - limits.header_len - header.payload_len) as usize,
            },
        ),
        header.sequence == sequence && limits.header_len <= pending < limits.header_len
            + header.payload_len ==> (frame_step(pending, limits, header, sequence) matches Ok(
            FrameStep::Read { count },
        ) && count <= 8192 && count <= limits.header_len + header.payload_len - pending),
{
}

/// A stream that ends early says which part it left short, how long that part
/// is and how much of it came.
pub proof fn law_early_end_says_what_is_short(
    pending: nat,
    limits: FrameLimits,
    header: FrameHeader,
)
    requires
        pending <= usize::MAX,
    ensures
        pending < limits.header_len ==> frame_end(pending, limits, header) == (
        FrameError::UnexpectedEof {
            section: FrameSection::Header,
            expected: limits.header_len,
            received: pending as usize,
        }),
        pending >= limits.header_len ==> frame_end(pending, limits, header) == (
        FrameError::UnexpectedEof {
            section: FrameSection::Payload,
            expected: header.payload_len as usize,
            received: (pending - limits.header_len) as usize,
        }),
        forall|event: ReadEvent|
            #![trigger stop_after(pending, event, limits, header)]
            stop_after(pending, event, limits, header) is Some <==> event is TimedOut || event
                is Ended,
{
}

/// Each stage takes its own message and no other; a guest's error is passed on
/// with the stage that it came in.
pub proof fn law_each_stage_takes_its_message(
    message: WorkloadMessage,
    reason: &str,
    hello: Result<Hello, RuntimeError>,
    ready: Result<Ready, RuntimeError>,
    exit: Result<Exit, RuntimeError>,
)
    requires
        call_ensures(receive_hello, (message, reason), hello),
        call_ensures(receive_ready, (message, reason), ready),
        call_ensures(receive_terminal, (message, reason), exit),
    ensures
        message matches WorkloadMessage::Hello(told) ==> hello == Ok::<_, RuntimeError>(told),
        message matches WorkloadMessage::Ready(told) ==> ready == Ok::<_, RuntimeError>(told),
        message matches WorkloadMessage::Exit(told) ==> exit == Ok::<_, RuntimeError>(told),
        !(message is Hello) <==> hello is Err,
        !(message is Ready) <==> ready is Err,
        !(message is Exit) <==> exit is Err,
        message matches WorkloadMessage::Error(told) ==> {
            &&& hello->Err_0@ == (RuntimeFault::Guest { stage: "HELLO"@, message: told })
            &&& ready->Err_0@ == (RuntimeFault::Guest { stage: "READY"@, message: told })
            &&& exit->Err_0@ == (RuntimeFault::Guest { stage: "RUNNING"@, message: told })
        },
        message is Other ==> {
            &&& hello->Err_0@ == (RuntimeFault::Protocol { reason: reason@ })
            &&& ready->Err_0@ == (RuntimeFault::Protocol { reason: reason@ })
            &&& exit->Err_0@ == (RuntimeFault::Protocol { reason: reason@ })
        },
{
}

/// A passed deadline is told as one, with its stage and its length, and nothing
/// else is.
pub proof fn law_deadline_is_told_as_one(
    timed_out: bool,
    reason: &str,
    stage: &'static str,
    timeout: Duration,
    error: RuntimeError,
)
    requires
        call_ensures(classify_protocol, (timed_out, reason, stage, timeout), error),
    ensures
        timed_out ==> error@ == (RuntimeFault::Timeout { stage: stage@, timeout: timeout@ }),
        !timed_out ==> error@ == (RuntimeFault::Protocol { reason: reason@ }),
{
}

/// A buffer holds what arrived in its order, stops at a deadline or at the end
/// of the stream, and is empty once its frame is taken.
pub proof fn law_buffer_holds_what_arrived(
    buffer: &mut FrameBuffer,
    chunk: &[u8],
)
    requires
        call_ensures(FrameBuffer::accept, (buffer, chunk), ()),
    ensures
        final(buffer)@ == old(buffer)@ + chunk@,
{
}

/// What an event does to a buffer: bytes are added, everything else leaves it as
/// it is; a passed deadline and the end of the stream stop it.
pub proof fn law_buffer_stops_at_the_deadline(
    buffer: &mut FrameBuffer,
    event: ReadEvent,
    limits: FrameLimits,
    header: FrameHeader,
    stop: Option<FrameStop>,
)
    requires
        call_ensures(FrameBuffer::receive, (buffer, event, limits, header), stop),
    ensures
        event matches ReadEvent::Arrived { bytes } ==> final(buffer)@ == old(buffer)@ + bytes@,
        !(event is Arrived) ==> final(buffer)@ == old(buffer)@,
        event is Arrived || event is Interrupted ==> stop is None,
        event is TimedOut ==> stop == Some(FrameStop::TimedOut),
        event is Ended ==> stop == Some(
            FrameStop::Refused(frame_end(old(buffer)@.len(), limits, header)),
        ),
{
}

/// A taken frame is all that the buffer held, and leaves it empty.
pub proof fn law_taken_frame_is_the_whole(
    buffer: &mut FrameBuffer,
    frame: Vec<u8>,
    other: FrameBuffer,
    limits: FrameLimits,
    header: FrameHeader,
    sequence: u64,
    bytes: Option<Vec<u8>>,
    step: Result<FrameStep, FrameError>,
)
    requires
        call_ensures(FrameBuffer::take, (buffer,), frame),
        call_ensures(FrameBuffer::header_bytes, (&other, limits), bytes),
        call_ensures(FrameBuffer::step, (&other, limits, header, sequence), step),
    ensures
        frame@ == old(buffer)@,
        final(buffer)@.len() == 0,
        bytes is Some <==> other@.len() >= limits.header_len,
        bytes matches Some(bytes) ==> bytes@ == other@.take(limits.header_len as int),
        step == frame_step(other@.len(), limits, header, sequence),
{
}

/// A refused guest is told of the first thing that differs, with what the
/// profile expects and what the guest says, in this order.
pub proof fn law_refused_guest_is_told_why(
    manifest: ProfileManifest,
    online: Result<(), String>,
    memory_bytes: u64,
    hello: Hello,
    checked: Result<(), RuntimeError>,
)
    requires
        call_ensures(verify_hello, (&manifest, online, memory_bytes, &hello), checked),
    ensures
        run_fault(checked) == (if hello.guest_contract_id@ != manifest.hello.guest_contract_id@ {
            Some(
                RuntimeFault::HelloMismatch {
                    field: "guest_contract_id"@,
                    expected: manifest.hello.guest_contract_id@,
                    actual: hello.guest_contract_id@,
                },
            )
        } else if hello.init_build_id@ != manifest.hello.init_build_id@ {
            Some(
                RuntimeFault::HelloMismatch {
                    field: "init_build_id"@,
                    expected: manifest.hello.init_build_id@,
                    actual: hello.init_build_id@,
                },
            )
        } else if hello.kernel_build_id@ != manifest.hello.kernel_build_id@ {
            Some(
                RuntimeFault::HelloMismatch {
                    field: "kernel_build_id"@,
                    expected: manifest.hello.kernel_build_id@,
                    actual: hello.kernel_build_id@,
                },
            )
        } else if hello.host_elf_machine != manifest.host_elf_machine {
            Some(
                RuntimeFault::HelloMismatch {
                    field: "host_elf_machine"@,
                    expected: decimal(manifest.host_elf_machine as nat),
                    actual: decimal(hello.host_elf_machine as nat),
                },
            )
        } else if hello.guest_uts_machine@ != "x86_64"@ {
            Some(
                RuntimeFault::HelloMismatch {
                    field: "guest_uts_machine"@,
                    expected: "x86_64"@,
                    actual: hello.guest_uts_machine@,
                },
            )
        } else if hello.guest_page_size != manifest.guest_page_size {
            Some(
                RuntimeFault::HelloMismatch {
                    field: "guest_page_size"@,
                    expected: decimal(manifest.guest_page_size as nat),
                    actual: decimal(hello.guest_page_size as nat),
                },
            )
        } else if hello.cpu_state_hwcap_policy@ != manifest.contracts.cpu_state_hwcap_policy@ {
            Some(
                RuntimeFault::HelloMismatch {
                    field: "cpu_state_hwcap_policy"@,
                    expected: manifest.contracts.cpu_state_hwcap_policy@,
                    actual: hello.cpu_state_hwcap_policy@,
                },
            )
        } else if hello.guest_capability_policy@ != manifest.contracts.guest_capability_policy@ {
            Some(
                RuntimeFault::HelloMismatch {
                    field: "guest_capability_policy"@,
                    expected: manifest.contracts.guest_capability_policy@,
                    actual: hello.guest_capability_policy@,
                },
            )
        } else if let Err(reason) = online {
            Some(RuntimeFault::Cpu { reason: reason@ })
        } else if hello.accepted_physmem_bytes != memory_bytes {
            Some(
                RuntimeFault::HelloMismatch {
                    field: "accepted_physmem_bytes"@,
                    expected: decimal(memory_bytes as nat),
                    actual: decimal(hello.accepted_physmem_bytes as nat),
                },
            )
        } else {
            missing_feature_fault(texts(manifest.hello.required_features@), texts(hello.features@))
        }),
{
}

/// A missing feature is told by its name, beside all that the guest has; the
/// first that is missing is told.
pub proof fn law_missing_feature_is_named(
    required: Seq<Seq<char>>,
    features: Seq<Seq<char>>,
    first: int,
)
    requires
        0 <= first < required.len(),
        !features.contains(required[first]),
        forall|i: int| 0 <= i < first ==> features.contains(#[trigger] required[i]),
    ensures
        missing_feature_fault(required, features) == Some(
            RuntimeFault::HelloMismatch {
                field: "features"@,
                expected: required[first],
                actual: list_debug(features),
            },
        ),
{
    let found = required.take(first + 1);
    assert(found.drop_last() =~= required.take(first));
    lemma_missing_feature(required.take(first), features);
    assert(found.last() == required[first]);
    lemma_feature_prefix(required, features, first + 1);
}

} // verus!
