//! What the rules refuse, and how a refusal reads in contracts.

use vstd::prelude::*;

use crate::duration::Duration;

verus! {

/// A profile manifest or one of its artifacts is refused.
#[allow(inconsistent_fields)]
#[derive(Debug)]
pub enum ManifestError {
    Io { operation: &'static str, path: String, reason: String },
    Json { path: String, reason: String },
    ManagedPath { reason: String },
    TooLarge { path: String, maximum: usize },
    InvalidField { field: &'static str, reason: String },
    UnsupportedContract { field: &'static str, value: String },
    RevisionMismatch { declared: String, computed: String },
    PublishConflict { path: String },
    ArtifactPath { path: String, reason: &'static str },
    ArtifactResolution { path: String },
    ArtifactType { path: String },
    ArtifactMode { path: String, mode: u32, reason: &'static str },
    ArtifactCapability { path: String },
    ArtifactSize { path: String, expected: u64, actual: u64 },
    ArtifactDigest { path: String, expected: String, actual: String },
    Elf { path: String, reason: String },
    KernelConfig { path: String, setting: String, expected: String, actual: String },
    Cpu { reason: String },
    Memory { reason: String },
    Truncated { operation: &'static str, path: String },
}

/// A `ManifestError` with its strings read as text.
#[allow(inconsistent_fields)]
pub enum ManifestFault {
    Io { operation: Seq<char>, path: Seq<char>, reason: Seq<char> },
    Json { path: Seq<char>, reason: Seq<char> },
    ManagedPath { reason: Seq<char> },
    TooLarge { path: Seq<char>, maximum: usize },
    InvalidField { field: Seq<char>, reason: Seq<char> },
    UnsupportedContract { field: Seq<char>, value: Seq<char> },
    RevisionMismatch { declared: Seq<char>, computed: Seq<char> },
    PublishConflict { path: Seq<char> },
    ArtifactPath { path: Seq<char>, reason: Seq<char> },
    ArtifactResolution { path: Seq<char> },
    ArtifactType { path: Seq<char> },
    ArtifactMode { path: Seq<char>, mode: u32, reason: Seq<char> },
    ArtifactCapability { path: Seq<char> },
    ArtifactSize { path: Seq<char>, expected: u64, actual: u64 },
    ArtifactDigest { path: Seq<char>, expected: Seq<char>, actual: Seq<char> },
    Elf { path: Seq<char>, reason: Seq<char> },
    KernelConfig {
        path: Seq<char>,
        setting: Seq<char>,
        expected: Seq<char>,
        actual: Seq<char>,
    },
    Cpu { reason: Seq<char> },
    Memory { reason: Seq<char> },
    Truncated { operation: Seq<char>, path: Seq<char> },
}

impl View for ManifestError {
    type V = ManifestFault;

    open spec fn view(&self) -> ManifestFault {
        match *self {
            ManifestError::Io { operation, path, reason } => ManifestFault::Io {
                operation: operation@,
                path: path@,
                reason: reason@,
            },
            ManifestError::Json { path, reason } => ManifestFault::Json {
                path: path@,
                reason: reason@,
            },
            ManifestError::ManagedPath { reason } => ManifestFault::ManagedPath {
                reason: reason@,
            },
            ManifestError::TooLarge { path, maximum } => ManifestFault::TooLarge {
                path: path@,
                maximum,
            },
            ManifestError::InvalidField { field, reason } => ManifestFault::InvalidField {
                field: field@,
                reason: reason@,
            },
            ManifestError::UnsupportedContract { field, value } => {
                ManifestFault::UnsupportedContract { field: field@, value: value@ }
            },
            ManifestError::RevisionMismatch { declared, computed } => {
                ManifestFault::RevisionMismatch { declared: declared@, computed: computed@ }
            },
            ManifestError::PublishConflict { path } => ManifestFault::PublishConflict {
                path: path@,
            },
            ManifestError::ArtifactPath { path, reason } => ManifestFault::ArtifactPath {
                path: path@,
                reason: reason@,
            },
            ManifestError::ArtifactResolution { path } => ManifestFault::ArtifactResolution {
                path: path@,
            },
            ManifestError::ArtifactType { path } => ManifestFault::ArtifactType { path: path@ },
            ManifestError::ArtifactMode { path, mode, reason } => ManifestFault::ArtifactMode {
                path: path@,
                mode,
                reason: reason@,
            },
            ManifestError::ArtifactCapability { path } => ManifestFault::ArtifactCapability {
                path: path@,
            },
            ManifestError::ArtifactSize { path, expected, actual } => {
                ManifestFault::ArtifactSize { path: path@, expected, actual }
            },
            ManifestError::ArtifactDigest { path, expected, actual } => {
                ManifestFault::ArtifactDigest {
                    path: path@,
                    expected: expected@,
                    actual: actual@,
                }
            },
            ManifestError::Elf { path, reason } => ManifestFault::Elf {
                path: path@,
                reason: reason@,
            },
            ManifestError::KernelConfig { path, setting, expected, actual } => {
                ManifestFault::KernelConfig {
                    path: path@,
                    setting: setting@,
                    expected: expected@,
                    actual: actual@,
                }
            },
            ManifestError::Cpu { reason } => ManifestFault::Cpu { reason: reason@ },
            ManifestError::Memory { reason } => ManifestFault::Memory { reason: reason@ },
            ManifestError::Truncated { operation, path } => ManifestFault::Truncated {
                operation: operation@,
                path: path@,
            },
        }
    }
}

impl ManifestError {
    /// The refusal of one field, with the reason given.
    pub fn invalid(field: &'static str, reason: &str) -> (error: ManifestError)
        ensures
            error@ == invalid_field(field@, reason@),
    {
        ManifestError::InvalidField { field, reason: reason.to_owned() }
    }

    /// The refusal of one field whose value is not the supported one.
    pub fn unsupported(field: &'static str, value: &str) -> (error: ManifestError)
        ensures
            error@ == unsupported_contract(field@, value@),
    {
        ManifestError::UnsupportedContract { field, value: value.to_owned() }
    }
}

/// The refusal of one field of a profile.
pub open spec fn invalid_field(field: Seq<char>, reason: Seq<char>) -> ManifestFault {
    ManifestFault::InvalidField { field, reason }
}

/// The refusal of a field whose value is not the supported one.
pub open spec fn unsupported_contract(field: Seq<char>, value: Seq<char>) -> ManifestFault {
    ManifestFault::UnsupportedContract { field, value }
}

/// The first of two refusals, where the first has precedence.
pub open spec fn first_of<F>(first: Option<F>, second: Option<F>) -> Option<F> {
    match first {
        Some(fault) => Some(fault),
        None => second,
    }
}

/// An error that a guest reported over its control channel.
#[derive(Debug)]
pub struct ErrorMessage {
    pub stage: String,
    pub code: String,
    pub errno: Option<i32>,
    pub diagnostic: String,
}

impl ErrorMessage {
    pub fn new(stage: &str, code: &str, errno: Option<i32>, diagnostic: &str) -> (message:
        ErrorMessage)
        ensures
            message.stage@ == stage@,
            message.code@ == code@,
            message.errno == errno,
            message.diagnostic@ == diagnostic@,
    {
        ErrorMessage {
            stage: stage.to_owned(),
            code: code.to_owned(),
            errno,
            diagnostic: diagnostic.to_owned(),
        }
    }
}

/// A run is refused or fails.
#[derive(Debug)]
pub enum RuntimeError {
    Manifest(ManifestError),
    Store { reason: String },
    ManagedPath { reason: String },
    ImageConfig { reason: String },
    Io { operation: &'static str, path: String, reason: String },
    GuardSpawn { program: String, reason: String },
    Cpu { reason: String },
    Memory { reason: String },
    Protocol { reason: String },
    InvalidConfiguration { field: &'static str, reason: String },
    GenerationMismatch { field: &'static str, expected: String, actual: String },
    GuardExitedEarly { stage: &'static str, status: String },
    Timeout { stage: &'static str, timeout: Duration },
    Guest { stage: &'static str, message: ErrorMessage },
    HelloMismatch { field: &'static str, expected: String, actual: String },
    Cow { path: String, reason: String },
    GuardStatus { status: String },
    GuestFilesystemUnclean,
    Cleanup { primary: Box<RuntimeError>, cleanup: String },
    Diagnostics { primary: Box<RuntimeError>, diagnostic: String },
    StreamWorker { stream: &'static str, reason: String },
}

/// A `RuntimeError` with its strings read as text.
pub enum RuntimeFault {
    Manifest(ManifestFault),
    Store { reason: Seq<char> },
    ManagedPath { reason: Seq<char> },
    ImageConfig { reason: Seq<char> },
    Io { operation: Seq<char>, path: Seq<char>, reason: Seq<char> },
    GuardSpawn { program: Seq<char>, reason: Seq<char> },
    Cpu { reason: Seq<char> },
    Memory { reason: Seq<char> },
    Protocol { reason: Seq<char> },
    InvalidConfiguration { field: Seq<char>, reason: Seq<char> },
    GenerationMismatch { field: Seq<char>, expected: Seq<char>, actual: Seq<char> },
    GuardExitedEarly { stage: Seq<char>, status: Seq<char> },
    Timeout { stage: Seq<char>, timeout: nat },
    Guest { stage: Seq<char>, message: ErrorMessage },
    HelloMismatch { field: Seq<char>, expected: Seq<char>, actual: Seq<char> },
    Cow { path: Seq<char>, reason: Seq<char> },
    GuardStatus { status: Seq<char> },
    GuestFilesystemUnclean,
    Cleanup { primary: RuntimeError, cleanup: Seq<char> },
    Diagnostics { primary: RuntimeError, diagnostic: Seq<char> },
    StreamWorker { stream: Seq<char>, reason: Seq<char> },
}

impl View for RuntimeError {
    type V = RuntimeFault;

    open spec fn view(&self) -> RuntimeFault {
        match *self {
            RuntimeError::Manifest(error) => RuntimeFault::Manifest(error@),
            RuntimeError::Store { reason } => RuntimeFault::Store {
                reason: reason@,
            },
            RuntimeError::ManagedPath { reason } => RuntimeFault::ManagedPath {
                reason: reason@,
            },
            RuntimeError::ImageConfig { reason } => RuntimeFault::ImageConfig {
                reason: reason@,
            },
            RuntimeError::Io { operation, path, reason } => RuntimeFault::Io {
                operation: operation@,
                path: path@,
                reason: reason@,
            },
            RuntimeError::GuardSpawn { program, reason } => RuntimeFault::GuardSpawn {
                program: program@,
                reason: reason@,
            },
            RuntimeError::Cpu { reason } => RuntimeFault::Cpu { reason: reason@ },
            RuntimeError::Memory { reason } => RuntimeFault::Memory { reason: reason@ },
            RuntimeError::Protocol { reason } => RuntimeFault::Protocol { reason: reason@ },
            RuntimeError::InvalidConfiguration { field, reason } => {
                RuntimeFault::InvalidConfiguration { field: field@, reason: reason@ }
            },
            RuntimeError::GenerationMismatch { field, expected, actual } => {
                RuntimeFault::GenerationMismatch {
                    field: field@,
                    expected: expected@,
                    actual: actual@,
                }
            },
            RuntimeError::GuardExitedEarly { stage, status } => {
                RuntimeFault::GuardExitedEarly { stage: stage@, status: status@ }
            },
            RuntimeError::Timeout { stage, timeout } => RuntimeFault::Timeout {
                stage: stage@,
                timeout: timeout@,
            },
            RuntimeError::Guest { stage, message } => RuntimeFault::Guest {
                stage: stage@,
                message,
            },
            RuntimeError::HelloMismatch { field, expected, actual } => {
                RuntimeFault::HelloMismatch {
                    field: field@,
                    expected: expected@,
                    actual: actual@,
                }
            },
            RuntimeError::Cow { path, reason } => RuntimeFault::Cow {
                path: path@,
                reason: reason@,
            },
            RuntimeError::GuardStatus { status } => RuntimeFault::GuardStatus {
                status: status@,
            },
            RuntimeError::GuestFilesystemUnclean => RuntimeFault::GuestFilesystemUnclean,
            RuntimeError::Cleanup { primary, cleanup } => RuntimeFault::Cleanup {
                primary: *primary,
                cleanup: cleanup@,
            },
            RuntimeError::Diagnostics { primary, diagnostic } => RuntimeFault::Diagnostics {
                primary: *primary,
                diagnostic: diagnostic@,
            },
            RuntimeError::StreamWorker { stream, reason } => RuntimeFault::StreamWorker {
                stream: stream@,
                reason: reason@,
            },
        }
    }
}

impl RuntimeError {
    /// The refusal of one field of a run configuration, with the reason given.
    pub fn invalid(field: &'static str, reason: &str) -> (error: RuntimeError)
        ensures
            error@ == invalid_run(field@, reason@),
    {
        RuntimeError::InvalidConfiguration { field, reason: reason.to_owned() }
    }
}

/// The refusal of one field of a run configuration.
pub open spec fn invalid_run(field: Seq<char>, reason: Seq<char>) -> RuntimeFault {
    RuntimeFault::InvalidConfiguration { field, reason }
}

/// A host-side image build is refused or fails.
#[derive(Debug)]
pub enum HostBuildError {
    Manifest(ManifestError),
    Store { reason: String },
    Oci { reason: String },
    ManagedPath { reason: String },
    Io { operation: &'static str, path: String, reason: String },
    GuardSpawn { program: String, reason: String },
    Protocol { reason: String },
    InvalidConfiguration { field: &'static str, reason: String },
    Unsupported { field: &'static str, value: String },
    GuardStatus { stage: &'static str, status: String, diagnostic: String },
    /// A control-protocol failure carries the guest console with it. Without
    /// the console a silent guest is indistinguishable from a broken host.
    GuestProtocol {
        stage: &'static str,
        reason: String,
        source: Box<HostBuildError>,
        diagnostic: String,
    },
    Timeout { stage: &'static str, timeout: Duration },
    Guest { stage: &'static str, message: ErrorMessage },
    HelloMismatch { field: &'static str, expected: String, actual: String },
    EvidenceMismatch { field: &'static str, expected: String, actual: String },
    Cleanup { primary: Box<HostBuildError>, cleanup: String },
    StreamWorker { stream: &'static str, reason: String },
}

/// A `HostBuildError` with its strings read as text.
pub enum HostBuildFault {
    Manifest(ManifestFault),
    Store { reason: Seq<char> },
    Oci { reason: Seq<char> },
    ManagedPath { reason: Seq<char> },
    Io { operation: Seq<char>, path: Seq<char>, reason: Seq<char> },
    GuardSpawn { program: Seq<char>, reason: Seq<char> },
    Protocol { reason: Seq<char> },
    InvalidConfiguration { field: Seq<char>, reason: Seq<char> },
    Unsupported { field: Seq<char>, value: Seq<char> },
    GuardStatus { stage: Seq<char>, status: Seq<char>, diagnostic: Seq<char> },
    GuestProtocol {
        stage: Seq<char>,
        reason: Seq<char>,
        source: HostBuildError,
        diagnostic: Seq<char>,
    },
    Timeout { stage: Seq<char>, timeout: nat },
    Guest { stage: Seq<char>, message: ErrorMessage },
    HelloMismatch { field: Seq<char>, expected: Seq<char>, actual: Seq<char> },
    EvidenceMismatch { field: Seq<char>, expected: Seq<char>, actual: Seq<char> },
    Cleanup { primary: HostBuildError, cleanup: Seq<char> },
    StreamWorker { stream: Seq<char>, reason: Seq<char> },
}

impl View for HostBuildError {
    type V = HostBuildFault;

    open spec fn view(&self) -> HostBuildFault {
        match *self {
            HostBuildError::Manifest(error) => HostBuildFault::Manifest(error@),
            HostBuildError::Store { reason } => HostBuildFault::Store {
                reason: reason@,
            },
            HostBuildError::Oci { reason } => HostBuildFault::Oci {
                reason: reason@,
            },
            HostBuildError::ManagedPath { reason } => HostBuildFault::ManagedPath {
                reason: reason@,
            },
            HostBuildError::Io { operation, path, reason } => HostBuildFault::Io {
                operation: operation@,
                path: path@,
                reason: reason@,
            },
            HostBuildError::GuardSpawn { program, reason } => HostBuildFault::GuardSpawn {
                program: program@,
                reason: reason@,
            },
            HostBuildError::Protocol { reason } => HostBuildFault::Protocol { reason: reason@ },
            HostBuildError::InvalidConfiguration { field, reason } => {
                HostBuildFault::InvalidConfiguration { field: field@, reason: reason@ }
            },
            HostBuildError::Unsupported { field, value } => HostBuildFault::Unsupported {
                field: field@,
                value: value@,
            },
            HostBuildError::GuardStatus { stage, status, diagnostic } => {
                HostBuildFault::GuardStatus {
                    stage: stage@,
                    status: status@,
                    diagnostic: diagnostic@,
                }
            },
            HostBuildError::GuestProtocol { stage, reason, source, diagnostic } => {
                HostBuildFault::GuestProtocol {
                    stage: stage@,
                    reason: reason@,
                    source: *source,
                    diagnostic: diagnostic@,
                }
            },
            HostBuildError::Timeout { stage, timeout } => HostBuildFault::Timeout {
                stage: stage@,
                timeout: timeout@,
            },
            HostBuildError::Guest { stage, message } => HostBuildFault::Guest {
                stage: stage@,
                message,
            },
            HostBuildError::HelloMismatch { field, expected, actual } => {
                HostBuildFault::HelloMismatch {
                    field: field@,
                    expected: expected@,
                    actual: actual@,
                }
            },
            HostBuildError::EvidenceMismatch { field, expected, actual } => {
                HostBuildFault::EvidenceMismatch {
                    field: field@,
                    expected: expected@,
                    actual: actual@,
                }
            },
            HostBuildError::Cleanup { primary, cleanup } => HostBuildFault::Cleanup {
                primary: *primary,
                cleanup: cleanup@,
            },
            HostBuildError::StreamWorker { stream, reason } => HostBuildFault::StreamWorker {
                stream: stream@,
                reason: reason@,
            },
        }
    }
}

impl HostBuildError {
    /// The refusal of one field of a build, with the reason given.
    pub fn invalid(field: &'static str, reason: &str) -> (error: HostBuildError)
        ensures
            error@ == invalid_build(field@, reason@),
    {
        HostBuildError::InvalidConfiguration { field, reason: reason.to_owned() }
    }
}

/// The refusal of one field of a build.
pub open spec fn invalid_build(field: Seq<char>, reason: Seq<char>) -> HostBuildFault {
    HostBuildFault::InvalidConfiguration { field, reason }
}

/// How a run that may be refused turned out.
pub open spec fn run_fault<T>(result: Result<T, RuntimeError>) -> Option<RuntimeFault> {
    match result {
        Ok(_) => None,
        Err(error) => Some(error@),
    }
}

/// The outcome of a run step, with a refusal read as text.
pub open spec fn run_outcome<T>(result: Result<T, RuntimeError>) -> Result<T, RuntimeFault> {
    match result {
        Ok(value) => Ok(value),
        Err(error) => Err(error@),
    }
}

/// The outcome of a build step, with a refusal read as text.
pub open spec fn build_outcome<T>(result: Result<T, HostBuildError>) -> Result<
    T,
    HostBuildFault,
> {
    match result {
        Ok(value) => Ok(value),
        Err(error) => Err(error@),
    }
}

/// How a build step that may be refused turned out.
pub open spec fn build_fault<T>(result: Result<T, HostBuildError>) -> Option<HostBuildFault> {
    match result {
        Ok(_) => None,
        Err(error) => Some(error@),
    }
}

/// A result with its error replaced by what the error reports.
pub open spec fn manifest_outcome<T>(result: Result<T, ManifestError>) -> Result<T, ManifestFault> {
    match result {
        Ok(value) => Ok(value),
        Err(error) => Err(error@),
    }
}

/// How a manifest check that may refuse turned out.
pub open spec fn manifest_fault<T>(result: Result<T, ManifestError>) -> Option<ManifestFault> {
    match result {
        Ok(_) => None,
        Err(error) => Some(error@),
    }
}

} // verus!
