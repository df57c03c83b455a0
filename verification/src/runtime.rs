//! One workload's run: its policy, what it is admitted with, and what its
//! guest is told.

pub mod cgroup;
pub mod lifecycle;

use vstd::prelude::*;

use crate::builder::contract::ProtocolPlatform;
use crate::builder::files::{directory_path, is_same_directory, FileFacts, OwnedDirectory};
use crate::builder::seconds;
use crate::debug::{
    list_debug, list_debug_text, optional_debug, optional_debug_text, optional_list_debug,
    optional_list_debug_text,
};
use crate::digest::{digest_text, hex_of, sha256_of, ArtifactDigest, FileDigest};
use crate::duration::{Duration, NANOS_PER_MILLI};
use crate::error::{first_of, invalid_run, run_fault, RuntimeError, RuntimeFault};
use crate::launch::{CpuRequest, MemoryRequest, RunPaths};
use crate::manifest::rules::{lists_variant, variant_texts};
use crate::manifest::ProfileManifest;
use crate::path::{
    child_of, components, is_absolute, is_child, join_path, joined, law_joined_path_stays_below,
    named_pieces, same_location, same_path,
};
use crate::pocket_archive::{
    copy_optional, GenerationSpec, ImmutableSidecar, Platform, PlatformText,
};
use crate::protocol::Ready;
use crate::text::{
    byte_count, byte_len, decimal, decimal_text, join, join3, optional_text, same_text, split,
};

verus! {

/// The longest timeout that a policy may set, in seconds.
pub const MAX_TIMEOUT_SECS: u64 = 86_400;

/// Most bytes of a stream that a policy may keep.
pub const MAX_CAPTURE_BYTES: usize = 67_108_864;

/// Random bytes in the name of a run.
pub const RUN_ID_BYTES: usize = 16;

/// How often a run directory's name is drawn before giving up.
pub const DIRECTORY_ATTEMPTS: u32 = 128;

// ---------------------------------------------------------------------------
// Policy
// ---------------------------------------------------------------------------

#[derive(Debug, Clone, Copy)]
pub struct RuntimePolicy {
    pub startup_timeout: Duration,
    pub execution_timeout: Option<Duration>,
    /// Grace allowed after the image stop signal when waiting reaches its
    /// execution deadline.
    pub execution_timeout_grace: Duration,
    /// Grace encoded in SHUTDOWN for the guest to kill and drain its nested
    /// PID namespace.
    pub shutdown_namespace_grace: Duration,
    /// Host-side bound for receiving EXIT after SHUTDOWN. This is distinct
    /// from the namespace grace because EXIT follows stream draining, volume
    /// sync, and unmount.
    pub shutdown_ack_timeout: Duration,
    pub protocol_write_timeout: Duration,
    pub guard_term_timeout: Duration,
    pub guard_exit_timeout: Duration,
    pub maximum_stdout_bytes: usize,
    pub maximum_stderr_bytes: usize,
    pub maximum_console_bytes: usize,
}

impl Default for RuntimePolicy {
    fn default() -> (policy: RuntimePolicy)
        ensures
            policy.startup_timeout@ == seconds(30),
            policy.execution_timeout is None,
            policy.execution_timeout_grace@ == seconds(5),
            policy.shutdown_namespace_grace@ == seconds(5),
            policy.shutdown_ack_timeout@ == seconds(15),
            policy.protocol_write_timeout@ == seconds(5),
            policy.guard_term_timeout@ == seconds(5),
            policy.guard_exit_timeout@ == seconds(10),
            policy.maximum_stdout_bytes == 8 * 1024 * 1024,
            policy.maximum_stderr_bytes == 8 * 1024 * 1024,
            policy.maximum_console_bytes == 4 * 1024 * 1024,
    {
        RuntimePolicy {
            startup_timeout: Duration::from_secs(30),
            execution_timeout: None,
            execution_timeout_grace: Duration::from_secs(5),
            shutdown_namespace_grace: Duration::from_secs(5),
            shutdown_ack_timeout: Duration::from_secs(15),
            protocol_write_timeout: Duration::from_secs(5),
            guard_term_timeout: Duration::from_secs(5),
            guard_exit_timeout: Duration::from_secs(10),
            maximum_stdout_bytes: 8 * 1024 * 1024,
            maximum_stderr_bytes: 8 * 1024 * 1024,
            maximum_console_bytes: 4 * 1024 * 1024,
        }
    }
}

/// Why a timeout is refused, if it is.
pub open spec fn timeout_fault(field: Seq<char>, value: nat, maximum_secs: nat) -> Option<
    RuntimeFault,
> {
    if value == 0 || value > seconds(maximum_secs) {
        Some(
            invalid_run(
                field,
                "must be nonzero and no greater than "@ + decimal(maximum_secs) + "s"@,
            ),
        )
    } else {
        None
    }
}

/// Refuses a timeout that is zero or longer than its maximum.
pub fn validate_timeout(field: &'static str, value: Duration, maximum_secs: u64) -> (checked:
    Result<(), RuntimeError>)
    ensures
        run_fault(checked) == timeout_fault(field@, value@, maximum_secs as nat),
{
    if value.is_zero() || value.exceeds(Duration::from_secs(maximum_secs)) {
        return Err(
            RuntimeError::invalid(
                field,
                &join3("must be nonzero and no greater than ", &decimal_text(maximum_secs), "s"),
            ),
        );
    }
    Ok(())
}

/// Why the grace of a SHUTDOWN is refused, if it is.
pub open spec fn grace_fault(value: nat, maximum_ms: u32) -> Option<RuntimeFault> {
    if value % (NANOS_PER_MILLI as nat) != 0 {
        Some(
            invalid_run(
                "shutdown_namespace_grace"@,
                "must be an exact whole number of milliseconds"@,
            ),
        )
    } else if value == 0 || value / (NANOS_PER_MILLI as nat) > maximum_ms {
        Some(
            invalid_run(
                "shutdown_namespace_grace"@,
                "must be in 1..="@ + decimal(maximum_ms as nat) + " milliseconds"@,
            ),
        )
    } else {
        None
    }
}

/// The grace of a SHUTDOWN in milliseconds, of which the protocol admits no
/// more than `maximum_ms`.
pub fn shutdown_grace_ms(value: Duration, maximum_ms: u32) -> (grace: Result<u32, RuntimeError>)
    ensures
        run_fault(grace) == grace_fault(value@, maximum_ms),
        grace matches Ok(grace) ==> 1 <= grace <= maximum_ms && grace * NANOS_PER_MILLI == value@,
{
    let nanos: u32 = value.subsec_nanos();
    assert(nanos % 1_000_000u32 == value@ % 1_000_000nat);
    if nanos % 1_000_000u32 != 0 {
        return Err(
            RuntimeError::invalid(
                "shutdown_namespace_grace",
                "must be an exact whole number of milliseconds",
            ),
        );
    }
    let milliseconds: u128 = value.as_millis();
    if milliseconds == 0 || milliseconds > maximum_ms as u128 {
        return Err(
            RuntimeError::invalid(
                "shutdown_namespace_grace",
                &join3("must be in 1..=", &decimal_text(maximum_ms as u64), " milliseconds"),
            ),
        );
    }
    Ok(milliseconds as u32)
}

/// Why a bound on a stream is refused, if it is.
pub open spec fn capture_fault(field: Seq<char>, bytes: usize) -> Option<RuntimeFault> {
    if bytes == 0 || bytes > MAX_CAPTURE_BYTES {
        Some(invalid_run(field, "must be in 1..=67108864"@))
    } else {
        None
    }
}

fn check_capture(field: &'static str, bytes: usize) -> (checked: Result<(), RuntimeError>)
    ensures
        run_fault(checked) == capture_fault(field@, bytes),
{
    if bytes == 0 || bytes > MAX_CAPTURE_BYTES {
        return Err(RuntimeError::invalid(field, "must be in 1..=67108864"));
    }
    Ok(())
}

/// Why the bounds on waiting for a workload are refused, if they are.
pub open spec fn waiting_fault(policy: RuntimePolicy, maximum_grace_ms: u32) -> Option<
    RuntimeFault,
> {
    first_of(
        timeout_fault("startup_timeout"@, policy.startup_timeout@, MAX_TIMEOUT_SECS as nat),
        first_of(
            match policy.execution_timeout {
                Some(timeout) => timeout_fault(
                    "execution_timeout"@,
                    timeout@,
                    MAX_TIMEOUT_SECS as nat,
                ),
                None => None,
            },
            first_of(
                timeout_fault("execution_timeout_grace"@, policy.execution_timeout_grace@, 600),
                first_of(
                    grace_fault(policy.shutdown_namespace_grace@, maximum_grace_ms),
                    first_of(
                        timeout_fault("shutdown_ack_timeout"@, policy.shutdown_ack_timeout@, 1200),
                        if policy.shutdown_ack_timeout@ <= policy.shutdown_namespace_grace@ {
                            Some(
                                invalid_run(
                                    "shutdown_ack_timeout"@,
                                    "must exceed shutdown_namespace_grace so EXIT can follow namespace drain"@,
                                ),
                            )
                        } else {
                            None
                        },
                    ),
                ),
            ),
        ),
    )
}

/// Why the bounds on writing, on the guard or on the streams are refused, if
/// they are.
pub open spec fn teardown_fault(policy: RuntimePolicy) -> Option<RuntimeFault> {
    first_of(
        timeout_fault("protocol_write_timeout"@, policy.protocol_write_timeout@, 600),
        first_of(
            timeout_fault("guard_term_timeout"@, policy.guard_term_timeout@, 600),
            first_of(
                timeout_fault("guard_exit_timeout"@, policy.guard_exit_timeout@, 1200),
                first_of(
                    if policy.guard_exit_timeout@ < policy.guard_term_timeout@ {
                        Some(
                            invalid_run(
                                "guard_exit_timeout"@,
                                "must be at least guard_term_timeout"@,
                            ),
                        )
                    } else {
                        None
                    },
                    first_of(
                        capture_fault("maximum_stdout_bytes"@, policy.maximum_stdout_bytes),
                        first_of(
                            capture_fault("maximum_stderr_bytes"@, policy.maximum_stderr_bytes),
                            capture_fault("maximum_console_bytes"@, policy.maximum_console_bytes),
                        ),
                    ),
                ),
            ),
        ),
    )
}

/// Why a policy is refused, if it is.
pub open spec fn policy_fault(policy: RuntimePolicy, maximum_grace_ms: u32) -> Option<
    RuntimeFault,
> {
    first_of(waiting_fault(policy, maximum_grace_ms), teardown_fault(policy))
}

fn check_waiting(policy: RuntimePolicy, maximum_grace_ms: u32) -> (checked: Result<
    (),
    RuntimeError,
>)
    ensures
        run_fault(checked) == waiting_fault(policy, maximum_grace_ms),
{
    if let Err(error) = validate_timeout(
        "startup_timeout",
        policy.startup_timeout,
        MAX_TIMEOUT_SECS,
    ) {
        return Err(error);
    }
    if let Some(timeout) = policy.execution_timeout {
        if let Err(error) = validate_timeout("execution_timeout", timeout, MAX_TIMEOUT_SECS) {
            return Err(error);
        }
    }
    if let Err(error) = validate_timeout(
        "execution_timeout_grace",
        policy.execution_timeout_grace,
        600,
    ) {
        return Err(error);
    }
    if let Err(error) = shutdown_grace_ms(policy.shutdown_namespace_grace, maximum_grace_ms) {
        return Err(error);
    }
    if let Err(error) = validate_timeout(
        "shutdown_ack_timeout",
        policy.shutdown_ack_timeout,
        1200,
    ) {
        return Err(error);
    }
    if !policy.shutdown_ack_timeout.exceeds(policy.shutdown_namespace_grace) {
        return Err(
            RuntimeError::invalid(
                "shutdown_ack_timeout",
                "must exceed shutdown_namespace_grace so EXIT can follow namespace drain",
            ),
        );
    }
    Ok(())
}

fn check_teardown(policy: RuntimePolicy) -> (checked: Result<(), RuntimeError>)
    ensures
        run_fault(checked) == teardown_fault(policy),
{
    if let Err(error) = validate_timeout(
        "protocol_write_timeout",
        policy.protocol_write_timeout,
        600,
    ) {
        return Err(error);
    }
    if let Err(error) = validate_timeout("guard_term_timeout", policy.guard_term_timeout, 600) {
        return Err(error);
    }
    if let Err(error) = validate_timeout("guard_exit_timeout", policy.guard_exit_timeout, 1200) {
        return Err(error);
    }
    if policy.guard_term_timeout.exceeds(policy.guard_exit_timeout) {
        return Err(
            RuntimeError::invalid("guard_exit_timeout", "must be at least guard_term_timeout"),
        );
    }
    if let Err(error) = check_capture("maximum_stdout_bytes", policy.maximum_stdout_bytes) {
        return Err(error);
    }
    if let Err(error) = check_capture("maximum_stderr_bytes", policy.maximum_stderr_bytes) {
        return Err(error);
    }
    check_capture("maximum_console_bytes", policy.maximum_console_bytes)
}

/// Refuses a policy with a timeout out of its range, a shutdown that is not
/// waited for long enough, a guard that may be killed before it was asked to
/// terminate, or an unbounded stream. `maximum_grace_ms` is the longest grace
/// that a SHUTDOWN can carry.
pub fn validate_policy(policy: RuntimePolicy, maximum_grace_ms: u32) -> (checked: Result<
    (),
    RuntimeError,
>)
    ensures
        run_fault(checked) == policy_fault(policy, maximum_grace_ms),
{
    if let Err(error) = check_waiting(policy, maximum_grace_ms) {
        return Err(error);
    }
    check_teardown(policy)
}

/// An accepted policy is bounded: no wait is endless, EXIT is waited for beyond
/// the namespace grace, a guard is given at least as long to exit as to
/// terminate, and every stream is kept within its cap.
pub proof fn law_accepted_policy_is_bounded(policy: RuntimePolicy, maximum_grace_ms: u32)
    requires
        policy_fault(policy, maximum_grace_ms) is None,
    ensures
        0 < policy.startup_timeout@ <= seconds(MAX_TIMEOUT_SECS as nat),
        policy.execution_timeout matches Some(timeout) ==> 0 < timeout@ <= seconds(
            MAX_TIMEOUT_SECS as nat,
        ),
        0 < policy.execution_timeout_grace@ <= seconds(600),
        0 < policy.shutdown_namespace_grace@ < policy.shutdown_ack_timeout@ <= seconds(1200),
        0 < policy.protocol_write_timeout@ <= seconds(600),
        0 < policy.guard_term_timeout@ <= policy.guard_exit_timeout@ <= seconds(1200),
        0 < policy.maximum_stdout_bytes <= MAX_CAPTURE_BYTES,
        0 < policy.maximum_stderr_bytes <= MAX_CAPTURE_BYTES,
        0 < policy.maximum_console_bytes <= MAX_CAPTURE_BYTES,
        grace_fault(policy.shutdown_namespace_grace@, maximum_grace_ms) is None,
{
}

// ---------------------------------------------------------------------------
// The runtime root and a run's directory
// ---------------------------------------------------------------------------

pub open spec fn runtime_root_fault(
    path: Seq<char>,
    canonical: Seq<char>,
    facts: FileFacts,
    effective_user: u32,
) -> Option<RuntimeFault> {
    if !same_location(canonical, path) || !facts.directory {
        Some(invalid_run("runtime_root"@, "must be an exact non-symlink directory path"@))
    } else if facts.owner != effective_user || facts.mode & 0o777u32 != 0o700 {
        Some(invalid_run("runtime_root"@, "must be owned by the effective user with mode 0700"@))
    } else {
        None
    }
}

/// Refuses a runtime root that is reached through a link, is no directory, or
/// is not its user's alone.
pub fn check_runtime_root(path: &str, canonical: &str, facts: &FileFacts, effective_user: u32) -> (checked:
    Result<(), RuntimeError>)
    ensures
        run_fault(checked) == runtime_root_fault(path@, canonical@, *facts, effective_user),
{
    if !same_path(canonical, path) || !facts.directory {
        return Err(
            RuntimeError::invalid("runtime_root", "must be an exact non-symlink directory path"),
        );
    }
    if facts.owner != effective_user || facts.mode & 0o777u32 != 0o700 {
        return Err(
            RuntimeError::invalid(
                "runtime_root",
                "must be owned by the effective user with mode 0700",
            ),
        );
    }
    Ok(())
}

pub open spec fn are_run_paths(paths: RunPaths, path: Seq<char>, name: Seq<char>) -> bool {
    &&& paths.uml_dir@ == joined(path, "uml"@)
    &&& paths.tmp_dir@ == joined(path, "tmp"@)
    &&& paths.cow@ == joined(path, "root.cow"@)
    &&& paths.network_socket@ == joined(path, "net"@)
    &&& paths.umid@ == name
}

pub open spec fn run_name_fault(name: Seq<char>, max_umid_bytes: u16) -> Option<RuntimeFault> {
    if byte_count(name) > max_umid_bytes {
        Some(invalid_run("run_id"@, "generated name exceeds the profile umid limit"@))
    } else {
        None
    }
}

/// The private paths of a run, whose name must fit the profile's identifier
/// cap.
///
/// The network socket is named to match `uml` and `tmp`, and no longer than
/// either: a longer leaf would silently shorten the runtime root that every
/// caller is allowed to use.
pub fn run_paths(directory: &OwnedDirectory, max_umid_bytes: u16) -> (paths: Result<
    RunPaths,
    RuntimeError,
>)
    ensures
        run_fault(paths) == run_name_fault(directory.name@, max_umid_bytes),
        paths matches Ok(paths) ==> are_run_paths(
            paths,
            directory_path(*directory),
            directory.name@,
        ),
{
    if byte_len(&directory.name) > max_umid_bytes as usize {
        return Err(
            RuntimeError::invalid("run_id", "generated name exceeds the profile umid limit"),
        );
    }
    let path = directory.path();
    Ok(
        RunPaths {
            uml_dir: join_path(&path, "uml"),
            tmp_dir: join_path(&path, "tmp"),
            cow: join_path(&path, "root.cow"),
            network_socket: join_path(&path, "net"),
            umid: directory.name.clone(),
        },
    )
}

pub open spec fn fresh_overlay_fault(exists: bool) -> Option<RuntimeFault> {
    if exists {
        Some(invalid_run("root.cow"@, "fresh COW leaf unexpectedly exists before UML launch"@))
    } else {
        None
    }
}

/// Refuses an overlay that is there before the guest could have made it.
pub fn check_fresh_overlay(exists: bool) -> (checked: Result<(), RuntimeError>)
    ensures
        run_fault(checked) == fresh_overlay_fault(exists),
{
    if exists {
        return Err(
            RuntimeError::invalid(
                "root.cow",
                "fresh COW leaf unexpectedly exists before UML launch",
            ),
        );
    }
    Ok(())
}

pub open spec fn run_cleanup_fault(directory: OwnedDirectory, facts: FileFacts) -> Option<
    RuntimeFault,
> {
    if !is_child(directory_path(directory), directory.root@) {
        Some(invalid_run("cleanup"@, "owned run directory escaped its runtime root"@))
    } else if !is_same_directory(directory, facts) {
        Some(invalid_run("cleanup"@, "run directory identity changed"@))
    } else {
        None
    }
}

/// Refuses to remove another directory than the one that was created for the
/// run.
pub fn check_run_cleanup(directory: &OwnedDirectory, facts: &FileFacts) -> (checked: Result<
    (),
    RuntimeError,
>)
    ensures
        run_fault(checked) == run_cleanup_fault(*directory, *facts),
{
    if !child_of(&directory.path(), &directory.root) {
        return Err(
            RuntimeError::invalid("cleanup", "owned run directory escaped its runtime root"),
        );
    }
    if !directory.is_same(facts) {
        return Err(RuntimeError::invalid("cleanup", "run directory identity changed"));
    }
    Ok(())
}

/// Only the directory that was created for a run, one component below its
/// runtime root, is removed with it.
pub proof fn law_only_the_owned_run_is_removed(directory: OwnedDirectory, facts: FileFacts)
    requires
        run_cleanup_fault(directory, facts) is None,
    ensures
        is_child(directory_path(directory), directory.root@),
        facts.directory,
        facts.device == directory.device,
        facts.inode == directory.inode,
{
}

// ---------------------------------------------------------------------------
// Admission
// ---------------------------------------------------------------------------

pub open spec fn generation_mismatch(
    field: Seq<char>,
    expected: Seq<char>,
    actual: Seq<char>,
) -> RuntimeFault {
    RuntimeFault::GenerationMismatch { field, expected, actual }
}

/// Why a text of a generation is refused, if it is.
pub open spec fn generation_text_fault(
    field: Seq<char>,
    expected: Seq<char>,
    actual: Seq<char>,
) -> Option<RuntimeFault> {
    if expected != actual {
        Some(generation_mismatch(field, expected, actual))
    } else {
        None
    }
}

/// Refuses a text of a generation that is not the profile's.
pub fn compare_generation(field: &'static str, expected: &str, actual: &str) -> (checked: Result<
    (),
    RuntimeError,
>)
    ensures
        run_fault(checked) == generation_text_fault(field@, expected@, actual@),
{
    if !same_text(expected, actual) {
        return Err(
            RuntimeError::GenerationMismatch {
                field,
                expected: expected.to_owned(),
                actual: actual.to_owned(),
            },
        );
    }
    Ok(())
}

/// Why a generation's platform is refused, if it is.
pub open spec fn platform_fault(
    accepted: Seq<Option<Seq<char>>>,
    platform: PlatformText,
) -> Option<RuntimeFault> {
    first_of(
        generation_text_fault("platform.os"@, "linux"@, platform.os),
        first_of(
            generation_text_fault("platform.architecture"@, "amd64"@, platform.architecture),
            if !accepted.contains(platform.variant) {
                Some(
                    generation_mismatch(
                        "platform.variant"@,
                        optional_list_debug(accepted),
                        optional_debug(platform.variant),
                    ),
                )
            } else if platform.os_version is Some || platform.os_features.len() > 0 {
                Some(
                    generation_mismatch(
                        "platform.os_extensions"@,
                        "no OS version or features"@,
                        "version="@ + optional_debug(platform.os_version) + ", features="@
                            + list_debug(platform.os_features),
                    ),
                )
            } else {
                None
            },
        ),
    )
}

fn check_platform(accepted: &Vec<Option<String>>, platform: &Platform) -> (checked: Result<
    (),
    RuntimeError,
>)
    ensures
        run_fault(checked) == platform_fault(variant_texts(accepted@), platform@),
{
    if let Err(error) = compare_generation("platform.os", "linux", &platform.os) {
        return Err(error);
    }
    if let Err(error) = compare_generation(
        "platform.architecture",
        "amd64",
        &platform.architecture,
    ) {
        return Err(error);
    }
    proof {
        let all = variant_texts(accepted@);
        assert(all.take(accepted@.len() as int) =~= all);
    }
    if !lists_variant(accepted, accepted.len(), &platform.variant) {
        return Err(
            RuntimeError::GenerationMismatch {
                field: "platform.variant",
                expected: optional_list_debug_text(accepted),
                actual: optional_debug_text(&platform.variant),
            },
        );
    }
    if platform.os_version.is_some() || platform.os_features.len() > 0 {
        let version = join("version=", &optional_debug_text(&platform.os_version));
        return Err(
            RuntimeError::GenerationMismatch {
                field: "platform.os_extensions",
                expected: "no OS version or features".to_owned(),
                actual: join3(&version, ", features=", &list_debug_text(&platform.os_features)),
            },
        );
    }
    Ok(())
}

/// Why a generation is refused, if it is.
pub open spec fn generation_fault(manifest: ProfileManifest, spec: GenerationSpec) -> Option<
    RuntimeFault,
> {
    first_of(
        generation_text_fault("profile_id"@, manifest.profile_id@, spec.profile_id@),
        first_of(
            generation_text_fault(
                "profile_revision"@,
                digest_text(manifest.profile_revision@),
                digest_text(spec.profile_revision@),
            ),
            first_of(
                platform_fault(
                    variant_texts(manifest.accepted_oci_variants@),
                    spec.effective_platform@,
                ),
                first_of(
                    generation_text_fault(
                        "selector_policy"@,
                        manifest.contracts.selector_policy@,
                        spec.selector_policy_id@,
                    ),
                    first_of(
                        generation_text_fault(
                            "root_layout"@,
                            manifest.contracts.root_layout@,
                            spec.root_layout_contract@,
                        ),
                        generation_text_fault(
                            "filesystem_contract"@,
                            manifest.contracts.filesystem@,
                            spec.filesystem_contract@,
                        ),
                    ),
                ),
            ),
        ),
    )
}

/// Refuses a generation that was not made under exactly this profile.
pub fn validate_generation(manifest: &ProfileManifest, spec: &GenerationSpec) -> (checked: Result<
    (),
    RuntimeError,
>)
    ensures
        run_fault(checked) == generation_fault(*manifest, *spec),
{
    if let Err(error) = compare_generation("profile_id", &manifest.profile_id, &spec.profile_id) {
        return Err(error);
    }
    if let Err(error) = compare_generation(
        "profile_revision",
        &manifest.profile_revision.to_text(),
        &spec.profile_revision.to_text(),
    ) {
        return Err(error);
    }
    if let Err(error) = check_platform(&manifest.accepted_oci_variants, &spec.effective_platform) {
        return Err(error);
    }
    if let Err(error) = compare_generation(
        "selector_policy",
        &manifest.contracts.selector_policy,
        &spec.selector_policy_id,
    ) {
        return Err(error);
    }
    if let Err(error) = compare_generation(
        "root_layout",
        &manifest.contracts.root_layout,
        &spec.root_layout_contract,
    ) {
        return Err(error);
    }
    compare_generation(
        "filesystem_contract",
        &manifest.contracts.filesystem,
        &spec.filesystem_contract,
    )
}

/// The digest of the first sidecar of a name, if there is one.
pub open spec fn sidecar_digest(sidecars: Seq<ImmutableSidecar>, name: Seq<char>) -> Option<
    Seq<u8>,
>
    decreases sidecars.len(),
{
    if sidecars.len() == 0 {
        None
    } else {
        first_of(
            sidecar_digest(sidecars.drop_last(), name),
            if sidecars.last().name@ == name {
                Some(sidecars.last().digest@)
            } else {
                None
            },
        )
    }
}

proof fn lemma_sidecar_prefix(sidecars: Seq<ImmutableSidecar>, name: Seq<char>, n: int)
    requires
        0 <= n <= sidecars.len(),
        sidecar_digest(sidecars.take(n), name) is Some,
    ensures
        sidecar_digest(sidecars, name) == sidecar_digest(sidecars.take(n), name),
    decreases sidecars.len(),
{
    if n == sidecars.len() {
        assert(sidecars.take(n) =~= sidecars);
    } else {
        assert(sidecars.drop_last().take(n) =~= sidecars.take(n));
        lemma_sidecar_prefix(sidecars.drop_last(), name, n);
    }
}

/// The digest of the first sidecar of a name, if there is one.
pub fn find_sidecar(sidecars: &Vec<ImmutableSidecar>, name: &str) -> (digest: Option<
    ArtifactDigest,
>)
    ensures
        match digest {
            Some(digest) => sidecar_digest(sidecars@, name@) == Some(digest@),
            None => sidecar_digest(sidecars@, name@) is None,
        },
{
    let mut i: usize = 0;
    assert(sidecars@.take(0) =~= Seq::<ImmutableSidecar>::empty());
    while i < sidecars.len()
        invariant
            i <= sidecars@.len(),
            sidecar_digest(sidecars@.take(i as int), name@) is None,
        decreases sidecars@.len() - i,
    {
        assert(sidecars@.take(i + 1).drop_last() =~= sidecars@.take(i as int));
        assert(sidecars@.take(i + 1).last() == sidecars@[i as int]);
        if same_text(&sidecars[i].name, name) {
            proof {
                lemma_sidecar_prefix(sidecars@, name@, i + 1);
            }
            return Some(sidecars[i].digest);
        }
        i += 1;
    }
    assert(sidecars@.take(i as int) =~= sidecars@);
    None
}

/// What a run asks for, with what the profile's own limits say of it.
#[derive(Debug)]
pub struct RunRequest {
    pub stdin_bytes: u64,
    /// The CPUs, or why the profile refuses them.
    pub cpus: Result<CpuRequest, String>,
    /// The memory, or why the profile refuses it.
    pub memory: Result<MemoryRequest, String>,
    /// Why the host's path rule refuses the path of the base, if it does.
    pub base_refusal: Option<String>,
}

/// What a run was admitted with.
#[derive(Debug)]
pub struct AdmittedRun {
    pub stdin_bytes: u64,
    pub cpus: CpuRequest,
    pub memory: MemoryRequest,
    pub account_db_sha256: String,
}

/// Why a run is refused before anything of it is created, if it is.
pub open spec fn admission_fault(
    manifest: ProfileManifest,
    request: RunRequest,
    maximum_stdin: u64,
    spec: GenerationSpec,
    sidecars: Seq<ImmutableSidecar>,
) -> Option<RuntimeFault> {
    if request.stdin_bytes > maximum_stdin {
        Some(
            invalid_run(
                "stdin"@,
                "exceeds the "@ + decimal(maximum_stdin as nat) + "-byte synchronous input cap"@,
            ),
        )
    } else if request.cpus is Err {
        Some(RuntimeFault::Cpu { reason: request.cpus->Err_0@ })
    } else if request.memory is Err {
        Some(RuntimeFault::Memory { reason: request.memory->Err_0@ })
    } else {
        first_of(
            generation_fault(manifest, spec),
            if request.base_refusal is Some {
                Some(RuntimeFault::ManagedPath { reason: request.base_refusal->Some_0@ })
            } else if sidecar_digest(sidecars, "accounts.cbor"@) is None {
                Some(
                    invalid_run(
                        "generation.accounts"@,
                        "verified generation lacks the mandatory accounts.cbor sidecar"@,
                    ),
                )
            } else {
                None
            },
        )
    }
}

/// Admits a run of a leased generation: its input fits, the profile grants its
/// CPUs and memory, the generation is the profile's own, its base lies where the
/// host's rule allows, and it carries the account evidence that the guest must
/// confirm.
pub fn admit_run(
    manifest: &ProfileManifest,
    request: RunRequest,
    maximum_stdin: u64,
    spec: &GenerationSpec,
    sidecars: &Vec<ImmutableSidecar>,
) -> (admitted: Result<AdmittedRun, RuntimeError>)
    ensures
        run_fault(admitted) == admission_fault(
            *manifest,
            request,
            maximum_stdin,
            *spec,
            sidecars@,
        ),
        admitted matches Ok(run) ==> {
            &&& run.stdin_bytes == request.stdin_bytes
            &&& request.cpus == Ok::<_, String>(run.cpus)
            &&& request.memory == Ok::<_, String>(run.memory)
            &&& run.account_db_sha256@ == hex_of(
                sidecar_digest(sidecars@, "accounts.cbor"@)->Some_0,
            )
        },
{
    if request.stdin_bytes > maximum_stdin {
        return Err(
            RuntimeError::invalid(
                "stdin",
                &join3(
                    "exceeds the ",
                    &decimal_text(maximum_stdin),
                    "-byte synchronous input cap",
                ),
            ),
        );
    }
    let cpus = match request.cpus {
        Ok(cpus) => cpus,
        Err(reason) => {
            return Err(RuntimeError::Cpu { reason });
        },
    };
    let memory = match request.memory {
        Ok(memory) => memory,
        Err(reason) => {
            return Err(RuntimeError::Memory { reason });
        },
    };
    if let Err(error) = validate_generation(manifest, spec) {
        return Err(error);
    }
    if let Some(reason) = request.base_refusal {
        return Err(RuntimeError::ManagedPath { reason });
    }
    let accounts = match find_sidecar(sidecars, "accounts.cbor") {
        Some(digest) => digest,
        None => {
            return Err(
                RuntimeError::invalid(
                    "generation.accounts",
                    "verified generation lacks the mandatory accounts.cbor sidecar",
                ),
            );
        },
    };
    Ok(
        AdmittedRun {
            stdin_bytes: request.stdin_bytes,
            cpus,
            memory,
            account_db_sha256: accounts.hexadecimal(),
        },
    )
}

/// An admitted run is of the profile's own generation: it was built under this
/// profile and revision for a platform that the profile accepts, and its input
/// fits the cap.
pub proof fn law_admitted_generation_is_the_profiles(
    manifest: ProfileManifest,
    request: RunRequest,
    maximum_stdin: u64,
    spec: GenerationSpec,
    sidecars: Seq<ImmutableSidecar>,
)
    requires
        admission_fault(manifest, request, maximum_stdin, spec, sidecars) is None,
    ensures
        request.stdin_bytes <= maximum_stdin,
        spec.profile_id@ == manifest.profile_id@,
        digest_text(spec.profile_revision@) == digest_text(manifest.profile_revision@),
        variant_texts(manifest.accepted_oci_variants@).contains(spec.effective_platform@.variant),
        spec.effective_platform@.os == "linux"@,
        spec.effective_platform@.architecture == "amd64"@,
        spec.effective_platform@.os_version is None,
        spec.effective_platform@.os_features.len() == 0,
        sidecar_digest(sidecars, "accounts.cbor"@) is Some,
{
}

// ---------------------------------------------------------------------------
// The workload and its start message
// ---------------------------------------------------------------------------

/// A workload to run. Its resource limits and volumes are handed to the guest
/// as they are.
#[derive(Debug, Clone, PartialEq, Eq)]
pub struct WorkloadSpec<L, V> {
    pub argv: Vec<String>,
    pub env: Vec<String>,
    pub cwd: String,
    pub uid: u32,
    pub gid: u32,
    pub supplementary_gids: Vec<u32>,
    pub umask: u16,
    pub rlimits: Vec<L>,
    pub hostname: String,
    pub root_read_only: bool,
    /// Host directories to share into the guest, already validated and
    /// canonicalized by the caller, and held under an exclusive lock for the
    /// life of the run.
    pub volumes: Vec<V>,
    /// Give the guest a network interface backed by the profile's helper.
    pub network: bool,
    pub stop_signal: u16,
}

/// What a guest is told to run.
#[derive(Debug, Clone, PartialEq, Eq)]
pub struct Start<L, V> {
    pub profile_id: String,
    pub profile_revision: String,
    pub generation_id: String,
    pub descriptor_platform: Option<ProtocolPlatform>,
    pub config_platform: ProtocolPlatform,
    pub effective_platform: ProtocolPlatform,
    pub selector_policy: String,
    pub root_layout: String,
    pub filesystem_contract: String,
    pub argv: Vec<String>,
    pub env: Vec<String>,
    pub cwd: String,
    pub uid: u32,
    pub gid: u32,
    pub supplementary_gids: Vec<u32>,
    pub umask: u16,
    pub rlimits: Vec<L>,
    pub hostname: String,
    pub root_read_only: bool,
    pub volumes: Vec<V>,
    pub terminal: bool,
    pub network_mode: u8,
    pub stop_signal: u16,
    pub derivation_key: String,
    pub account_db_sha256: String,
    pub stdin_bytes: u64,
}

pub open spec fn tells_platform(told: ProtocolPlatform, platform: Platform) -> bool {
    told.os@ == platform.os@ && told.architecture@ == platform.architecture@ && optional_text(
        told.variant,
    ) == optional_text(platform.variant)
}

/// A platform as the guest reads it.
pub fn protocol_platform(platform: &Platform) -> (told: ProtocolPlatform)
    ensures
        tells_platform(told, *platform),
{
    ProtocolPlatform {
        os: platform.os.clone(),
        architecture: platform.architecture.clone(),
        variant: copy_optional(&platform.variant),
    }
}

/// The identities that a start message carries.
#[derive(Debug, Clone, Copy)]
pub struct StartIdentity {
    pub generation_id: ArtifactDigest,
    pub derivation_key: ArtifactDigest,
}

/// Whether a message names the profile, the generation and the evidence.
pub open spec fn names_generation<L, V>(
    start: Start<L, V>,
    manifest: ProfileManifest,
    spec: GenerationSpec,
    identity: StartIdentity,
    account_db_sha256: Seq<char>,
) -> bool {
    &&& start.profile_id@ == manifest.profile_id@
    &&& start.profile_revision@ == hex_of(manifest.profile_revision@)
    &&& start.generation_id@ == hex_of(identity.generation_id@)
    &&& match (start.descriptor_platform, spec.descriptor_platform) {
        (Some(told), Some(platform)) => tells_platform(told, platform),
        (None, None) => true,
        _ => false,
    }
    &&& tells_platform(start.config_platform, spec.config_platform)
    &&& tells_platform(start.effective_platform, spec.effective_platform)
    &&& start.selector_policy@ == manifest.contracts.selector_policy@
    &&& start.root_layout@ == manifest.contracts.root_layout@
    &&& start.filesystem_contract@ == manifest.contracts.filesystem@
    &&& start.derivation_key@ == hex_of(identity.derivation_key@)
    &&& start.account_db_sha256@ == account_db_sha256
}

/// Whether a message hands a workload on as it is.
pub open spec fn carries_workload<L, V>(start: Start<L, V>, workload: WorkloadSpec<L, V>) -> bool {
    &&& start.argv == workload.argv
    &&& start.env == workload.env
    &&& start.cwd == workload.cwd
    &&& start.uid == workload.uid
    &&& start.gid == workload.gid
    &&& start.supplementary_gids == workload.supplementary_gids
    &&& start.umask == workload.umask
    &&& start.rlimits == workload.rlimits
    &&& start.hostname == workload.hostname
    &&& start.root_read_only == workload.root_read_only
    &&& start.volumes == workload.volumes
    &&& start.stop_signal == workload.stop_signal
    &&& !start.terminal
    &&& start.network_mode == if workload.network {
        1u8
    } else {
        0u8
    }
}

/// What a guest is told to run.
pub fn build_start<L, V>(
    manifest: &ProfileManifest,
    spec: &GenerationSpec,
    identity: StartIdentity,
    account_db_sha256: String,
    workload: WorkloadSpec<L, V>,
    stdin_bytes: u64,
) -> (start: Start<L, V>)
    ensures
        names_generation(start, *manifest, *spec, identity, account_db_sha256@),
        carries_workload(start, workload),
        start.stdin_bytes == stdin_bytes,
{
    Start {
        profile_id: manifest.profile_id.clone(),
        profile_revision: manifest.profile_revision.hexadecimal(),
        generation_id: identity.generation_id.hexadecimal(),
        descriptor_platform: match &spec.descriptor_platform {
            Some(platform) => Some(protocol_platform(platform)),
            None => None,
        },
        config_platform: protocol_platform(&spec.config_platform),
        effective_platform: protocol_platform(&spec.effective_platform),
        selector_policy: manifest.contracts.selector_policy.clone(),
        root_layout: manifest.contracts.root_layout.clone(),
        filesystem_contract: manifest.contracts.filesystem.clone(),
        argv: workload.argv,
        env: workload.env,
        cwd: workload.cwd,
        uid: workload.uid,
        gid: workload.gid,
        supplementary_gids: workload.supplementary_gids,
        umask: workload.umask,
        rlimits: workload.rlimits,
        hostname: workload.hostname,
        root_read_only: workload.root_read_only,
        volumes: workload.volumes,
        terminal: false,
        network_mode: if workload.network {
            1
        } else {
            0
        },
        stop_signal: workload.stop_signal,
        derivation_key: identity.derivation_key.hexadecimal(),
        account_db_sha256,
        stdin_bytes,
    }
}

/// Why a ready workload is refused, if it is.
pub open spec fn ready_fault(ready: Ready, uid: u32, gid: u32, cwd: Seq<char>) -> Option<
    RuntimeFault,
> {
    if uid != ready.effective_uid {
        Some(
            RuntimeFault::HelloMismatch {
                field: "ready.effective_uid"@,
                expected: decimal(uid as nat),
                actual: decimal(ready.effective_uid as nat),
            },
        )
    } else if gid != ready.effective_gid {
        Some(
            RuntimeFault::HelloMismatch {
                field: "ready.effective_gid"@,
                expected: decimal(gid as nat),
                actual: decimal(ready.effective_gid as nat),
            },
        )
    } else if ready.cwd@ != cwd {
        Some(
            RuntimeFault::HelloMismatch {
                field: "ready.cwd"@,
                expected: cwd,
                actual: ready.cwd@,
            },
        )
    } else {
        None
    }
}

/// Refuses a workload that does not run as the user, as the group and where it
/// was told to.
pub fn verify_ready<L, V>(ready: &Ready, start: &Start<L, V>) -> (checked: Result<
    (),
    RuntimeError,
>)
    ensures
        run_fault(checked) == ready_fault(*ready, start.uid, start.gid, start.cwd@),
{
    if start.uid != ready.effective_uid {
        return Err(
            RuntimeError::HelloMismatch {
                field: "ready.effective_uid",
                expected: decimal_text(start.uid as u64),
                actual: decimal_text(ready.effective_uid as u64),
            },
        );
    }
    if start.gid != ready.effective_gid {
        return Err(
            RuntimeError::HelloMismatch {
                field: "ready.effective_gid",
                expected: decimal_text(start.gid as u64),
                actual: decimal_text(ready.effective_gid as u64),
            },
        );
    }
    if !same_text(&ready.cwd, &start.cwd) {
        return Err(
            RuntimeError::HelloMismatch {
                field: "ready.cwd",
                expected: start.cwd.clone(),
                actual: ready.cwd.clone(),
            },
        );
    }
    Ok(())
}

/// Why the size of a base is refused after a run, if it is.
pub open spec fn base_size_fault(size: u64, found: u64) -> Option<RuntimeFault> {
    if found != size {
        Some(
            generation_mismatch(
                "base_size_after_run"@,
                decimal(size as nat),
                decimal(found as nat),
            ),
        )
    } else {
        None
    }
}

/// Why the content of a base is refused after a run, if it is.
pub open spec fn base_digest_fault(digest: Seq<u8>, observed: Seq<u8>) -> Option<RuntimeFault> {
    if observed != digest {
        Some(
            generation_mismatch(
                "base_digest_after_run"@,
                digest_text(digest),
                digest_text(observed),
            ),
        )
    } else {
        None
    }
}

/// Refuses an immutable base whose size a run has changed. Only a base of the
/// same size is read again.
pub fn check_base_size(size: u64, found: u64) -> (checked: Result<(), RuntimeError>)
    ensures
        run_fault(checked) == base_size_fault(size, found),
{
    if found != size {
        return Err(
            RuntimeError::GenerationMismatch {
                field: "base_size_after_run",
                expected: decimal_text(size),
                actual: decimal_text(found),
            },
        );
    }
    Ok(())
}

/// Refuses an immutable base that a run has changed: one of another size, or
/// one that was read to its end as other bytes.
pub fn verify_base_unchanged(
    size: u64,
    digest: ArtifactDigest,
    found: u64,
    contents: FileDigest,
) -> (checked: Result<(), RuntimeError>)
    ensures
        run_fault(checked) == first_of(
            base_size_fault(size, found),
            base_digest_fault(digest@, sha256_of(contents.bytes())),
        ),
{
    if let Err(error) = check_base_size(size, found) {
        return Err(error);
    }
    let observed = contents.finish().0;
    if !observed.same(digest) {
        return Err(
            RuntimeError::GenerationMismatch {
                field: "base_digest_after_run",
                expected: digest.to_text(),
                actual: observed.to_text(),
            },
        );
    }
    Ok(())
}

/// A policy is accepted exactly where every wait is positive and bounded, the
/// shutdown outlives the grace that it gives, the guard's exit outlives its
/// termination, and every stream keeps between 1 byte and 64 MiB.
pub proof fn law_policy_is_accepted_within_its_limits(
    policy: RuntimePolicy,
    maximum_grace_ms: u32,
    checked: Result<(), RuntimeError>,
)
    requires
        call_ensures(validate_policy, (policy, maximum_grace_ms), checked),
    ensures
        checked is Ok <==> {
            &&& 0 < policy.startup_timeout@ <= 86_400_000_000_000
            &&& policy.execution_timeout matches Some(timeout) ==> 0 < timeout@
                <= 86_400_000_000_000
            &&& 0 < policy.execution_timeout_grace@ <= 600_000_000_000
            &&& policy.shutdown_namespace_grace@ % 1_000_000 == 0
            &&& 0 < policy.shutdown_namespace_grace@ <= 1_000_000 * maximum_grace_ms
            &&& policy.shutdown_namespace_grace@ < policy.shutdown_ack_timeout@
                <= 1_200_000_000_000
            &&& 0 < policy.protocol_write_timeout@ <= 600_000_000_000
            &&& 0 < policy.guard_term_timeout@ <= 600_000_000_000
            &&& policy.guard_term_timeout@ <= policy.guard_exit_timeout@ <= 1_200_000_000_000
            &&& 1 <= policy.maximum_stdout_bytes <= 67_108_864
            &&& 1 <= policy.maximum_stderr_bytes <= 67_108_864
            &&& 1 <= policy.maximum_console_bytes <= 67_108_864
        },
{
    let grace = policy.shutdown_namespace_grace@;
    assert(grace == (grace / 1_000_000) * 1_000_000 + grace % 1_000_000) by (nonlinear_arith);
}

/// The default policy is an accepted one wherever the guest may have five
/// seconds, and waits for as long as the workload runs.
pub proof fn law_default_policy_is_accepted(policy: RuntimePolicy, maximum_grace_ms: u32)
    requires
        call_ensures(RuntimePolicy::default, (), policy),
        maximum_grace_ms >= 5000,
    ensures
        policy_fault(policy, maximum_grace_ms) is None,
        policy.execution_timeout is None,
        policy.startup_timeout@ == 30_000_000_000,
        policy.execution_timeout_grace@ == 5_000_000_000,
        policy.shutdown_namespace_grace@ == 5_000_000_000,
        policy.shutdown_ack_timeout@ == 15_000_000_000,
        policy.protocol_write_timeout@ == 5_000_000_000,
        policy.guard_term_timeout@ == 5_000_000_000,
        policy.guard_exit_timeout@ == 10_000_000_000,
        policy.maximum_stdout_bytes == 8_388_608,
        policy.maximum_stderr_bytes == 8_388_608,
        policy.maximum_console_bytes == 4_194_304,
{
}

/// A grace that is encoded says the policy's time in milliseconds exactly, and
/// is encoded exactly where it is one.
pub proof fn law_grace_is_told_exactly(
    value: Duration,
    maximum_ms: u32,
    grace: Result<u32, RuntimeError>,
)
    requires
        call_ensures(shutdown_grace_ms, (value, maximum_ms), grace),
    ensures
        grace is Ok <==> exists|ms: u32|
            1 <= ms <= maximum_ms && #[trigger] (ms * 1_000_000) == value@,
        grace matches Ok(ms) ==> ms * 1_000_000 == value@,
{
    if grace is Ok {
        let ms = grace->Ok_0;
        assert(ms * 1_000_000 == value@);
    }
    if exists|ms: u32| 1 <= ms <= maximum_ms && #[trigger] (ms * 1_000_000) == value@ {
        let ms = choose|ms: u32| 1 <= ms <= maximum_ms && #[trigger] (ms * 1_000_000) == value@;
        assert(value@ % 1_000_000 == 0);
        assert(value@ / 1_000_000 == ms);
    }
}

/// The runtime root is a private directory of the user, given by its own path.
pub proof fn law_runtime_root_is_private(
    path: &str,
    canonical: &str,
    facts: FileFacts,
    effective_user: u32,
    checked: Result<(), RuntimeError>,
)
    requires
        call_ensures(check_runtime_root, (path, canonical, &facts, effective_user), checked),
    ensures
        checked is Ok <==> same_location(canonical@, path@) && facts.directory && facts.owner
            == effective_user && facts.mode & 0x1ffu32 == 0x1c0,
{
}

/// Everything of a run lies in its own directory under its own name.
pub proof fn law_run_keeps_to_its_directory(
    directory: OwnedDirectory,
    max_umid_bytes: u16,
    paths: Result<RunPaths, RuntimeError>,
)
    requires
        call_ensures(run_paths, (&directory, max_umid_bytes), paths),
    ensures
        paths is Ok <==> byte_count(directory.name@) <= max_umid_bytes,
        paths matches Ok(paths) ==> {
            let home = components(joined(directory.root@, directory.name@));
            &&& components(paths.uml_dir@) == home + seq!["uml"@]
            &&& components(paths.tmp_dir@) == home + seq!["tmp"@]
            &&& components(paths.cow@) == home + seq!["root.cow"@]
            &&& components(paths.network_socket@) == home + seq!["net"@]
            &&& paths.umid@ == directory.name@
        },
{
    if paths is Ok {
        let home = joined(directory.root@, directory.name@);
        reveal_strlit("uml");
        reveal_strlit("tmp");
        reveal_strlit("root.cow");
        reveal_strlit("net");
        reveal_strlit(".");
        lemma_leaf(home, "uml"@);
        lemma_leaf(home, "tmp"@);
        lemma_leaf(home, "root.cow"@);
        lemma_leaf(home, "net"@);
    }
}

proof fn lemma_leaf(directory: Seq<char>, name: Seq<char>)
    requires
        name.len() > 1,
        !name.contains('/'),
    ensures
        components(joined(directory, name)) == components(directory) + seq![name],
{
    reveal_strlit(".");
    if is_absolute(name) {
        assert(name[0] == '/');
        assert(name.contains('/'));
    }
    law_joined_path_stays_below(directory, name);
    assert(split(name, '/') =~= seq![name]);
    assert(seq![name].drop_last() =~= Seq::<Seq<char>>::empty());
    reveal_with_fuel(named_pieces, 2);
    assert(components(name) =~= seq![name]);
}

/// The overlay of a run is a new one.
pub proof fn law_overlay_is_fresh(exists: bool, checked: Result<(), RuntimeError>)
    requires
        call_ensures(check_fresh_overlay, (exists,), checked),
    ensures
        checked is Ok <==> !exists,
{
}

/// A sidecar is found by its name, the first of that name.
pub open spec fn is_first_sidecar(
    sidecars: Seq<ImmutableSidecar>,
    name: Seq<char>,
    i: int,
) -> bool {
    &&& 0 <= i < sidecars.len()
    &&& sidecars[i].name@ == name
    &&& forall|j: int| 0 <= j < i ==> (#[trigger] sidecars[j]).name@ != name
}

proof fn lemma_first_sidecar(sidecars: Seq<ImmutableSidecar>, name: Seq<char>)
    ensures
        match sidecar_digest(sidecars, name) {
            Some(digest) => exists|i: int| #[trigger]
                is_first_sidecar(sidecars, name, i) && sidecars[i].digest@ == digest,
            None => forall|i: int| 0 <= i < sidecars.len() ==> (#[trigger] sidecars[i]).name@
                != name,
        },
    decreases sidecars.len(),
{
    if sidecars.len() > 0 {
        let front = sidecars.drop_last();
        lemma_first_sidecar(front, name);
        assert forall|i: int| 0 <= i < front.len() implies front[i] == #[trigger] sidecars[i] by {}
        match sidecar_digest(front, name) {
            Some(digest) => {
                let i = choose|i: int| #[trigger]
                    is_first_sidecar(front, name, i) && front[i].digest@ == digest;
                assert(is_first_sidecar(sidecars, name, i));
            },
            None => {
                if sidecars.last().name@ == name {
                    assert(is_first_sidecar(sidecars, name, sidecars.len() - 1));
                }
            },
        }
    }
}

/// A run is admitted exactly where its input, CPUs, memory and base are, where
/// its generation is one of the profile for this machine, and where the
/// generation says its accounts; it keeps what was asked for and names those
/// accounts.
pub proof fn law_run_is_admitted_for_its_profile(
    manifest: ProfileManifest,
    request: RunRequest,
    maximum_stdin: u64,
    spec: GenerationSpec,
    sidecars: Vec<ImmutableSidecar>,
    admitted: Result<AdmittedRun, RuntimeError>,
)
    requires
        call_ensures(admit_run, (&manifest, request, maximum_stdin, &spec, &sidecars), admitted),
    ensures
        admitted is Ok <==> {
            &&& request.stdin_bytes <= maximum_stdin
            &&& request.cpus is Ok
            &&& request.memory is Ok
            &&& request.base_refusal is None
            &&& spec.profile_id@ == manifest.profile_id@
            &&& digest_text(spec.profile_revision@) == digest_text(manifest.profile_revision@)
            &&& spec.effective_platform@.os == "linux"@
            &&& spec.effective_platform@.architecture == "amd64"@
            &&& variant_texts(manifest.accepted_oci_variants@).contains(
                spec.effective_platform@.variant,
            )
            &&& spec.effective_platform@.os_version is None
            &&& spec.effective_platform@.os_features.len() == 0
            &&& spec.selector_policy_id@ == manifest.contracts.selector_policy@
            &&& spec.root_layout_contract@ == manifest.contracts.root_layout@
            &&& spec.filesystem_contract@ == manifest.contracts.filesystem@
            &&& exists|i: int|
                0 <= i < sidecars@.len() && (#[trigger] sidecars@[i]).name@ == "accounts.cbor"@
        },
        admitted matches Ok(run) ==> {
            &&& run.stdin_bytes == request.stdin_bytes
            &&& request.cpus == Ok::<_, String>(run.cpus)
            &&& request.memory == Ok::<_, String>(run.memory)
            &&& exists|i: int| #[trigger]
                is_first_sidecar(sidecars@, "accounts.cbor"@, i) && run.account_db_sha256@
                    == hex_of(sidecars@[i].digest@)
        },
{
    lemma_first_sidecar(sidecars@, "accounts.cbor"@);
    if admitted is Ok {
        let i = choose|i: int| #[trigger]
            is_first_sidecar(sidecars@, "accounts.cbor"@, i) && sidecars@[i].digest@
                == sidecar_digest(sidecars@, "accounts.cbor"@)->Some_0;
        assert(sidecars@[i].name@ == "accounts.cbor"@);
    }
}

/// The start message names the generation and its profile by their identities,
/// carries the workload unchanged, and asks for no terminal; the network has
/// mode 1 where the workload has one, and mode 0 otherwise.
pub proof fn law_start_says_what_runs<L, V>(
    manifest: ProfileManifest,
    spec: GenerationSpec,
    identity: StartIdentity,
    account_db_sha256: String,
    workload: WorkloadSpec<L, V>,
    stdin_bytes: u64,
    start: Start<L, V>,
)
    requires
        call_ensures(
            build_start::<L, V>,
            (&manifest, &spec, identity, account_db_sha256, workload, stdin_bytes),
            start,
        ),
    ensures
        start.profile_id@ == manifest.profile_id@,
        start.profile_revision@ == hex_of(manifest.profile_revision@),
        start.generation_id@ == hex_of(identity.generation_id@),
        start.derivation_key@ == hex_of(identity.derivation_key@),
        start.account_db_sha256@ == account_db_sha256@,
        start.selector_policy@ == manifest.contracts.selector_policy@,
        start.root_layout@ == manifest.contracts.root_layout@,
        start.filesystem_contract@ == manifest.contracts.filesystem@,
        start.config_platform.os@ == spec.config_platform.os@,
        start.config_platform.architecture@ == spec.config_platform.architecture@,
        optional_text(start.config_platform.variant) == optional_text(spec.config_platform.variant),
        start.effective_platform.os@ == spec.effective_platform.os@,
        start.effective_platform.architecture@ == spec.effective_platform.architecture@,
        optional_text(start.effective_platform.variant) == optional_text(
            spec.effective_platform.variant,
        ),
        start.descriptor_platform is Some <==> spec.descriptor_platform is Some,
        start.descriptor_platform matches Some(told) ==> {
            &&& told.os@ == spec.descriptor_platform->Some_0.os@
            &&& told.architecture@ == spec.descriptor_platform->Some_0.architecture@
            &&& optional_text(told.variant) == optional_text(
                spec.descriptor_platform->Some_0.variant,
            )
        },
        start.argv == workload.argv && start.env == workload.env && start.cwd == workload.cwd,
        start.uid == workload.uid && start.gid == workload.gid,
        start.supplementary_gids == workload.supplementary_gids,
        start.umask == workload.umask && start.rlimits == workload.rlimits,
        start.hostname == workload.hostname && start.volumes == workload.volumes,
        start.root_read_only == workload.root_read_only,
        start.stop_signal == workload.stop_signal,
        !start.terminal,
        start.network_mode == 1 <==> workload.network,
        start.network_mode <= 1,
        start.stdin_bytes == stdin_bytes,
{
}

/// A workload is ready exactly where it says the user, the group and the
/// directory that it was started with.
pub proof fn law_ready_workload_is_the_started_one<L, V>(
    ready: Ready,
    start: Start<L, V>,
    checked: Result<(), RuntimeError>,
)
    requires
        call_ensures(verify_ready::<L, V>, (&ready, &start), checked),
    ensures
        checked is Ok <==> ready.effective_uid == start.uid && ready.effective_gid == start.gid
            && ready.cwd@ == start.cwd@,
{
}

/// After a run the base has the size and the contents that it had before.
pub proof fn law_base_stays_what_it_was(
    size: u64,
    digest: ArtifactDigest,
    found: u64,
    contents: FileDigest,
    checked: Result<(), RuntimeError>,
    sized: Result<(), RuntimeError>,
)
    requires
        call_ensures(verify_base_unchanged, (size, digest, found, contents), checked),
        call_ensures(check_base_size, (size, found), sized),
    ensures
        checked is Ok <==> found == size && sha256_of(contents.bytes()) == digest@,
        sized is Ok <==> found == size,
{
}

/// A directory is removed exactly where it lies in its root and is the one that
/// was made.
pub proof fn law_cleanup_needs_the_same_directory(
    directory: OwnedDirectory,
    facts: FileFacts,
    checked: Result<(), RuntimeError>,
)
    requires
        call_ensures(check_run_cleanup, (&directory, &facts), checked),
    ensures
        checked is Ok <==> is_child(joined(directory.root@, directory.name@), directory.root@)
            && facts.directory && facts.device == directory.device && facts.inode
            == directory.inode,
{
}

/// A timeout is accepted where it is not zero and not longer than its limit, and
/// a refusal names it.
pub proof fn law_timeout_is_bounded(
    field: &'static str,
    value: Duration,
    maximum_secs: u64,
    checked: Result<(), RuntimeError>,
)
    requires
        call_ensures(validate_timeout, (field, value, maximum_secs), checked),
    ensures
        checked is Ok <==> 0 < value@ <= 1_000_000_000 * maximum_secs,
        checked matches Err(error) ==> error@ is InvalidConfiguration
            && error@->InvalidConfiguration_field == field@,
{
}

/// A generation that is not the profile's is refused with what differs first:
/// the profile's value is the expected one, the generation's the actual one.
pub proof fn law_refused_generation_says_what_differs(
    manifest: ProfileManifest,
    spec: GenerationSpec,
    checked: Result<(), RuntimeError>,
)
    requires
        call_ensures(validate_generation, (&manifest, &spec), checked),
        checked is Err,
    ensures
        checked->Err_0@ is GenerationMismatch,
        ({
            let field = checked->Err_0@->GenerationMismatch_field;
            let expected = checked->Err_0@->GenerationMismatch_expected;
            let actual = checked->Err_0@->GenerationMismatch_actual;
            &&& spec.profile_id@ != manifest.profile_id@ ==> field == "profile_id"@ && expected
                == manifest.profile_id@ && actual == spec.profile_id@
            &&& spec.profile_id@ == manifest.profile_id@ && digest_text(spec.profile_revision@)
                != digest_text(manifest.profile_revision@) ==> field == "profile_revision"@
                && expected == digest_text(manifest.profile_revision@) && actual == digest_text(
                spec.profile_revision@,
            )
            &&& field == "platform.os"@ ==> expected == "linux"@ && actual
                == spec.effective_platform@.os
            &&& field == "platform.architecture"@ ==> expected == "amd64"@ && actual
                == spec.effective_platform@.architecture
            &&& field == "selector_policy"@ ==> expected == manifest.contracts.selector_policy@
                && actual == spec.selector_policy_id@
            &&& field == "root_layout"@ ==> expected == manifest.contracts.root_layout@ && actual
                == spec.root_layout_contract@
            &&& field == "filesystem_contract"@ ==> expected == manifest.contracts.filesystem@
                && actual == spec.filesystem_contract@
            &&& field == "profile_id"@ || field == "profile_revision"@ || field == "platform.os"@
                || field == "platform.architecture"@ || field == "platform.variant"@ || field
                == "platform.os_extensions"@ || field == "selector_policy"@ || field
                == "root_layout"@ || field == "filesystem_contract"@
        }),
{
    reveal_strlit("profile_id");
    reveal_strlit("profile_revision");
    reveal_strlit("platform.os");
    reveal_strlit("platform.architecture");
    reveal_strlit("platform.variant");
    reveal_strlit("platform.os_extensions");
    reveal_strlit("selector_policy");
    reveal_strlit("root_layout");
    reveal_strlit("filesystem_contract");
    assert("profile_id"@.len() == 10 && "profile_revision"@.len() == 16);
    assert("platform.os"@.len() == 11 && "platform.architecture"@.len() == 21);
    assert("platform.variant"@.len() == 16 && "platform.os_extensions"@.len() == 22);
    assert("selector_policy"@.len() == 15 && "root_layout"@.len() == 11);
    assert("filesystem_contract"@.len() == 19);
    assert("platform.os"@[0] == 'p' && "root_layout"@[0] == 'r');
    assert("platform.variant"@[1] == 'l' && "profile_revision"@[1] == 'r');
}

/// A workload that is not ready as it was started is refused with what differs,
/// and a changed base with what changed.
pub proof fn law_refused_readiness_says_what_differs<L, V>(
    ready: Ready,
    start: Start<L, V>,
    checked: Result<(), RuntimeError>,
    size: u64,
    digest: ArtifactDigest,
    found: u64,
    contents: FileDigest,
    base: Result<(), RuntimeError>,
)
    requires
        call_ensures(verify_ready::<L, V>, (&ready, &start), checked),
        call_ensures(verify_base_unchanged, (size, digest, found, contents), base),
    ensures
        ready.effective_uid != start.uid ==> run_fault(checked) == Some(
            RuntimeFault::HelloMismatch {
                field: "ready.effective_uid"@,
                expected: decimal(start.uid as nat),
                actual: decimal(ready.effective_uid as nat),
            },
        ),
        ready.effective_uid == start.uid && ready.effective_gid != start.gid ==> run_fault(checked)
            == Some(
            RuntimeFault::HelloMismatch {
                field: "ready.effective_gid"@,
                expected: decimal(start.gid as nat),
                actual: decimal(ready.effective_gid as nat),
            },
        ),
        ready.effective_uid == start.uid && ready.effective_gid == start.gid && ready.cwd@
            != start.cwd@ ==> run_fault(checked) == Some(
            RuntimeFault::HelloMismatch {
                field: "ready.cwd"@,
                expected: start.cwd@,
                actual: ready.cwd@,
            },
        ),
        found != size ==> run_fault(base) == Some(
            RuntimeFault::GenerationMismatch {
                field: "base_size_after_run"@,
                expected: decimal(size as nat),
                actual: decimal(found as nat),
            },
        ),
        found == size && sha256_of(contents.bytes()) != digest@ ==> run_fault(base) == Some(
            RuntimeFault::GenerationMismatch {
                field: "base_digest_after_run"@,
                expected: digest_text(digest@),
                actual: digest_text(sha256_of(contents.bytes())),
            },
        ),
{
}

/// A refused policy is told the first setting that is out of its range, and
/// the range.
pub proof fn law_refused_policy_names_its_setting(
    policy: RuntimePolicy,
    maximum_grace_ms: u32,
    checked: Result<(), RuntimeError>,
)
    requires
        call_ensures(validate_policy, (policy, maximum_grace_ms), checked),
    ensures
        run_fault(checked) == (if !(0 < policy.startup_timeout@ <= 86_400_000_000_000) {
            Some(
                RuntimeFault::InvalidConfiguration {
                    field: "startup_timeout"@,
                    reason: "must be nonzero and no greater than "@ + decimal(86400) + "s"@,
                },
            )
        } else if policy.execution_timeout is Some && !(0 < policy.execution_timeout->Some_0@ <= 86_400_000_000_000) {
            Some(
                RuntimeFault::InvalidConfiguration {
                    field: "execution_timeout"@,
                    reason: "must be nonzero and no greater than "@ + decimal(86400) + "s"@,
                },
            )
        } else if !(0 < policy.execution_timeout_grace@ <= 600_000_000_000) {
            Some(
                RuntimeFault::InvalidConfiguration {
                    field: "execution_timeout_grace"@,
                    reason: "must be nonzero and no greater than "@ + decimal(600) + "s"@,
                },
            )
        } else if policy.shutdown_namespace_grace@ % 1_000_000 != 0 {
            Some(
                RuntimeFault::InvalidConfiguration {
                    field: "shutdown_namespace_grace"@,
                    reason: "must be an exact whole number of milliseconds"@,
                },
            )
        } else if !(1 <= policy.shutdown_namespace_grace@ / 1_000_000 <= maximum_grace_ms) {
            Some(
                RuntimeFault::InvalidConfiguration {
                    field: "shutdown_namespace_grace"@,
                    reason: "must be in 1..="@ + decimal(maximum_grace_ms as nat) + " milliseconds"@,
                },
            )
        } else if !(0 < policy.shutdown_ack_timeout@ <= 1_200_000_000_000) {
            Some(
                RuntimeFault::InvalidConfiguration {
                    field: "shutdown_ack_timeout"@,
                    reason: "must be nonzero and no greater than "@ + decimal(1200) + "s"@,
                },
            )
        } else if policy.shutdown_ack_timeout@ <= policy.shutdown_namespace_grace@ {
            Some(
                RuntimeFault::InvalidConfiguration {
                    field: "shutdown_ack_timeout"@,
                    reason: "must exceed shutdown_namespace_grace so EXIT can follow namespace drain"@,
                },
            )
        } else if !(0 < policy.protocol_write_timeout@ <= 600_000_000_000) {
            Some(
                RuntimeFault::InvalidConfiguration {
                    field: "protocol_write_timeout"@,
                    reason: "must be nonzero and no greater than "@ + decimal(600) + "s"@,
                },
            )
        } else if !(0 < policy.guard_term_timeout@ <= 600_000_000_000) {
            Some(
                RuntimeFault::InvalidConfiguration {
                    field: "guard_term_timeout"@,
                    reason: "must be nonzero and no greater than "@ + decimal(600) + "s"@,
                },
            )
        } else if !(0 < policy.guard_exit_timeout@ <= 1_200_000_000_000) {
            Some(
                RuntimeFault::InvalidConfiguration {
                    field: "guard_exit_timeout"@,
                    reason: "must be nonzero and no greater than "@ + decimal(1200) + "s"@,
                },
            )
        } else if policy.guard_exit_timeout@ < policy.guard_term_timeout@ {
            Some(
                RuntimeFault::InvalidConfiguration {
                    field: "guard_exit_timeout"@,
                    reason: "must be at least guard_term_timeout"@,
                },
            )
        } else if !(1 <= policy.maximum_stdout_bytes <= 67_108_864) {
            Some(
                RuntimeFault::InvalidConfiguration {
                    field: "maximum_stdout_bytes"@,
                    reason: "must be in 1..=67108864"@,
                },
            )
        } else if !(1 <= policy.maximum_stderr_bytes <= 67_108_864) {
            Some(
                RuntimeFault::InvalidConfiguration {
                    field: "maximum_stderr_bytes"@,
                    reason: "must be in 1..=67108864"@,
                },
            )
        } else if !(1 <= policy.maximum_console_bytes <= 67_108_864) {
            Some(
                RuntimeFault::InvalidConfiguration {
                    field: "maximum_console_bytes"@,
                    reason: "must be in 1..=67108864"@,
                },
            )
        } else {
            None
        }),
{
}

} // verus!
