//! Bounded host-side OCI-to-ext4 builder orchestration.

pub mod adjust;
pub mod adjustment;
pub mod capacity;
pub mod contract;
pub mod files;
pub mod hello;
pub mod identity;
pub mod logs;
pub mod plan;
pub mod prepare;
pub mod session;
pub mod sizing;
pub mod transaction;
pub mod tree;

use vstd::prelude::*;

use crate::duration::{Duration, NANOS_PER_SEC};
use crate::error::{build_fault, first_of, invalid_build, HostBuildError, HostBuildFault};

verus! {

/// The longest timeout that a policy may set, in seconds.
pub const MAX_TIMEOUT_SECS: u64 = 24 * 60 * 60;

/// The longest time that a guard may be given to terminate, in seconds.
pub const MAX_TERM_SECS: u64 = 600;

/// The longest time that a guard may be given to exit, in seconds.
pub const MAX_EXIT_SECS: u64 = 1200;

/// The most bytes of each captured stream that a policy may keep.
pub const MAX_LOG_BYTES: usize = 64 * 1024 * 1024;

/// Bytes of one gibibyte.
pub const GIBIBYTE: u64 = 1_073_741_824;

/// What to build: an OCI layout, the reference it stands for, and the variant
/// asked for.
#[derive(Debug, Clone, PartialEq, Eq)]
pub struct BuildRequest {
    pub oci_layout: String,
    pub source_reference: String,
    pub requested_variant: Option<String>,
}

#[derive(Debug, Clone, Copy)]
pub struct BuilderPolicy {
    pub startup_timeout: Duration,
    pub build_timeout: Duration,
    pub validation_timeout: Duration,
    pub helper_timeout: Duration,
    /// Added to `helper_timeout` for each started gibibyte of the image a
    /// helper stage writes or checks. `mke2fs -d` copies the whole OCI layout
    /// and `e2fsck` reads the whole base, so a single fixed budget fails large
    /// images on slow storage for no reason other than their size.
    pub helper_timeout_per_gib: Duration,
    pub guard_term_timeout: Duration,
    pub guard_exit_timeout: Duration,
    pub maximum_log_bytes: usize,
}

/// The span of a number of seconds.
pub open spec fn seconds(count: nat) -> nat {
    count * (NANOS_PER_SEC as nat)
}

impl Default for BuilderPolicy {
    fn default() -> (policy: BuilderPolicy)
        ensures
            policy.startup_timeout@ == seconds(30),
            policy.build_timeout@ == seconds(1800),
            policy.validation_timeout@ == seconds(1800),
            policy.helper_timeout@ == seconds(300),
            policy.helper_timeout_per_gib@ == seconds(300),
            policy.guard_term_timeout@ == seconds(5),
            policy.guard_exit_timeout@ == seconds(10),
            policy.maximum_log_bytes == 8 * 1024 * 1024,
    {
        BuilderPolicy {
            startup_timeout: Duration::from_secs(30),
            build_timeout: Duration::from_secs(30 * 60),
            validation_timeout: Duration::from_secs(30 * 60),
            helper_timeout: Duration::from_secs(5 * 60),
            helper_timeout_per_gib: Duration::from_secs(5 * 60),
            guard_term_timeout: Duration::from_secs(5),
            guard_exit_timeout: Duration::from_secs(10),
            maximum_log_bytes: 8 * 1024 * 1024,
        }
    }
}

/// Why a timeout is refused, if it is.
pub open spec fn timeout_fault(
    field: Seq<char>,
    timeout: nat,
    maximum: nat,
    reason: Seq<char>,
) -> Option<HostBuildFault> {
    if timeout == 0 || timeout > maximum {
        Some(invalid_build(field, reason))
    } else {
        None
    }
}

pub open spec fn long_timeout_fault(field: Seq<char>, timeout: nat) -> Option<HostBuildFault> {
    timeout_fault(
        field,
        timeout,
        seconds(MAX_TIMEOUT_SECS as nat),
        "must be nonzero and no greater than 86400s"@,
    )
}

/// Why a policy is refused, if it is.
pub open spec fn policy_fault(policy: BuilderPolicy) -> Option<HostBuildFault> {
    first_of(
        long_timeout_fault("startup_timeout"@, policy.startup_timeout@),
        first_of(
            long_timeout_fault("build_timeout"@, policy.build_timeout@),
            first_of(
                long_timeout_fault("validation_timeout"@, policy.validation_timeout@),
                first_of(
                    long_timeout_fault("helper_timeout"@, policy.helper_timeout@),
                    first_of(
                        long_timeout_fault(
                            "helper_timeout_per_gib"@,
                            policy.helper_timeout_per_gib@,
                        ),
                        guard_policy_fault(policy),
                    ),
                ),
            ),
        ),
    )
}

/// Why the guard's timeouts or the log bound are refused, if they are.
pub open spec fn guard_policy_fault(policy: BuilderPolicy) -> Option<HostBuildFault> {
    first_of(
        timeout_fault(
            "guard_term_timeout"@,
            policy.guard_term_timeout@,
            seconds(MAX_TERM_SECS as nat),
            "must be nonzero and no greater than 600s"@,
        ),
        first_of(
            timeout_fault(
                "guard_exit_timeout"@,
                policy.guard_exit_timeout@,
                seconds(MAX_EXIT_SECS as nat),
                "must be nonzero and no greater than 1200s"@,
            ),
            if policy.guard_exit_timeout@ < policy.guard_term_timeout@ {
                Some(invalid_build("guard_exit_timeout"@, "must be at least guard_term_timeout"@))
            } else if policy.maximum_log_bytes == 0 || policy.maximum_log_bytes > MAX_LOG_BYTES {
                Some(invalid_build("maximum_log_bytes"@, "must be in 1..=67108864"@))
            } else {
                None
            },
        ),
    )
}

fn check_timeout(
    field: &'static str,
    timeout: Duration,
    maximum_secs: u64,
    reason: &str,
) -> (checked: Result<(), HostBuildError>)
    ensures
        build_fault(checked) == timeout_fault(
            field@,
            timeout@,
            seconds(maximum_secs as nat),
            reason@,
        ),
{
    if timeout.is_zero() || timeout.exceeds(Duration::from_secs(maximum_secs)) {
        return Err(HostBuildError::invalid(field, reason));
    }
    Ok(())
}

fn check_long_timeout(field: &'static str, timeout: Duration) -> (checked: Result<
    (),
    HostBuildError,
>)
    ensures
        build_fault(checked) == long_timeout_fault(field@, timeout@),
{
    check_timeout(
        field,
        timeout,
        MAX_TIMEOUT_SECS,
        "must be nonzero and no greater than 86400s",
    )
}

/// Refuses a policy with a timeout out of its range, a guard that may be
/// killed before it was asked to terminate, or an unbounded log.
pub fn validate_policy(policy: BuilderPolicy) -> (checked: Result<(), HostBuildError>)
    ensures
        build_fault(checked) == policy_fault(policy),
{
    if let Err(error) = check_long_timeout("startup_timeout", policy.startup_timeout) {
        return Err(error);
    }
    if let Err(error) = check_long_timeout("build_timeout", policy.build_timeout) {
        return Err(error);
    }
    if let Err(error) = check_long_timeout("validation_timeout", policy.validation_timeout) {
        return Err(error);
    }
    if let Err(error) = check_long_timeout("helper_timeout", policy.helper_timeout) {
        return Err(error);
    }
    if let Err(error) = check_long_timeout(
        "helper_timeout_per_gib",
        policy.helper_timeout_per_gib,
    ) {
        return Err(error);
    }
    if let Err(error) = check_timeout(
        "guard_term_timeout",
        policy.guard_term_timeout,
        MAX_TERM_SECS,
        "must be nonzero and no greater than 600s",
    ) {
        return Err(error);
    }
    if let Err(error) = check_timeout(
        "guard_exit_timeout",
        policy.guard_exit_timeout,
        MAX_EXIT_SECS,
        "must be nonzero and no greater than 1200s",
    ) {
        return Err(error);
    }
    if policy.guard_term_timeout.exceeds(policy.guard_exit_timeout) {
        return Err(
            HostBuildError::invalid("guard_exit_timeout", "must be at least guard_term_timeout"),
        );
    }
    if policy.maximum_log_bytes == 0 || policy.maximum_log_bytes > MAX_LOG_BYTES {
        return Err(HostBuildError::invalid("maximum_log_bytes", "must be in 1..=67108864"));
    }
    Ok(())
}

/// Started gibibytes of an image, counted up to the largest 32-bit number.
pub open spec fn gibibytes(image_bytes: nat) -> nat {
    let started = (image_bytes + (GIBIBYTE - 1)) as nat / (GIBIBYTE as nat);
    if started > u32::MAX {
        u32::MAX as nat
    } else {
        started
    }
}

/// The budget of a helper stage, in nanoseconds.
pub open spec fn budget(policy: BuilderPolicy, image_bytes: nat) -> nat {
    let wanted = policy.helper_timeout_per_gib@ * gibibytes(image_bytes) + policy.helper_timeout@;
    if wanted > seconds(MAX_TIMEOUT_SECS as nat) {
        seconds(MAX_TIMEOUT_SECS as nat)
    } else {
        wanted
    }
}

/// The wall-clock budget for one helper stage over an image of `image_bytes`.
///
/// A helper's work is proportional to the image it writes or reads, so a fixed
/// budget silently caps the image size the builder can handle. The result is
/// still bounded by the longest timeout a policy may set.
pub fn helper_budget(policy: BuilderPolicy, image_bytes: u64) -> (span: Duration)
    ensures
        span@ == budget(policy, image_bytes as nat),
{
    let whole: u64 = image_bytes / GIBIBYTE;
    let started: u64 = if image_bytes % GIBIBYTE == 0 {
        whole
    } else {
        whole + 1
    };
    let longest = Duration::from_secs(MAX_TIMEOUT_SECS);
    let factor: u32 = if started > u32::MAX as u64 {
        u32::MAX
    } else {
        started as u32
    };
    assert(factor == gibibytes(image_bytes as nat));
    match policy.helper_timeout_per_gib.checked_mul(factor) {
        Some(allowance) => match allowance.checked_add(policy.helper_timeout) {
            Some(total) => total.at_most(longest),
            None => longest,
        },
        None => longest,
    }
}

/// A larger image is never given less time, and no image more than the longest
/// timeout a policy may set.
pub proof fn law_helper_budget_grows_and_stays_bounded(
    policy: BuilderPolicy,
    small: nat,
    large: nat,
)
    requires
        small <= large,
    ensures
        budget(policy, small) <= budget(policy, large),
        budget(policy, large) <= seconds(MAX_TIMEOUT_SECS as nat),
        policy_fault(policy) is None ==> budget(policy, small) >= policy.helper_timeout@,
{
    let per = policy.helper_timeout_per_gib@;
    let few = gibibytes(small);
    let many = gibibytes(large);
    assert(few <= many);
    assert(per * few <= per * many) by (nonlinear_arith)
        requires
            few <= many,
    ;
}

/// An accepted policy is bounded: every timeout is positive and at most a day,
/// a guard is given at least as long to exit as to terminate, and the log is
/// bounded.
pub proof fn law_accepted_policy_is_bounded(policy: BuilderPolicy)
    requires
        policy_fault(policy) is None,
    ensures
        0 < policy.startup_timeout@ <= seconds(MAX_TIMEOUT_SECS as nat),
        0 < policy.build_timeout@ <= seconds(MAX_TIMEOUT_SECS as nat),
        0 < policy.validation_timeout@ <= seconds(MAX_TIMEOUT_SECS as nat),
        0 < policy.helper_timeout@ <= seconds(MAX_TIMEOUT_SECS as nat),
        0 < policy.helper_timeout_per_gib@ <= seconds(MAX_TIMEOUT_SECS as nat),
        0 < policy.guard_term_timeout@ <= policy.guard_exit_timeout@ <= seconds(
            MAX_EXIT_SECS as nat,
        ),
        0 < policy.maximum_log_bytes <= MAX_LOG_BYTES,
{
}

// ---------------------------------------------------------------------------
// A generation and its alias
// ---------------------------------------------------------------------------

/// What is done about a generation.
#[derive(Debug, Clone, Copy, PartialEq, Eq, Structural)]
pub enum GenerationStep {
    /// Lock the derivation, and look whether its generation exists.
    Begin,
    /// Make the generation and publish it, leased.
    Make,
    /// Point the alias at the generation.
    SetAlias { cache_hit: bool },
    Finished { cache_hit: bool },
}

/// What is done about a generation next. `existing` says whether the generation
/// was found.
pub open spec fn next_generation_step(step: GenerationStep, existing: bool) -> GenerationStep {
    match step {
        GenerationStep::Begin => if existing {
            GenerationStep::SetAlias { cache_hit: true }
        } else {
            GenerationStep::Make
        },
        GenerationStep::Make => GenerationStep::SetAlias { cache_hit: false },
        GenerationStep::SetAlias { cache_hit } => GenerationStep::Finished { cache_hit },
        GenerationStep::Finished { cache_hit } => GenerationStep::Finished { cache_hit },
    }
}

/// Decides what is done about a generation next: one that exists is reused, and
/// the alias is set only once there is a generation to point at.
pub fn generation_next(step: GenerationStep, existing: bool) -> (next: GenerationStep)
    ensures
        next == next_generation_step(step, existing),
{
    match step {
        GenerationStep::Begin => {
            if existing {
                GenerationStep::SetAlias { cache_hit: true }
            } else {
                GenerationStep::Make
            }
        },
        GenerationStep::Make => GenerationStep::SetAlias { cache_hit: false },
        GenerationStep::SetAlias { cache_hit } => GenerationStep::Finished { cache_hit },
        GenerationStep::Finished { cache_hit } => GenerationStep::Finished { cache_hit },
    }
}

/// An alias is set only to a generation that was found or has just been made,
/// and a result counts as reused exactly when it was found.
pub proof fn law_alias_follows_the_generation(step: GenerationStep, existing: bool)
    requires
        !(step is Finished),
    ensures
        next_generation_step(step, existing) matches GenerationStep::SetAlias { cache_hit }
            ==> if cache_hit {
            step is Begin && existing
        } else {
            step is Make
        },
        next_generation_step(step, existing) is Finished ==> step is SetAlias,
{
}

/// A policy is accepted exactly where every wait is positive and at most a day,
/// the guard's exit outlives its termination, and the log holds between 1 byte
/// and 64 MiB.
pub proof fn law_policy_is_accepted_within_its_limits(
    policy: BuilderPolicy,
    checked: Result<(), HostBuildError>,
)
    requires
        call_ensures(validate_policy, (policy,), checked),
    ensures
        checked is Ok <==> {
            &&& 0 < policy.startup_timeout@ <= 86_400_000_000_000
            &&& 0 < policy.build_timeout@ <= 86_400_000_000_000
            &&& 0 < policy.validation_timeout@ <= 86_400_000_000_000
            &&& 0 < policy.helper_timeout@ <= 86_400_000_000_000
            &&& 0 < policy.helper_timeout_per_gib@ <= 86_400_000_000_000
            &&& 0 < policy.guard_term_timeout@ <= 600_000_000_000
            &&& policy.guard_term_timeout@ <= policy.guard_exit_timeout@ <= 1_200_000_000_000
            &&& 1 <= policy.maximum_log_bytes <= 67_108_864
        },
{
}

/// The default policy is an accepted one.
pub proof fn law_default_policy_is_accepted(policy: BuilderPolicy)
    requires
        call_ensures(BuilderPolicy::default, (), policy),
    ensures
        policy_fault(policy) is None,
        policy.startup_timeout@ == 30_000_000_000,
        policy.build_timeout@ == 1_800_000_000_000,
        policy.validation_timeout@ == 1_800_000_000_000,
        policy.helper_timeout@ == 300_000_000_000,
        policy.helper_timeout_per_gib@ == 300_000_000_000,
        policy.guard_term_timeout@ == 5_000_000_000,
        policy.guard_exit_timeout@ == 10_000_000_000,
        policy.maximum_log_bytes == 8_388_608,
{
}

/// A helper has its time and, on top, that of every started gibibyte, but never
/// more than a day.
pub proof fn law_helper_has_time_for_every_gibibyte(
    policy: BuilderPolicy,
    image_bytes: u64,
    whole: u64,
    span: Duration,
)
    requires
        call_ensures(helper_budget, (policy, image_bytes), span),
        whole < 0xffff_ffff,
        whole * 0x4000_0000 < image_bytes <= (whole + 1) * 0x4000_0000,
    ensures
        ({
            let wanted = policy.helper_timeout@ + (whole + 1) * policy.helper_timeout_per_gib@;
            span@ == if wanted <= 86_400_000_000_000 {
                wanted
            } else {
                86_400_000_000_000
            }
        }),
{
    let started = (image_bytes as nat + (GIBIBYTE - 1)) as nat / (GIBIBYTE as nat);
    assert(started == whole + 1);
    assert(policy.helper_timeout_per_gib@ * (whole + 1) == (whole + 1)
        * policy.helper_timeout_per_gib@) by (nonlinear_arith);
}

/// A generation that exists is used as it is, another is made; then the alias
/// is set, and that is the end.
pub proof fn law_generation_is_made_once(
    step: GenerationStep,
    existing: bool,
    next: GenerationStep,
)
    requires
        call_ensures(generation_next, (step, existing), next),
    ensures
        step is Begin && existing ==> next == (GenerationStep::SetAlias { cache_hit: true }),
        step is Begin && !existing ==> next is Make,
        step is Make ==> next == (GenerationStep::SetAlias { cache_hit: false }),
        step matches GenerationStep::SetAlias { cache_hit } ==> next == (
        GenerationStep::Finished { cache_hit }),
        step is Finished ==> next == step,
{
}

/// A refused policy is told the first setting that is out of its range, and
/// the range.
pub proof fn law_refused_policy_names_its_setting(
    policy: BuilderPolicy,
    checked: Result<(), HostBuildError>,
)
    requires
        call_ensures(validate_policy, (policy,), checked),
    ensures
        build_fault(checked) == (if !(0 < policy.startup_timeout@ <= 86_400_000_000_000) {
            Some(
                HostBuildFault::InvalidConfiguration {
                    field: "startup_timeout"@,
                    reason: "must be nonzero and no greater than 86400s"@,
                },
            )
        } else if !(0 < policy.build_timeout@ <= 86_400_000_000_000) {
            Some(
                HostBuildFault::InvalidConfiguration {
                    field: "build_timeout"@,
                    reason: "must be nonzero and no greater than 86400s"@,
                },
            )
        } else if !(0 < policy.validation_timeout@ <= 86_400_000_000_000) {
            Some(
                HostBuildFault::InvalidConfiguration {
                    field: "validation_timeout"@,
                    reason: "must be nonzero and no greater than 86400s"@,
                },
            )
        } else if !(0 < policy.helper_timeout@ <= 86_400_000_000_000) {
            Some(
                HostBuildFault::InvalidConfiguration {
                    field: "helper_timeout"@,
                    reason: "must be nonzero and no greater than 86400s"@,
                },
            )
        } else if !(0 < policy.helper_timeout_per_gib@ <= 86_400_000_000_000) {
            Some(
                HostBuildFault::InvalidConfiguration {
                    field: "helper_timeout_per_gib"@,
                    reason: "must be nonzero and no greater than 86400s"@,
                },
            )
        } else if !(0 < policy.guard_term_timeout@ <= 600_000_000_000) {
            Some(
                HostBuildFault::InvalidConfiguration {
                    field: "guard_term_timeout"@,
                    reason: "must be nonzero and no greater than 600s"@,
                },
            )
        } else if !(0 < policy.guard_exit_timeout@ <= 1_200_000_000_000) {
            Some(
                HostBuildFault::InvalidConfiguration {
                    field: "guard_exit_timeout"@,
                    reason: "must be nonzero and no greater than 1200s"@,
                },
            )
        } else if policy.guard_exit_timeout@ < policy.guard_term_timeout@ {
            Some(
                HostBuildFault::InvalidConfiguration {
                    field: "guard_exit_timeout"@,
                    reason: "must be at least guard_term_timeout"@,
                },
            )
        } else if !(1 <= policy.maximum_log_bytes <= 67_108_864) {
            Some(
                HostBuildFault::InvalidConfiguration {
                    field: "maximum_log_bytes"@,
                    reason: "must be in 1..=67108864"@,
                },
            )
        } else {
            None
        }),
{
}

} // verus!
