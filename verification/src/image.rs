//! Docker-compatible process defaults of an authenticated image.

pub mod account;
pub mod environment;
pub mod signal;

use vstd::prelude::*;

use crate::digest::{digest_text, sha256_of, ArtifactDigest};
use crate::error::{invalid_run, RuntimeError, RuntimeFault};
use crate::text::{copy_texts, extend_texts, has_char, optional_text, texts};
use account::{identity_outcome, is_identity, resolve_user, AccountDatabase, UserResolution};
use environment::{environment_outcome, merge_environment, texts_outcome};
use signal::{parse_signal, signal_outcome, DEFAULT_STOP_SIGNAL};

verus! {

/// The sidecar that holds the authenticated image configuration.
pub const IMAGE_CONFIG_SIDECAR: &'static str = "image-config.json";

/// The sidecar that holds the canonical account database.
pub const ACCOUNT_DATABASE_SIDECAR: &'static str = "accounts.cbor";

/// How positional arguments participate in Docker image-command resolution.
#[derive(Debug, Clone)]
pub enum ImageArgv {
    /// Use the image's Entrypoint followed by its Cmd.
    Default,
    /// Preserve the selected Entrypoint and replace the image Cmd.
    ReplaceCmd(Vec<String>),
    /// Bypass Entrypoint/Cmd merging and use these complete argv bytes.
    Exact(Vec<String>),
}

impl Default for ImageArgv {
    fn default() -> (argv: ImageArgv)
        ensures
            argv == ImageArgv::Default,
    {
        ImageArgv::Default
    }
}

/// Supported per-run overrides for an authenticated image configuration.
#[derive(Debug, Clone)]
pub struct ImageProcessOverrides {
    pub argv: ImageArgv,
    /// Any `Some` value replaces Entrypoint and clears the image Cmd, matching
    /// Docker; `Some([])` explicitly clears Entrypoint too.
    pub entrypoint: Option<Vec<String>>,
    pub env: Vec<String>,
    /// Hostname already selected for the workload's UTS namespace. Docker's
    /// Linux process environment exposes the same value as `HOSTNAME`.
    pub hostname: String,
    pub user: Option<String>,
    pub working_dir: Option<String>,
    pub stop_signal: Option<String>,
}

impl Default for ImageProcessOverrides {
    fn default() -> (overrides: ImageProcessOverrides)
        ensures
            overrides.argv == ImageArgv::Default,
            overrides.entrypoint is None,
            overrides.env@.len() == 0,
            overrides.hostname@ == "pocket"@,
            overrides.user is None,
            overrides.working_dir is None,
            overrides.stop_signal is None,
    {
        ImageProcessOverrides {
            argv: ImageArgv::Default,
            entrypoint: None,
            env: Vec::new(),
            hostname: "pocket".to_owned(),
            user: None,
            working_dir: None,
            stop_signal: None,
        }
    }
}

/// The process fields of an authenticated image configuration.
#[derive(Debug, Clone)]
pub struct DockerProcessConfig {
    pub entrypoint: Vec<String>,
    pub cmd: Vec<String>,
    pub env: Vec<String>,
    pub working_dir: String,
    pub user: String,
    pub stop_signal: Option<String>,
}

/// Fully numeric and directly executable process defaults resolved under one
/// immutable-generation lease.
#[derive(Debug, Clone)]
pub struct ResolvedImageProcess {
    pub argv: Vec<String>,
    pub env: Vec<String>,
    pub working_dir: String,
    pub user: UserResolution,
    pub stop_signal: u16,
}

pub open spec fn argv_refused(reason: Seq<char>) -> RuntimeFault {
    invalid_run("image.argv"@, reason)
}

/// The Entrypoint in force: an override's, else the image's.
pub open spec fn chosen_entrypoint(
    config: DockerProcessConfig,
    overrides: ImageProcessOverrides,
) -> Seq<Seq<char>> {
    match overrides.entrypoint {
        Some(entrypoint) => texts(entrypoint@),
        None => texts(config.entrypoint@),
    }
}

/// The arguments before they are checked.
pub open spec fn merged_argv(
    config: DockerProcessConfig,
    overrides: ImageProcessOverrides,
) -> Seq<Seq<char>> {
    match overrides.argv {
        ImageArgv::Exact(argv) => texts(argv@),
        ImageArgv::ReplaceCmd(cmd) => chosen_entrypoint(config, overrides) + texts(cmd@),
        // Docker's explicit --entrypoint resets the image Cmd.
        ImageArgv::Default => if overrides.entrypoint is Some {
            chosen_entrypoint(config, overrides)
        } else {
            chosen_entrypoint(config, overrides) + texts(config.cmd@)
        },
    }
}

/// Why the final arguments are refused, if they are.
pub open spec fn final_argv_fault(argv: Seq<Seq<char>>) -> Option<RuntimeFault> {
    if argv.len() == 0 {
        Some(
            argv_refused(
                "image Entrypoint/Cmd and run overrides produce an empty final argv"@,
            ),
        )
    } else if argv[0].len() == 0 {
        Some(argv_refused("final argv[0] must not be empty"@))
    } else if exists|i: int| 0 <= i < argv.len() && (#[trigger] argv[i]).contains('\0') {
        Some(argv_refused("final argv contains NUL"@))
    } else {
        None
    }
}

/// The final arguments, or why there are none.
pub open spec fn argv_outcome(
    config: DockerProcessConfig,
    overrides: ImageProcessOverrides,
) -> Result<Seq<Seq<char>>, RuntimeFault> {
    if overrides.argv is Exact && overrides.entrypoint is Some {
        Err(
            argv_refused(
                "an Entrypoint override cannot be combined with exact argv mode"@,
            ),
        )
    } else {
        match final_argv_fault(merged_argv(config, overrides)) {
            Some(fault) => Err(fault),
            None => Ok(merged_argv(config, overrides)),
        }
    }
}

/// Merges Entrypoint, Cmd and the run overrides into one argument list.
pub fn resolve_argv(config: &DockerProcessConfig, overrides: &ImageProcessOverrides) -> (argv:
    Result<Vec<String>, RuntimeError>)
    ensures
        texts_outcome(argv) == argv_outcome(*config, *overrides),
{
    let argv = match &overrides.argv {
        ImageArgv::Exact(argv) => {
            if overrides.entrypoint.is_some() {
                return Err(
                    RuntimeError::invalid(
                        "image.argv",
                        "an Entrypoint override cannot be combined with exact argv mode",
                    ),
                );
            }
            copy_texts(argv)
        },
        ImageArgv::ReplaceCmd(cmd) => {
            let mut argv = match &overrides.entrypoint {
                Some(entrypoint) => copy_texts(entrypoint),
                None => copy_texts(&config.entrypoint),
            };
            extend_texts(&mut argv, cmd);
            argv
        },
        ImageArgv::Default => match &overrides.entrypoint {
            Some(entrypoint) => copy_texts(entrypoint),
            None => {
                let mut argv = copy_texts(&config.entrypoint);
                extend_texts(&mut argv, &config.cmd);
                argv
            },
        },
    };
    let ghost all = texts(argv@);
    if argv.len() == 0 {
        return Err(
            RuntimeError::invalid(
                "image.argv",
                "image Entrypoint/Cmd and run overrides produce an empty final argv",
            ),
        );
    }
    if argv[0].as_str().is_empty() {
        return Err(RuntimeError::invalid("image.argv", "final argv[0] must not be empty"));
    }
    let mut i: usize = 0;
    while i < argv.len()
        invariant
            i <= argv@.len(),
            all == texts(argv@),
            all == merged_argv(*config, *overrides),
            all.len() > 0,
            all[0].len() > 0,
            !(overrides.argv is Exact && overrides.entrypoint is Some),
            forall|j: int| 0 <= j < i ==> !(#[trigger] all[j]).contains('\0'),
        decreases argv@.len() - i,
    {
        if has_char(&argv[i], '\0') {
            assert(all[i as int].contains('\0'));
            return Err(RuntimeError::invalid("image.argv", "final argv contains NUL"));
        }
        i += 1;
    }
    Ok(argv)
}

/// The first of the two that is there.
pub open spec fn either(first: Option<String>, second: Option<String>) -> Option<Seq<char>> {
    match first {
        Some(text) => Some(text@),
        None => optional_text(second),
    }
}

/// The stop signal in force, or why it is refused.
pub open spec fn stop_signal_outcome(
    config: DockerProcessConfig,
    overrides: ImageProcessOverrides,
) -> Result<u16, RuntimeFault> {
    match either(overrides.stop_signal, config.stop_signal) {
        Some(text) => signal_outcome(text),
        None => Ok(DEFAULT_STOP_SIGNAL),
    }
}

/// The `User` string in force.
pub open spec fn chosen_user(
    config: DockerProcessConfig,
    overrides: ImageProcessOverrides,
) -> Seq<char> {
    match overrides.user {
        Some(user) => user@,
        None => config.user@,
    }
}

/// The refusal that resolving a process meets first, if it meets any.
pub open spec fn process_fault(
    config: DockerProcessConfig,
    accounts: AccountDatabase,
    accepted: Result<(), String>,
    overrides: ImageProcessOverrides,
    max_user_bytes: usize,
) -> Option<RuntimeFault> {
    match accepted {
        Err(reason) => Some(RuntimeFault::Protocol { reason: reason@ }),
        Ok(()) => match argv_outcome(config, overrides) {
            Err(fault) => Some(fault),
            Ok(_) => match environment_outcome(
                texts(config.env@),
                texts(overrides.env@),
                overrides.hostname@,
            ) {
                Err(fault) => Some(fault),
                Ok(_) => match identity_outcome(
                    accounts,
                    chosen_user(config, overrides),
                    max_user_bytes,
                ) {
                    Err(fault) => Some(fault),
                    Ok(_) => match stop_signal_outcome(config, overrides) {
                        Err(fault) => Some(fault),
                        Ok(_) => None,
                    },
                },
            },
        },
    }
}

/// Applies deterministic Docker-compatible process overrides to an
/// authenticated configuration and account database. `accepted` is what the
/// check of the database's own format said of it.
pub fn resolve_verified_process(
    config: &DockerProcessConfig,
    accounts: &AccountDatabase,
    accepted: &Result<(), String>,
    overrides: &ImageProcessOverrides,
    max_user_bytes: usize,
) -> (resolved: Result<ResolvedImageProcess, RuntimeError>)
    ensures
        match resolved {
            Err(error) => process_fault(*config, *accounts, *accepted, *overrides, max_user_bytes) == Some(
                error@,
            ),
            Ok(process) => {
                &&& process_fault(*config, *accounts, *accepted, *overrides, max_user_bytes) is None
                &&& argv_outcome(*config, *overrides) == Ok::<_, RuntimeFault>(
                    texts(process.argv@),
                )
                &&& environment_outcome(
                    texts(config.env@),
                    texts(overrides.env@),
                    overrides.hostname@,
                ) == Ok::<_, RuntimeFault>(texts(process.env@))
                &&& Some(process.working_dir@) == either(
                    overrides.working_dir,
                    Some(config.working_dir),
                )
                &&& identity_outcome(
                    *accounts,
                    chosen_user(*config, *overrides),
                    max_user_bytes,
                ) matches Ok(identity) && is_identity(process.user, identity)
                &&& stop_signal_outcome(*config, *overrides) == Ok::<_, RuntimeFault>(
                    process.stop_signal,
                )
            },
        },
{
    if let Err(reason) = accepted {
        return Err(RuntimeError::Protocol { reason: reason.clone() });
    }
    let argv = match resolve_argv(config, overrides) {
        Ok(argv) => argv,
        Err(error) => {
            return Err(error);
        },
    };
    let env = match merge_environment(&config.env, &overrides.env, &overrides.hostname) {
        Ok(env) => env,
        Err(error) => {
            return Err(error);
        },
    };
    let working_dir = match &overrides.working_dir {
        Some(working_dir) => working_dir.clone(),
        None => config.working_dir.clone(),
    };
    let chosen = match &overrides.user {
        Some(user) => user,
        None => &config.user,
    };
    let user = match resolve_user(accounts, chosen, max_user_bytes) {
        Ok(user) => user,
        Err(error) => {
            return Err(error);
        },
    };
    let signal = match &overrides.stop_signal {
        Some(signal) => parse_signal(signal),
        None => match &config.stop_signal {
            Some(signal) => parse_signal(signal),
            None => Ok(DEFAULT_STOP_SIGNAL),
        },
    };
    let stop_signal: u16 = match signal {
        Ok(signal) => signal,
        Err(error) => {
            return Err(error);
        },
    };
    Ok(ResolvedImageProcess { argv, env, working_dir, user, stop_signal })
}

/// Refuses configuration bytes whose digest is not the one that the leased
/// generation is bound to.
pub fn authenticate_image_config(bytes: &[u8], expected: ArtifactDigest) -> (authentic: Result<
    (),
    RuntimeError,
>)
    ensures
        match authentic {
            Ok(()) => sha256_of(bytes@) == expected@,
            Err(error) => sha256_of(bytes@) != expected@ && error@
                == (RuntimeFault::GenerationMismatch {
                field: "image_config.digest"@,
                expected: digest_text(expected@),
                actual: digest_text(sha256_of(bytes@)),
            }),
        },
{
    let observed = ArtifactDigest::of_bytes(bytes);
    if !observed.same(expected) {
        return Err(
            RuntimeError::GenerationMismatch {
                field: "image_config.digest",
                expected: expected.to_text(),
                actual: observed.to_text(),
            },
        );
    }
    Ok(())
}

/// An Entrypoint override without a replacement Cmd never runs the image's
/// Cmd, and an exact argument list never runs any part of the image's command.
pub proof fn law_overrides_hide_the_image_command(
    config: DockerProcessConfig,
    other: DockerProcessConfig,
    overrides: ImageProcessOverrides,
)
    ensures
        overrides.argv is Exact ==> argv_outcome(config, overrides) == argv_outcome(
            other,
            overrides,
        ),
        overrides.entrypoint is Some ==> argv_outcome(config, overrides) == argv_outcome(
            other,
            overrides,
        ),
{
}

/// Whether two resolutions of a command agree with Docker: exact words stand
/// alone, other words follow the entrypoint in force, an entrypoint given for
/// the run drops the image's own command, and the result has a program and no
/// zero byte.
pub open spec fn follows_docker(
    argv: Seq<Seq<char>>,
    config: DockerProcessConfig,
    overrides: ImageProcessOverrides,
) -> bool {
    &&& match (overrides.argv, overrides.entrypoint) {
        (ImageArgv::Exact(words), None) => argv == texts(words@),
        (ImageArgv::Exact(_), Some(_)) => false,
        (ImageArgv::ReplaceCmd(words), None) => argv == texts(config.entrypoint@) + texts(words@),
        (ImageArgv::ReplaceCmd(words), Some(entrypoint)) => argv == texts(entrypoint@) + texts(
            words@,
        ),
        (ImageArgv::Default, None) => argv == texts(config.entrypoint@) + texts(config.cmd@),
        (ImageArgv::Default, Some(entrypoint)) => argv == texts(entrypoint@),
    }
    &&& argv.len() > 0
    &&& argv[0].len() > 0
    &&& forall|i: int| 0 <= i < argv.len() ==> !(#[trigger] argv[i]).contains('\0')
}

/// A command is resolved exactly where there is one that follows Docker, and to
/// that one.
pub proof fn law_command_follows_docker(
    config: DockerProcessConfig,
    overrides: ImageProcessOverrides,
    argv: Seq<Seq<char>>,
)
    ensures
        argv_outcome(config, overrides) == Ok::<_, RuntimeFault>(argv) <==> follows_docker(
            argv,
            config,
            overrides,
        ),
{
    assert(overrides.argv is Default || overrides.argv is ReplaceCmd || overrides.argv is Exact);
    if argv_outcome(config, overrides) == Ok::<_, RuntimeFault>(argv) {
        assert(final_argv_fault(argv) is None);
    }
    if follows_docker(argv, config, overrides) {
        assert(merged_argv(config, overrides) == argv);
    }
}

/// What a run asks for goes before what the image says, and the stop signal is
/// 15 where neither says any.
pub proof fn law_overrides_go_first(
    config: DockerProcessConfig,
    accounts: AccountDatabase,
    accepted: Result<(), String>,
    overrides: ImageProcessOverrides,
    max_user_bytes: usize,
    process: ResolvedImageProcess,
)
    requires
        call_ensures(
            resolve_verified_process,
            (&config, &accounts, &accepted, &overrides, max_user_bytes),
            Ok(process),
        ),
    ensures
        accepted is Ok,
        follows_docker(texts(process.argv@), config, overrides),
        process.working_dir@ == match overrides.working_dir {
            Some(directory) => directory@,
            None => config.working_dir@,
        },
        ({
            let user = match overrides.user {
                Some(user) => user@,
                None => config.user@,
            };
            identity_outcome(accounts, user, max_user_bytes) matches Ok(identity) && is_identity(
                process.user,
                identity,
            )
        }),
        match (overrides.stop_signal, config.stop_signal) {
            (Some(signal), _) => signal_outcome(signal@) == Ok::<_, RuntimeFault>(
                process.stop_signal,
            ),
            (None, Some(signal)) => signal_outcome(signal@) == Ok::<_, RuntimeFault>(
                process.stop_signal,
            ),
            (None, None) => process.stop_signal == 15,
        },
        environment_outcome(texts(config.env@), texts(overrides.env@), overrides.hostname@) == Ok::<
            _,
            RuntimeFault,
        >(texts(process.env@)),
{
    law_command_follows_docker(config, overrides, texts(process.argv@));
}

/// A command is given exactly where there is one that follows Docker.
pub proof fn law_given_command_follows_docker(
    config: DockerProcessConfig,
    overrides: ImageProcessOverrides,
    argv: Result<Vec<String>, RuntimeError>,
    wanted: Seq<Seq<char>>,
)
    requires
        call_ensures(resolve_argv, (&config, &overrides), argv),
    ensures
        argv matches Ok(argv) ==> follows_docker(texts(argv@), config, overrides),
        follows_docker(wanted, config, overrides) ==> argv is Ok && texts(argv->Ok_0@) == wanted,
{
    law_command_follows_docker(config, overrides, wanted);
    if argv is Ok {
        law_command_follows_docker(config, overrides, texts(argv->Ok_0@));
    }
}

/// A process is resolved exactly where the accounts are accepted and its
/// command, environment, user and stop signal are.
pub proof fn law_process_needs_all_its_parts(
    config: DockerProcessConfig,
    accounts: AccountDatabase,
    accepted: Result<(), String>,
    overrides: ImageProcessOverrides,
    max_user_bytes: usize,
    resolved: Result<ResolvedImageProcess, RuntimeError>,
)
    requires
        call_ensures(
            resolve_verified_process,
            (&config, &accounts, &accepted, &overrides, max_user_bytes),
            resolved,
        ),
    ensures
        resolved is Ok <==> {
            let user = match overrides.user {
                Some(user) => user@,
                None => config.user@,
            };
            &&& accepted is Ok
            &&& argv_outcome(config, overrides) is Ok
            &&& environment_outcome(
                texts(config.env@),
                texts(overrides.env@),
                overrides.hostname@,
            ) is Ok
            &&& identity_outcome(accounts, user, max_user_bytes) is Ok
            &&& match (overrides.stop_signal, config.stop_signal) {
                (Some(signal), _) => signal_outcome(signal@) is Ok,
                (None, Some(signal)) => signal_outcome(signal@) is Ok,
                (None, None) => true,
            }
        },
        accepted is Err ==> resolved->Err_0@ == (RuntimeFault::Protocol {
            reason: accepted->Err_0@,
        }),
{
}

/// An image's configuration is authentic where its digest is the expected one.
pub proof fn law_image_config_is_the_expected_one(
    bytes: &[u8],
    expected: ArtifactDigest,
    authentic: Result<(), RuntimeError>,
)
    requires
        call_ensures(authenticate_image_config, (bytes, expected), authentic),
    ensures
        authentic is Ok <==> sha256_of(bytes@) == expected@,
        authentic matches Err(error) ==> error@ == (RuntimeFault::GenerationMismatch {
            field: "image_config.digest"@,
            expected: digest_text(expected@),
            actual: digest_text(sha256_of(bytes@)),
        }),
{
}

/// Without an override everything is the image's, under the name `pocket`.
pub proof fn law_default_overrides_nothing(overrides: ImageProcessOverrides)
    requires
        call_ensures(ImageProcessOverrides::default, (), overrides),
    ensures
        overrides.argv == ImageArgv::Default,
        overrides.entrypoint is None,
        overrides.env@.len() == 0,
        overrides.hostname@ == "pocket"@,
        overrides.user is None,
        overrides.working_dir is None,
        overrides.stop_signal is None,
{
}

} // verus!
