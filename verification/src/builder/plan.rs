//! The exact commands and environments of a build's helpers and guests.

use vstd::prelude::*;

use crate::bytes::{copy_between, extend};
use crate::digest::{hex_of, hex_text, sha256, sha256_of};
use crate::duration::{Duration, NANOS_PER_MILLI};
use crate::error::{build_fault, first_of, invalid_build, HostBuildError, HostBuildFault};
use crate::manifest::profile::{
    law_artifacts_serve_their_purpose, VerifiedProfile, E2FSCK, E2FSCK_CONFIG, GUARD, MKE2FS,
    MKE2FS_CONFIG, UML,
};
use crate::manifest::{HelloContract, ProfileManifest};
use crate::path::joined;
use crate::text::{
    byte_count, byte_len, decimal, decimal_text, extend_texts, join, join3, push_text, texts,
};

verus! {

pub const LEASE_FD: i32 = 8;

pub const LIVENESS_FD: i32 = 9;

pub const CONTROL_FD: i32 = 10;

pub const CONSOLE_FD: i32 = 14;

pub const RELOCATED_FD_MINIMUM: i32 = 64;

pub const EXT4_FEATURES: &'static str =
    "has_journal,ext_attr,resize_inode,dir_index,filetype,extent,64bit,flex_bg,metadata_csum_seed,sparse_super,large_file,huge_file,dir_nlink,extra_isize,metadata_csum";

/// The private files and names of one build.
#[derive(Debug, Clone)]
pub struct BuildPaths {
    pub uml_dir: String,
    pub tmp_dir: String,
    pub blkid_file: String,
    pub payload: String,
    pub initramfs: String,
    pub validator_initramfs: String,
    pub umid: String,
    pub validator_umid: String,
}

/// One variable of a process environment.
#[derive(Debug, Clone, PartialEq, Eq)]
pub struct Variable {
    pub name: String,
    pub value: String,
}

/// The names and values of an environment.
pub open spec fn variables(environment: Seq<Variable>) -> Seq<(Seq<char>, Seq<char>)> {
    Seq::new(environment.len(), |i: int| (environment[i].name@, environment[i].value@))
}

fn push_variable(environment: &mut Vec<Variable>, name: &str, value: &str)
    ensures
        variables(final(environment)@) == variables(old(environment)@).push((name@, value@)),
{
    let ghost before = environment@;
    environment.push(Variable { name: name.to_owned(), value: value.to_owned() });
    assert(variables(environment@) =~= variables(before).push((name@, value@)));
}

/// Everything that starting one guarded guest takes.
#[derive(Debug, Clone)]
pub struct BuilderLaunchPlan {
    pub guard_program: String,
    pub guard_arguments: Vec<String>,
    pub uml_command: Vec<String>,
    pub environment: Vec<Variable>,
}

// ---------------------------------------------------------------------------
// Environments
// ---------------------------------------------------------------------------

/// The variables after the private configuration, in name order.
pub open spec fn common_tail(tmp: Seq<char>) -> Seq<(Seq<char>, Seq<char>)> {
    seq![
        ("PATH"@, "/usr/bin:/bin"@),
        ("TEMP"@, tmp),
        ("TMP"@, tmp),
        ("TMPDIR"@, tmp),
        ("TZ"@, "UTC0"@),
    ]
}

/// The variables in front of the private configuration, in name order.
pub open spec fn common_head() -> Seq<(Seq<char>, Seq<char>)> {
    seq![("HOME"@, "/"@), ("LANG"@, "C"@), ("LC_ALL"@, "C"@)]
}

/// The whole environment of a guarded guest.
pub open spec fn clean_environment(tmp: Seq<char>) -> Seq<(Seq<char>, Seq<char>)> {
    common_head() + common_tail(tmp)
}

fn push_head(environment: &mut Vec<Variable>)
    ensures
        variables(final(environment)@) == variables(old(environment)@) + common_head(),
{
    let ghost before = variables(environment@);
    push_variable(environment, "HOME", "/");
    push_variable(environment, "LANG", "C");
    push_variable(environment, "LC_ALL", "C");
    assert(variables(environment@) =~= before + common_head());
}

fn push_tail(environment: &mut Vec<Variable>, tmp: &str)
    ensures
        variables(final(environment)@) == variables(old(environment)@) + common_tail(tmp@),
{
    let ghost before = variables(environment@);
    push_variable(environment, "PATH", "/usr/bin:/bin");
    push_variable(environment, "TEMP", tmp);
    push_variable(environment, "TMP", tmp);
    push_variable(environment, "TMPDIR", tmp);
    push_variable(environment, "TZ", "UTC0");
    assert(variables(environment@) =~= before + common_tail(tmp@));
}

/// The environment of a guarded guest: nothing of the caller's own reaches it.
pub fn sanitized_environment(tmp: &str) -> (environment: Vec<Variable>)
    ensures
        variables(environment@) == clean_environment(tmp@),
{
    let mut environment: Vec<Variable> = Vec::new();
    push_head(&mut environment);
    push_tail(&mut environment, tmp);
    assert(variables(environment@) =~= clean_environment(tmp@));
    environment
}

#[derive(Debug, Clone, Copy, PartialEq, Eq, Structural)]
pub enum E2fsHelper {
    Mke2fs,
    E2fsck,
    Resize2fs,
    Debugfs,
}

/// The resizing and inspection tools beside the profile's own.
#[derive(Debug, Clone)]
pub struct ResizeTools {
    pub resize2fs: String,
    pub debugfs: String,
}

/// The program of a helper.
pub open spec fn helper_path(
    helper: E2fsHelper,
    profile: VerifiedProfile,
    tools: ResizeTools,
) -> Seq<char> {
    match helper {
        E2fsHelper::Mke2fs => profile.artifact_path(MKE2FS as int),
        E2fsHelper::E2fsck => profile.artifact_path(E2FSCK as int),
        E2fsHelper::Resize2fs => tools.resize2fs@,
        E2fsHelper::Debugfs => tools.debugfs@,
    }
}

impl E2fsHelper {
    pub fn program<'a>(self, profile: &'a VerifiedProfile, tools: &'a ResizeTools) -> (path: &'a str)
        ensures
            path@ == helper_path(self, *profile, *tools),
    {
        match self {
            E2fsHelper::Mke2fs => profile.mke2fs_path(),
            E2fsHelper::E2fsck => profile.e2fsck_path(),
            E2fsHelper::Resize2fs => &tools.resize2fs,
            E2fsHelper::Debugfs => &tools.debugfs,
        }
    }
}

/// The environment of a helper, in name order.
///
/// Each formatting tool reads its own policy file and no other. The resizing
/// and inspection tools read neither. All of them have the same sanitized
/// variables and the same frozen clock, so an adjusted image is reproducible
/// from the same inputs.
pub open spec fn helper_environment(
    profile: VerifiedProfile,
    tmp: Seq<char>,
    blkid_file: Seq<char>,
    helper: E2fsHelper,
) -> Seq<(Seq<char>, Seq<char>)> {
    let epoch = decimal(profile.view_manifest().builder.source_date_epoch as nat);
    let check = if helper == E2fsHelper::E2fsck {
        seq![("E2FSCK_CONFIG"@, profile.artifact_path(E2FSCK_CONFIG as int))]
    } else {
        Seq::empty()
    };
    let format = if helper == E2fsHelper::Mke2fs {
        seq![("MKE2FS_CONFIG"@, profile.artifact_path(MKE2FS_CONFIG as int))]
    } else {
        Seq::empty()
    };
    seq![("BLKID_FILE"@, blkid_file)] + check + seq![("E2FSPROGS_FAKE_TIME"@, epoch)]
        + common_head() + format + common_tail(tmp)
}

pub fn e2fs_helper_environment(
    profile: &VerifiedProfile,
    tmp: &str,
    blkid_file: &str,
    helper: E2fsHelper,
) -> (environment: Vec<Variable>)
    ensures
        variables(environment@) == helper_environment(*profile, tmp@, blkid_file@, helper),
{
    let epoch = decimal_text(profile.manifest().builder.source_date_epoch);
    let mut environment: Vec<Variable> = Vec::new();
    push_variable(&mut environment, "BLKID_FILE", blkid_file);
    if helper == E2fsHelper::E2fsck {
        push_variable(&mut environment, "E2FSCK_CONFIG", profile.e2fsck_config_path());
    }
    push_variable(&mut environment, "E2FSPROGS_FAKE_TIME", &epoch);
    push_head(&mut environment);
    if helper == E2fsHelper::Mke2fs {
        push_variable(&mut environment, "MKE2FS_CONFIG", profile.mke2fs_config_path());
    }
    push_tail(&mut environment, tmp);
    assert(variables(environment@) =~= helper_environment(*profile, tmp@, blkid_file@, helper));
    environment
}

// ---------------------------------------------------------------------------
// Formatting
// ---------------------------------------------------------------------------

/// The extended options of a format.
pub open spec fn format_options(hash_seed: Seq<char>) -> Seq<char> {
    "lazy_itable_init=0,lazy_journal_init=0,root_owner=0:0,hash_seed="@ + hash_seed
}

pub open spec fn format_arguments(
    image: Seq<char>,
    label: Seq<char>,
    uuid: Seq<char>,
    hash_seed: Seq<char>,
    inodes: nat,
    populate: Option<Seq<char>>,
) -> Seq<Seq<char>> {
    let fixed = seq![
        "-F"@,
        "-q"@,
        "-t"@,
        "ext4"@,
        "-b"@,
        "4096"@,
        "-I"@,
        "256"@,
        "-N"@,
        decimal(inodes),
        "-m"@,
        "0"@,
        "-L"@,
        label,
        "-U"@,
        uuid,
        "-O"@,
        EXT4_FEATURES@,
        "-E"@,
        format_options(hash_seed),
    ];
    match populate {
        Some(root) => fixed.push("-d"@).push(root).push(image),
        None => fixed.push(image),
    }
}

pub open spec fn text_of(item: Option<&str>) -> Option<Seq<char>> {
    match item {
        Some(text) => Some(text@),
        None => None,
    }
}

/// The arguments that format an image. The inode count and the directory hash
/// seed are given, so the same inputs give the same filesystem.
pub fn mke2fs_arguments(
    image: &str,
    label: &str,
    uuid: &str,
    hash_seed: &str,
    inodes: u64,
    populate: Option<&str>,
) -> (arguments: Vec<String>)
    ensures
        texts(arguments@) == format_arguments(
            image@,
            label@,
            uuid@,
            hash_seed@,
            inodes as nat,
            text_of(populate),
        ),
{
    let mut arguments: Vec<String> = Vec::new();
    assert(texts(arguments@) =~= Seq::<Seq<char>>::empty());
    push_text(&mut arguments, "-F");
    push_text(&mut arguments, "-q");
    push_text(&mut arguments, "-t");
    push_text(&mut arguments, "ext4");
    push_text(&mut arguments, "-b");
    push_text(&mut arguments, "4096");
    push_text(&mut arguments, "-I");
    push_text(&mut arguments, "256");
    push_text(&mut arguments, "-N");
    push_text(&mut arguments, &decimal_text(inodes));
    push_text(&mut arguments, "-m");
    push_text(&mut arguments, "0");
    push_text(&mut arguments, "-L");
    push_text(&mut arguments, label);
    push_text(&mut arguments, "-U");
    push_text(&mut arguments, uuid);
    push_text(&mut arguments, "-O");
    push_text(&mut arguments, EXT4_FEATURES);
    push_text(&mut arguments, "-E");
    push_text(
        &mut arguments,
        &join(
            "lazy_itable_init=0,lazy_journal_init=0,root_owner=0:0,hash_seed=",
            hash_seed,
        ),
    );
    if let Some(root) = populate {
        push_text(&mut arguments, "-d");
        push_text(&mut arguments, root);
    }
    push_text(&mut arguments, image);
    arguments
}

/// Sixteen bytes of a digest, marked as a name-based UUID.
pub open spec fn uuid_bytes(digest: Seq<u8>) -> Seq<u8> {
    digest.take(16).update(6, (digest[6] & 0x0fu8) | 0x50u8).update(
        8,
        (digest[8] & 0x3fu8) | 0x80u8,
    )
}

/// The groups of a UUID.
pub open spec fn uuid_text(bytes: Seq<u8>) -> Seq<char> {
    hex_of(bytes.subrange(0, 4)) + "-"@ + hex_of(bytes.subrange(4, 6)) + "-"@ + hex_of(
        bytes.subrange(6, 8),
    ) + "-"@ + hex_of(bytes.subrange(8, 10)) + "-"@ + hex_of(bytes.subrange(10, 16))
}

/// A UUID that the domain and the identity determine.
pub fn deterministic_uuid(domain: &[u8], identity: &[u8; 32]) -> (uuid: String)
    ensures
        uuid@ == uuid_text(uuid_bytes(sha256_of(domain@ + identity@))),
{
    let mut input = copy_between(domain, 0, domain.len());
    assert(input@ =~= domain@);
    extend(&mut input, identity);
    let digest = sha256(&input);
    let mut bytes = copy_between(&digest, 0, 16);
    assert(bytes@ =~= digest@.take(16));
    bytes[6] = (digest[6] & 0x0fu8) | 0x50u8;
    bytes[8] = (digest[8] & 0x3fu8) | 0x80u8;
    assert(bytes@ =~= uuid_bytes(digest@));
    let first = join3(
        &hex_text(&copy_between(&bytes, 0, 4)),
        "-",
        &hex_text(&copy_between(&bytes, 4, 6)),
    );
    let second = join3(&first, "-", &hex_text(&copy_between(&bytes, 6, 8)));
    let third = join3(&second, "-", &hex_text(&copy_between(&bytes, 8, 10)));
    join3(&third, "-", &hex_text(&copy_between(&bytes, 10, 16)))
}

/// Every derived UUID carries the version and the variant of a name-based one.
pub proof fn law_uuid_is_name_based(digest: Seq<u8>)
    requires
        digest.len() >= 16,
    ensures
        uuid_bytes(digest).len() == 16,
        uuid_bytes(digest)[6] / 16 == 5,
        uuid_bytes(digest)[8] / 64 == 2,
{
    let six = digest[6];
    let eight = digest[8];
    assert(((six & 0x0fu8) | 0x50u8) / 16u8 == 5u8) by (bit_vector);
    assert(((eight & 0x3fu8) | 0x80u8) / 64u8 == 2u8) by (bit_vector);
}

// ---------------------------------------------------------------------------
// The guard's own arguments
// ---------------------------------------------------------------------------

/// Milliseconds of a span.
pub open spec fn millis(span: nat) -> nat {
    span / (NANOS_PER_MILLI as nat)
}

/// Why a termination timeout cannot be handed to a guard, if so.
pub open spec fn term_timeout_fault(guard_term_timeout: nat) -> Option<HostBuildFault> {
    if millis(guard_term_timeout) > u64::MAX {
        Some(invalid_build("guard_term_timeout"@, "milliseconds do not fit u64"@))
    } else {
        None
    }
}

fn term_millis(guard_term_timeout: Duration) -> (count: Result<u64, HostBuildError>)
    ensures
        match count {
            Ok(count) => term_timeout_fault(guard_term_timeout@) is None && count == millis(
                guard_term_timeout@,
            ),
            Err(error) => term_timeout_fault(guard_term_timeout@) == Some(error@),
        },
{
    let count: u128 = guard_term_timeout.as_millis();
    if count > u64::MAX as u128 {
        return Err(
            HostBuildError::invalid("guard_term_timeout", "milliseconds do not fit u64"),
        );
    }
    Ok(count as u64)
}

/// What a guard is told in front of the command it guards.
pub open spec fn guard_head(supervisor: nat) -> Seq<Seq<char>> {
    seq![
        "--supervisor-pid"@,
        decimal(supervisor),
        "--liveness-fd"@,
        decimal(LIVENESS_FD as nat),
        "--lease-fd"@,
        decimal(LEASE_FD as nat),
    ]
}

/// The arguments of a guard around a helper.
pub open spec fn helper_guard(
    supervisor: nat,
    timeout_ms: nat,
    program: Seq<char>,
    arguments: Seq<Seq<char>>,
) -> Seq<Seq<char>> {
    guard_head(supervisor).push("--term-timeout-ms"@).push(decimal(timeout_ms)).push("--"@).push(
        program,
    ) + arguments
}

/// The arguments of a guard around a guest.
pub open spec fn guest_guard(
    supervisor: nat,
    timeout_ms: nat,
    command: Seq<Seq<char>>,
) -> Seq<Seq<char>> {
    guard_head(supervisor).push("--inherit-fd"@).push(decimal(CONTROL_FD as nat)).push(
        "--inherit-fd"@,
    ).push(decimal(CONSOLE_FD as nat)).push("--term-timeout-ms"@).push(decimal(timeout_ms)).push(
        "--uml-personality"@,
    ).push("--"@) + command
}

/// What a guard is told in front of the command it guards.
pub fn guard_start(supervisor: u32) -> (arguments: Vec<String>)
    ensures
        texts(arguments@) == guard_head(supervisor as nat),
{
    let mut arguments: Vec<String> = Vec::new();
    assert(texts(arguments@) =~= Seq::<Seq<char>>::empty());
    push_text(&mut arguments, "--supervisor-pid");
    push_text(&mut arguments, &decimal_text(supervisor as u64));
    push_text(&mut arguments, "--liveness-fd");
    push_text(&mut arguments, &decimal_text(LIVENESS_FD as u64));
    push_text(&mut arguments, "--lease-fd");
    push_text(&mut arguments, &decimal_text(LEASE_FD as u64));
    arguments
}

/// The arguments of a guard around one helper call.
pub fn helper_guard_arguments(
    supervisor: u32,
    guard_term_timeout: Duration,
    program: &str,
    arguments: &Vec<String>,
) -> (guard: Result<Vec<String>, HostBuildError>)
    ensures
        match guard {
            Ok(guard) => term_timeout_fault(guard_term_timeout@) is None && texts(guard@)
                == helper_guard(
                supervisor as nat,
                millis(guard_term_timeout@),
                program@,
                texts(arguments@),
            ),
            Err(error) => term_timeout_fault(guard_term_timeout@) == Some(error@),
        },
{
    let timeout_ms: u64 = match term_millis(guard_term_timeout) {
        Ok(count) => count,
        Err(error) => {
            return Err(error);
        },
    };
    let mut guard = guard_start(supervisor);
    push_text(&mut guard, "--term-timeout-ms");
    push_text(&mut guard, &decimal_text(timeout_ms));
    push_text(&mut guard, "--");
    push_text(&mut guard, program);
    extend_texts(&mut guard, arguments);
    Ok(guard)
}

fn guest_guard_arguments(supervisor: u32, timeout_ms: u64, command: &Vec<String>) -> (guard: Vec<
    String,
>)
    ensures
        texts(guard@) == guest_guard(supervisor as nat, timeout_ms as nat, texts(command@)),
{
    let mut guard = guard_start(supervisor);
    push_text(&mut guard, "--inherit-fd");
    push_text(&mut guard, &decimal_text(CONTROL_FD as u64));
    push_text(&mut guard, "--inherit-fd");
    push_text(&mut guard, &decimal_text(CONSOLE_FD as u64));
    push_text(&mut guard, "--term-timeout-ms");
    push_text(&mut guard, &decimal_text(timeout_ms));
    push_text(&mut guard, "--uml-personality");
    push_text(&mut guard, "--");
    extend_texts(&mut guard, command);
    guard
}

// ---------------------------------------------------------------------------
// Guest commands
// ---------------------------------------------------------------------------

/// What differs between the two guests of a build.
pub struct GuestBoot {
    pub role: Seq<char>,
    pub memory: nat,
    pub umid: Seq<char>,
    pub uml_dir: Seq<char>,
    pub initramfs: Seq<char>,
    pub disks: Seq<Seq<char>>,
    pub hello: HelloContract,
    pub manifest_schema: Seq<char>,
}

/// A boot parameter that the guest reads.
pub open spec fn guest_setting(role: Seq<char>, key: Seq<char>, value: Seq<char>) -> Seq<char> {
    "pocket."@ + role + key + value
}

/// What the kernel is told before its disks.
pub open spec fn boot_head(
    uml: Seq<char>,
    smp: bool,
    boot: GuestBoot,
) -> Seq<Seq<char>> {
    let sized = seq![uml, "mem="@ + decimal(boot.memory)];
    let counted = if smp {
        sized.push("ncpus=1"@)
    } else {
        sized
    };
    counted.push("seccomp=on"@).push("umid="@ + boot.umid).push("uml_dir="@ + boot.uml_dir).push(
        "initrd="@ + boot.initramfs,
    ).push("rdinit=/init"@).push("rootfstype=ramfs"@)
}

/// What the guest is told to expect, after its disks.
pub open spec fn boot_contract(manifest: ProfileManifest, boot: GuestBoot) -> Seq<Seq<char>> {
    let role = boot.role;
    seq![
        "con=null"@,
        "con0=fd:14,fd:14"@,
        "ssl=null"@,
        "ssl0=fd:10,fd:10"@,
        guest_setting(role, ".guest_contract_id="@, boot.hello.guest_contract_id@),
        guest_setting(role, ".init_build_id="@, boot.hello.init_build_id@),
        guest_setting(role, ".kernel_build_id="@, boot.hello.kernel_build_id@),
        guest_setting(role, ".expected_cpus="@, "1"@),
        guest_setting(role, ".expected_memory_bytes="@, decimal(boot.memory)),
        guest_setting(role, ".expected_page_size="@, decimal(manifest.guest_page_size as nat)),
        guest_setting(role, ".expected_architecture="@, "amd64"@),
        guest_setting(
            role,
            ".cpu_state_hwcap_policy="@,
            manifest.contracts.cpu_state_hwcap_policy@,
        ),
        guest_setting(role, ".root_layout="@, manifest.contracts.root_layout@),
        guest_setting(role, ".filesystem_contract="@, manifest.contracts.filesystem@),
        guest_setting(role, ".manifest_schema="@, boot.manifest_schema),
        "quiet"@,
        "noreboot"@,
        "panic=1"@,
    ]
}

/// The whole command of a guest: one CPU, a decimal memory size, no shell.
pub open spec fn guest_command(
    uml: Seq<char>,
    manifest: ProfileManifest,
    boot: GuestBoot,
) -> Seq<Seq<char>> {
    boot_head(uml, manifest.cpu.smp_enabled, boot) + boot.disks + boot_contract(manifest, boot)
}

fn push_setting(list: &mut Vec<String>, role: &str, key: &str, value: &str)
    ensures
        texts(final(list)@) == texts(old(list)@).push(guest_setting(role@, key@, value@)),
{
    push_text(list, &join(&join3("pocket.", role, key), value));
}

fn boot_contract_texts(
    manifest: &ProfileManifest,
    role: &str,
    memory: u64,
    hello: &HelloContract,
    manifest_schema: &str,
    Ghost(boot): Ghost<GuestBoot>,
) -> (list: Vec<String>)
    requires
        boot.role == role@,
        boot.memory == memory,
        boot.hello == *hello,
        boot.manifest_schema == manifest_schema@,
    ensures
        texts(list@) == boot_contract(*manifest, boot),
{
    let mut list: Vec<String> = Vec::new();
    assert(texts(list@) =~= Seq::<Seq<char>>::empty());
    push_text(&mut list, "con=null");
    push_text(&mut list, "con0=fd:14,fd:14");
    push_text(&mut list, "ssl=null");
    push_text(&mut list, "ssl0=fd:10,fd:10");
    push_setting(&mut list, role, ".guest_contract_id=", &hello.guest_contract_id);
    push_setting(&mut list, role, ".init_build_id=", &hello.init_build_id);
    push_setting(&mut list, role, ".kernel_build_id=", &hello.kernel_build_id);
    push_setting(&mut list, role, ".expected_cpus=", "1");
    push_setting(&mut list, role, ".expected_memory_bytes=", &decimal_text(memory));
    push_setting(
        &mut list,
        role,
        ".expected_page_size=",
        &decimal_text(manifest.guest_page_size as u64),
    );
    push_setting(&mut list, role, ".expected_architecture=", "amd64");
    push_setting(
        &mut list,
        role,
        ".cpu_state_hwcap_policy=",
        &manifest.contracts.cpu_state_hwcap_policy,
    );
    push_setting(&mut list, role, ".root_layout=", &manifest.contracts.root_layout);
    push_setting(&mut list, role, ".filesystem_contract=", &manifest.contracts.filesystem);
    push_setting(&mut list, role, ".manifest_schema=", manifest_schema);
    push_text(&mut list, "quiet");
    push_text(&mut list, "noreboot");
    push_text(&mut list, "panic=1");
    list
}

fn boot_head_texts(
    uml: &str,
    smp: bool,
    memory: u64,
    umid: &str,
    uml_dir: &str,
    initramfs: &str,
    Ghost(boot): Ghost<GuestBoot>,
) -> (list: Vec<String>)
    requires
        boot.memory == memory,
        boot.umid == umid@,
        boot.uml_dir == uml_dir@,
        boot.initramfs == initramfs@,
    ensures
        texts(list@) == boot_head(uml@, smp, boot),
{
    let mut list: Vec<String> = Vec::new();
    assert(texts(list@) =~= Seq::<Seq<char>>::empty());
    push_text(&mut list, uml);
    push_text(&mut list, &join("mem=", &decimal_text(memory)));
    if smp {
        push_text(&mut list, "ncpus=1");
    }
    push_text(&mut list, "seccomp=on");
    push_text(&mut list, &join("umid=", umid));
    push_text(&mut list, &join("uml_dir=", uml_dir));
    push_text(&mut list, &join("initrd=", initramfs));
    push_text(&mut list, "rdinit=/init");
    push_text(&mut list, "rootfstype=ramfs");
    list
}

/// Why a disk path is refused, if it is.
pub open spec fn disk_path_fault(field: Seq<char>, path: Seq<char>, limit: u16) -> Option<
    HostBuildFault,
> {
    if byte_count(path) > limit {
        Some(invalid_build(field, "UBD path exceeds the profile limit"@))
    } else {
        None
    }
}

pub open spec fn uml_dir_fault(uml_dir: Seq<char>, limit: u16) -> Option<HostBuildFault> {
    if byte_count(uml_dir) > limit {
        Some(
            invalid_build("uml_dir"@, "UML directory exceeds the profile Unix-path limit"@),
        )
    } else {
        None
    }
}

fn check_disk_path(field: &'static str, path: &str, limit: u16) -> (checked: Result<
    (),
    HostBuildError,
>)
    ensures
        build_fault(checked) == disk_path_fault(field@, path@, limit),
{
    if byte_len(path) > limit as usize {
        return Err(HostBuildError::invalid(field, "UBD path exceeds the profile limit"));
    }
    Ok(())
}

fn check_uml_dir(uml_dir: &str, limit: u16) -> (checked: Result<(), HostBuildError>)
    ensures
        build_fault(checked) == uml_dir_fault(uml_dir@, limit),
{
    if byte_len(uml_dir) > limit as usize {
        return Err(
            HostBuildError::invalid("uml_dir", "UML directory exceeds the profile Unix-path limit"),
        );
    }
    Ok(())
}

/// How the builder guest boots.
pub open spec fn builder_boot(
    manifest: ProfileManifest,
    paths: BuildPaths,
    target: Seq<char>,
) -> GuestBoot {
    GuestBoot {
        role: "builder"@,
        memory: manifest.memory.builder_memory_bytes as nat,
        umid: paths.umid@,
        uml_dir: paths.uml_dir@,
        initramfs: paths.initramfs@,
        disks: seq!["ubd0r="@ + paths.payload@, "ubd1="@ + target],
        hello: manifest.builder.hello,
        manifest_schema: manifest.builder.manifest_schema@,
    }
}

/// How the validator guest boots: with the target alone, and read-only.
pub open spec fn validator_boot(
    manifest: ProfileManifest,
    paths: BuildPaths,
    target: Seq<char>,
) -> GuestBoot {
    GuestBoot {
        role: "validator"@,
        memory: manifest.memory.validator_memory_bytes as nat,
        umid: paths.validator_umid@,
        uml_dir: paths.uml_dir@,
        initramfs: paths.validator_initramfs@,
        disks: seq!["ubd0r="@ + target],
        hello: manifest.validator.hello,
        manifest_schema: manifest.validator.manifest_schema@,
    }
}

/// Why a builder launch is refused, if it is.
pub open spec fn builder_plan_fault(
    manifest: ProfileManifest,
    paths: BuildPaths,
    target: Seq<char>,
    guard_term_timeout: nat,
) -> Option<HostBuildFault> {
    first_of(
        disk_path_fault("payload"@, paths.payload@, manifest.launch.max_ubd_path_bytes),
        first_of(
            disk_path_fault("target"@, target, manifest.launch.max_ubd_path_bytes),
            first_of(
                uml_dir_fault(paths.uml_dir@, manifest.launch.max_unix_path_bytes),
                term_timeout_fault(guard_term_timeout),
            ),
        ),
    )
}

/// Why a validator launch is refused, if it is.
pub open spec fn validator_plan_fault(
    manifest: ProfileManifest,
    paths: BuildPaths,
    target: Seq<char>,
    guard_term_timeout: nat,
) -> Option<HostBuildFault> {
    first_of(
        disk_path_fault("validation_target"@, target, manifest.launch.max_ubd_path_bytes),
        first_of(
            uml_dir_fault(paths.uml_dir@, manifest.launch.max_unix_path_bytes),
            term_timeout_fault(guard_term_timeout),
        ),
    )
}

/// Whether a plan is the exact launch of a guest.
pub open spec fn is_launch_of(
    plan: BuilderLaunchPlan,
    profile: VerifiedProfile,
    boot: GuestBoot,
    tmp: Seq<char>,
    guard_term_timeout: nat,
    supervisor: nat,
) -> bool {
    let command = guest_command(profile.artifact_path(UML as int), profile.view_manifest(), boot);
    &&& plan.guard_program@ == profile.artifact_path(GUARD as int)
    &&& texts(plan.uml_command@) == command
    &&& texts(plan.guard_arguments@) == guest_guard(
        supervisor,
        millis(guard_term_timeout),
        command,
    )
    &&& variables(plan.environment@) == clean_environment(tmp)
}

fn launch_guest(
    profile: &VerifiedProfile,
    head: Vec<String>,
    disks: Vec<String>,
    contract: Vec<String>,
    tmp_dir: &str,
    timeout_ms: u64,
    supervisor: u32,
) -> (plan: BuilderLaunchPlan)
    ensures
        plan.guard_program@ == profile.artifact_path(GUARD as int),
        texts(plan.uml_command@) == texts(head@) + texts(disks@) + texts(contract@),
        texts(plan.guard_arguments@) == guest_guard(
            supervisor as nat,
            timeout_ms as nat,
            texts(plan.uml_command@),
        ),
        variables(plan.environment@) == clean_environment(tmp_dir@),
{
    let mut uml_command = head;
    extend_texts(&mut uml_command, &disks);
    extend_texts(&mut uml_command, &contract);
    let guard_arguments = guest_guard_arguments(supervisor, timeout_ms, &uml_command);
    BuilderLaunchPlan {
        guard_program: profile.guard_path().to_owned(),
        guard_arguments,
        uml_command,
        environment: sanitized_environment(tmp_dir),
    }
}

/// Plans the launch of the builder guest over the scratch payload and the
/// target.
pub fn build_builder_launch_plan(
    profile: &VerifiedProfile,
    paths: &BuildPaths,
    target: &str,
    guard_term_timeout: Duration,
    supervisor: u32,
) -> (plan: Result<BuilderLaunchPlan, HostBuildError>)
    ensures
        match plan {
            Ok(plan) => builder_plan_fault(
                profile.view_manifest(),
                *paths,
                target@,
                guard_term_timeout@,
            ) is None && is_launch_of(
                plan,
                *profile,
                builder_boot(profile.view_manifest(), *paths, target@),
                paths.tmp_dir@,
                guard_term_timeout@,
                supervisor as nat,
            ),
            Err(error) => builder_plan_fault(
                profile.view_manifest(),
                *paths,
                target@,
                guard_term_timeout@,
            ) == Some(error@),
        },
{
    let manifest = profile.manifest();
    let ghost boot = builder_boot(*manifest, *paths, target@);
    if let Err(error) = check_disk_path(
        "payload",
        &paths.payload,
        manifest.launch.max_ubd_path_bytes,
    ) {
        return Err(error);
    }
    if let Err(error) = check_disk_path("target", target, manifest.launch.max_ubd_path_bytes) {
        return Err(error);
    }
    if let Err(error) = check_uml_dir(&paths.uml_dir, manifest.launch.max_unix_path_bytes) {
        return Err(error);
    }
    let timeout_ms: u64 = match term_millis(guard_term_timeout) {
        Ok(count) => count,
        Err(error) => {
            return Err(error);
        },
    };
    let memory: u64 = manifest.memory.builder_memory_bytes;
    let head = boot_head_texts(
        profile.uml_path(),
        manifest.cpu.smp_enabled,
        memory,
        &paths.umid,
        &paths.uml_dir,
        &paths.initramfs,
        Ghost(boot),
    );
    let mut disks: Vec<String> = Vec::new();
    assert(texts(disks@) =~= Seq::<Seq<char>>::empty());
    push_text(&mut disks, &join("ubd0r=", &paths.payload));
    push_text(&mut disks, &join("ubd1=", target));
    assert(texts(disks@) =~= boot.disks);
    let contract = boot_contract_texts(
        manifest,
        "builder",
        memory,
        &manifest.builder.hello,
        &manifest.builder.manifest_schema,
        Ghost(boot),
    );
    Ok(launch_guest(profile, head, disks, contract, &paths.tmp_dir, timeout_ms, supervisor))
}

/// Plans the launch of the validator guest over the target alone.
pub fn build_validator_launch_plan(
    profile: &VerifiedProfile,
    paths: &BuildPaths,
    target: &str,
    guard_term_timeout: Duration,
    supervisor: u32,
) -> (plan: Result<BuilderLaunchPlan, HostBuildError>)
    ensures
        match plan {
            Ok(plan) => validator_plan_fault(
                profile.view_manifest(),
                *paths,
                target@,
                guard_term_timeout@,
            ) is None && is_launch_of(
                plan,
                *profile,
                validator_boot(profile.view_manifest(), *paths, target@),
                paths.tmp_dir@,
                guard_term_timeout@,
                supervisor as nat,
            ),
            Err(error) => validator_plan_fault(
                profile.view_manifest(),
                *paths,
                target@,
                guard_term_timeout@,
            ) == Some(error@),
        },
{
    let manifest = profile.manifest();
    let ghost boot = validator_boot(*manifest, *paths, target@);
    if let Err(error) = check_disk_path(
        "validation_target",
        target,
        manifest.launch.max_ubd_path_bytes,
    ) {
        return Err(error);
    }
    if let Err(error) = check_uml_dir(&paths.uml_dir, manifest.launch.max_unix_path_bytes) {
        return Err(error);
    }
    let timeout_ms: u64 = match term_millis(guard_term_timeout) {
        Ok(count) => count,
        Err(error) => {
            return Err(error);
        },
    };
    let memory: u64 = manifest.memory.validator_memory_bytes;
    let head = boot_head_texts(
        profile.uml_path(),
        manifest.cpu.smp_enabled,
        memory,
        &paths.validator_umid,
        &paths.uml_dir,
        &paths.validator_initramfs,
        Ghost(boot),
    );
    let mut disks: Vec<String> = Vec::new();
    assert(texts(disks@) =~= Seq::<Seq<char>>::empty());
    push_text(&mut disks, &join("ubd0r=", target));
    let contract = boot_contract_texts(
        manifest,
        "validator",
        memory,
        &manifest.validator.hello,
        &manifest.validator.manifest_schema,
        Ghost(boot),
    );
    Ok(launch_guest(profile, head, disks, contract, &paths.tmp_dir, timeout_ms, supervisor))
}

/// The validator sees the target as its only disk and cannot write it; the
/// builder reads the payload without writing it.
pub proof fn law_validator_cannot_write_the_target(
    manifest: ProfileManifest,
    paths: BuildPaths,
    target: Seq<char>,
)
    ensures
        validator_boot(manifest, paths, target).disks == seq!["ubd0r="@ + target],
        builder_boot(manifest, paths, target).disks[0] == "ubd0r="@ + paths.payload@,
{
}

/// Every helper guest starts the profile's kernel itself, in seccomp mode, and
/// one that panics or asks for a reboot ends it.
pub proof fn law_every_guest_is_confined(
    uml: Seq<char>,
    manifest: ProfileManifest,
    boot: GuestBoot,
)
    ensures
        guest_command(uml, manifest, boot)[0] == uml,
        guest_command(uml, manifest, boot).contains("seccomp=on"@),
        guest_command(uml, manifest, boot).contains("noreboot"@),
        guest_command(uml, manifest, boot).contains("panic=1"@),
{
    let head = boot_head(uml, manifest.cpu.smp_enabled, boot);
    let contract = boot_contract(manifest, boot);
    let command = guest_command(uml, manifest, boot);
    let at: int = if manifest.cpu.smp_enabled {
        3
    } else {
        2
    };
    assert(head[at] == "seccomp=on"@);
    assert(command[at] == head[at]);
    let start: int = head.len() + boot.disks.len() as int;
    assert(command[start + 16] == contract[16]);
    assert(command[start + 17] == contract[17]);
}

/// Whether an environment says nothing of the host: a fixed home, language,
/// path and time zone, and one place for temporary files under each of its
/// names.
pub open spec fn is_clean(environment: Seq<(Seq<char>, Seq<char>)>, tmp: Seq<char>) -> bool {
    &&& environment.contains(("HOME"@, "/"@))
    &&& environment.contains(("LANG"@, "C"@))
    &&& environment.contains(("LC_ALL"@, "C"@))
    &&& environment.contains(("PATH"@, "/usr/bin:/bin"@))
    &&& environment.contains(("TEMP"@, tmp))
    &&& environment.contains(("TMP"@, tmp))
    &&& environment.contains(("TMPDIR"@, tmp))
    &&& environment.contains(("TZ"@, "UTC0"@))
}

/// A guard is given those eight variables and nothing more.
pub proof fn law_environment_is_clean(
    tmp: &str,
    environment: Vec<Variable>,
)
    requires
        call_ensures(sanitized_environment, (tmp,), environment),
    ensures
        variables(environment@).len() == 8,
        is_clean(variables(environment@), tmp@),
{
    lemma_clean_environment(tmp@);
}

pub proof fn lemma_clean_environment(tmp: Seq<char>)
    ensures
        clean_environment(tmp).len() == 8,
        is_clean(clean_environment(tmp), tmp),
{
    let all = clean_environment(tmp);
    assert(all[0] == ("HOME"@, "/"@));
    assert(all[1] == ("LANG"@, "C"@));
    assert(all[2] == ("LC_ALL"@, "C"@));
    assert(all[3] == ("PATH"@, "/usr/bin:/bin"@));
    assert(all[4] == ("TEMP"@, tmp));
    assert(all[5] == ("TMP"@, tmp));
    assert(all[6] == ("TMPDIR"@, tmp));
    assert(all[7] == ("TZ"@, "UTC0"@));
}

/// A filesystem helper sees the clean environment, its private cache of block
/// devices and the profile's frozen clock; the formatter and the checker are
/// given the profile's configuration for each, and no helper anything else.
pub proof fn law_helpers_see_only_the_profile(
    profile: VerifiedProfile,
    tmp: &str,
    blkid_file: &str,
    helper: E2fsHelper,
    seen: Vec<Variable>,
)
    requires
        profile.bound(),
        call_ensures(e2fs_helper_environment, (&profile, tmp, blkid_file, helper), seen),
    ensures
        ({
            let environment = variables(seen@);
            let root = profile.root();
            let manifest = profile.view_manifest();
            let own: nat = if helper is Mke2fs || helper is E2fsck {
                1
            } else {
                0
            };
            &&& environment.len() == 10 + own
            &&& is_clean(environment, tmp@)
            &&& environment.contains(("BLKID_FILE"@, blkid_file@))
            &&& environment.contains(
                ("E2FSPROGS_FAKE_TIME"@, decimal(manifest.builder.source_date_epoch as nat)),
            )
            &&& helper is Mke2fs ==> environment.contains(
                ("MKE2FS_CONFIG"@, joined(root, manifest.artifacts.mke2fs_config.path@)),
            )
            &&& helper is E2fsck ==> environment.contains(
                ("E2FSCK_CONFIG"@, joined(root, manifest.artifacts.e2fsck_config.path@)),
            )
        }),
{
    let tmp = tmp@;
    let blkid_file = blkid_file@;
    law_artifacts_serve_their_purpose(profile);
    let all = helper_environment(profile, tmp, blkid_file, helper);
    let epoch = decimal(profile.view_manifest().builder.source_date_epoch as nat);
    let check: int = if helper is E2fsck {
        1
    } else {
        0
    };
    let format: int = if helper is Mke2fs {
        1
    } else {
        0
    };
    assert(all[0] == ("BLKID_FILE"@, blkid_file));
    if helper is E2fsck {
        assert(all[1] == ("E2FSCK_CONFIG"@, profile.artifact_path(E2FSCK_CONFIG as int)));
    }
    assert(all[1 + check] == ("E2FSPROGS_FAKE_TIME"@, epoch));
    assert(all[2 + check] == ("HOME"@, "/"@));
    assert(all[3 + check] == ("LANG"@, "C"@));
    assert(all[4 + check] == ("LC_ALL"@, "C"@));
    if helper is Mke2fs {
        assert(all[5] == ("MKE2FS_CONFIG"@, profile.artifact_path(MKE2FS_CONFIG as int)));
    }
    let tail = 5 + check + format;
    assert(all[tail] == ("PATH"@, "/usr/bin:/bin"@));
    assert(all[tail + 1] == ("TEMP"@, tmp));
    assert(all[tail + 2] == ("TMP"@, tmp));
    assert(all[tail + 3] == ("TMPDIR"@, tmp));
    assert(all[tail + 4] == ("TZ"@, "UTC0"@));
}

/// Each helper is its own program: the formatter and the checker are the
/// profile's, the resizer and the inspector the host's.
pub proof fn law_each_helper_is_its_own_program(
    profile: VerifiedProfile,
    tools: ResizeTools,
    helper: E2fsHelper,
    path: &str,
)
    requires
        profile.bound(),
        call_ensures(E2fsHelper::program, (helper, &profile, &tools), path),
    ensures
        ({
            let artifacts = profile.view_manifest().artifacts;
            &&& helper is Mke2fs ==> path@ == joined(
                profile.root(),
                artifacts.mke2fs.path@,
            )
            &&& helper is E2fsck ==> path@ == joined(
                profile.root(),
                artifacts.e2fsck.path@,
            )
            &&& helper is Resize2fs ==> path@ == tools.resize2fs@
            &&& helper is Debugfs ==> path@ == tools.debugfs@
        }),
{
    law_artifacts_serve_their_purpose(profile);
}

/// Whether an option is followed by a value somewhere.
pub open spec fn has_option(arguments: Seq<Seq<char>>, option: Seq<char>, value: Seq<char>) -> bool {
    exists|i: int|
        0 <= i < arguments.len() - 1 && #[trigger] arguments[i] == option && arguments[i + 1]
            == value
}

proof fn lemma_option_at(arguments: Seq<Seq<char>>, i: int)
    requires
        0 <= i < arguments.len() - 1,
    ensures
        has_option(arguments, arguments[i], arguments[i + 1]),
{
}

/// A format is an ext4 one of 4096-byte blocks and 256-byte inodes with no
/// reserved blocks, under the given label, identity and number of inodes. It
/// is populated only from the given directory, it owns its root as root, the
/// seed of its directory hashes is the given one, nothing of it is left to be
/// initialised later, and the last word is the image.
pub proof fn law_format_is_the_one_asked_for(
    image: &str,
    label: &str,
    uuid: &str,
    hash_seed: &str,
    inodes: u64,
    populate: Option<&str>,
    given: Vec<String>,
)
    requires
        call_ensures(mke2fs_arguments, (image, label, uuid, hash_seed, inodes, populate), given),
    ensures
        ({
            let arguments = texts(given@);
            &&& arguments.last() == image@
            &&& arguments.contains("-F"@)
            &&& arguments.contains("-q"@)
            &&& has_option(arguments, "-t"@, "ext4"@)
            &&& has_option(arguments, "-b"@, "4096"@)
            &&& has_option(arguments, "-I"@, "256"@)
            &&& has_option(arguments, "-N"@, decimal(inodes as nat))
            &&& has_option(arguments, "-m"@, "0"@)
            &&& has_option(arguments, "-L"@, label@)
            &&& has_option(arguments, "-U"@, uuid@)
            &&& has_option(
                arguments,
                "-O"@,
                "has_journal,ext_attr,resize_inode,dir_index,filetype,extent,64bit,flex_bg,metadata_csum_seed,sparse_super,large_file,huge_file,dir_nlink,extra_isize,metadata_csum"@,
            )
            &&& has_option(
                arguments,
                "-E"@,
                "lazy_itable_init=0,lazy_journal_init=0,root_owner=0:0,hash_seed="@ + hash_seed@,
            )
            &&& match populate {
                Some(root) => arguments.len() == 23 && has_option(arguments, "-d"@, root@),
                None => arguments.len() == 21,
            }
        }),
{
    let populate = text_of(populate);
    let image = image@;
    let label = label@;
    let uuid = uuid@;
    let hash_seed = hash_seed@;
    let inodes = inodes as nat;
    let arguments = format_arguments(image, label, uuid, hash_seed, inodes, populate);
    assert(arguments[0] == "-F"@);
    assert(arguments[1] == "-q"@);
    lemma_option_at(arguments, 2);
    lemma_option_at(arguments, 4);
    lemma_option_at(arguments, 6);
    lemma_option_at(arguments, 8);
    lemma_option_at(arguments, 10);
    lemma_option_at(arguments, 12);
    lemma_option_at(arguments, 14);
    lemma_option_at(arguments, 16);
    lemma_option_at(arguments, 18);
    if populate is Some {
        lemma_option_at(arguments, 20);
    }
}

/// Whether a guard holds what every guard must: it watches over its supervisor
/// and keeps the lease and the liveness pipe on their own descriptors.
pub open spec fn is_guarded(arguments: Seq<Seq<char>>, supervisor: nat) -> bool {
    &&& has_option(arguments, "--supervisor-pid"@, decimal(supervisor))
    &&& has_option(arguments, "--liveness-fd"@, decimal(9))
    &&& has_option(arguments, "--lease-fd"@, decimal(8))
}

/// A helper runs under a guard that passes nothing on to it: behind the `--`
/// stand the program and its arguments.
pub proof fn law_helpers_are_guarded(
    supervisor: u32,
    guard_term_timeout: Duration,
    program: &str,
    arguments: Vec<String>,
    given: Result<Vec<String>, HostBuildError>,
)
    requires
        call_ensures(helper_guard_arguments, (supervisor, guard_term_timeout, program, &arguments), given),
    ensures
        given is Ok <==> guard_term_timeout@ / 1_000_000 <= u64::MAX,
        given is Ok ==> ({
            let guard = texts(given->Ok_0@);
            let arguments = texts(arguments@);
            &&& is_guarded(guard, supervisor as nat)
            &&& has_option(guard, "--term-timeout-ms"@, decimal(guard_term_timeout@ / 1_000_000))
            &&& guard.len() == 10 + arguments.len()
            &&& guard[8] == "--"@
            &&& guard[9] == program@
            &&& guard.skip(10) == arguments
        }),
{
    let supervisor = supervisor as nat;
    let timeout_ms = guard_term_timeout@ / 1_000_000;
    let program = program@;
    let arguments = texts(arguments@);
    let guard = helper_guard(supervisor, timeout_ms, program, arguments);
    lemma_option_at(guard, 0);
    lemma_option_at(guard, 2);
    lemma_option_at(guard, 4);
    lemma_option_at(guard, 6);
    assert(guard.skip(10) =~= arguments);
}

/// A guest of a build runs under a guard that passes on its control channel and
/// its console and nothing else: behind the `--` stands the kernel's command.
pub proof fn law_guests_are_guarded(supervisor: nat, timeout_ms: nat, command: Seq<Seq<char>>)
    ensures
        ({
            let guard = guest_guard(supervisor, timeout_ms, command);
            &&& is_guarded(guard, supervisor)
            &&& has_option(guard, "--inherit-fd"@, decimal(10))
            &&& has_option(guard, "--inherit-fd"@, decimal(14))
            &&& has_option(guard, "--term-timeout-ms"@, decimal(timeout_ms))
            &&& guard[12] == "--uml-personality"@
            &&& guard[13] == "--"@
            &&& guard.skip(14) == command
            &&& guard.len() == 14 + command.len()
        }),
{
    let guard = guest_guard(supervisor, timeout_ms, command);
    lemma_option_at(guard, 0);
    lemma_option_at(guard, 2);
    lemma_option_at(guard, 4);
    lemma_option_at(guard, 6);
    lemma_option_at(guard, 8);
    lemma_option_at(guard, 10);
    assert(guard.skip(14) =~= command);
}

/// Whether a guest is told to expect what the manifest says of it, under its
/// own role.
pub open spec fn expects(
    command: Seq<Seq<char>>,
    manifest: ProfileManifest,
    role: Seq<char>,
    hello: HelloContract,
    memory: nat,
    schema: Seq<char>,
) -> bool {
    let contracts = manifest.contracts;
    let prefix = "pocket."@ + role;
    &&& command.contains(prefix + ".guest_contract_id="@ + hello.guest_contract_id@)
    &&& command.contains(prefix + ".init_build_id="@ + hello.init_build_id@)
    &&& command.contains(prefix + ".kernel_build_id="@ + hello.kernel_build_id@)
    &&& command.contains(prefix + ".expected_cpus="@ + "1"@)
    &&& command.contains(prefix + ".expected_memory_bytes="@ + decimal(memory))
    &&& command.contains(prefix + ".expected_page_size="@ + decimal(manifest.guest_page_size as nat))
    &&& command.contains(prefix + ".expected_architecture="@ + "amd64"@)
    &&& command.contains(prefix + ".cpu_state_hwcap_policy="@ + contracts.cpu_state_hwcap_policy@)
    &&& command.contains(prefix + ".root_layout="@ + contracts.root_layout@)
    &&& command.contains(prefix + ".filesystem_contract="@ + contracts.filesystem@)
    &&& command.contains(prefix + ".manifest_schema="@ + schema)
}

proof fn lemma_guest_words(uml: Seq<char>, manifest: ProfileManifest, boot: GuestBoot)
    ensures
        ({
            let command = guest_command(uml, manifest, boot);
            let head: int = if manifest.cpu.smp_enabled {
                9
            } else {
                8
            };
            &&& command.len() == head + boot.disks.len() + 18
            &&& command[0] == uml
            &&& command.contains("mem="@ + decimal(boot.memory))
            &&& manifest.cpu.smp_enabled ==> command.contains("ncpus=1"@)
            &&& command.contains("umid="@ + boot.umid)
            &&& command.contains("uml_dir="@ + boot.uml_dir)
            &&& command.contains("initrd="@ + boot.initramfs)
            &&& command.contains("rdinit=/init"@)
            &&& command.contains("rootfstype=ramfs"@)
            &&& command.contains("con=null"@)
            &&& command.contains("con0=fd:14,fd:14"@)
            &&& command.contains("ssl=null"@)
            &&& command.contains("ssl0=fd:10,fd:10"@)
            &&& command.contains("quiet"@)
            &&& expects(
                command,
                manifest,
                boot.role,
                boot.hello,
                boot.memory,
                boot.manifest_schema,
            )
            &&& forall|i: int|
                0 <= i < boot.disks.len() ==> #[trigger] command[head + i] == boot.disks[i]
        }),
{
    let head = boot_head(uml, manifest.cpu.smp_enabled, boot);
    let contract = boot_contract(manifest, boot);
    let command = guest_command(uml, manifest, boot);
    let start: int = head.len() + boot.disks.len() as int;
    assert forall|i: int| 0 <= i < head.len() implies command.contains(#[trigger] head[i]) by {
        assert(command[i] == head[i]);
    }
    assert forall|i: int| 0 <= i < contract.len() implies command.contains(
        #[trigger] contract[i],
    ) by {
        assert(command[start + i] == contract[i]);
    }
    let after: int = if manifest.cpu.smp_enabled {
        1
    } else {
        0
    };
    assert(head[1] == "mem="@ + decimal(boot.memory));
    if manifest.cpu.smp_enabled {
        assert(head[2] == "ncpus=1"@);
    }
    assert(head[3 + after] == "umid="@ + boot.umid);
    assert(head[4 + after] == "uml_dir="@ + boot.uml_dir);
    assert(head[5 + after] == "initrd="@ + boot.initramfs);
    assert(head[6 + after] == "rdinit=/init"@);
    assert(head[7 + after] == "rootfstype=ramfs"@);
    let role = boot.role;
    let contracts = manifest.contracts;
    assert(contract[0] == "con=null"@);
    assert(contract[1] == "con0=fd:14,fd:14"@);
    assert(contract[2] == "ssl=null"@);
    assert(contract[3] == "ssl0=fd:10,fd:10"@);
    assert(contract[4] == guest_setting(
        role,
        ".guest_contract_id="@,
        boot.hello.guest_contract_id@,
    ));
    assert(contract[5] == guest_setting(role, ".init_build_id="@, boot.hello.init_build_id@));
    assert(contract[6] == guest_setting(role, ".kernel_build_id="@, boot.hello.kernel_build_id@));
    assert(contract[7] == guest_setting(role, ".expected_cpus="@, "1"@));
    assert(contract[8] == guest_setting(role, ".expected_memory_bytes="@, decimal(boot.memory)));
    assert(contract[9] == guest_setting(
        role,
        ".expected_page_size="@,
        decimal(manifest.guest_page_size as nat),
    ));
    assert(contract[10] == guest_setting(role, ".expected_architecture="@, "amd64"@));
    assert(contract[11] == guest_setting(
        role,
        ".cpu_state_hwcap_policy="@,
        contracts.cpu_state_hwcap_policy@,
    ));
    assert(contract[12] == guest_setting(role, ".root_layout="@, contracts.root_layout@));
    assert(contract[13] == guest_setting(role, ".filesystem_contract="@, contracts.filesystem@));
    assert(contract[14] == guest_setting(role, ".manifest_schema="@, boot.manifest_schema));
    assert(contract[15] == "quiet"@);
}

/// The builder's guest runs the manifest's kernel on the build's copy of the
/// builder initramfs with the builder's memory and one CPU. It has two disks:
/// it reads the payload and writes the target.
pub proof fn law_builder_boots_its_own_guest(
    profile: VerifiedProfile,
    paths: BuildPaths,
    target: &str,
    guard_term_timeout: Duration,
    supervisor: u32,
    plan: BuilderLaunchPlan,
)
    requires
        profile.bound(),
        call_ensures(
            build_builder_launch_plan,
            (&profile, &paths, target, guard_term_timeout, supervisor),
            Ok(plan),
        ),
    ensures
        ({
            let manifest = profile.view_manifest();
            let command = texts(plan.uml_command@);
            let disks: int = if manifest.cpu.smp_enabled {
                9
            } else {
                8
            };
            let memory = manifest.memory.builder_memory_bytes as nat;
            &&& command.len() == disks + 20
            &&& command[0] == joined(profile.root(), manifest.artifacts.uml.path@)
            &&& command[disks] == "ubd0r="@ + paths.payload@
            &&& command[disks + 1] == "ubd1="@ + target@
            &&& command.contains("mem="@ + decimal(memory))
            &&& command.contains("umid="@ + paths.umid@)
            &&& command.contains("uml_dir="@ + paths.uml_dir@)
            &&& command.contains("initrd="@ + paths.initramfs@)
            &&& expects(
                command,
                manifest,
                "builder"@,
                manifest.builder.hello,
                memory,
                manifest.builder.manifest_schema@,
            )
        }),
{
    let target = target@;
    law_artifacts_serve_their_purpose(profile);
    let manifest = profile.view_manifest();
    let boot = builder_boot(manifest, paths, target);
    lemma_guest_words(profile.artifact_path(UML as int), manifest, boot);
    let disks: int = if manifest.cpu.smp_enabled {
        9
    } else {
        8
    };
    let command = guest_command(profile.artifact_path(UML as int), manifest, boot);
    assert(command[disks + 0] == boot.disks[0]);
    assert(command[disks + 1] == boot.disks[1]);
}

/// The validator's guest is another one, of another name: it runs the
/// manifest's kernel on the build's copy of the validator initramfs with the
/// validator's memory. Its only disk is the target, and it reads it.
pub proof fn law_validator_boots_its_own_guest(
    profile: VerifiedProfile,
    paths: BuildPaths,
    target: &str,
    guard_term_timeout: Duration,
    supervisor: u32,
    plan: BuilderLaunchPlan,
)
    requires
        profile.bound(),
        call_ensures(
            build_validator_launch_plan,
            (&profile, &paths, target, guard_term_timeout, supervisor),
            Ok(plan),
        ),
    ensures
        ({
            let manifest = profile.view_manifest();
            let command = texts(plan.uml_command@);
            let disks: int = if manifest.cpu.smp_enabled {
                9
            } else {
                8
            };
            let memory = manifest.memory.validator_memory_bytes as nat;
            &&& command.len() == disks + 19
            &&& command[0] == joined(profile.root(), manifest.artifacts.uml.path@)
            &&& command[disks] == "ubd0r="@ + target@
            &&& command.contains("mem="@ + decimal(memory))
            &&& command.contains("umid="@ + paths.validator_umid@)
            &&& command.contains("uml_dir="@ + paths.uml_dir@)
            &&& command.contains("initrd="@ + paths.validator_initramfs@)
            &&& expects(
                command,
                manifest,
                "validator"@,
                manifest.validator.hello,
                memory,
                manifest.validator.manifest_schema@,
            )
        }),
{
    let target = target@;
    law_artifacts_serve_their_purpose(profile);
    let manifest = profile.view_manifest();
    let boot = validator_boot(manifest, paths, target);
    lemma_guest_words(profile.artifact_path(UML as int), manifest, boot);
    let disks: int = if manifest.cpu.smp_enabled {
        9
    } else {
        8
    };
    let command = guest_command(profile.artifact_path(UML as int), manifest, boot);
    assert(command[disks + 0] == boot.disks[0]);
}

/// Both plans of a build start the manifest's guard in a clean environment over
/// the build's own place for temporary files, with the guest's command behind
/// it.
pub proof fn law_build_plans_start_the_guard(
    profile: VerifiedProfile,
    paths: BuildPaths,
    target: &str,
    guard_term_timeout: Duration,
    supervisor: u32,
    plan: BuilderLaunchPlan,
)
    requires
        profile.bound(),
    ensures
        ({
            let manifest = profile.view_manifest();
            let arguments = (&profile, &paths, target, guard_term_timeout, supervisor);
            let builds = call_ensures(build_builder_launch_plan, arguments, Ok(plan));
            let validates = call_ensures(build_validator_launch_plan, arguments, Ok(plan));
            &&& builds || validates ==> {
                &&& plan.guard_program@ == joined(
                    profile.root(),
                    manifest.artifacts.guard.path@,
                )
                &&& texts(plan.guard_arguments@) == guest_guard(
                    supervisor as nat,
                    guard_term_timeout@ / 1_000_000,
                    texts(plan.uml_command@),
                )
                &&& is_clean(variables(plan.environment@), paths.tmp_dir@)
                &&& variables(plan.environment@).len() == 8
                &&& byte_count(target@) <= manifest.launch.max_ubd_path_bytes
                &&& byte_count(paths.uml_dir@) <= manifest.launch.max_unix_path_bytes
            }
            &&& builds ==> byte_count(paths.payload@) <= manifest.launch.max_ubd_path_bytes
                && texts(plan.uml_command@) == guest_command(
                profile.artifact_path(UML as int),
                manifest,
                builder_boot(manifest, paths, target@),
            )
            &&& validates ==> texts(plan.uml_command@) == guest_command(
                profile.artifact_path(UML as int),
                manifest,
                validator_boot(manifest, paths, target@),
            )
        }),
{
    law_artifacts_serve_their_purpose(profile);
    lemma_clean_environment(paths.tmp_dir@);
}

/// An identity is spelled in the usual five groups of lower-case hexadecimal
/// digits, every digit of it from its own byte.
pub proof fn law_uuid_spells_every_byte(bytes: Seq<u8>)
    requires
        bytes.len() == 16,
    ensures
        ({
            let text = uuid_text(bytes);
            let digits = text.take(8) + text.subrange(9, 13) + text.subrange(14, 18) + text.subrange(
                19,
                23,
            ) + text.skip(24);
            &&& text.len() == 36
            &&& text[8] == '-'
            &&& text[13] == '-'
            &&& text[18] == '-'
            &&& text[23] == '-'
            &&& digits == hex_of(bytes)
        }),
{
    reveal_strlit("-");
    let a = hex_of(bytes.subrange(0, 4));
    let b = hex_of(bytes.subrange(4, 6));
    let c = hex_of(bytes.subrange(6, 8));
    let d = hex_of(bytes.subrange(8, 10));
    let e = hex_of(bytes.subrange(10, 16));
    let text = uuid_text(bytes);
    assert(text.take(8) =~= a);
    assert(text.subrange(9, 13) =~= b);
    assert(text.subrange(14, 18) =~= c);
    assert(text.subrange(19, 23) =~= d);
    assert(text.skip(24) =~= e);
    assert(a + b + c + d + e =~= hex_of(bytes));
}

/// A builder's launch is planned exactly where its paths and times fit, and a refused
/// one is told the first that does not.
pub proof fn law_refused_builder_names_its_path(
    profile: VerifiedProfile,
    paths: BuildPaths,
    target: &str,
    guard_term_timeout: Duration,
    supervisor: u32,
    plan: Result<BuilderLaunchPlan, HostBuildError>,
)
    requires
        call_ensures(
            build_builder_launch_plan,
            (&profile, &paths, target, guard_term_timeout, supervisor),
            plan,
        ),
    ensures
        build_fault(plan) == (if byte_count(paths.payload@) > profile.view_manifest().launch.max_ubd_path_bytes {
            Some(
                HostBuildFault::InvalidConfiguration {
                    field: "payload"@,
                    reason: "UBD path exceeds the profile limit"@,
                },
            )
        } else if byte_count(target@) > profile.view_manifest().launch.max_ubd_path_bytes {
            Some(
                HostBuildFault::InvalidConfiguration {
                    field: "target"@,
                    reason: "UBD path exceeds the profile limit"@,
                },
            )
        } else if byte_count(paths.uml_dir@) > profile.view_manifest().launch.max_unix_path_bytes {
            Some(
                HostBuildFault::InvalidConfiguration {
                    field: "uml_dir"@,
                    reason: "UML directory exceeds the profile Unix-path limit"@,
                },
            )
        } else if guard_term_timeout@ / 1_000_000 > u64::MAX {
            Some(
                HostBuildFault::InvalidConfiguration {
                    field: "guard_term_timeout"@,
                    reason: "milliseconds do not fit u64"@,
                },
            )
        } else {
            None
        }),
{
}

/// A validator's launch is planned exactly where its paths and times fit, and a refused
/// one is told the first that does not.
pub proof fn law_refused_validator_names_its_path(
    profile: VerifiedProfile,
    paths: BuildPaths,
    target: &str,
    guard_term_timeout: Duration,
    supervisor: u32,
    plan: Result<BuilderLaunchPlan, HostBuildError>,
)
    requires
        call_ensures(
            build_validator_launch_plan,
            (&profile, &paths, target, guard_term_timeout, supervisor),
            plan,
        ),
    ensures
        build_fault(plan) == (if byte_count(target@) > profile.view_manifest().launch.max_ubd_path_bytes {
            Some(
                HostBuildFault::InvalidConfiguration {
                    field: "validation_target"@,
                    reason: "UBD path exceeds the profile limit"@,
                },
            )
        } else if byte_count(paths.uml_dir@) > profile.view_manifest().launch.max_unix_path_bytes {
            Some(
                HostBuildFault::InvalidConfiguration {
                    field: "uml_dir"@,
                    reason: "UML directory exceeds the profile Unix-path limit"@,
                },
            )
        } else if guard_term_timeout@ / 1_000_000 > u64::MAX {
            Some(
                HostBuildFault::InvalidConfiguration {
                    field: "guard_term_timeout"@,
                    reason: "milliseconds do not fit u64"@,
                },
            )
        } else {
            None
        }),
{
}

/// Both guests of a build boot alike: on one CPU where the kernel could have
/// more, from memory, with a console and a control line and no other device of
/// that kind, and quietly.
pub proof fn law_build_guests_boot_alike(
    profile: VerifiedProfile,
    paths: BuildPaths,
    target: &str,
    guard_term_timeout: Duration,
    supervisor: u32,
    plan: BuilderLaunchPlan,
)
    requires
        ({
            let arguments = (&profile, &paths, target, guard_term_timeout, supervisor);
            call_ensures(build_builder_launch_plan, arguments, Ok(plan)) || call_ensures(
                build_validator_launch_plan,
                arguments,
                Ok(plan),
            )
        }),
    ensures
        ({
            let command = texts(plan.uml_command@);
            let smp = profile.view_manifest().cpu.smp_enabled;
            let shift: int = if smp {
                1
            } else {
                0
            };
            let end = command.len() as int;
            &&& smp ==> command[2] == "ncpus=1"@
            &&& command[2 + shift] == "seccomp=on"@
            &&& command[6 + shift] == "rdinit=/init"@
            &&& command[7 + shift] == "rootfstype=ramfs"@
            &&& command[end - 18] == "con=null"@
            &&& command[end - 17] == "con0=fd:14,fd:14"@
            &&& command[end - 16] == "ssl=null"@
            &&& command[end - 15] == "ssl0=fd:10,fd:10"@
            &&& command[end - 3] == "quiet"@
            &&& command[end - 2] == "noreboot"@
            &&& command[end - 1] == "panic=1"@
        }),
{
    let manifest = profile.view_manifest();
    let arguments = (&profile, &paths, target, guard_term_timeout, supervisor);
    let boot = if call_ensures(build_builder_launch_plan, arguments, Ok(plan)) {
        builder_boot(manifest, paths, target@)
    } else {
        validator_boot(manifest, paths, target@)
    };
    let head = boot_head(profile.artifact_path(UML as int), manifest.cpu.smp_enabled, boot);
    let tail = boot_contract(manifest, boot);
    let command = guest_command(profile.artifact_path(UML as int), manifest, boot);
    let front = head + boot.disks;
    let at = front.len() as int;
    assert(command == front + tail);
    assert(tail.len() == 18);
    assert forall|i: int| 0 <= i < head.len() implies command[i] == head[i] by {
        assert(front[i] == head[i]);
    }
    assert forall|i: int| 0 <= i < 18 implies #[trigger] tail[i] == command[at + i] by {}
    assert(tail[0] == "con=null"@ && tail[1] == "con0=fd:14,fd:14"@);
    assert(tail[2] == "ssl=null"@ && tail[3] == "ssl0=fd:10,fd:10"@);
    assert(tail[15] == "quiet"@ && tail[16] == "noreboot"@ && tail[17] == "panic=1"@);
}

/// A name-based identifier is the digest's first 16 bytes but for the four bits
/// of its version and the two of its variant.
pub proof fn law_uuid_keeps_the_digest(digest: Seq<u8>)
    requires
        digest.len() >= 16,
    ensures
        forall|i: int|
            0 <= i < 16 && i != 6 && i != 8 ==> #[trigger] uuid_bytes(digest)[i] == digest[i],
        uuid_bytes(digest)[6] % 16 == digest[6] % 16,
        uuid_bytes(digest)[8] % 64 == digest[8] % 64,
        uuid_bytes(digest)[6] / 16 == 5,
        uuid_bytes(digest)[8] / 64 == 2,
{
    let six = digest[6];
    let eight = digest[8];
    law_uuid_is_name_based(digest);
    assert(((six & 0x0fu8) | 0x50u8) % 16u8 == six % 16u8) by (bit_vector);
    assert(((eight & 0x3fu8) | 0x80u8) % 64u8 == eight % 64u8) by (bit_vector);
}

} // verus!
