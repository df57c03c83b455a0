//! The exact launch of a workload's guest under its guard.

use vstd::prelude::*;

use crate::builder::plan::{
    clean_environment, guard_head, guard_start, is_clean, lemma_clean_environment,
    sanitized_environment, variables, Variable,
};
use crate::duration::{Duration, NANOS_PER_MILLI};
use crate::error::{invalid_run, run_fault, RuntimeError, RuntimeFault};
use crate::manifest::profile::{
    law_artifacts_serve_their_purpose, VerifiedProfile, GUARD, INITRAMFS, NETWORK_HELPER, UML,
};
use crate::manifest::{LaunchContract, ProfileManifest};
use crate::path::joined;
use crate::text::{
    byte_count, byte_len, decimal, decimal_text, extend_texts, join, join3, push_text, starts_with,
    texts,
};

verus! {

pub const LEASE_FD: i32 = 8;

pub const LIVENESS_FD: i32 = 9;

pub const CONTROL_FD: i32 = 10;

pub const STDOUT_FD: i32 = 11;

pub const STDERR_FD: i32 = 12;

pub const STDIN_FD: i32 = 13;

pub const CONSOLE_FD: i32 = 14;

/// The first inherited descriptor an extra serial line may use. The runtime's
/// own five channels occupy 10 through 14.
pub const EXTRA_CONSOLE_FD_BASE: i32 = 15;

/// The first serial line that is an extra one.
pub const EXTRA_CONSOLE_LINE_BASE: u32 = 4;

/// The private files and the name of one run.
#[derive(Debug, Clone)]
pub struct RunPaths {
    pub uml_dir: String,
    pub tmp_dir: String,
    pub cow: String,
    /// Where the network helper listens and the guest's vector device
    /// connects. Inside the run directory, so it is removed with it.
    pub network_socket: String,
    pub umid: String,
}

/// A number of CPUs that the profile admits. A kernel without SMP is not told.
#[derive(Debug, Clone, Copy, PartialEq, Eq, Structural)]
pub struct CpuRequest {
    pub requested: u16,
    pub kernel_ncpus: Option<u16>,
}

/// A memory size that the profile admits, and how the kernel is told.
#[derive(Debug, Clone)]
pub struct MemoryRequest {
    pub bytes: u64,
    pub uml_value: String,
}

/// What a launch is made of beside the profile.
#[derive(Debug)]
pub struct LaunchInputs {
    /// Extra guest serial lines to allocate and publish.
    pub extra_consoles: u8,
    pub paths: RunPaths,
    pub base: String,
    pub cpus: CpuRequest,
    pub memory: MemoryRequest,
    pub guard_term_timeout: Duration,
    /// Capture the whole guest console instead of the `quiet` subset. A caller
    /// that asked for the console transcript is diagnosing something, and a
    /// filtered console hides exactly the reports such a caller looks for.
    pub verbose_console: bool,
    /// Start the profile's network helper and give the guest a vector device
    /// bound to it. `false` leaves the guest with loopback only.
    pub network: bool,
    /// The process that the guard must outlive.
    pub supervisor: u32,
}

#[derive(Debug)]
pub struct LaunchPlan {
    pub guard_program: String,
    pub guard_arguments: Vec<String>,
    pub uml_command: Vec<String>,
    pub environment: Vec<Variable>,
    /// How many extra serial lines the command line declares. The plan and the
    /// descriptors handed to the guard have to agree, so the count travels
    /// with the command that names them.
    pub extra_consoles: u8,
}

// ---------------------------------------------------------------------------
// Limits
// ---------------------------------------------------------------------------

/// Why a launch is refused, if it is.
pub open spec fn launch_fault(launch: LaunchContract, inputs: LaunchInputs) -> Option<
    RuntimeFault,
> {
    if byte_count(inputs.paths.cow@) > launch.max_ubd_path_bytes || byte_count(inputs.base@)
        > launch.max_ubd_path_bytes {
        Some(invalid_run("ubd0"@, "COW or backing path exceeds the profile limit"@))
    } else if byte_count(inputs.paths.umid@) > launch.max_umid_bytes {
        Some(invalid_run("umid"@, "generated UML identifier exceeds the profile limit"@))
    } else if byte_count(inputs.paths.uml_dir@) > launch.max_unix_path_bytes {
        Some(
            invalid_run(
                "uml_dir"@,
                "runtime UML directory exceeds the profile Unix-path limit"@,
            ),
        )
    } else if inputs.network && byte_count(inputs.paths.network_socket@)
        > launch.max_unix_path_bytes {
        Some(
            invalid_run(
                "network_socket"@,
                "network socket path exceeds the profile Unix-path limit"@,
            ),
        )
    } else if inputs.guard_term_timeout@ / (NANOS_PER_MILLI as nat) > u64::MAX {
        Some(invalid_run("guard_term_timeout"@, "milliseconds do not fit u64"@))
    } else {
        None
    }
}

fn check_launch(launch: &LaunchContract, inputs: &LaunchInputs) -> (checked: Result<
    u64,
    RuntimeError,
>)
    ensures
        run_fault(checked) == launch_fault(*launch, *inputs),
        checked matches Ok(timeout_ms) ==> timeout_ms == inputs.guard_term_timeout@ / (
        NANOS_PER_MILLI as nat),
{
    let ubd: usize = launch.max_ubd_path_bytes as usize;
    let unix: usize = launch.max_unix_path_bytes as usize;
    if byte_len(&inputs.paths.cow) > ubd || byte_len(&inputs.base) > ubd {
        return Err(
            RuntimeError::invalid("ubd0", "COW or backing path exceeds the profile limit"),
        );
    }
    if byte_len(&inputs.paths.umid) > launch.max_umid_bytes as usize {
        return Err(
            RuntimeError::invalid("umid", "generated UML identifier exceeds the profile limit"),
        );
    }
    if byte_len(&inputs.paths.uml_dir) > unix {
        return Err(
            RuntimeError::invalid(
                "uml_dir",
                "runtime UML directory exceeds the profile Unix-path limit",
            ),
        );
    }
    if inputs.network && byte_len(&inputs.paths.network_socket) > unix {
        return Err(
            RuntimeError::invalid(
                "network_socket",
                "network socket path exceeds the profile Unix-path limit",
            ),
        );
    }
    let millis: u128 = inputs.guard_term_timeout.as_millis();
    if millis > u64::MAX as u128 {
        return Err(RuntimeError::invalid("guard_term_timeout", "milliseconds do not fit u64"));
    }
    Ok(millis as u64)
}

// ---------------------------------------------------------------------------
// The kernel command
// ---------------------------------------------------------------------------

/// The kernel, its size, its private names and its disk.
pub open spec fn kernel_head(
    uml: Seq<char>,
    initramfs: Seq<char>,
    inputs: LaunchInputs,
) -> Seq<Seq<char>> {
    let sized = seq![uml, "mem="@ + inputs.memory.uml_value@];
    let counted = match inputs.cpus.kernel_ncpus {
        Some(cpus) => sized.push("ncpus="@ + decimal(cpus as nat)),
        None => sized,
    };
    counted.push("seccomp=on"@).push("umid="@ + inputs.paths.umid@).push(
        "uml_dir="@ + inputs.paths.uml_dir@,
    ).push("initrd="@ + initramfs).push("rdinit=/init"@).push("rootfstype=ramfs"@).push(
        "ubd0="@ + inputs.paths.cow@ + ("," @ + inputs.base@),
    ).push("con=null"@).push("con0=fd:14,fd:14"@).push("ssl=null"@).push("ssl0=fd:10,fd:10"@).push(
        "ssl1=fd:13,fd:13"@,
    ).push("ssl2=fd:11,fd:11"@).push("ssl3=fd:12,fd:12"@)
}

/// The descriptor of an extra serial line.
pub open spec fn extra_fd(index: nat) -> nat {
    EXTRA_CONSOLE_FD_BASE as nat + index
}

/// How the kernel is told of an extra serial line.
pub open spec fn extra_line(index: nat) -> Seq<char> {
    "ssl"@ + decimal(EXTRA_CONSOLE_LINE_BASE as nat + index) + "=fd:"@ + decimal(extra_fd(index))
        + ",fd:"@ + decimal(extra_fd(index))
}

pub open spec fn extra_lines(count: nat) -> Seq<Seq<char>>
    decreases count,
{
    if count == 0 {
        Seq::empty()
    } else {
        extra_lines((count - 1) as nat).push(extra_line((count - 1) as nat))
    }
}

/// What the guest is told to expect.
pub open spec fn guest_contract(manifest: ProfileManifest, inputs: LaunchInputs) -> Seq<Seq<char>> {
    let expected = seq![
        "pocket.guest_contract_id="@ + manifest.hello.guest_contract_id@,
        "pocket.init_build_id="@ + manifest.hello.init_build_id@,
        "pocket.kernel_build_id="@ + manifest.hello.kernel_build_id@,
        "pocket.expected_cpus="@ + decimal(inputs.cpus.requested as nat),
        "pocket.expected_memory_bytes="@ + decimal(inputs.memory.bytes as nat),
        "pocket.expected_architecture=amd64"@,
        "pocket.cpu_state_hwcap_policy="@ + manifest.contracts.cpu_state_hwcap_policy@,
        "pocket.guest_capability_policy="@ + manifest.contracts.guest_capability_policy@,
        "pocket.root_layout="@ + manifest.contracts.root_layout@,
        "pocket.filesystem_contract="@ + manifest.contracts.filesystem@,
        if inputs.verbose_console {
            "loglevel=7"@
        } else {
            "quiet"@
        },
        "noreboot"@,
        "panic=1"@,
    ];
    if inputs.network {
        expected.push(network_device(inputs.paths.network_socket@))
    } else {
        expected
    }
}

/// The guest's network device: an `AF_UNIX` socket to the helper, which needs
/// no host privilege.
pub open spec fn network_device(socket: Seq<char>) -> Seq<char> {
    "vec0:transport=bess,dst="@ + socket + ",depth=128,gro=1"@
}

/// The whole kernel command.
pub open spec fn kernel_command(profile: VerifiedProfile, inputs: LaunchInputs) -> Seq<Seq<char>> {
    kernel_head(
        profile.artifact_path(UML as int),
        profile.artifact_path(INITRAMFS as int),
        inputs,
    ) + extra_lines(inputs.extra_consoles as nat) + guest_contract(
        profile.view_manifest(),
        inputs,
    )
}

fn kernel_head_texts(uml: &str, initramfs: &str, inputs: &LaunchInputs) -> (list: Vec<String>)
    ensures
        texts(list@) == kernel_head(uml@, initramfs@, *inputs),
{
    let mut list: Vec<String> = Vec::new();
    assert(texts(list@) =~= Seq::<Seq<char>>::empty());
    push_text(&mut list, uml);
    push_text(&mut list, &join("mem=", &inputs.memory.uml_value));
    if let Some(cpus) = inputs.cpus.kernel_ncpus {
        push_text(&mut list, &join("ncpus=", &decimal_text(cpus as u64)));
    }
    push_text(&mut list, "seccomp=on");
    push_text(&mut list, &join("umid=", &inputs.paths.umid));
    push_text(&mut list, &join("uml_dir=", &inputs.paths.uml_dir));
    push_text(&mut list, &join("initrd=", initramfs));
    push_text(&mut list, "rdinit=/init");
    push_text(&mut list, "rootfstype=ramfs");
    push_text(&mut list, &join3("ubd0=", &inputs.paths.cow, &join(",", &inputs.base)));
    push_text(&mut list, "con=null");
    push_text(&mut list, "con0=fd:14,fd:14");
    push_text(&mut list, "ssl=null");
    push_text(&mut list, "ssl0=fd:10,fd:10");
    push_text(&mut list, "ssl1=fd:13,fd:13");
    push_text(&mut list, "ssl2=fd:11,fd:11");
    push_text(&mut list, "ssl3=fd:12,fd:12");
    list
}

fn extra_line_texts(count: u8) -> (list: Vec<String>)
    ensures
        texts(list@) == extra_lines(count as nat),
{
    let mut list: Vec<String> = Vec::new();
    let mut index: u8 = 0;
    assert(texts(list@) =~= Seq::<Seq<char>>::empty());
    while index < count
        invariant
            index <= count,
            texts(list@) == extra_lines(index as nat),
        decreases count - index,
    {
        let fd = decimal_text(EXTRA_CONSOLE_FD_BASE as u64 + index as u64);
        let line = decimal_text(EXTRA_CONSOLE_LINE_BASE as u64 + index as u64);
        let first = join3(&join("ssl", &line), "=fd:", &fd);
        push_text(&mut list, &join3(&first, ",fd:", &fd));
        index += 1;
    }
    list
}

fn guest_contract_texts(manifest: &ProfileManifest, inputs: &LaunchInputs) -> (list: Vec<String>)
    ensures
        texts(list@) == guest_contract(*manifest, *inputs),
{
    let mut list: Vec<String> = Vec::new();
    assert(texts(list@) =~= Seq::<Seq<char>>::empty());
    push_text(&mut list, &join("pocket.guest_contract_id=", &manifest.hello.guest_contract_id));
    push_text(&mut list, &join("pocket.init_build_id=", &manifest.hello.init_build_id));
    push_text(&mut list, &join("pocket.kernel_build_id=", &manifest.hello.kernel_build_id));
    push_text(
        &mut list,
        &join("pocket.expected_cpus=", &decimal_text(inputs.cpus.requested as u64)),
    );
    push_text(
        &mut list,
        &join("pocket.expected_memory_bytes=", &decimal_text(inputs.memory.bytes)),
    );
    push_text(&mut list, "pocket.expected_architecture=amd64");
    push_text(
        &mut list,
        &join(
            "pocket.cpu_state_hwcap_policy=",
            &manifest.contracts.cpu_state_hwcap_policy,
        ),
    );
    push_text(
        &mut list,
        &join(
            "pocket.guest_capability_policy=",
            &manifest.contracts.guest_capability_policy,
        ),
    );
    push_text(&mut list, &join("pocket.root_layout=", &manifest.contracts.root_layout));
    push_text(&mut list, &join("pocket.filesystem_contract=", &manifest.contracts.filesystem));
    if inputs.verbose_console {
        push_text(&mut list, "loglevel=7");
    } else {
        push_text(&mut list, "quiet");
    }
    push_text(&mut list, "noreboot");
    push_text(&mut list, "panic=1");
    if inputs.network {
        push_text(
            &mut list,
            &join3(
                "vec0:transport=bess,dst=",
                &inputs.paths.network_socket,
                ",depth=128,gro=1",
            ),
        );
    }
    list
}

// ---------------------------------------------------------------------------
// The guard
// ---------------------------------------------------------------------------

/// The descriptors of the runtime's own channels, as a guard is told them.
pub open spec fn channel_arguments() -> Seq<Seq<char>> {
    seq![
        "--inherit-fd"@,
        decimal(CONTROL_FD as nat),
        "--inherit-fd"@,
        decimal(STDOUT_FD as nat),
        "--inherit-fd"@,
        decimal(STDERR_FD as nat),
        "--inherit-fd"@,
        decimal(STDIN_FD as nat),
        "--inherit-fd"@,
        decimal(CONSOLE_FD as nat),
    ]
}

/// Every extra serial line's descriptor is declared too: the guard closes what
/// it was not told to keep.
pub open spec fn extra_arguments(count: nat) -> Seq<Seq<char>>
    decreases count,
{
    if count == 0 {
        Seq::empty()
    } else {
        extra_arguments((count - 1) as nat).push("--inherit-fd"@).push(
            decimal(extra_fd((count - 1) as nat)),
        )
    }
}

/// The network helper's command. The guard starts and stops it, so a killed
/// caller cannot leave a helper holding the run's socket open.
pub open spec fn network_arguments(helper: Seq<char>, socket: Seq<char>) -> Seq<Seq<char>> {
    seq![
        "--network-helper-arg"@,
        helper,
        "--network-helper-arg"@,
        "--target-type=bess"@,
        "--network-helper-arg"@,
        socket,
    ]
}

/// What a guard is told behind its descriptors, up to the guarded command.
pub open spec fn guard_tail(timeout_ms: nat) -> Seq<Seq<char>> {
    seq![
        "--term-timeout-ms"@,
        decimal(timeout_ms),
        "--uml-personality"@,
        "--"@,
    ]
}

/// The whole argument list of the guard.
pub open spec fn guard_command(profile: VerifiedProfile, inputs: LaunchInputs) -> Seq<Seq<char>> {
    let network = if inputs.network {
        network_arguments(
            profile.artifact_path(NETWORK_HELPER as int),
            inputs.paths.network_socket@,
        )
    } else {
        Seq::empty()
    };
    guard_head(inputs.supervisor as nat) + channel_arguments() + extra_arguments(
        inputs.extra_consoles as nat,
    ) + network + guard_tail(inputs.guard_term_timeout@ / (NANOS_PER_MILLI as nat))
        + kernel_command(profile, inputs)
}

fn channel_argument_texts() -> (list: Vec<String>)
    ensures
        texts(list@) == channel_arguments(),
{
    let mut list: Vec<String> = Vec::new();
    assert(texts(list@) =~= Seq::<Seq<char>>::empty());
    push_text(&mut list, "--inherit-fd");
    push_text(&mut list, &decimal_text(CONTROL_FD as u64));
    push_text(&mut list, "--inherit-fd");
    push_text(&mut list, &decimal_text(STDOUT_FD as u64));
    push_text(&mut list, "--inherit-fd");
    push_text(&mut list, &decimal_text(STDERR_FD as u64));
    push_text(&mut list, "--inherit-fd");
    push_text(&mut list, &decimal_text(STDIN_FD as u64));
    push_text(&mut list, "--inherit-fd");
    push_text(&mut list, &decimal_text(CONSOLE_FD as u64));
    list
}

fn extra_argument_texts(count: u8) -> (list: Vec<String>)
    ensures
        texts(list@) == extra_arguments(count as nat),
{
    let mut list: Vec<String> = Vec::new();
    let mut index: u8 = 0;
    assert(texts(list@) =~= Seq::<Seq<char>>::empty());
    while index < count
        invariant
            index <= count,
            texts(list@) == extra_arguments(index as nat),
        decreases count - index,
    {
        push_text(&mut list, "--inherit-fd");
        push_text(&mut list, &decimal_text(EXTRA_CONSOLE_FD_BASE as u64 + index as u64));
        index += 1;
    }
    list
}

fn network_argument_texts(helper: &str, socket: &str) -> (list: Vec<String>)
    ensures
        texts(list@) == network_arguments(helper@, socket@),
{
    let mut list: Vec<String> = Vec::new();
    assert(texts(list@) =~= Seq::<Seq<char>>::empty());
    push_text(&mut list, "--network-helper-arg");
    push_text(&mut list, helper);
    push_text(&mut list, "--network-helper-arg");
    push_text(&mut list, "--target-type=bess");
    push_text(&mut list, "--network-helper-arg");
    push_text(&mut list, socket);
    list
}

fn guard_tail_texts(timeout_ms: u64) -> (list: Vec<String>)
    ensures
        texts(list@) == guard_tail(timeout_ms as nat),
{
    let mut list: Vec<String> = Vec::new();
    assert(texts(list@) =~= Seq::<Seq<char>>::empty());
    push_text(&mut list, "--term-timeout-ms");
    push_text(&mut list, &decimal_text(timeout_ms));
    push_text(&mut list, "--uml-personality");
    push_text(&mut list, "--");
    list
}

/// Plans a workload's launch: the kernel command, the guard around it, and an
/// environment in which nothing of the caller's is left.
pub fn build_launch_plan(profile: &VerifiedProfile, inputs: &LaunchInputs) -> (plan: Result<
    LaunchPlan,
    RuntimeError,
>)
    ensures
        match plan {
            Ok(plan) => {
                &&& launch_fault(profile.view_manifest().launch, *inputs) is None
                &&& plan.guard_program@ == profile.artifact_path(GUARD as int)
                &&& texts(plan.uml_command@) == kernel_command(*profile, *inputs)
                &&& texts(plan.guard_arguments@) == guard_command(*profile, *inputs)
                &&& variables(plan.environment@) == clean_environment(inputs.paths.tmp_dir@)
                &&& plan.extra_consoles == inputs.extra_consoles
            },
            Err(error) => launch_fault(profile.view_manifest().launch, *inputs) == Some(error@),
        },
{
    let manifest = profile.manifest();
    let timeout_ms: u64 = match check_launch(&manifest.launch, inputs) {
        Ok(timeout_ms) => timeout_ms,
        Err(error) => {
            return Err(error);
        },
    };
    let mut uml_command = kernel_head_texts(profile.uml_path(), profile.initramfs_path(), inputs);
    extend_texts(&mut uml_command, &extra_line_texts(inputs.extra_consoles));
    extend_texts(&mut uml_command, &guest_contract_texts(manifest, inputs));

    let mut guard_arguments = guard_start(inputs.supervisor);
    extend_texts(&mut guard_arguments, &channel_argument_texts());
    extend_texts(&mut guard_arguments, &extra_argument_texts(inputs.extra_consoles));
    let ghost before = texts(guard_arguments@);
    assert(before + Seq::<Seq<char>>::empty() =~= before);
    if inputs.network {
        extend_texts(
            &mut guard_arguments,
            &network_argument_texts(
                profile.network_helper_path(),
                &inputs.paths.network_socket,
            ),
        );
    }
    extend_texts(&mut guard_arguments, &guard_tail_texts(timeout_ms));
    extend_texts(&mut guard_arguments, &uml_command);
    Ok(
        LaunchPlan {
            guard_program: profile.guard_path().to_owned(),
            guard_arguments,
            uml_command,
            environment: sanitized_environment(&inputs.paths.tmp_dir),
            extra_consoles: inputs.extra_consoles,
        },
    )
}

// ---------------------------------------------------------------------------
// Descriptors
// ---------------------------------------------------------------------------

/// The descriptors that a guard is given: the lease, the liveness pipe, the
/// runtime's channels and the extra serial lines.
pub open spec fn descriptor_table(extra_consoles: nat) -> Seq<i32> {
    seq![LEASE_FD, LIVENESS_FD, CONTROL_FD, STDOUT_FD, STDERR_FD, STDIN_FD, CONSOLE_FD] + Seq::new(
        extra_consoles,
        |i: int| (EXTRA_CONSOLE_FD_BASE + i) as i32,
    )
}

/// Lists the descriptors that a guard is given, in the order they are made.
pub fn descriptor_targets(extra_consoles: u8) -> (targets: Vec<i32>)
    ensures
        targets@ == descriptor_table(extra_consoles as nat),
{
    let mut targets: Vec<i32> = Vec::new();
    targets.push(LEASE_FD);
    targets.push(LIVENESS_FD);
    targets.push(CONTROL_FD);
    targets.push(STDOUT_FD);
    targets.push(STDERR_FD);
    targets.push(STDIN_FD);
    targets.push(CONSOLE_FD);
    let mut index: u8 = 0;
    assert(targets@ =~= descriptor_table(0));
    while index < extra_consoles
        invariant
            index <= extra_consoles,
            targets@ =~= descriptor_table(index as nat),
        decreases extra_consoles - index,
    {
        targets.push(EXTRA_CONSOLE_FD_BASE + index as i32);
        index += 1;
    }
    targets
}

/// No two descriptors of a guard share a number: they run from the lease up
/// without a gap.
pub proof fn law_descriptors_are_distinct(extra_consoles: nat, i: int)
    requires
        extra_consoles <= u8::MAX,
        0 <= i < descriptor_table(extra_consoles).len(),
    ensures
        descriptor_table(extra_consoles)[i] == LEASE_FD + i,
        descriptor_table(extra_consoles).len() == 7 + extra_consoles,
{
}

/// Every run starts the profile's kernel itself, in seccomp mode, and a guest
/// that panics or asks for a reboot ends it.
pub proof fn law_every_run_is_confined(profile: VerifiedProfile, inputs: LaunchInputs)
    ensures
        kernel_command(profile, inputs)[0] == profile.artifact_path(UML as int),
        kernel_command(profile, inputs).contains("seccomp=on"@),
        kernel_command(profile, inputs).contains("noreboot"@),
        kernel_command(profile, inputs).contains("panic=1"@),
{
    let head = kernel_head(
        profile.artifact_path(UML as int),
        profile.artifact_path(INITRAMFS as int),
        inputs,
    );
    let lines = extra_lines(inputs.extra_consoles as nat);
    let contract = guest_contract(profile.view_manifest(), inputs);
    let command = kernel_command(profile, inputs);
    let at: int = if inputs.cpus.kernel_ncpus is Some {
        3
    } else {
        2
    };
    assert(head[at] == "seccomp=on"@);
    assert(command[at] == head[at]);
    let start: int = head.len() + lines.len() as int;
    assert(command[start + 11] == contract[11]);
    assert(command[start + 12] == contract[12]);
}

/// A run without a network is told of no device: asking for one adds the
/// device at the end of the kernel's command and changes nothing before it.
pub proof fn law_network_device_is_all_that_is_added(
    profile: VerifiedProfile,
    alone: LaunchInputs,
    connected: LaunchInputs,
)
    requires
        !alone.network,
        connected == (LaunchInputs { network: true, ..alone }),
    ensures
        kernel_command(profile, connected) == kernel_command(profile, alone).push(
            network_device(alone.paths.network_socket@),
        ),
{
    let manifest = profile.view_manifest();
    assert(guest_contract(manifest, connected) =~= guest_contract(manifest, alone).push(
        network_device(alone.paths.network_socket@),
    ));
}

/// What the kernel finds in the word of a disk that begins at `start`: the file
/// before the first comma is the one that it writes, the file behind it only
/// backs that one.
pub open spec fn overlay_of(word: Seq<char>, start: int) -> Option<(Seq<char>, Seq<char>)> {
    let files = word.skip(start);
    match files.index_of_first(',') {
        Some(at) => Some((files.take(at), files.skip(at + 1))),
        None => None,
    }
}

/// A run has one disk: exactly one word behind the kernel begins with `ubd`, it
/// names disk 0, the file that it writes is the run's own overlay and the base
/// only backs it.
pub proof fn law_only_the_overlay_is_written(
    profile: VerifiedProfile,
    inputs: LaunchInputs,
    plan: LaunchPlan,
)
    requires
        !inputs.paths.cow@.contains(','),
        call_ensures(build_launch_plan, (&profile, &inputs), Ok(plan)),
    ensures
        ({
            let command = texts(plan.uml_command@);
            &&& exists|i: int| 0 < i < command.len() && starts_with(#[trigger] command[i], "ubd"@)
            &&& forall|i: int|
                0 < i < command.len() && starts_with(#[trigger] command[i], "ubd"@) ==> {
                    &&& starts_with(command[i], "ubd0="@)
                    &&& overlay_of(command[i], 5) == Some((inputs.paths.cow@, inputs.base@))
                    &&& forall|j: int|
                        0 < j < command.len() && starts_with(#[trigger] command[j], "ubd"@) ==> i
                            == j
                }
        }),
{
    let head = kernel_head(
        profile.artifact_path(UML as int),
        profile.artifact_path(INITRAMFS as int),
        inputs,
    );
    let lines = extra_lines(inputs.extra_consoles as nat);
    let contract = guest_contract(profile.view_manifest(), inputs);
    let command = kernel_command(profile, inputs);
    let disk: int = if inputs.cpus.kernel_ncpus is Some {
        9
    } else {
        8
    };
    reveal_strlit("ubd");
    reveal_strlit("ubd0=");
    reveal_strlit(",");
    lemma_disk_word(inputs);
    assert(head[disk] == "ubd0="@ + inputs.paths.cow@ + (","@ + inputs.base@));
    assert(command[disk] == head[disk]);
    lemma_head_has_one_disk(
        profile.artifact_path(UML as int),
        profile.artifact_path(INITRAMFS as int),
        inputs,
    );
    lemma_contract_has_no_disk(profile.view_manifest(), inputs);
    assert forall|i: int| 0 < i < command.len() && i != disk implies !starts_with(
        #[trigger] command[i],
        "ubd"@,
    ) by {
        if i < head.len() {
            assert(command[i] == head[i]);
        } else if i < head.len() + lines.len() {
            lemma_extra_line_is_no_disk(inputs.extra_consoles as nat, i - head.len());
            assert(command[i] == lines[i - head.len()]);
        } else {
            assert(command[i] == contract[i - head.len() - lines.len()]);
        }
    }
}

/// A word that differs from the beginning in one place does not begin so.
proof fn lemma_begins_otherwise(word: Seq<char>, beginning: Seq<char>, at: int)
    requires
        0 <= at < beginning.len(),
        at < word.len() ==> word[at] != beginning[at],
    ensures
        !starts_with(word, beginning),
{
    if starts_with(word, beginning) {
        assert(word.take(beginning.len() as int)[at] == beginning[at]);
    }
}

proof fn lemma_disk_word(inputs: LaunchInputs)
    requires
        !inputs.paths.cow@.contains(','),
    ensures
        ({
            let word = "ubd0="@ + inputs.paths.cow@ + (","@ + inputs.base@);
            &&& starts_with(word, "ubd"@)
            &&& starts_with(word, "ubd0="@)
            &&& overlay_of(word, 5) == Some((inputs.paths.cow@, inputs.base@))
        }),
{
    reveal_strlit("ubd");
    reveal_strlit("ubd0=");
    reveal_strlit(",");
    let cow = inputs.paths.cow@;
    let base = inputs.base@;
    let word = "ubd0="@ + cow + (","@ + base);
    assert(word.take(3) =~= "ubd"@);
    assert(word.take(5) =~= "ubd0="@);
    let files = word.skip(5);
    assert(files =~= cow + ","@ + base);
    files.index_of_first_ensures(',');
    let at = cow.len() as int;
    assert(files[at] == ',');
    assert(files.contains(','));
    let found = files.index_of_first(',')->Some_0;
    if found < at {
        assert(files[found] == cow[found]);
    }
    assert(files.take(at) =~= cow);
    assert(files.skip(at + 1) =~= base);
}

proof fn lemma_head_has_one_disk(uml: Seq<char>, initramfs: Seq<char>, inputs: LaunchInputs)
    ensures
        ({
            let head = kernel_head(uml, initramfs, inputs);
            let disk: int = if inputs.cpus.kernel_ncpus is Some {
                9
            } else {
                8
            };
            forall|i: int|
                0 < i < head.len() && i != disk ==> !starts_with(#[trigger] head[i], "ubd"@)
        }),
{
    reveal_strlit("ubd");
    reveal_strlit("mem=");
    reveal_strlit("ncpus=");
    reveal_strlit("seccomp=on");
    reveal_strlit("umid=");
    reveal_strlit("uml_dir=");
    reveal_strlit("initrd=");
    reveal_strlit("rdinit=/init");
    reveal_strlit("rootfstype=ramfs");
    reveal_strlit("con=null");
    reveal_strlit("con0=fd:14,fd:14");
    reveal_strlit("ssl=null");
    reveal_strlit("ssl0=fd:10,fd:10");
    reveal_strlit("ssl1=fd:13,fd:13");
    reveal_strlit("ssl2=fd:11,fd:11");
    reveal_strlit("ssl3=fd:12,fd:12");
    let head = kernel_head(uml, initramfs, inputs);
    let disk: int = if inputs.cpus.kernel_ncpus is Some {
        9
    } else {
        8
    };
    assert forall|i: int| 0 < i < head.len() && i != disk implies !starts_with(
        #[trigger] head[i],
        "ubd"@,
    ) by {
        let at: int = if head[i][0] != 'u' {
            0
        } else {
            1
        };
        lemma_begins_otherwise(head[i], "ubd"@, at);
    }
}

proof fn lemma_extra_line_is_no_disk(count: nat, i: int)
    requires
        0 <= i < extra_lines(count).len(),
    ensures
        !starts_with(extra_lines(count)[i], "ubd"@),
    decreases count,
{
    if count > 0 {
        if i < extra_lines((count - 1) as nat).len() {
            lemma_extra_line_is_no_disk((count - 1) as nat, i);
        } else {
            reveal_strlit("ssl");
            reveal_strlit("ubd");
            lemma_begins_otherwise(extra_line((count - 1) as nat), "ubd"@, 0);
        }
    }
}

proof fn lemma_contract_has_no_disk(manifest: ProfileManifest, inputs: LaunchInputs)
    ensures
        forall|i: int|
            0 <= i < guest_contract(manifest, inputs).len() ==> !starts_with(
                #[trigger] guest_contract(manifest, inputs)[i],
                "ubd"@,
            ),
{
    reveal_strlit("ubd");
    reveal_strlit("pocket.guest_contract_id=");
    reveal_strlit("pocket.init_build_id=");
    reveal_strlit("pocket.kernel_build_id=");
    reveal_strlit("pocket.expected_cpus=");
    reveal_strlit("pocket.expected_memory_bytes=");
    reveal_strlit("pocket.expected_architecture=amd64");
    reveal_strlit("pocket.cpu_state_hwcap_policy=");
    reveal_strlit("pocket.guest_capability_policy=");
    reveal_strlit("pocket.root_layout=");
    reveal_strlit("pocket.filesystem_contract=");
    reveal_strlit("loglevel=7");
    reveal_strlit("quiet");
    reveal_strlit("noreboot");
    reveal_strlit("panic=1");
    reveal_strlit("vec0:transport=bess,dst=");
    let contract = guest_contract(manifest, inputs);
    assert forall|i: int| 0 <= i < contract.len() implies !starts_with(
        #[trigger] contract[i],
        "ubd"@,
    ) by {
        lemma_begins_otherwise(contract[i], "ubd"@, 0);
    }
}

/// Whether a flag is followed by a value somewhere.
pub open spec fn has_pair(arguments: Seq<Seq<char>>, flag: Seq<char>, value: Seq<char>) -> bool {
    exists|i: int|
        0 <= i < arguments.len() - 1 && #[trigger] arguments[i] == flag && arguments[i + 1] == value
}

proof fn lemma_pair_at(arguments: Seq<Seq<char>>, i: int)
    requires
        0 <= i < arguments.len() - 1,
    ensures
        has_pair(arguments, arguments[i], arguments[i + 1]),
{
}

/// The kernel is the manifest's, it unpacks the manifest's workload initramfs,
/// it has the memory and CPUs that were asked for, its names and directory are
/// the run's own, and it is told of nothing else but its consoles and what the
/// guest is to expect.
pub proof fn law_kernel_boots_what_was_asked_for(
    profile: VerifiedProfile,
    inputs: LaunchInputs,
    plan: LaunchPlan,
)
    requires
        profile.bound(),
        call_ensures(build_launch_plan, (&profile, &inputs), Ok(plan)),
    ensures
        ({
            let command = texts(plan.uml_command@);
            let manifest = profile.view_manifest();
            let optional: nat = if inputs.cpus.kernel_ncpus is Some {
                1
            } else {
                0
            };
            let network: nat = if inputs.network {
                1
            } else {
                0
            };
            &&& command.len() == 29 + optional + inputs.extra_consoles + network
            &&& command[0] == joined(profile.root(), manifest.artifacts.uml.path@)
            &&& command.contains("mem="@ + inputs.memory.uml_value@)
            &&& inputs.cpus.kernel_ncpus matches Some(cpus) ==> command.contains(
                "ncpus="@ + decimal(cpus as nat),
            )
            &&& command.contains("umid="@ + inputs.paths.umid@)
            &&& command.contains("uml_dir="@ + inputs.paths.uml_dir@)
            &&& command.contains(
                "initrd="@ + joined(profile.root(), manifest.artifacts.workload_initramfs.path@),
            )
            &&& command.contains("rdinit=/init"@)
            &&& command.contains("rootfstype=ramfs"@)
            &&& command.contains("con=null"@)
            &&& command.contains("ssl=null"@)
            &&& inputs.network ==> command.contains(
                "vec0:transport=bess,dst="@ + inputs.paths.network_socket@ + ",depth=128,gro=1"@,
            )
        }),
{
    law_artifacts_serve_their_purpose(profile);
    let head = kernel_head(
        profile.artifact_path(UML as int),
        profile.artifact_path(INITRAMFS as int),
        inputs,
    );
    let lines = extra_lines(inputs.extra_consoles as nat);
    let contract = guest_contract(profile.view_manifest(), inputs);
    let command = kernel_command(profile, inputs);
    lemma_extra_lines_len(inputs.extra_consoles as nat);
    assert forall|i: int| 0 <= i < head.len() implies command.contains(#[trigger] head[i]) by {
        assert(command[i] == head[i]);
    }
    let after: int = if inputs.cpus.kernel_ncpus is Some {
        1
    } else {
        0
    };
    assert(head[1] == "mem="@ + inputs.memory.uml_value@);
    if inputs.cpus.kernel_ncpus is Some {
        assert(head[2] == "ncpus="@ + decimal(inputs.cpus.kernel_ncpus->Some_0 as nat));
    }
    assert(head[3 + after] == "umid="@ + inputs.paths.umid@);
    assert(head[4 + after] == "uml_dir="@ + inputs.paths.uml_dir@);
    assert(head[5 + after] == "initrd="@ + profile.artifact_path(INITRAMFS as int));
    assert(head[6 + after] == "rdinit=/init"@);
    assert(head[7 + after] == "rootfstype=ramfs"@);
    assert(head[9 + after] == "con=null"@);
    assert(head[11 + after] == "ssl=null"@);
    if inputs.network {
        assert(contract[13] == network_device(inputs.paths.network_socket@));
        assert(command[(head.len() + lines.len() + 13) as int] == contract[13]);
    }
}

proof fn lemma_extra_lines_len(count: nat)
    ensures
        extra_lines(count).len() == count,
        forall|i: int| 0 <= i < count ==> #[trigger] extra_lines(count)[i] == extra_line(i as nat),
    decreases count,
{
    if count > 0 {
        lemma_extra_lines_len((count - 1) as nat);
    }
}

/// The guest is told to expect what the profile is bound to and what was asked
/// for, each under its own name.
pub proof fn law_guest_expects_its_contract(
    profile: VerifiedProfile,
    inputs: LaunchInputs,
    plan: LaunchPlan,
)
    requires
        call_ensures(build_launch_plan, (&profile, &inputs), Ok(plan)),
    ensures
        ({
            let command = texts(plan.uml_command@);
            let manifest = profile.view_manifest();
            let hello = manifest.hello;
            let contracts = manifest.contracts;
            &&& command.contains("pocket.guest_contract_id="@ + hello.guest_contract_id@)
            &&& command.contains("pocket.init_build_id="@ + hello.init_build_id@)
            &&& command.contains("pocket.kernel_build_id="@ + hello.kernel_build_id@)
            &&& command.contains("pocket.expected_cpus="@ + decimal(inputs.cpus.requested as nat))
            &&& command.contains(
                "pocket.expected_memory_bytes="@ + decimal(inputs.memory.bytes as nat),
            )
            &&& command.contains("pocket.expected_architecture=amd64"@)
            &&& command.contains(
                "pocket.cpu_state_hwcap_policy="@ + contracts.cpu_state_hwcap_policy@,
            )
            &&& command.contains(
                "pocket.guest_capability_policy="@ + contracts.guest_capability_policy@,
            )
            &&& command.contains("pocket.root_layout="@ + contracts.root_layout@)
            &&& command.contains("pocket.filesystem_contract="@ + contracts.filesystem@)
            &&& inputs.verbose_console ==> command.contains("loglevel=7"@)
            &&& !inputs.verbose_console ==> command.contains("quiet"@)
        }),
{
    let head = kernel_head(
        profile.artifact_path(UML as int),
        profile.artifact_path(INITRAMFS as int),
        inputs,
    );
    let lines = extra_lines(inputs.extra_consoles as nat);
    let contract = guest_contract(profile.view_manifest(), inputs);
    let command = kernel_command(profile, inputs);
    assert forall|i: int| 0 <= i < contract.len() implies command.contains(
        #[trigger] contract[i],
    ) by {
        assert(command[head.len() + lines.len() + i] == contract[i]);
    }
    assert(contract[0] == "pocket.guest_contract_id="@
        + profile.view_manifest().hello.guest_contract_id@);
    assert(contract[1] == "pocket.init_build_id="@ + profile.view_manifest().hello.init_build_id@);
    assert(contract[2] == "pocket.kernel_build_id="@
        + profile.view_manifest().hello.kernel_build_id@);
    assert(contract[3] == "pocket.expected_cpus="@ + decimal(inputs.cpus.requested as nat));
    assert(contract[4] == "pocket.expected_memory_bytes="@ + decimal(inputs.memory.bytes as nat));
    assert(contract[5] == "pocket.expected_architecture=amd64"@);
    assert(contract[6] == "pocket.cpu_state_hwcap_policy="@
        + profile.view_manifest().contracts.cpu_state_hwcap_policy@);
    assert(contract[7] == "pocket.guest_capability_policy="@
        + profile.view_manifest().contracts.guest_capability_policy@);
    assert(contract[8] == "pocket.root_layout="@
        + profile.view_manifest().contracts.root_layout@);
    assert(contract[9] == "pocket.filesystem_contract="@
        + profile.view_manifest().contracts.filesystem@);
    assert(contract[10] == if inputs.verbose_console {
        "loglevel=7"@
    } else {
        "quiet"@
    });
}

/// The descriptor that the guard passes on for each channel is the one that the
/// kernel is told to use for it: control is the first serial line, then input,
/// output and errors, each extra line behind them, and the console is console
/// 0. The lease and the liveness pipe are the guard's alone.
pub proof fn law_channels_meet(
    profile: VerifiedProfile,
    inputs: LaunchInputs,
    plan: LaunchPlan,
    targets: Vec<i32>,
)
    requires
        call_ensures(build_launch_plan, (&profile, &inputs), Ok(plan)),
        call_ensures(descriptor_targets, (inputs.extra_consoles,), targets),
    ensures
        ({
            let command = texts(plan.uml_command@);
            let guard = texts(plan.guard_arguments@);
            let table = targets@;
            &&& table[0] == 8
            &&& table[1] == 9
            &&& has_pair(guard, "--lease-fd"@, decimal(table[0] as nat))
            &&& has_pair(guard, "--liveness-fd"@, decimal(table[1] as nat))
            &&& forall|i: int|
                2 <= i < table.len() ==> has_pair(
                    guard,
                    "--inherit-fd"@,
                    decimal(#[trigger] table[i] as nat),
                )
            &&& command.contains(channel_word("ssl0"@, table[2] as nat))
            &&& command.contains(channel_word("ssl2"@, table[3] as nat))
            &&& command.contains(channel_word("ssl3"@, table[4] as nat))
            &&& command.contains(channel_word("ssl1"@, table[5] as nat))
            &&& command.contains(channel_word("con0"@, table[6] as nat))
            &&& forall|i: int|
                7 <= i < table.len() ==> command.contains(
                    channel_word("ssl"@ + decimal((i - 3) as nat), #[trigger] table[i] as nat),
                )
        }),
{
    reveal_with_fuel(decimal, 2);
    reveal_strlit("=fd:");
    reveal_strlit(",fd:");
    reveal_strlit("ssl0");
    reveal_strlit("ssl1");
    reveal_strlit("ssl2");
    reveal_strlit("ssl3");
    reveal_strlit("con0");
    reveal_strlit("con0=fd:14,fd:14");
    reveal_strlit("ssl0=fd:10,fd:10");
    reveal_strlit("ssl1=fd:13,fd:13");
    reveal_strlit("ssl2=fd:11,fd:11");
    reveal_strlit("ssl3=fd:12,fd:12");
    let count = inputs.extra_consoles as nat;
    let table = descriptor_table(count);
    let command = kernel_command(profile, inputs);
    let head = kernel_head(
        profile.artifact_path(UML as int),
        profile.artifact_path(INITRAMFS as int),
        inputs,
    );
    let lines = extra_lines(count);
    let after: int = if inputs.cpus.kernel_ncpus is Some {
        1
    } else {
        0
    };
    assert(channel_word("con0"@, 14) =~= "con0=fd:14,fd:14"@);
    assert(channel_word("ssl0"@, 10) =~= "ssl0=fd:10,fd:10"@);
    assert(channel_word("ssl1"@, 13) =~= "ssl1=fd:13,fd:13"@);
    assert(channel_word("ssl2"@, 11) =~= "ssl2=fd:11,fd:11"@);
    assert(channel_word("ssl3"@, 12) =~= "ssl3=fd:12,fd:12"@);
    assert(command[10 + after] == head[10 + after]);
    assert(command[12 + after] == head[12 + after]);
    assert(command[13 + after] == head[13 + after]);
    assert(command[14 + after] == head[14 + after]);
    assert(command[15 + after] == head[15 + after]);
    lemma_extra_lines_len(count);
    assert forall|i: int| 7 <= i < table.len() implies command.contains(
        channel_word("ssl"@ + decimal((i - 3) as nat), #[trigger] table[i] as nat),
    ) by {
        assert(command[head.len() + i - 7] == lines[i - 7]);
        assert(lines[i - 7] == extra_line((i - 7) as nat));
        assert(table[i] == 8 + i);
    }
    lemma_guard_passes_channels(profile, inputs);
}

/// How the kernel is told to use a descriptor for a line.
pub open spec fn channel_word(line: Seq<char>, descriptor: nat) -> Seq<char> {
    line + "=fd:"@ + decimal(descriptor) + ",fd:"@ + decimal(descriptor)
}

proof fn lemma_guard_passes_channels(profile: VerifiedProfile, inputs: LaunchInputs)
    ensures
        ({
            let guard = guard_command(profile, inputs);
            let table = descriptor_table(inputs.extra_consoles as nat);
            &&& has_pair(guard, "--lease-fd"@, decimal(8))
            &&& has_pair(guard, "--liveness-fd"@, decimal(9))
            &&& forall|i: int|
                2 <= i < table.len() ==> has_pair(
                    guard,
                    "--inherit-fd"@,
                    decimal(#[trigger] table[i] as nat),
                )
        }),
{
    let guard = guard_command(profile, inputs);
    let count = inputs.extra_consoles as nat;
    let table = descriptor_table(count);
    let extra = extra_arguments(count);
    lemma_pair_at(guard, 2);
    lemma_pair_at(guard, 4);
    lemma_extra_arguments(count);
    assert forall|i: int| 2 <= i < table.len() implies has_pair(
        guard,
        "--inherit-fd"@,
        decimal(#[trigger] table[i] as nat),
    ) by {
        let at = 6 + 2 * (i - 2);
        assert(table[i] == 8 + i);
        if i < 7 {
            assert(guard[at] == channel_arguments()[at - 6]);
            assert(guard[at + 1] == channel_arguments()[at - 5]);
        } else {
            assert(guard[at] == extra[at - 16]);
            assert(guard[at + 1] == extra[at - 15]);
            assert(extra[2 * (i - 7)] == "--inherit-fd"@);
        }
        lemma_pair_at(guard, at);
    }
}

proof fn lemma_extra_arguments(count: nat)
    ensures
        extra_arguments(count).len() == 2 * count,
        forall|i: int|
            0 <= i < count ==> #[trigger] extra_arguments(count)[2 * i] == "--inherit-fd"@
                && extra_arguments(count)[2 * i + 1] == decimal((15 + i) as nat),
    decreases count,
{
    if count > 0 {
        lemma_extra_arguments((count - 1) as nat);
    }
}

/// The guard watches over the supervisor, gives the guest as many milliseconds
/// to end as it was allowed, starts the helper only where a network was asked
/// for, and behind the `--` runs exactly the kernel's command.
pub proof fn law_guard_runs_the_kernel(
    profile: VerifiedProfile,
    inputs: LaunchInputs,
    plan: LaunchPlan,
)
    requires
        profile.bound(),
        call_ensures(build_launch_plan, (&profile, &inputs), Ok(plan)),
    ensures
        ({
            let guard = texts(plan.guard_arguments@);
            let command = texts(plan.uml_command@);
            let helper = joined(
                profile.root(),
                profile.view_manifest().artifacts.network_helper.path@,
            );
            let start = guard.len() - command.len();
            &&& guard.skip(start) == command
            &&& guard[start - 1] == "--"@
            &&& guard[start - 2] == "--uml-personality"@
            &&& guard[start - 4] == "--term-timeout-ms"@
            &&& guard[start - 3] == decimal(inputs.guard_term_timeout@ / 1_000_000)
            &&& has_pair(guard, "--supervisor-pid"@, decimal(inputs.supervisor as nat))
            &&& start == 20 + 2 * inputs.extra_consoles + if inputs.network {
                6int
            } else {
                0
            }
            &&& inputs.network ==> guard.subrange(start - 10, start - 4) == seq![
                "--network-helper-arg"@,
                helper,
                "--network-helper-arg"@,
                "--target-type=bess"@,
                "--network-helper-arg"@,
                inputs.paths.network_socket@,
            ]
        }),
{
    law_artifacts_serve_their_purpose(profile);
    let guard = guard_command(profile, inputs);
    let command = kernel_command(profile, inputs);
    lemma_extra_arguments(inputs.extra_consoles as nat);
    let start = guard.len() - command.len();
    assert(guard.skip(start) =~= command);
    lemma_pair_at(guard, 0);
    if inputs.network {
        assert(guard.subrange(start - 10, start - 4) =~= network_arguments(
            profile.artifact_path(NETWORK_HELPER as int),
            inputs.paths.network_socket@,
        ));
    }
}

/// A launch is refused only for a path or a name that is too long for the
/// profile, or a timeout that no guard takes; a socket counts only where there
/// is a network.
pub proof fn law_launch_keeps_the_profiles_limits(
    profile: VerifiedProfile,
    inputs: LaunchInputs,
    plan: Result<LaunchPlan, RuntimeError>,
)
    requires
        call_ensures(build_launch_plan, (&profile, &inputs), plan),
    ensures
        plan is Ok <==> {
            let launch = profile.view_manifest().launch;
            &&& byte_count(inputs.paths.cow@) <= launch.max_ubd_path_bytes
            &&& byte_count(inputs.base@) <= launch.max_ubd_path_bytes
            &&& byte_count(inputs.paths.umid@) <= launch.max_umid_bytes
            &&& byte_count(inputs.paths.uml_dir@) <= launch.max_unix_path_bytes
            &&& inputs.network ==> byte_count(inputs.paths.network_socket@)
                <= launch.max_unix_path_bytes
            &&& inputs.guard_term_timeout@ / 1_000_000 <= u64::MAX
        },
{
    let launch = profile.view_manifest().launch;
}

/// A launch plan starts the manifest's guard with the arguments and the kernel
/// command of these inputs, in a clean environment whose only place for
/// temporary files is the run's own.
pub proof fn law_plan_starts_the_guard(
    profile: VerifiedProfile,
    inputs: LaunchInputs,
    plan: LaunchPlan,
)
    requires
        profile.bound(),
        call_ensures(build_launch_plan, (&profile, &inputs), Ok(plan)),
    ensures
        plan.guard_program@ == joined(
            profile.root(),
            profile.view_manifest().artifacts.guard.path@,
        ),
        texts(plan.uml_command@) == kernel_command(profile, inputs),
        texts(plan.guard_arguments@) == guard_command(profile, inputs),
        plan.extra_consoles == inputs.extra_consoles,
        is_clean(variables(plan.environment@), inputs.paths.tmp_dir@),
        variables(plan.environment@).len() == 8,
{
    law_artifacts_serve_their_purpose(profile);
    lemma_clean_environment(inputs.paths.tmp_dir@);
}

/// A refused launch is told the first path or time that is too long.
pub proof fn law_refused_launch_names_its_path(
    profile: VerifiedProfile,
    inputs: LaunchInputs,
    plan: Result<LaunchPlan, RuntimeError>,
)
    requires
        call_ensures(build_launch_plan, (&profile, &inputs), plan),
    ensures
        run_fault(plan) == (if byte_count(inputs.paths.cow@) > profile.view_manifest().launch.max_ubd_path_bytes || byte_count(
            inputs.base@,
        ) > profile.view_manifest().launch.max_ubd_path_bytes {
            Some(
                RuntimeFault::InvalidConfiguration {
                    field: "ubd0"@,
                    reason: "COW or backing path exceeds the profile limit"@,
                },
            )
        } else if byte_count(inputs.paths.umid@) > profile.view_manifest().launch.max_umid_bytes {
            Some(
                RuntimeFault::InvalidConfiguration {
                    field: "umid"@,
                    reason: "generated UML identifier exceeds the profile limit"@,
                },
            )
        } else if byte_count(inputs.paths.uml_dir@)
            > profile.view_manifest().launch.max_unix_path_bytes {
            Some(
                RuntimeFault::InvalidConfiguration {
                    field: "uml_dir"@,
                    reason: "runtime UML directory exceeds the profile Unix-path limit"@,
                },
            )
        } else if inputs.network && byte_count(inputs.paths.network_socket@)
            > profile.view_manifest().launch.max_unix_path_bytes {
            Some(
                RuntimeFault::InvalidConfiguration {
                    field: "network_socket"@,
                    reason: "network socket path exceeds the profile Unix-path limit"@,
                },
            )
        } else if inputs.guard_term_timeout@ / 1_000_000 > u64::MAX {
            Some(
                RuntimeFault::InvalidConfiguration {
                    field: "guard_term_timeout"@,
                    reason: "milliseconds do not fit u64"@,
                },
            )
        } else {
            None
        }),
{
}

} // verus!
