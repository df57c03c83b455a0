use pocket_runtime::builder::plan::{
    build_builder_launch_plan, build_validator_launch_plan, e2fs_helper_environment,
    helper_guard_arguments, BuildPaths, E2fsHelper, ResizeTools, Variable,
};
use pocket_runtime::duration::Duration;
use pocket_runtime::error::{HostBuildError, RuntimeError};
use pocket_runtime::launch::{
    build_launch_plan, descriptor_targets, CpuRequest, LaunchInputs, MemoryRequest, RunPaths,
    CONSOLE_FD, CONTROL_FD, STDERR_FD, STDIN_FD, STDOUT_FD,
};
use pocket_runtime::digest::{ArtifactDigest, ProfileRevision};
use pocket_runtime::error::ManifestError;
use pocket_runtime::manifest::artifact::FileObservation;
use pocket_runtime::manifest::profile::{ProfileLoader, VerifiedProfile};
use pocket_runtime::manifest::rules::PolicyFacts;
use pocket_runtime::manifest::{
    ArtifactManifest, ArtifactSpec, BuilderContract, BuilderToolContract, CanonicalManifest, Contracts,
    CpuManifest,
    HelloContract, LaunchContract, MemoryManifest, ProfileManifest, ProfileMaturity,
    ValidatorContract, EM_X86_64, PROFILE_SCHEMA_VERSION,
};

const ROOT: &str = "/srv/pocket/bundle";

const WORKLOAD_FEATURES: [&str; 3] = ["exit-clean-v1", "generated-etc-v1", "resize-v1"];
const BUILDER_FEATURES: [&str; 2] = ["account-db-v1", "fs-manifest-v1"];
const VALIDATOR_FEATURES: [&str; 2] = ["ext4-clean-state-v1", "fs-manifest-v1"];

fn owned(items: &[&str]) -> Vec<String> {
    items.iter().map(|item| (*item).to_owned()).collect()
}

fn facts(effective_max_cpus: u16) -> PolicyFacts {
    PolicyFacts {
        effective_max_cpus: Ok(effective_max_cpus),
        memory_policy: Ok(()),
        workload_features: owned(&WORKLOAD_FEATURES),
        builder_features: owned(&BUILDER_FEATURES),
        validator_features: owned(&VALIDATOR_FEATURES),
        source_date_epoch_min: 1,
        source_date_epoch_max: 4_102_444_800,
    }
}

fn minimal_elf(dynamic: bool) -> Vec<u8> {
    let mut bytes = vec![0_u8; 64 + 56 + if dynamic { 8 } else { 0 }];
    bytes[..4].copy_from_slice(b"\x7fELF");
    bytes[4] = 2;
    bytes[5] = 1;
    bytes[6] = 1;
    bytes[16..18].copy_from_slice(&2_u16.to_le_bytes());
    bytes[18..20].copy_from_slice(&62_u16.to_le_bytes());
    bytes[32..40].copy_from_slice(&64_u64.to_le_bytes());
    bytes[52..54].copy_from_slice(&64_u16.to_le_bytes());
    bytes[54..56].copy_from_slice(&56_u16.to_le_bytes());
    bytes[56..58].copy_from_slice(&1_u16.to_le_bytes());
    bytes[64..68].copy_from_slice(&(if dynamic { 3_u32 } else { 1_u32 }).to_le_bytes());
    if dynamic {
        bytes[72..80].copy_from_slice(&120_u64.to_le_bytes());
        bytes[96..104].copy_from_slice(&8_u64.to_le_bytes());
        bytes[120..128].copy_from_slice(b"/ld.so\0\0");
    }
    bytes
}

fn kernel_config(smp: bool) -> String {
    let yes = [
        "CONFIG_UML",
        "CONFIG_64BIT",
        "CONFIG_X86_64",
        "CONFIG_STATIC_LINK",
        "CONFIG_LD_SCRIPT_STATIC",
        "CONFIG_BLK_DEV_INITRD",
        "CONFIG_BLK_DEV_UBD",
        "CONFIG_EXT4_FS",
        "CONFIG_EXT4_FS_POSIX_ACL",
        "CONFIG_EXT4_FS_SECURITY",
        "CONFIG_TMPFS",
        "CONFIG_PROC_FS",
        "CONFIG_SYSFS",
        "CONFIG_DEVTMPFS",
        "CONFIG_DEVTMPFS_MOUNT",
        "CONFIG_BINFMT_ELF",
        "CONFIG_BINFMT_SCRIPT",
        "CONFIG_EPOLL",
        "CONFIG_FUTEX",
        "CONFIG_TIMERFD",
        "CONFIG_EVENTFD",
        "CONFIG_MEMFD_CREATE",
        "CONFIG_SIGNALFD",
        "CONFIG_SECCOMP",
        "CONFIG_SECCOMP_FILTER",
        "CONFIG_NAMESPACES",
        "CONFIG_UTS_NS",
        "CONFIG_IPC_NS",
        "CONFIG_PID_NS",
        "CONFIG_SSL",
        "CONFIG_NULL_CHAN",
        "CONFIG_DEBUG_INFO_NONE",
    ];
    let no = [
        "CONFIG_BLK_DEV_UBD_SYNC",
        "CONFIG_BLK_DEV_LOOP",
        "CONFIG_BLK_DEV_NBD",
        "CONFIG_HOSTFS",
        "CONFIG_MCONSOLE",
        "CONFIG_MODULES",
        "CONFIG_UML_NET_VECTOR",
        "CONFIG_IPV6",
        "CONFIG_USER_NS",
        "CONFIG_NETDEVICES",
    ];
    let mut config = String::new();
    for setting in yes {
        config.push_str(setting);
        config.push_str("=y\n");
    }
    for setting in no {
        config.push_str("# ");
        config.push_str(setting);
        config.push_str(" is not set\n");
    }
    if smp {
        config.push_str("CONFIG_SMP=y\nCONFIG_NR_CPUS=16\n");
    } else {
        config.push_str("# CONFIG_SMP is not set\n");
    }
    config
}

/// The files of a bundle, in the order in which they are verified.
struct Bundle {
    files: Vec<(&'static str, u32, Vec<u8>)>,
}

impl Bundle {
    fn new(smp: bool) -> Bundle {
        let elf = minimal_elf(false);
        Bundle {
            files: vec![
                ("host/pocket-guard", 0o555, elf.clone()),
                ("host/linux-uml", 0o555, elf.clone()),
                ("host/skopeo", 0o555, elf.clone()),
                ("host/slirp4netns", 0o555, elf.clone()),
                (
                    "host/registry-ca.pem",
                    0o444,
                    b"-----BEGIN CERTIFICATE-----\nZmFrZQ==\n-----END CERTIFICATE-----\n".to_vec(),
                ),
                ("guest/workload.cpio", 0o444, b"070701fixture".to_vec()),
                ("guest/builder.cpio", 0o444, b"070701builder-fixture".to_vec()),
                (
                    "guest/validator.cpio",
                    0o444,
                    b"070701validator-fixture".to_vec(),
                ),
                ("host/mke2fs", 0o555, elf.clone()),
                ("host/e2fsck", 0o555, elf),
                (
                    "host/mke2fs.conf",
                    0o444,
                    b"[defaults]\nbase_features = sparse_super,filetype,resize_inode,dir_index,ext_attr\n"
                        .to_vec(),
                ),
                ("host/e2fsck.conf", 0o444, Vec::new()),
                ("audit/kernel.config", 0o444, kernel_config(smp).into_bytes()),
            ],
        }
    }

    fn spec(&self, position: usize) -> ArtifactSpec {
        let (path, _, bytes) = &self.files[position];
        ArtifactSpec {
            path: (*path).to_owned(),
            sha256: ArtifactDigest::of_bytes(bytes),
            size: bytes.len() as u64,
        }
    }

    fn artifacts(&self) -> ArtifactManifest {
        ArtifactManifest {
            guard: self.spec(0),
            uml: self.spec(1),
            skopeo: self.spec(2),
            network_helper: self.spec(3),
            registry_ca_bundle: self.spec(4),
            workload_initramfs: self.spec(5),
            builder_initramfs: self.spec(6),
            validator_initramfs: self.spec(7),
            mke2fs: self.spec(8),
            e2fsck: self.spec(9),
            mke2fs_config: self.spec(10),
            e2fsck_config: self.spec(11),
            normalized_kernel_config: self.spec(12),
        }
    }

    fn observe(&self, position: usize) -> FileObservation {
        let (path, mode, bytes) = &self.files[position];
        FileObservation {
            canonical: format!("{ROOT}/{path}"),
            regular: true,
            mode: 0o100000 | *mode,
            size: bytes.len() as u64,
            capability: false,
            bytes: bytes.clone(),
        }
    }

    fn load(&self, manifest: ProfileManifest) -> Result<VerifiedProfile, ManifestError> {
        let maximum = manifest.cpu.effective_max_cpus;
        let mut loader = ProfileLoader::new(ROOT, manifest, &facts(maximum), &encode)?;
        let mut position = 0;
        while let Some(path) = loader.next() {
            assert_eq!(path?, self.observe(position).canonical);
            loader.accept(&self.observe(position))?;
            position += 1;
        }
        assert_eq!(position, self.files.len());
        loader.finish(&self.files[12].2, &self.files[4].2)
    }
}

fn hello(contract: &str, build: &str, features: &[&str]) -> HelloContract {
    HelloContract {
        guest_contract_id: contract.repeat(32),
        init_build_id: build.repeat(32),
        kernel_build_id: "33".repeat(32),
        required_features: owned(features),
    }
}

/// An encoding that holds every field of a manifest's canonical form.
fn encode(manifest: CanonicalManifest<'_>) -> Result<Vec<u8>, String> {
    Ok(format!("{manifest:?}").into_bytes())
}

fn synthetic_manifest(bundle: &Bundle, smp: bool) -> ProfileManifest {
    let cpu = if smp {
        CpuManifest {
            smp_enabled: true,
            product_max_cpus: 8,
            compiled_nr_cpus: Some(16),
            effective_max_cpus: 8,
        }
    } else {
        CpuManifest {
            smp_enabled: false,
            product_max_cpus: 1,
            compiled_nr_cpus: None,
            effective_max_cpus: 1,
        }
    };
    let mut manifest = ProfileManifest {
        schema_version: PROFILE_SCHEMA_VERSION,
        profile_id: if smp {
            "x86_64-smp-p4k".to_owned()
        } else {
            "x86_64-up-p4k-test".to_owned()
        },
        profile_revision: ProfileRevision::from_bytes([0; 32]),
        maturity: ProfileMaturity::Experimental,
        host_architecture: "x86_64".to_owned(),
        host_elf_machine: EM_X86_64,
        oci_os: "linux".to_owned(),
        oci_architecture: "amd64".to_owned(),
        accepted_oci_variants: vec![None, Some("v1".to_owned())],
        uml_subarchitecture: "x86_64".to_owned(),
        guest_page_size: 4096,
        cpu,
        memory: MemoryManifest {
            minimum_bytes: 128 * 1024 * 1024,
            default_memory_bytes: 256 * 1024 * 1024,
            product_maximum_bytes: 4 * 1024 * 1024 * 1024,
            effective_max_memory_bytes: 2 * 1024 * 1024 * 1024,
            builder_memory_bytes: 512 * 1024 * 1024,
            validator_memory_bytes: 512 * 1024 * 1024,
            alignment_bytes: 4096,
        },
        contracts: Contracts {
            selector_policy: "native-amd64-v1".to_owned(),
            root_layout: "pocket-root-v1".to_owned(),
            filesystem: "ext4-v1-b4096".to_owned(),
            cpu_state_hwcap_policy: "native-x86_64-v1".to_owned(),
            guest_capability_policy: "fixed-capabilities-v1".to_owned(),
        },
        hello: hello("11", "22", &WORKLOAD_FEATURES),
        builder: BuilderContract {
            hello: hello("44", "55", &BUILDER_FEATURES),
            manifest_schema: "pocket-fs-manifest-v1".to_owned(),
            required_tools: vec![BuilderToolContract {
                role: "umoci".to_owned(),
                sha256: "66".repeat(32),
                version: "umoci version 0.4.7".to_owned(),
            }],
            source_date_epoch: 1_786_940_622,
        },
        validator: ValidatorContract {
            hello: hello("77", "88", &VALIDATOR_FEATURES),
            manifest_schema: "pocket-fs-manifest-v1".to_owned(),
        },
        launch: LaunchContract {
            linkage: "static".to_owned(),
            cooperative_backend: "seccomp-on".to_owned(),
            noreboot: true,
            rdinit: "/init".to_owned(),
            rootfstype: "ramfs".to_owned(),
            ubd: "cow-v3".to_owned(),
            serial: "ssl-fd-v1".to_owned(),
            network: "none".to_owned(),
            max_ubd_path_bytes: 4095,
            max_umid_bytes: 63,
            max_unix_path_bytes: 107,
        },
        artifacts: bundle.artifacts(),
    };
    manifest.profile_revision = manifest.computed_revision(&encode).expect("revision");
    manifest
}

fn synthetic_profile(smp: bool) -> VerifiedProfile {
    let bundle = Bundle::new(smp);
    let manifest = synthetic_manifest(&bundle, smp);
    bundle.load(manifest).expect("verified profile")
}

fn run_paths(run: &str) -> RunPaths {
    let directory = format!("/srv/pocket/runtime/{run}");
    RunPaths {
        uml_dir: format!("{directory}/uml"),
        tmp_dir: format!("{directory}/tmp"),
        cow: format!("{directory}/root.cow"),
        network_socket: format!("{directory}/net"),
        umid: run.to_owned(),
    }
}

fn launch_inputs(cpus: CpuRequest, memory: MemoryRequest, paths: RunPaths) -> LaunchInputs {
    LaunchInputs {
        extra_consoles: 0,
        paths,
        base: "/srv/pocket/store/generation/base.ext4".to_owned(),
        cpus,
        memory,
        guard_term_timeout: Duration::from_secs(5),
        verbose_console: false,
        network: false,
        supervisor: 4242,
    }
}

fn smp_inputs() -> LaunchInputs {
    launch_inputs(
        CpuRequest {
            requested: 4,
            kernel_ncpus: Some(4),
        },
        MemoryRequest {
            bytes: 512 * 1024 * 1024,
            uml_value: "512M".to_owned(),
        },
        run_paths("run-00112233445566778899aabbccddeeff"),
    )
}

fn count(arguments: &[String], wanted: &str) -> usize {
    arguments.iter().filter(|value| *value == wanted).count()
}

fn has(arguments: &[String], wanted: &str) -> bool {
    count(arguments, wanted) > 0
}

fn value_of(environment: &[Variable], name: &str) -> Option<String> {
    environment
        .iter()
        .find(|variable| variable.name == name)
        .map(|variable| variable.value.clone())
}

#[test]
fn protocol_descriptor_numbers_are_stable_and_distinct() {
    let values = [CONTROL_FD, STDOUT_FD, STDERR_FD, STDIN_FD, CONSOLE_FD];
    assert_eq!(values, [10, 11, 12, 13, 14]);
    let mut sorted = values.to_vec();
    sorted.sort_unstable();
    sorted.dedup();
    assert_eq!(sorted.len(), values.len());
    assert_eq!(
        descriptor_targets(2),
        vec![8, 9, 10, 11, 12, 13, 14, 15, 16]
    );
}

#[test]
fn exact_smp_launch_pairs_uml_and_guest_contract_arguments_without_a_shell() {
    let profile = synthetic_profile(true);
    let plan = build_launch_plan(&profile, &smp_inputs()).expect("launch plan");
    let arguments = &plan.guard_arguments;
    for wanted in [
        "--uml-personality",
        "--lease-fd",
        "8",
        "--liveness-fd",
        "9",
        "mem=512M",
        "pocket.expected_memory_bytes=536870912",
        "ncpus=4",
        "pocket.expected_cpus=4",
        "seccomp=on",
        "noreboot",
        "quiet",
        "panic=1",
        "pocket.cpu_state_hwcap_policy=native-x86_64-v1",
        "pocket.guest_capability_policy=fixed-capabilities-v1",
    ] {
        assert!(has(arguments, wanted), "missing {wanted}");
    }
    assert!(!has(arguments, "loglevel=7"));
    assert_eq!(count(arguments, "seccomp=on"), 1);
    assert_eq!(count(arguments, "noreboot"), 1);
    assert_eq!(count(arguments, "panic=1"), 1);
    for shell in ["sh", "-c", "env"] {
        assert!(!has(arguments, shell));
    }

    let mut verbose_inputs = smp_inputs();
    verbose_inputs.verbose_console = true;
    let verbose = build_launch_plan(&profile, &verbose_inputs).expect("verbose launch plan");
    assert!(has(&verbose.guard_arguments, "loglevel=7"));
    assert!(!has(&verbose.guard_arguments, "quiet"));

    let environment: Vec<&str> = plan
        .environment
        .iter()
        .map(|variable| variable.name.as_str())
        .collect();
    assert_eq!(
        environment,
        ["HOME", "LANG", "LC_ALL", "PATH", "TEMP", "TMP", "TMPDIR", "TZ"]
    );
    assert_eq!(plan.guard_program, format!("{ROOT}/host/pocket-guard"));
    assert_eq!(plan.uml_command[0], format!("{ROOT}/host/linux-uml"));
    assert!(arguments.ends_with(&plan.uml_command));
    assert_eq!(
        arguments[..6],
        ["--supervisor-pid", "4242", "--liveness-fd", "9", "--lease-fd", "8"]
    );
}

#[test]
fn up_launch_omits_the_unlinked_ncpus_parser_but_keeps_guest_cpu_assertion() {
    let profile = synthetic_profile(false);
    let inputs = launch_inputs(
        CpuRequest {
            requested: 1,
            kernel_ncpus: None,
        },
        MemoryRequest {
            bytes: 256 * 1024 * 1024,
            uml_value: "256M".to_owned(),
        },
        run_paths("run-aabbccddeeff00112233445566778899"),
    );
    let plan = build_launch_plan(&profile, &inputs).expect("launch plan");
    assert!(!plan
        .uml_command
        .iter()
        .any(|argument| argument.starts_with("ncpus=")));
    assert!(has(&plan.uml_command, "pocket.expected_cpus=1"));
}

#[test]
fn extra_serial_lines_and_the_network_are_declared_on_both_sides() {
    let profile = synthetic_profile(true);
    let mut inputs = smp_inputs();
    inputs.extra_consoles = 2;
    inputs.network = true;
    let plan = build_launch_plan(&profile, &inputs).expect("launch plan");
    assert!(has(&plan.uml_command, "ssl4=fd:15,fd:15"));
    assert!(has(&plan.uml_command, "ssl5=fd:16,fd:16"));
    let socket = &inputs.paths.network_socket;
    assert!(has(
        &plan.uml_command,
        &format!("vec0:transport=bess,dst={socket},depth=128,gro=1")
    ));
    assert_eq!(count(&plan.guard_arguments, "--inherit-fd"), 7);
    assert_eq!(count(&plan.guard_arguments, "--network-helper-arg"), 3);
    assert!(has(
        &plan.guard_arguments,
        &format!("{ROOT}/host/slirp4netns")
    ));
    assert_eq!(plan.extra_consoles, 2);
}

#[test]
fn paths_beyond_the_profile_limits_are_refused() {
    let profile = synthetic_profile(true);
    let field_of = |inputs: &LaunchInputs| match build_launch_plan(&profile, inputs) {
        Err(RuntimeError::InvalidConfiguration { field, .. }) => field,
        other => panic!("the launch was not refused: {other:?}"),
    };

    let mut inputs = smp_inputs();
    inputs.base = format!("/{}", "b".repeat(4095));
    assert_eq!(field_of(&inputs), "ubd0");

    let mut inputs = smp_inputs();
    inputs.paths.umid = "u".repeat(64);
    assert_eq!(field_of(&inputs), "umid");

    let mut inputs = smp_inputs();
    inputs.paths.uml_dir = format!("/{}", "d".repeat(107));
    assert_eq!(field_of(&inputs), "uml_dir");

    // An unused socket has no limit to keep.
    let mut inputs = smp_inputs();
    inputs.paths.network_socket = format!("/{}", "s".repeat(107));
    assert!(build_launch_plan(&profile, &inputs).is_ok());
    inputs.network = true;
    assert_eq!(field_of(&inputs), "network_socket");

    let mut inputs = smp_inputs();
    inputs.guard_term_timeout = Duration::from_secs(u64::MAX);
    assert_eq!(field_of(&inputs), "guard_term_timeout");
}

fn build_paths() -> BuildPaths {
    let operation = "/srv/pocket/runtime/build-0123456789abcdef";
    BuildPaths {
        uml_dir: format!("{operation}/uml"),
        tmp_dir: format!("{operation}/tmp"),
        blkid_file: format!("{operation}/tmp/blkid.tab"),
        payload: format!("{operation}/oci-payload.ext4"),
        initramfs: format!("{operation}/builder-initramfs.cpio"),
        validator_initramfs: format!("{operation}/validator-initramfs.cpio"),
        umid: "build-0123456789abcdef".to_owned(),
        validator_umid: "build-0123456789abcdef-v".to_owned(),
    }
}

#[test]
fn builder_launch_is_exact_single_cpu_decimal_memory_and_no_shell() {
    let profile = synthetic_profile(true);
    let paths = build_paths();
    let target = "/srv/pocket/store/staging/stage/base.ext4";
    let plan = build_builder_launch_plan(&profile, &paths, target, Duration::from_secs(5), 77)
        .expect("launch plan");
    let args = &plan.uml_command;
    assert_eq!(args[1], "mem=536870912");
    assert_eq!(args[2], "ncpus=1");
    for required in [
        "seccomp=on",
        "pocket.builder.expected_cpus=1",
        "pocket.builder.expected_memory_bytes=536870912",
        "pocket.builder.expected_page_size=4096",
        "pocket.builder.expected_architecture=amd64",
        "pocket.builder.cpu_state_hwcap_policy=native-x86_64-v1",
        "quiet",
        "noreboot",
        "panic=1",
    ] {
        assert!(has(args, required), "missing {required:?} from {args:?}");
    }
    assert!(args
        .iter()
        .all(|argument| argument != "sh" && argument != "-c"));
    assert_eq!(
        value_of(&plan.environment, "PATH"),
        Some("/usr/bin:/bin".to_owned())
    );
    assert!(has(&plan.guard_arguments, "--uml-personality"));
    assert_eq!(count(&plan.guard_arguments, "--inherit-fd"), 2);

    let validator = build_validator_launch_plan(&profile, &paths, target, Duration::from_secs(5), 77)
        .expect("validator launch plan");
    let validator_args = &validator.uml_command;
    assert_eq!(validator_args[1], "mem=536870912");
    assert!(has(validator_args, "ncpus=1"));
    assert!(has(validator_args, &format!("ubd0r={target}")));
    assert!(validator_args
        .iter()
        .all(|value| !value.starts_with("ubd1=")));
    for required in [
        "seccomp=on",
        "pocket.validator.expected_cpus=1",
        "pocket.validator.expected_memory_bytes=536870912",
        "pocket.validator.manifest_schema=pocket-fs-manifest-v1",
    ] {
        assert!(has(validator_args, required), "missing {required}");
    }
}

#[test]
fn guest_disk_paths_beyond_the_profile_limit_are_refused() {
    let profile = synthetic_profile(true);
    let long = format!("/{}", "t".repeat(4095));
    let term = Duration::from_secs(5);
    assert!(matches!(
        build_builder_launch_plan(&profile, &build_paths(), &long, term, 1),
        Err(HostBuildError::InvalidConfiguration { field: "target", .. })
    ));
    assert!(matches!(
        build_validator_launch_plan(&profile, &build_paths(), &long, term, 1),
        Err(HostBuildError::InvalidConfiguration {
            field: "validation_target",
            ..
        })
    ));
    let mut paths = build_paths();
    paths.payload = long;
    assert!(matches!(
        build_builder_launch_plan(&profile, &paths, "/t", term, 1),
        Err(HostBuildError::InvalidConfiguration { field: "payload", .. })
    ));
}

#[test]
fn filesystem_helpers_get_only_typed_configuration_and_a_private_blkid_file() {
    let profile = synthetic_profile(true);
    let tmp = "/srv/pocket/runtime/build/tmp";
    let blkid_file = "/srv/pocket/runtime/build/tmp/blkid.tab";
    let format = e2fs_helper_environment(&profile, tmp, blkid_file, E2fsHelper::Mke2fs);
    assert_eq!(format.len(), 11);
    assert_eq!(
        value_of(&format, "MKE2FS_CONFIG"),
        Some(format!("{ROOT}/host/mke2fs.conf"))
    );
    assert_eq!(value_of(&format, "E2FSCK_CONFIG"), None);
    assert_eq!(value_of(&format, "BLKID_FILE"), Some(blkid_file.to_owned()));
    let check = e2fs_helper_environment(&profile, tmp, blkid_file, E2fsHelper::E2fsck);
    assert_eq!(check.len(), 11);
    assert_eq!(value_of(&check, "MKE2FS_CONFIG"), None);
    assert_eq!(
        value_of(&check, "E2FSCK_CONFIG"),
        Some(format!("{ROOT}/host/e2fsck.conf"))
    );
    assert_eq!(value_of(&check, "BLKID_FILE"), Some(blkid_file.to_owned()));
    assert_eq!(
        value_of(&check, "E2FSPROGS_FAKE_TIME"),
        Some("1786940622".to_owned())
    );
    let resize = e2fs_helper_environment(&profile, tmp, blkid_file, E2fsHelper::Resize2fs);
    assert_eq!(resize.len(), 10);
    for environment in [&format, &check, &resize] {
        assert!(environment.windows(2).all(|pair| pair[0].name < pair[1].name));
    }

    let tools = ResizeTools {
        resize2fs: "/usr/sbin/resize2fs".to_owned(),
        debugfs: "/usr/sbin/debugfs".to_owned(),
    };
    assert_eq!(
        E2fsHelper::Mke2fs.program(&profile, &tools),
        format!("{ROOT}/host/mke2fs")
    );
    assert_eq!(
        E2fsHelper::Debugfs.program(&profile, &tools),
        "/usr/sbin/debugfs"
    );
    assert_eq!(
        helper_guard_arguments(7, Duration::from_millis(1500), "/tool", &owned(&["-f", "x"]))
            .expect("guard arguments"),
        owned(&[
            "--supervisor-pid",
            "7",
            "--liveness-fd",
            "9",
            "--lease-fd",
            "8",
            "--term-timeout-ms",
            "1500",
            "--",
            "/tool",
            "-f",
            "x",
        ])
    );
}
