use pocket_runtime::builder::files::{FileFacts, OwnedDirectory};
use pocket_runtime::digest::{ArtifactDigest, FileDigest, ProfileRevision};
use pocket_runtime::error::RuntimeError;
use pocket_runtime::launch::{CpuRequest, MemoryRequest};
use pocket_runtime::manifest::{
    ArtifactManifest, ArtifactSpec, BuilderContract, BuilderToolContract, Contracts, CpuManifest,
    HelloContract, LaunchContract, MemoryManifest, ProfileManifest, ProfileMaturity,
    ValidatorContract, EM_X86_64, PROFILE_SCHEMA_VERSION,
};
use pocket_runtime::pocket_archive::{GenerationSpec, ImmutableSidecar, Platform};
use pocket_runtime::protocol::{verify_hello, Hello, Ready};
use pocket_runtime::runtime::{
    admit_run, build_start, check_base_size, check_fresh_overlay, check_run_cleanup,
    check_runtime_root, run_paths, validate_generation, verify_base_unchanged, verify_ready,
    RunRequest, Start, StartIdentity, WorkloadSpec,
};

fn owned(items: &[&str]) -> Vec<String> {
    items.iter().map(|item| (*item).to_owned()).collect()
}

fn artifact(path: &str) -> ArtifactSpec {
    ArtifactSpec {
        path: path.to_owned(),
        sha256: ArtifactDigest::of_bytes(path.as_bytes()),
        size: path.len() as u64,
    }
}

fn hello_contract(contract: &str, build: &str, features: &[&str]) -> HelloContract {
    HelloContract {
        guest_contract_id: contract.repeat(32),
        init_build_id: build.repeat(32),
        kernel_build_id: "33".repeat(32),
        required_features: owned(features),
    }
}

fn manifest() -> ProfileManifest {
    ProfileManifest {
        schema_version: PROFILE_SCHEMA_VERSION,
        profile_id: "x86_64-smp-p4k".to_owned(),
        profile_revision: ProfileRevision::from_bytes([0x5a; 32]),
        maturity: ProfileMaturity::Experimental,
        host_architecture: "x86_64".to_owned(),
        host_elf_machine: EM_X86_64,
        oci_os: "linux".to_owned(),
        oci_architecture: "amd64".to_owned(),
        accepted_oci_variants: vec![None, Some("v1".to_owned())],
        uml_subarchitecture: "x86_64".to_owned(),
        guest_page_size: 4096,
        cpu: CpuManifest {
            smp_enabled: true,
            product_max_cpus: 8,
            compiled_nr_cpus: Some(16),
            effective_max_cpus: 8,
        },
        memory: MemoryManifest {
            minimum_bytes: 128 * 1024 * 1024,
            default_memory_bytes: 256 * 1024 * 1024,
            product_maximum_bytes: 4 * 1024 * 1024 * 1024,
            effective_max_memory_bytes: 2 * 1024 * 1024 * 1024,
            builder_memory_bytes: 512 * 1024 * 1024,
            validator_memory_bytes: 512 * 1024 * 1024,
            alignment_bytes: 4096,
        },
        contracts: Contracts {
            selector_policy: "native-amd64-v1".to_owned(),
            root_layout: "pocket-root-v1".to_owned(),
            filesystem: "ext4-v1-b4096".to_owned(),
            cpu_state_hwcap_policy: "native-x86_64-v1".to_owned(),
            guest_capability_policy: "fixed-capabilities-v1".to_owned(),
        },
        hello: hello_contract("11", "22", &["generated-etc-v1", "generation-marker-v3"]),
        builder: BuilderContract {
            hello: hello_contract("44", "55", &["account-db-v1"]),
            manifest_schema: "pocket-fs-manifest-v1".to_owned(),
            required_tools: vec![BuilderToolContract {
                role: "umoci".to_owned(),
                sha256: "66".repeat(32),
                version: "umoci version 0.4.7".to_owned(),
            }],
            source_date_epoch: 1_786_940_622,
        },
        validator: ValidatorContract {
            hello: hello_contract("77", "88", &["ext4-clean-state-v1"]),
            manifest_schema: "pocket-fs-manifest-v1".to_owned(),
        },
        launch: LaunchContract {
            linkage: "static".to_owned(),
            cooperative_backend: "seccomp-on".to_owned(),
            noreboot: true,
            rdinit: "/init".to_owned(),
            rootfstype: "ramfs".to_owned(),
            ubd: "cow-v3".to_owned(),
            serial: "ssl-fd-v1".to_owned(),
            network: "none".to_owned(),
            max_ubd_path_bytes: 4095,
            max_umid_bytes: 63,
            max_unix_path_bytes: 107,
        },
        artifacts: ArtifactManifest {
            guard: artifact("host/pocket-guard"),
            uml: artifact("host/linux-uml"),
            skopeo: artifact("host/skopeo"),
            network_helper: artifact("host/slirp4netns"),
            registry_ca_bundle: artifact("host/registry-ca.pem"),
            workload_initramfs: artifact("guest/workload.cpio"),
            builder_initramfs: artifact("guest/builder.cpio"),
            validator_initramfs: artifact("guest/validator.cpio"),
            mke2fs: artifact("host/mke2fs"),
            e2fsck: artifact("host/e2fsck"),
            mke2fs_config: artifact("host/mke2fs.conf"),
            e2fsck_config: artifact("host/e2fsck.conf"),
            normalized_kernel_config: artifact("audit/kernel.config"),
        },
    }
}

fn platform(variant: Option<&str>) -> Platform {
    Platform {
        os: "linux".to_owned(),
        architecture: "amd64".to_owned(),
        variant: variant.map(str::to_owned),
        os_version: None,
        os_features: Vec::new(),
    }
}

fn generation() -> GenerationSpec {
    GenerationSpec {
        selected_manifest_digest: ArtifactDigest::of_bytes(b"manifest"),
        config_digest: ArtifactDigest::of_bytes(b"config"),
        layer_digests: Vec::new(),
        diff_ids: Vec::new(),
        descriptor_platform: Some(platform(Some("v1"))),
        config_platform: platform(None),
        effective_platform: platform(Some("v1")),
        selector_policy_id: "native-amd64-v1".to_owned(),
        profile_id: "x86_64-smp-p4k".to_owned(),
        profile_revision: ArtifactDigest::from_bytes([0x5a; 32]),
        root_layout_contract: "pocket-root-v1".to_owned(),
        filesystem_contract: "ext4-v1-b4096".to_owned(),
        build_contract_digest: ArtifactDigest::of_bytes(b"contract"),
    }
}

fn sidecars() -> Vec<ImmutableSidecar> {
    vec![
        ImmutableSidecar {
            name: "build.log".to_owned(),
            digest: ArtifactDigest::of_bytes(b"log"),
            size: 3,
        },
        ImmutableSidecar {
            name: "accounts.cbor".to_owned(),
            digest: ArtifactDigest::of_bytes(b"accounts"),
            size: 8,
        },
    ]
}

fn request(stdin_bytes: u64) -> RunRequest {
    RunRequest {
        stdin_bytes,
        cpus: Ok(CpuRequest {
            requested: 2,
            kernel_ncpus: Some(2),
        }),
        memory: Ok(MemoryRequest {
            bytes: 256 * 1024 * 1024,
            uml_value: "256M".to_owned(),
        }),
        base_refusal: None,
    }
}

#[test]
fn a_run_is_admitted_with_the_accounts_of_its_generation() {
    let admitted = admit_run(&manifest(), request(10), 1024, &generation(), &sidecars())
        .expect("admitted run");
    assert_eq!(admitted.stdin_bytes, 10);
    assert_eq!(admitted.cpus.requested, 2);
    assert_eq!(
        admitted.account_db_sha256,
        ArtifactDigest::of_bytes(b"accounts").hexadecimal()
    );
    match admit_run(&manifest(), request(1025), 1024, &generation(), &sidecars()) {
        Err(RuntimeError::InvalidConfiguration { field, reason }) => {
            assert_eq!(field, "stdin");
            assert_eq!(reason, "exceeds the 1024-byte synchronous input cap");
        }
        other => panic!("too much input was admitted: {other:?}"),
    }
    assert!(matches!(
        admit_run(&manifest(), request(0), 1024, &generation(), &Vec::new()),
        Err(RuntimeError::InvalidConfiguration {
            field: "generation.accounts",
            ..
        })
    ));
    let refused = RunRequest {
        cpus: Err("too many CPUs".to_owned()),
        ..request(0)
    };
    assert!(matches!(
        admit_run(&manifest(), refused, 1024, &generation(), &sidecars()),
        Err(RuntimeError::Cpu { .. })
    ));
    let refused = RunRequest {
        memory: Err("too little memory".to_owned()),
        ..request(0)
    };
    assert!(matches!(
        admit_run(&manifest(), refused, 1024, &generation(), &sidecars()),
        Err(RuntimeError::Memory { .. })
    ));
    // The base's path comes after the generation and before its accounts.
    let misplaced = || RunRequest {
        base_refusal: Some("base has a comma".to_owned()),
        ..request(0)
    };
    match admit_run(&manifest(), misplaced(), 1024, &generation(), &Vec::new()) {
        Err(RuntimeError::ManagedPath { reason }) => assert_eq!(reason, "base has a comma"),
        other => panic!("a misplaced base was admitted: {other:?}"),
    }
    let mut foreign = generation();
    foreign.profile_id = "other".to_owned();
    assert!(matches!(
        admit_run(&manifest(), misplaced(), 1024, &foreign, &sidecars()),
        Err(RuntimeError::GenerationMismatch { .. })
    ));
}

#[test]
fn a_generation_of_another_profile_is_refused() {
    assert!(validate_generation(&manifest(), &generation()).is_ok());
    let changes: Vec<(&str, fn(&mut GenerationSpec))> = vec![
        ("profile_id", |spec| spec.profile_id = "other".to_owned()),
        ("profile_revision", |spec| {
            spec.profile_revision = ArtifactDigest::from_bytes([1; 32])
        }),
        ("platform.os", |spec| spec.effective_platform.os = "plan9".to_owned()),
        ("platform.architecture", |spec| {
            spec.effective_platform.architecture = "arm64".to_owned()
        }),
        ("platform.variant", |spec| {
            spec.effective_platform.variant = Some("v9".to_owned())
        }),
        ("platform.os_extensions", |spec| {
            spec.effective_platform.os_version = Some("1".to_owned())
        }),
        ("selector_policy", |spec| spec.selector_policy_id = "other".to_owned()),
        ("root_layout", |spec| spec.root_layout_contract = "other".to_owned()),
        ("filesystem_contract", |spec| {
            spec.filesystem_contract = "other".to_owned()
        }),
    ];
    for (wanted, change) in changes {
        let mut spec = generation();
        change(&mut spec);
        match validate_generation(&manifest(), &spec) {
            Err(RuntimeError::GenerationMismatch { field, .. }) => assert_eq!(field, wanted),
            other => panic!("{wanted} is not compared: {other:?}"),
        }
    }
}

fn start() -> Start<u8, u8> {
    build_start(
        &manifest(),
        &generation(),
        StartIdentity {
            generation_id: ArtifactDigest::from_bytes([0x55; 32]),
            derivation_key: ArtifactDigest::from_bytes([0x66; 32]),
        },
        "77".repeat(32),
        WorkloadSpec {
            argv: owned(&["/bin/true"]),
            env: owned(&["PATH=/usr/bin:/bin"]),
            cwd: "/work".to_owned(),
            uid: 7,
            gid: 8,
            supplementary_gids: vec![9],
            umask: 0o022,
            rlimits: vec![1],
            hostname: "pocket".to_owned(),
            root_read_only: false,
            volumes: vec![2],
            network: true,
            stop_signal: 15,
        },
        10,
    )
}

#[test]
fn a_start_carries_the_workload_and_its_identity() {
    let start = start();
    assert_eq!(start.profile_id, "x86_64-smp-p4k");
    assert_eq!(start.profile_revision, "5a".repeat(32));
    assert_eq!(start.generation_id, "55".repeat(32));
    assert_eq!(start.derivation_key, "66".repeat(32));
    assert_eq!(start.account_db_sha256, "77".repeat(32));
    assert_eq!(start.argv, owned(&["/bin/true"]));
    assert_eq!(
        start
            .descriptor_platform
            .as_ref()
            .and_then(|platform| platform.variant.as_deref()),
        Some("v1")
    );
    assert_eq!(start.config_platform.variant, None);
    assert_eq!(start.network_mode, 1);
    assert_eq!(start.stdin_bytes, 10);
}

#[test]
fn a_ready_guest_must_run_what_was_asked() {
    let ready = Ready {
        guest_pid: 2,
        effective_uid: 7,
        effective_gid: 8,
        cwd: "/work".to_owned(),
    };
    let start = start();
    assert!(verify_ready(&ready, &start).is_ok());
    let mut root = ready.clone();
    root.effective_uid = 0;
    assert!(verify_ready(&root, &start).is_err());
    let mut elsewhere = ready;
    elsewhere.cwd = "/".to_owned();
    assert!(verify_ready(&elsewhere, &start).is_err());
}

fn hello() -> Hello {
    Hello {
        guest_contract_id: "11".repeat(32),
        init_build_id: "22".repeat(32),
        kernel_build_id: "33".repeat(32),
        host_elf_machine: 62,
        guest_uts_machine: "x86_64".to_owned(),
        guest_page_size: 4096,
        cpu_state_hwcap_policy: "native-x86_64-v1".to_owned(),
        features: owned(&["extra-v1", "generated-etc-v1", "generation-marker-v3"]),
        online_cpus: 2,
        accepted_physmem_bytes: 256 * 1024 * 1024,
        guest_capability_policy: "fixed-capabilities-v1".to_owned(),
    }
}

#[test]
fn a_hello_must_be_that_of_the_profiles_guest() {
    let memory = 256 * 1024 * 1024;
    assert!(verify_hello(&manifest(), Ok(()), memory, &hello()).is_ok());
    assert!(matches!(
        verify_hello(&manifest(), Err("1 CPU online".to_owned()), memory, &hello()),
        Err(RuntimeError::Cpu { .. })
    ));
    assert!(matches!(
        verify_hello(&manifest(), Ok(()), memory + 4096, &hello()),
        Err(RuntimeError::HelloMismatch {
            field: "accepted_physmem_bytes",
            ..
        })
    ));
    let mut bare = hello();
    bare.features = owned(&["generated-etc-v1"]);
    match verify_hello(&manifest(), Ok(()), memory, &bare) {
        Err(RuntimeError::HelloMismatch {
            field,
            expected,
            actual,
        }) => {
            assert_eq!(field, "features");
            assert_eq!(expected, "generation-marker-v3");
            assert_eq!(actual, "[\"generated-etc-v1\"]");
        }
        other => panic!("a missing feature was accepted: {other:?}"),
    }
}

#[test]
fn run_directories_are_owned_and_recognized() {
    let directory = OwnedDirectory {
        root: "/srv/runtime".to_owned(),
        name: "run-00112233".to_owned(),
        device: 5,
        inode: 9,
    };
    let paths = run_paths(&directory, 63).expect("run paths");
    assert_eq!(paths.cow, "/srv/runtime/run-00112233/root.cow");
    assert_eq!(paths.umid, "run-00112233");
    assert!(run_paths(&directory, 4).is_err());
    let facts = FileFacts {
        regular: false,
        directory: true,
        length: 0,
        mode: 0o40700,
        owner: 1000,
        device: 5,
        inode: 9,
    };
    assert!(check_run_cleanup(&directory, &facts).is_ok());
    assert!(check_run_cleanup(&directory, &FileFacts { inode: 8, ..facts }).is_err());
    assert!(check_runtime_root("/srv/runtime", "/srv/runtime", &facts, 1000).is_ok());
    assert!(check_runtime_root("/srv/runtime", "/srv/other", &facts, 1000).is_err());
    assert!(check_runtime_root("/srv/runtime", "/srv/runtime", &facts, 0).is_err());
    assert!(check_fresh_overlay(false).is_ok());
    assert!(check_fresh_overlay(true).is_err());
}

#[test]
fn the_immutable_base_stays_what_it_was() {
    let digest = ArtifactDigest::of_bytes(b"base");
    assert!(check_base_size(4096, 4096).is_ok());
    assert!(check_base_size(4096, 8192).is_err());
    let read = |pieces: &[&[u8]]| {
        let mut file = FileDigest::new();
        for piece in pieces {
            assert!(file.accept(piece));
        }
        file
    };
    assert!(verify_base_unchanged(4096, digest, 4096, read(&[b"ba", b"se"])).is_ok());
    assert!(verify_base_unchanged(4096, digest, 8192, read(&[b"base"])).is_err());
    assert!(verify_base_unchanged(4096, digest, 4096, read(&[b"other"])).is_err());
}
