use pocket_runtime::digest::{ArtifactDigest, ProfileRevision};
use pocket_runtime::error::ManifestError;
use pocket_runtime::manifest::rules::PolicyFacts;
use pocket_runtime::manifest::{
    ArtifactManifest, ArtifactSpec, BuilderContract, BuilderToolContract, CanonicalManifest, Contracts,
    CpuManifest, HelloContract, LaunchContract, MemoryManifest, ProfileManifest, ProfileMaturity,
    ValidatorContract, EM_X86_64, PROFILE_SCHEMA_VERSION,
};
use pocket_runtime::profile_seal::publication::{
    artifact_copy, SealAction, SealEvent, SealMachine,
};
use pocket_runtime::profile_seal::{
    check_published, check_staged, contract_identity, copy_artifact, copy_empty_artifact,
    exact_regular_path, guest_contract_record, publication_path, seal_manifest, set_revision,
    stage_candidate, stage_name, validate_publish_directory, validate_template_placeholders,
    validate_umoci_request, ContractEncodings, ContractRole, GuestContractRecord,
    ProfileArtifactSources, SourceMetadata, StageDirectory, BUILDER_INITRAMFS_PATH,
    E2FSCK_CONFIG_PATH, E2FSCK_PATH, GUARD_PATH, KERNEL_CONFIG_PATH, MKE2FS_CONFIG_PATH,
    MKE2FS_PATH, NETWORK_HELPER_PATH, REGISTRY_CA_PATH, SKOPEO_PATH, UML_PATH,
    VALIDATOR_INITRAMFS_PATH, WORKLOAD_INITRAMFS_PATH,
};

fn owned(items: &[&str]) -> Vec<String> {
    items.iter().map(|item| (*item).to_owned()).collect()
}

fn artifact(path: &str) -> ArtifactSpec {
    ArtifactSpec {
        path: path.to_owned(),
        sha256: ArtifactDigest::of_bytes(path.as_bytes()),
        size: path.len() as u64,
    }
}

fn hello_contract(contract: &str, build: &str, features: &[&str]) -> HelloContract {
    HelloContract {
        guest_contract_id: contract.repeat(32),
        init_build_id: build.repeat(32),
        kernel_build_id: "33".repeat(32),
        required_features: owned(features),
    }
}

fn manifest() -> ProfileManifest {
    ProfileManifest {
        schema_version: PROFILE_SCHEMA_VERSION,
        profile_id: "x86_64-smp-p4k".to_owned(),
        profile_revision: ProfileRevision::from_bytes([0x5a; 32]),
        maturity: ProfileMaturity::Experimental,
        host_architecture: "x86_64".to_owned(),
        host_elf_machine: EM_X86_64,
        oci_os: "linux".to_owned(),
        oci_architecture: "amd64".to_owned(),
        accepted_oci_variants: vec![None, Some("v1".to_owned())],
        uml_subarchitecture: "x86_64".to_owned(),
        guest_page_size: 4096,
        cpu: CpuManifest {
            smp_enabled: true,
            product_max_cpus: 8,
            compiled_nr_cpus: Some(16),
            effective_max_cpus: 8,
        },
        memory: MemoryManifest {
            minimum_bytes: 128 * 1024 * 1024,
            default_memory_bytes: 256 * 1024 * 1024,
            product_maximum_bytes: 4 * 1024 * 1024 * 1024,
            effective_max_memory_bytes: 2 * 1024 * 1024 * 1024,
            builder_memory_bytes: 512 * 1024 * 1024,
            validator_memory_bytes: 512 * 1024 * 1024,
            alignment_bytes: 4096,
        },
        contracts: Contracts {
            selector_policy: "native-amd64-v1".to_owned(),
            root_layout: "pocket-root-v1".to_owned(),
            filesystem: "ext4-v1-b4096".to_owned(),
            cpu_state_hwcap_policy: "native-x86_64-v1".to_owned(),
            guest_capability_policy: "fixed-capabilities-v1".to_owned(),
        },
        hello: hello_contract("11", "22", &["generated-etc-v1", "generation-marker-v3"]),
        builder: BuilderContract {
            hello: hello_contract("44", "55", &["account-db-v1"]),
            manifest_schema: "pocket-fs-manifest-v1".to_owned(),
            required_tools: vec![BuilderToolContract {
                role: "umoci".to_owned(),
                sha256: "66".repeat(32),
                version: "umoci version 0.4.7".to_owned(),
            }],
            source_date_epoch: 1_786_940_622,
        },
        validator: ValidatorContract {
            hello: hello_contract("77", "88", &["ext4-clean-state-v1"]),
            manifest_schema: "pocket-fs-manifest-v1".to_owned(),
        },
        launch: LaunchContract {
            linkage: "static".to_owned(),
            cooperative_backend: "seccomp-on".to_owned(),
            noreboot: true,
            rdinit: "/init".to_owned(),
            rootfstype: "ramfs".to_owned(),
            ubd: "cow-v3".to_owned(),
            serial: "ssl-fd-v1".to_owned(),
            network: "none".to_owned(),
            max_ubd_path_bytes: 4095,
            max_umid_bytes: 63,
            max_unix_path_bytes: 107,
        },
        artifacts: ArtifactManifest {
            guard: artifact("host/pocket-guard"),
            uml: artifact("host/linux-uml"),
            skopeo: artifact("host/skopeo"),
            network_helper: artifact("host/slirp4netns"),
            registry_ca_bundle: artifact("host/registry-ca.pem"),
            workload_initramfs: artifact("guest/workload.cpio"),
            builder_initramfs: artifact("guest/builder.cpio"),
            validator_initramfs: artifact("guest/validator.cpio"),
            mke2fs: artifact("host/mke2fs"),
            e2fsck: artifact("host/e2fsck"),
            mke2fs_config: artifact("host/mke2fs.conf"),
            e2fsck_config: artifact("host/e2fsck.conf"),
            normalized_kernel_config: artifact("audit/kernel.config"),
        },
    }
}

fn placeholder(path: &str) -> ArtifactSpec {
    ArtifactSpec {
        path: path.to_owned(),
        sha256: ArtifactDigest::from_bytes([0; 32]),
        size: 0,
    }
}

/// A template: every identity is the all-zero placeholder.
fn template() -> ProfileManifest {
    let mut template = manifest();
    template.profile_revision = ProfileRevision::from_bytes([0; 32]);
    for identity in [
        &mut template.hello.guest_contract_id,
        &mut template.hello.init_build_id,
        &mut template.hello.kernel_build_id,
        &mut template.builder.hello.guest_contract_id,
        &mut template.builder.hello.init_build_id,
        &mut template.builder.hello.kernel_build_id,
        &mut template.validator.hello.guest_contract_id,
        &mut template.validator.hello.init_build_id,
        &mut template.validator.hello.kernel_build_id,
    ] {
        *identity = "00".repeat(32);
    }
    template.builder.required_tools = vec![BuilderToolContract {
        role: "umoci".to_owned(),
        sha256: "00".repeat(32),
        version: "placeholder".to_owned(),
    }];
    template.artifacts = ArtifactManifest {
        guard: placeholder(GUARD_PATH),
        uml: placeholder(UML_PATH),
        skopeo: placeholder(SKOPEO_PATH),
        network_helper: placeholder(NETWORK_HELPER_PATH),
        registry_ca_bundle: placeholder(REGISTRY_CA_PATH),
        workload_initramfs: placeholder(WORKLOAD_INITRAMFS_PATH),
        builder_initramfs: placeholder(BUILDER_INITRAMFS_PATH),
        validator_initramfs: placeholder(VALIDATOR_INITRAMFS_PATH),
        mke2fs: placeholder(MKE2FS_PATH),
        e2fsck: placeholder(E2FSCK_PATH),
        mke2fs_config: placeholder(MKE2FS_CONFIG_PATH),
        e2fsck_config: placeholder(E2FSCK_CONFIG_PATH),
        normalized_kernel_config: placeholder(KERNEL_CONFIG_PATH),
    };
    template
}

fn umoci() -> BuilderToolContract {
    BuilderToolContract {
        role: "umoci".to_owned(),
        sha256: "ab".repeat(32),
        version: "umoci version fixture".to_owned(),
    }
}

fn facts() -> PolicyFacts {
    PolicyFacts {
        effective_max_cpus: Ok(8),
        memory_policy: Ok(()),
        workload_features: owned(&["generated-etc-v1", "generation-marker-v3"]),
        builder_features: owned(&["account-db-v1"]),
        validator_features: owned(&["ext4-clean-state-v1"]),
        source_date_epoch_min: 1,
        source_date_epoch_max: 4_102_444_800,
    }
}

fn encodings() -> ContractEncodings {
    ContractEncodings {
        workload: b"workload".to_vec(),
        builder: b"builder".to_vec(),
        validator: b"validator".to_vec(),
    }
}

#[test]
fn sealing_binds_every_identity_and_is_repeatable() {
    assert!(validate_template_placeholders(&template()).is_ok());
    let seal = || {
        let mut sealed = seal_manifest(
            template(),
            manifest().artifacts,
            &umoci(),
            &encodings(),
            &facts(),
        )
        .expect("sealed manifest");
        set_revision(&mut sealed, &b"encoded".to_vec());
        sealed
    };
    let first = seal();
    let kernel = first.artifacts.uml.sha256.hexadecimal();
    assert_eq!(first.hello.kernel_build_id, kernel);
    assert_eq!(first.builder.hello.kernel_build_id, kernel);
    assert_eq!(first.validator.hello.kernel_build_id, kernel);
    assert_eq!(
        first.builder.hello.init_build_id,
        first.artifacts.builder_initramfs.sha256.hexadecimal()
    );
    assert_eq!(
        first.validator.hello.guest_contract_id,
        contract_identity(&b"validator".to_vec())
    );
    assert_eq!(first.builder.required_tools, vec![umoci()]);
    assert_eq!(
        first.profile_revision,
        ProfileManifest::revision_over(&b"encoded".to_vec())
    );
    assert_eq!(
        publication_path("/srv/profiles", &first),
        format!(
            "/srv/profiles/x86_64-smp-p4k/{}",
            first.profile_revision.hexadecimal()
        )
    );

    let second = seal();
    assert!(check_staged(&second, &first).is_ok());
    assert!(check_published("/p", Some(&second), &first).is_ok());
    let mut other = seal();
    other.guest_page_size = 8192;
    assert!(check_staged(&other, &first).is_err());
    assert!(matches!(
        check_published("/p", Some(&other), &first),
        Err(ManifestError::PublishConflict { .. })
    ));
    assert!(check_published("/p", None, &first).is_err());
}

#[test]
fn a_sealed_manifest_must_meet_every_contract() {
    let mut loose = template();
    loose.launch.linkage = "dynamic".to_owned();
    assert!(seal_manifest(
        loose,
        manifest().artifacts,
        &umoci(),
        &encodings(),
        &facts(),
    )
    .is_err());
}

#[test]
fn templates_carry_placeholders_only() {
    assert!(validate_template_placeholders(&manifest()).is_err());
    let mut measured = template();
    measured.builder.hello.kernel_build_id = "01".repeat(32);
    assert!(validate_template_placeholders(&measured).is_err());
    let mut moved = template();
    moved.artifacts.uml.path = "host/other".to_owned();
    assert!(validate_template_placeholders(&moved).is_err());
    let mut sized = template();
    sized.artifacts.skopeo.size = 1;
    assert!(validate_template_placeholders(&sized).is_err());
}

#[test]
fn only_a_measured_umoci_is_accepted() {
    assert!(validate_umoci_request(&umoci()).is_ok());
    for tool in [
        BuilderToolContract {
            role: "skopeo".to_owned(),
            ..umoci()
        },
        BuilderToolContract {
            sha256: "AB".repeat(32),
            ..umoci()
        },
        BuilderToolContract {
            version: "line\nbreak".to_owned(),
            ..umoci()
        },
        BuilderToolContract {
            version: String::new(),
            ..umoci()
        },
    ] {
        assert!(validate_umoci_request(&tool).is_err());
    }
}

fn source(len: u64) -> SourceMetadata {
    SourceMetadata {
        dev: 1,
        ino: 2,
        len,
        mtime: 3,
        mtime_nsec: 4,
        ctime: 5,
        ctime_nsec: 6,
    }
}

#[test]
fn nonempty_e2fsck_policy_is_refused_without_weakening_other_artifact_checks() {
    let empty = copy_empty_artifact("/in/e2fsck.conf", E2FSCK_CONFIG_PATH, &source(0), &source(0), &Vec::new())
        .expect("empty policy");
    assert_eq!(empty.size, 0);
    match copy_empty_artifact(
        "/in/e2fsck.conf",
        E2FSCK_CONFIG_PATH,
        &source(36),
        &source(36),
        &b"[options]\nallow_cancellation = true\n".to_vec(),
    ) {
        Err(ManifestError::InvalidField { reason, .. }) => {
            assert!(reason.contains("must be empty"));
        }
        other => panic!("only the exact empty policy is supported: {other:?}"),
    }
    assert!(copy_artifact("/in/linux", UML_PATH, &source(0), &source(0), &Vec::new()).is_err());
    let copied = copy_artifact("/in/linux", UML_PATH, &source(4), &source(4), &b"uml!".to_vec())
        .expect("copied kernel");
    assert_eq!(copied.path, UML_PATH);
    assert_eq!(copied.sha256, ArtifactDigest::of_bytes(b"uml!"));
    assert!(copy_artifact("/in/linux", UML_PATH, &source(4), &source(4), &b"uml".to_vec()).is_err());
    let touched = SourceMetadata {
        ctime: 7,
        ..source(4)
    };
    assert!(copy_artifact("/in/linux", UML_PATH, &source(4), &touched, &b"uml!".to_vec()).is_err());
}

#[test]
fn sources_and_publication_directories_are_exact() {
    assert!(exact_regular_path("/in/guard", true, "/in/guard").is_ok());
    assert!(exact_regular_path("in/guard", true, "in/guard").is_err());
    // A link resolves elsewhere.
    assert!(matches!(
        exact_regular_path("/in/linked-skopeo", true, "/in/skopeo"),
        Err(ManifestError::ArtifactResolution { .. })
    ));
    assert!(matches!(
        exact_regular_path("/in/linked-skopeo", false, "/in/skopeo"),
        Err(ManifestError::ArtifactType { .. })
    ));
    assert!(validate_publish_directory("/out", true, "/out", true, 0o40755).is_ok());
    assert!(validate_publish_directory("/out", true, "/out", false, 0o40755).is_err());
    assert!(validate_publish_directory("/out", true, "/out", true, 0o40775).is_err());
    assert!(validate_publish_directory("/out", true, "/out", true, 0o40555).is_err());
}

#[test]
fn staging_directories_are_removed_unless_published() {
    assert_eq!(stage_name(77, 3), ".seal-77-3");
    assert_eq!(stage_candidate(77, 1023).expect("the last name"), ".seal-77-1023");
    assert!(stage_candidate(77, 1024).is_err());
    let mut stage = StageDirectory::new("/out/.seal-77-3".to_owned());
    assert!(stage.armed());
    stage.disarm();
    assert!(!stage.armed());
    assert_eq!(stage.path(), "/out/.seal-77-3");
}

#[test]
fn guest_contracts_differ_by_role() {
    let manifest = manifest();
    let workload = guest_contract_record(&manifest, ContractRole::Workload, 1, 2);
    assert_eq!(workload.role, "workload");
    assert!(workload.manifest_schema.is_none());
    let builder = guest_contract_record(&manifest, ContractRole::Builder, 1, 2);
    assert_eq!(builder.role, "builder");
    assert_eq!(
        builder.manifest_schema.map(String::as_str),
        Some("pocket-fs-manifest-v1")
    );
    assert_eq!(
        contract_identity(&b"x".to_vec()),
        ArtifactDigest::of_bytes(b"pocket-guest-contract\0v1\0x").hexadecimal()
    );
}

fn sources() -> ProfileArtifactSources {
    let source = |name: &str| format!("/in/{name}");
    ProfileArtifactSources {
        guard: source("guard"),
        uml: source("uml"),
        skopeo: source("skopeo"),
        network_helper: source("slirp4netns"),
        registry_ca_bundle: source("registry-ca.pem"),
        workload_initramfs: source("workload.cpio"),
        builder_initramfs: source("builder.cpio"),
        validator_initramfs: source("validator.cpio"),
        mke2fs: source("mke2fs"),
        e2fsck: source("e2fsck"),
        mke2fs_config: source("mke2fs.conf"),
        e2fsck_config: source("e2fsck.conf"),
        normalized_kernel_config: source("linux.config"),
    }
}

/// An encoding that holds every field of a manifest's canonical form.
fn encode(manifest: CanonicalManifest<'_>) -> Result<Vec<u8>, String> {
    Ok(format!("{manifest:?}").into_bytes())
}

/// An encoding that holds every field of a guest contract.
fn encode_contract(record: GuestContractRecord<'_>) -> Result<Vec<u8>, String> {
    Ok(format!("{record:?}").into_bytes())
}

fn contracts_of(manifest: &ProfileManifest) -> ContractEncodings {
    ContractEncodings::of_manifest(manifest, 1, 0, &encode_contract).expect("contracts")
}

/// Seals up to the publication of the staged bundle.
fn staged() -> SealMachine {
    let mut machine = SealMachine::new("/srv/profiles".to_owned(), umoci());
    while machine.action() != SealAction::Rename {
        let event = match machine.action() {
            SealAction::ReadTemplate => SealEvent::Template {
                manifest: template(),
            },
            SealAction::CopyArtifact => {
                let copy = artifact_copy(&sources(), machine.position()).expect("artifact");
                let bytes = copy.source.into_bytes();
                SealEvent::Copied {
                    spec: ArtifactSpec {
                        path: copy.relative.to_owned(),
                        sha256: ArtifactDigest::of_bytes(&bytes),
                        size: bytes.len() as u64,
                    },
                }
            }
            SealAction::EncodeContracts => SealEvent::Contracts {
                encodings: contracts_of(machine.manifest().expect("manifest")),
                facts: facts(),
            },
            SealAction::EncodeManifest => SealEvent::Encoded {
                bytes: machine
                    .manifest()
                    .expect("manifest")
                    .encoded(&encode)
                    .expect("encoded"),
            },
            SealAction::LoadStaged => SealEvent::Loaded {
                found: machine.manifest().cloned(),
            },
            _ => SealEvent::Done,
        };
        machine = machine.accept(event).expect("seal step");
    }
    machine
}

#[test]
fn a_bundle_is_published_once_and_then_found_again() {
    let first = staged()
        .accept(SealEvent::Done)
        .expect("rename")
        .accept(SealEvent::Done)
        .expect("sync");
    assert!(first.newly_published());
    let found = first.manifest().cloned();
    let first = first.accept(SealEvent::Loaded { found }).expect("published");
    assert_eq!(first.action(), SealAction::Finished);
    let sealed = first.manifest().expect("sealed manifest");
    assert_eq!(sealed.artifacts.uml.path, UML_PATH);
    assert_eq!(
        sealed.artifacts.e2fsck_config.sha256,
        ArtifactDigest::of_bytes(b"/in/e2fsck.conf")
    );

    assert_eq!(
        sealed.profile_revision,
        sealed.computed_revision(&encode).expect("revision")
    );
    assert_eq!(
        sealed.builder.hello.guest_contract_id,
        contract_identity(&contracts_of(sealed).builder)
    );

    let second = staged().accept(SealEvent::Exists).expect("existing");
    assert_eq!(second.action(), SealAction::LoadPublished);
    assert_eq!(second.manifest(), Some(sealed));
    let found = Some(sealed.clone());
    let second = second.accept(SealEvent::Loaded { found }).expect("same bundle");
    assert!(!second.newly_published());

    match staged()
        .accept(SealEvent::Exists)
        .expect("existing")
        .accept(SealEvent::Loaded { found: None })
    {
        Err(ManifestError::PublishConflict { path }) => assert_eq!(
            path,
            format!(
                "/srv/profiles/x86_64-smp-p4k/{}",
                sealed.profile_revision.hexadecimal()
            )
        ),
        other => panic!("a foreign bundle was taken for ours: {other:?}"),
    }
}

#[test]
fn no_contract_covers_an_identity_that_sealing_binds() {
    let machine = staged();
    let sealed = machine.manifest().expect("sealed");
    let mut unbound = sealed.clone();
    for hello in [
        &mut unbound.hello,
        &mut unbound.builder.hello,
        &mut unbound.validator.hello,
    ] {
        hello.guest_contract_id = "00".repeat(32);
        hello.init_build_id = "00".repeat(32);
        hello.kernel_build_id = "00".repeat(32);
    }
    let (before, after) = (contracts_of(&unbound), contracts_of(sealed));
    assert_eq!(before.workload, after.workload);
    assert_eq!(before.builder, after.builder);
    assert_eq!(before.validator, after.validator);
    assert_ne!(after.builder, after.validator);

    let refuse_builder = |record: GuestContractRecord<'_>| {
        if record.role == "builder" {
            Err("full".to_owned())
        } else {
            encode_contract(record)
        }
    };
    match ContractEncodings::of_manifest(sealed, 1, 0, &refuse_builder) {
        Err(ManifestError::InvalidField { field, reason }) => {
            assert_eq!(field, "guest_contract_id");
            assert_eq!(reason, "canonicalization failed: full");
        }
        other => panic!("{other:?}"),
    }
}

#[test]
fn artifacts_are_copied_in_manifest_order_with_their_modes() {
    let sources = sources();
    let copies: Vec<(&str, u32, bool)> = (0..13)
        .map(|position| {
            let copy = artifact_copy(&sources, position).expect("artifact");
            (copy.relative, copy.mode, copy.require_empty)
        })
        .collect();
    assert_eq!(copies[0], (GUARD_PATH, 0o555, false));
    assert_eq!(copies[4], (REGISTRY_CA_PATH, 0o444, false));
    assert_eq!(copies[9], (E2FSCK_PATH, 0o555, false));
    assert_eq!(copies[11], (E2FSCK_CONFIG_PATH, 0o444, true));
    assert_eq!(copies[12], (KERNEL_CONFIG_PATH, 0o444, false));
    assert_eq!(copies.iter().filter(|copy| copy.2).count(), 1);
    assert!(artifact_copy(&sources, 13).is_none());
}

#[test]
fn a_seal_refuses_a_bad_tool_or_template_before_it_copies_anything() {
    let tool = BuilderToolContract {
        role: "skopeo".to_owned(),
        ..umoci()
    };
    assert!(SealMachine::new("/srv/profiles".to_owned(), tool)
        .accept(SealEvent::Done)
        .is_err());
    assert!(SealMachine::new("/srv/profiles".to_owned(), umoci())
        .accept(SealEvent::Done)
        .expect("output")
        .accept(SealEvent::Template {
            manifest: manifest(),
        })
        .is_err());
}
