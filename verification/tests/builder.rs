use std::cmp::Ordering;

use pocket_runtime::builder::adjust::{
    adjusted_alias, adjusted_sizing, check_arguments, check_marker, check_replacement,
    check_resized, dump_marker_arguments, locate_marker_arguments, parse_blocks,
    plan_marker_writes, resize_arguments, resize_budget_bytes, resize_steps, source_size,
    AdjustRequest, MarkerWrite, ResizeStep,
};
use pocket_runtime::builder::adjustment::{AdjustAction, AdjustEvent, AdjustMachine};
use pocket_runtime::builder::capacity::{
    capacity_retry, guest_capacity_resource, helper_capacity_resource, CapacityResource, ENOSPC,
};
use pocket_runtime::builder::contract::{
    adjusted_spec, build_contract, build_contract_digest, build_record, build_reproducibility,
    builder_start, validator_start, BuildContractRecord, BuildSizingEvidence, BuilderDone,
    ToolIdentity, ValidatorDone,
};
use pocket_runtime::builder::files::{
    build_paths, check_account_digest, check_account_file, check_account_read, check_artifact_open,
    check_blkid_file, check_builder_root, check_discard, check_initramfs_copy, check_sparse_file,
    check_sparse_target, next_data_run, DataRun, FileFacts, OwnedDirectory,
};
use pocket_runtime::builder::hello::{
    verify_builder_hello, verify_validator_hello, BuilderHello, ValidatorHello,
};
use pocket_runtime::builder::identity::{
    artifact_digest_text, build_identities, payload_format, sidecar_name, target_format,
};
use pocket_runtime::builder::logs::{encode_build_log, StageLog};
use pocket_runtime::builder::plan::{deterministic_uuid, mke2fs_arguments, EXT4_FEATURES};
use pocket_runtime::builder::prepare::{
    admit_build, check_build_request, check_image, compare_evidence, prepare_build, size_build,
    AliasKey, BuildSizes, ImageLayer, ImagePlatform, VerifiedImage, OCI_CONFIG, OCI_LAYER,
    OCI_MANIFEST,
};
use pocket_runtime::builder::session::{
    builder_stages, classify_protocol, conclude_guest_run, conclude_helper_run,
    validator_stages, wait_guard,
    BuilderConversation, BuilderMessage, BuilderStage, FailedTalk, GuardExit, GuestCaptures,
    ValidatorConversation, ValidatorMessage, WaitAction,
};
use pocket_runtime::builder::sizing::{
    validate_target_size, FilesystemSize, FilesystemSizing, LayoutEntry, LayoutTotals,
    SIZE_CLASS_BYTES, TARGET_INODE_CLASS,
};
use pocket_runtime::builder::transaction::{BuildAction, BuildEvent, BuildMachine};
use pocket_runtime::builder::tree::{
    manifest_path_diagnostic, manifest_path_order, next_chunk_entry, ManifestStructuralVerifier,
};
use pocket_runtime::builder::{
    generation_next, helper_budget, validate_policy, BuildRequest, BuilderPolicy, GenerationStep,
    MAX_TIMEOUT_SECS,
};
use pocket_runtime::capture::CapturedStream;
use pocket_runtime::digest::{ArtifactDigest, ProfileRevision};
use pocket_runtime::duration::Duration;
use pocket_runtime::error::{ErrorMessage, HostBuildError};
use pocket_runtime::image::account::UserResolution;
use pocket_runtime::manifest::{
    ArtifactManifest, ArtifactSpec, BuilderContract, BuilderToolContract, Contracts, CpuManifest,
    HelloContract, LaunchContract, MemoryManifest, ProfileManifest, ProfileMaturity,
    ValidatorContract, EM_X86_64, PROFILE_SCHEMA_VERSION,
};
use pocket_runtime::oci_export::ManifestEntry;

fn owned(items: &[&str]) -> Vec<String> {
    items.iter().map(|item| (*item).to_owned()).collect()
}

fn artifact(path: &str) -> ArtifactSpec {
    ArtifactSpec {
        path: path.to_owned(),
        sha256: ArtifactDigest::of_bytes(path.as_bytes()),
        size: path.len() as u64,
    }
}

fn hello_contract(contract: &str, build: &str, features: &[&str]) -> HelloContract {
    HelloContract {
        guest_contract_id: contract.repeat(32),
        init_build_id: build.repeat(32),
        kernel_build_id: "33".repeat(32),
        required_features: owned(features),
    }
}

fn manifest() -> ProfileManifest {
    ProfileManifest {
        schema_version: PROFILE_SCHEMA_VERSION,
        profile_id: "x86_64-smp-p4k".to_owned(),
        profile_revision: ProfileRevision::from_bytes([0x5a; 32]),
        maturity: ProfileMaturity::Experimental,
        host_architecture: "x86_64".to_owned(),
        host_elf_machine: EM_X86_64,
        oci_os: "linux".to_owned(),
        oci_architecture: "amd64".to_owned(),
        accepted_oci_variants: vec![None, Some("v1".to_owned())],
        uml_subarchitecture: "x86_64".to_owned(),
        guest_page_size: 4096,
        cpu: CpuManifest {
            smp_enabled: true,
            product_max_cpus: 8,
            compiled_nr_cpus: Some(16),
            effective_max_cpus: 8,
        },
        memory: MemoryManifest {
            minimum_bytes: 128 * 1024 * 1024,
            default_memory_bytes: 256 * 1024 * 1024,
            product_maximum_bytes: 4 * 1024 * 1024 * 1024,
            effective_max_memory_bytes: 2 * 1024 * 1024 * 1024,
            builder_memory_bytes: 512 * 1024 * 1024,
            validator_memory_bytes: 512 * 1024 * 1024,
            alignment_bytes: 4096,
        },
        contracts: Contracts {
            selector_policy: "native-amd64-v1".to_owned(),
            root_layout: "pocket-root-v1".to_owned(),
            filesystem: "ext4-v1-b4096".to_owned(),
            cpu_state_hwcap_policy: "native-x86_64-v1".to_owned(),
            guest_capability_policy: "fixed-capabilities-v1".to_owned(),
        },
        hello: hello_contract("11", "22", &["generated-etc-v1", "generation-marker-v3"]),
        builder: BuilderContract {
            hello: hello_contract("44", "55", &["account-db-v1"]),
            manifest_schema: "pocket-fs-manifest-v1".to_owned(),
            required_tools: vec![BuilderToolContract {
                role: "umoci".to_owned(),
                sha256: "66".repeat(32),
                version: "umoci version 0.4.7".to_owned(),
            }],
            source_date_epoch: 1_786_940_622,
        },
        validator: ValidatorContract {
            hello: hello_contract("77", "88", &["ext4-clean-state-v1"]),
            manifest_schema: "pocket-fs-manifest-v1".to_owned(),
        },
        launch: LaunchContract {
            linkage: "static".to_owned(),
            cooperative_backend: "seccomp-on".to_owned(),
            noreboot: true,
            rdinit: "/init".to_owned(),
            rootfstype: "ramfs".to_owned(),
            ubd: "cow-v3".to_owned(),
            serial: "ssl-fd-v1".to_owned(),
            network: "none".to_owned(),
            max_ubd_path_bytes: 4095,
            max_umid_bytes: 63,
            max_unix_path_bytes: 107,
        },
        artifacts: ArtifactManifest {
            guard: artifact("host/pocket-guard"),
            uml: artifact("host/linux-uml"),
            skopeo: artifact("host/skopeo"),
            network_helper: artifact("host/slirp4netns"),
            registry_ca_bundle: artifact("host/registry-ca.pem"),
            workload_initramfs: artifact("guest/workload.cpio"),
            builder_initramfs: artifact("guest/builder.cpio"),
            validator_initramfs: artifact("guest/validator.cpio"),
            mke2fs: artifact("host/mke2fs"),
            e2fsck: artifact("host/e2fsck"),
            mke2fs_config: artifact("host/mke2fs.conf"),
            e2fsck_config: artifact("host/e2fsck.conf"),
            normalized_kernel_config: artifact("audit/kernel.config"),
        },
    }
}

fn platform(variant: Option<&str>) -> ImagePlatform {
    ImagePlatform {
        os: "linux".to_owned(),
        architecture: "amd64".to_owned(),
        variant: variant.map(str::to_owned),
        os_version: None,
        os_features: Vec::new(),
        features: Vec::new(),
    }
}

/// An image of one layer whose index names `variant`, and whose own
/// configuration names none.
fn image(variant: Option<&str>) -> VerifiedImage {
    let layer = b"synthetic uncompressed tar bytes";
    VerifiedImage {
        manifest_digest: ArtifactDigest::of_bytes(b"manifest"),
        manifest_size: 8,
        manifest_media_type: OCI_MANIFEST.to_owned(),
        config_digest: ArtifactDigest::of_bytes(b"config"),
        config_size: 6,
        config_media_type: OCI_CONFIG.to_owned(),
        layers: vec![ImageLayer {
            media_type: OCI_LAYER.to_owned(),
            digest: ArtifactDigest::of_bytes(layer),
            size: layer.len() as u64,
            diff_id: ArtifactDigest::of_bytes(layer),
            uncompressed_size: layer.len() as u64,
        }],
        descriptor_platform: Some(platform(variant)),
        config_platform: platform(None),
        effective_platform: platform(variant),
        selector_policy: "native-amd64-v1".to_owned(),
        original_user: "0".to_owned(),
    }
}

fn request(variant: Option<&str>) -> BuildRequest {
    BuildRequest {
        oci_layout: "/srv/input/layout/root".to_owned(),
        source_reference: "docker://example.invalid/demo:latest".to_owned(),
        requested_variant: variant.map(str::to_owned),
    }
}

fn layout_totals() -> LayoutTotals {
    let mut totals = LayoutTotals::new();
    for entry in [
        LayoutEntry::Directory,
        LayoutEntry::Directory,
        LayoutEntry::File { length: 32 },
        LayoutEntry::File { length: 700 },
        LayoutEntry::File { length: 400 },
    ] {
        totals = totals.count(entry, "/srv/input/layout/root").expect("layout");
    }
    totals
}

fn sizes() -> BuildSizes {
    size_build(layout_totals(), &image(None), 1_048_576).expect("sizes")
}

fn capacity_failure(stage: &'static str, resource: &str) -> HostBuildError {
    HostBuildError::GuardStatus {
        stage,
        status: "exit status: 1".to_owned(),
        diagnostic: format!("Could not allocate {resource} in ext2 filesystem"),
    }
}

fn guest_failure(errno: Option<i32>, diagnostic: &str) -> HostBuildError {
    HostBuildError::Guest {
        stage: "BUILD_DONE",
        message: ErrorMessage::new("apply-layers", "builder-tool-failed", errno, diagnostic),
    }
}

fn captured(bytes: &[u8]) -> CapturedStream {
    CapturedStream {
        bytes: bytes.to_vec(),
        truncated: false,
        total_bytes: bytes.len() as u64,
    }
}

#[test]
fn helper_budgets_grow_with_the_image_and_stay_bounded() {
    let policy = BuilderPolicy {
        helper_timeout: Duration::from_secs(300),
        helper_timeout_per_gib: Duration::from_secs(60),
        ..BuilderPolicy::default()
    };
    assert_eq!(helper_budget(policy, 0), Duration::from_secs(300));
    // A partial gibibyte still buys a whole allowance.
    assert_eq!(helper_budget(policy, 1), Duration::from_secs(360));
    assert_eq!(
        helper_budget(policy, 64 * 1024 * 1024 * 1024),
        Duration::from_secs(300 + 64 * 60)
    );
    // Nothing may exceed the validated ceiling, however absurd the size.
    assert_eq!(
        helper_budget(policy, u64::MAX),
        Duration::from_secs(MAX_TIMEOUT_SECS)
    );
    assert!(validate_policy(policy).is_ok());
    assert!(validate_policy(BuilderPolicy {
        helper_timeout_per_gib: Duration::from_secs(0),
        ..policy
    })
    .is_err());
}

#[test]
fn raw_platform_evidence_is_not_collapsed_in_store_identity() {
    let prepared = prepare_build(
        &manifest(),
        &request(Some("v1")),
        &image(Some("v1")),
        sizes(),
        ArtifactDigest::of_bytes(b"contract"),
    )
    .expect("prepared build");
    let described = prepared.spec.descriptor_platform.expect("descriptor platform");
    assert_eq!(described.variant.as_deref(), Some("v1"));
    assert_eq!(prepared.spec.config_platform.variant, None);
    assert_eq!(
        prepared.spec.effective_platform.variant.as_deref(),
        Some("v1")
    );
    let start = builder_start(&manifest(), &image(Some("v1")), &[9; 32]);
    assert_eq!(
        start
            .descriptor_platform
            .as_ref()
            .and_then(|value| value.variant.as_deref()),
        Some("v1")
    );
    assert_eq!(start.config_platform.variant, None);
    assert_eq!(prepared.alias.reference, "docker://example.invalid/demo:latest");
}

#[test]
fn explicit_selector_mismatch_fails_during_preparation() {
    assert!(check_image(&manifest(), &request(Some("v1")), &image(None)).is_err());
    assert!(admit_build(
        &manifest(),
        &request(Some("v1")),
        &image(None),
        layout_totals(),
        "native-amd64-v1",
        1_048_576,
    )
    .is_err());
    assert!(admit_build(
        &manifest(),
        &request(Some("v1")),
        &image(Some("v1")),
        layout_totals(),
        "native-amd64-v1",
        1_048_576,
    )
    .is_ok());
}

#[test]
fn sizing_contract_accounts_for_inodes_and_has_one_fresh_next_class() {
    let sizes = sizes();
    let payload_retry = sizes.payload.retry.expect("payload retry class");
    assert!(sizes.payload.initial.inodes >= 1024);
    assert_eq!(
        payload_retry.bytes,
        sizes.payload.initial.bytes + SIZE_CLASS_BYTES
    );
    assert!(payload_retry.inodes > sizes.payload.initial.inodes);

    let target_retry = sizes.target.retry.expect("target retry class");
    assert_eq!(
        target_retry.bytes,
        sizes.target.initial.bytes + SIZE_CLASS_BYTES
    );
    assert_eq!(
        target_retry.inodes,
        sizes.target.initial.inodes + TARGET_INODE_CLASS
    );
    assert_eq!(capacity_retry(1, sizes.target), Some(target_retry));
    assert_eq!(capacity_retry(2, sizes.target), None);
}

#[test]
fn mke2fs_policy_binds_inode_count_and_derivation_hash_seed() {
    let arguments = mke2fs_arguments(
        "/target.ext4",
        "pocket-root",
        "11111111-2222-5333-8444-555555555555",
        "aaaaaaaa-bbbb-5ccc-8ddd-eeeeeeeeeeee",
        131_072,
        None,
    );
    let after = |option: &str| {
        let at = arguments
            .iter()
            .position(|argument| argument == option)
            .expect("option");
        arguments[at + 1].clone()
    };
    assert_eq!(after("-N"), "131072");
    assert!(!arguments.contains(&"-i".to_owned()));
    assert_eq!(after("-O"), EXT4_FEATURES);
    assert_eq!(
        after("-E"),
        "lazy_itable_init=0,lazy_journal_init=0,root_owner=0:0,hash_seed=aaaaaaaa-bbbb-5ccc-8ddd-eeeeeeeeeeee"
    );
    assert_eq!(arguments.last().map(String::as_str), Some("/target.ext4"));
    assert!(!arguments.contains(&"-d".to_owned()));
    let populated = mke2fs_arguments("/p", "l", "u", "s", 1, Some("/layout"));
    assert_eq!(populated[populated.len() - 3..], owned(&["-d", "/layout", "/p"]));
}

#[test]
fn hash_seed_domains_are_stable_and_reproducibility_record_is_truthful() {
    let identity = [7_u8; 32];
    let first = deterministic_uuid(b"pocket-target-directory-hash-seed\0v1\0", &identity);
    let second = deterministic_uuid(b"pocket-target-directory-hash-seed\0v1\0", &identity);
    let payload = deterministic_uuid(b"pocket-payload-directory-hash-seed\0v1\0", &identity);
    assert_eq!(first, second);
    assert_ne!(first, payload);
    assert_eq!(first.len(), 36);
    assert_eq!(&first[14..15], "5");
    assert!(["8", "9", "a", "b"].contains(&&first[19..20]));

    let record = build_reproducibility();
    assert_eq!(record.result, "exact-output-digest-only-v1");
    let remaining = record.remaining_nondeterministic_inputs;
    assert_eq!(remaining.len(), 3);
    assert!(remaining.iter().any(|value| value.contains("ctime")));
    assert!(remaining
        .iter()
        .any(|value| value.contains("validator-challenge")));
}

#[test]
fn only_typed_internal_capacity_failures_trigger_retry() {
    let block_error = capacity_failure("format-payload", "block");
    assert_eq!(
        helper_capacity_resource(&block_error),
        Some(CapacityResource::Blocks)
    );
    let unrelated = HostBuildError::GuardStatus {
        stage: "format-payload",
        status: "exit status: 1".to_owned(),
        diagnostic: "host helper rejected its configuration".to_owned(),
    };
    assert_eq!(helper_capacity_resource(&unrelated), None);

    let guest = guest_failure(Some(ENOSPC), "target inode capacity exhausted");
    assert_eq!(
        guest_capacity_resource(&guest),
        Some(CapacityResource::Inodes)
    );

    // Every token the guest can emit must map to what it says. The combined
    // one is the one that matters: reading it as inode-only retries with the
    // same block budget that just ran out.
    for (token, expected) in [
        ("block", CapacityResource::Blocks),
        ("inode", CapacityResource::Inodes),
        ("block-and-inode", CapacityResource::BlocksAndInodes),
        ("block-or-inode", CapacityResource::BlockOrInode),
    ] {
        let reported = guest_failure(
            Some(ENOSPC),
            &format!("target {token} capacity exhausted while applying layers: io error"),
        );
        assert_eq!(
            guest_capacity_resource(&reported),
            Some(expected),
            "{token} was misclassified"
        );
    }
    assert_eq!(
        guest_capacity_resource(&guest_failure(Some(5), "target inode capacity exhausted")),
        None
    );

    // A guest capacity failure reaches the host through the control protocol,
    // so attaching the console must not hide it from the retry classifier.
    let wrapped = HostBuildError::GuestProtocol {
        stage: "builder-uml",
        reason: "guest reported an error".to_owned(),
        source: Box::new(guest),
        diagnostic: "bounded console tail".to_owned(),
    };
    assert_eq!(
        guest_capacity_resource(&wrapped),
        Some(CapacityResource::Inodes)
    );

    let wrapped_helper = HostBuildError::GuestProtocol {
        stage: "builder-uml",
        reason: "guest reported an error".to_owned(),
        source: Box::new(capacity_failure("format-target", "block")),
        diagnostic: "bounded console tail".to_owned(),
    };
    assert_eq!(
        helper_capacity_resource(&wrapped_helper),
        Some(CapacityResource::Blocks)
    );
}

fn entry(path: &[u8], kind: u8, content_sha256: Option<Vec<u8>>) -> ManifestEntry {
    ManifestEntry {
        path: path.to_vec(),
        kind,
        mode: if kind == 2 { 0o755 } else { 0o444 },
        uid: 0,
        gid: 0,
        size: if kind == 1 { 32 } else { 4096 },
        rdev: 0,
        mtime_seconds: 1,
        mtime_nanoseconds: 0,
        symlink_target: None,
        content_sha256,
        hardlink_target: None,
        xattrs: Vec::new(),
    }
}

fn whole_tree() -> Vec<ManifestEntry> {
    vec![
        entry(b"", 2, None),
        entry(b".pocket-generation.cbor", 1, Some(vec![7; 32])),
        entry(b"rootfs", 2, None),
        entry(b"rootfs/bin", 2, None),
    ]
}

#[test]
fn manifest_structure_binds_marker_and_rejects_account_mismatch() {
    let mut verifier = ManifestStructuralVerifier::default();
    for entry in whole_tree() {
        verifier.accept_entry(&entry).expect("valid entry");
    }
    verifier.finish().expect("complete layout");
    assert_eq!(verifier.marker_sha256().expect("marker"), "07".repeat(32));
    assert!(compare_evidence("account_db_sha256", &"a".repeat(64), &"b".repeat(64)).is_err());
    assert!(compare_evidence("account_db_sha256", &"a".repeat(64), &"a".repeat(64)).is_ok());
}

#[test]
fn manifest_entries_out_of_place_are_refused() {
    let refused = |entries: Vec<ManifestEntry>| {
        let mut verifier = ManifestStructuralVerifier::default();
        entries
            .iter()
            .any(|entry| verifier.accept_entry(entry).is_err())
    };
    assert!(refused(vec![entry(b"", 1, None)]));
    assert!(refused(vec![entry(b"", 2, None), entry(b"", 2, None)]));
    assert!(refused(vec![entry(b".pocket-generation.cbor", 2, None)]));
    assert!(refused(vec![entry(b"rootfs", 1, None)]));
    assert!(refused(vec![entry(b"etc", 2, None)]));
    assert!(refused(vec![entry(b"rootfs/b", 2, None), entry(b"rootfs/a", 2, None)]));
    assert!(!refused(whole_tree()));
    let mut verifier = ManifestStructuralVerifier::default();
    assert!(verifier.finish().is_err());
    assert!(verifier.accept_entry(&entry(b"", 2, None)).is_ok());
    assert!(verifier.marker_sha256().is_err());
}

#[test]
fn manifest_path_order_matches_the_bounded_depth_first_walker() {
    let directory_child = b"rootfs/usr/lib/perl/Carp/Heavy.pm";
    let dotted_sibling = b"rootfs/usr/lib/perl/Carp.pm";
    assert_eq!(
        directory_child.as_slice().cmp(dotted_sibling.as_slice()),
        Ordering::Greater
    );
    assert_eq!(
        manifest_path_order(directory_child, dotted_sibling),
        Ordering::Less
    );
    assert_eq!(
        manifest_path_order(b"rootfs/usr/lib/perl/Carp", directory_child),
        Ordering::Less
    );
    assert_eq!(
        manifest_path_order(dotted_sibling, directory_child),
        Ordering::Greater
    );
    assert_eq!(
        manifest_path_order(dotted_sibling, dotted_sibling),
        Ordering::Equal
    );
}

#[test]
fn path_diagnostics_are_bounded_hexadecimal() {
    assert_eq!(manifest_path_diagnostic(b"a/b"), "hex:612f62");
    assert_eq!(
        manifest_path_diagnostic(&[0x61; 130]),
        format!("hex:{}...(+2 bytes)", "61".repeat(128))
    );
}

#[test]
fn chunk_entries_are_framed_by_their_length() {
    let bytes = [0, 0, 0, 2, 7, 8, 0, 0, 0, 1, 9];
    assert_eq!(next_chunk_entry(&bytes, 0).expect("first"), Some((4, 6)));
    assert_eq!(next_chunk_entry(&bytes, 6).expect("second"), Some((10, 11)));
    assert_eq!(next_chunk_entry(&bytes, 11).expect("end"), None);
    assert!(next_chunk_entry(&bytes, 8).is_err());
    assert!(next_chunk_entry(&[0, 0, 0, 9, 1], 0).is_err());
}

fn json<T: serde::Serialize>(value: &T) -> String {
    serde_json::to_string(value).expect("JSON")
}

fn json_object(fields: &[(&str, String)]) -> String {
    let fields: Vec<String> = fields
        .iter()
        .map(|(name, value)| format!("{}:{value}", json(name)))
        .collect();
    format!("{{{}}}", fields.join(","))
}

/// A build contract in compact JSON, in the declared order.
fn contract_json(record: &BuildContractRecord) -> Result<Vec<u8>, String> {
    let tools: Vec<String> = record
        .builder_tools
        .iter()
        .map(|tool| {
            json_object(&[
                ("role", json(&tool.role)),
                ("sha256", json(&tool.sha256)),
                ("version", json(&tool.version)),
            ])
        })
        .collect();
    Ok(json_object(&[
        ("schema", json(&record.schema)),
        ("profile_id", json(&record.profile_id)),
        ("profile_revision", json(&record.profile_revision)),
        ("selector_policy", json(&record.selector_policy)),
        ("uml_sha256", json(&record.uml_sha256)),
        ("builder_initramfs_sha256", json(&record.builder_initramfs_sha256)),
        ("validator_initramfs_sha256", json(&record.validator_initramfs_sha256)),
        ("mke2fs_sha256", json(&record.mke2fs_sha256)),
        ("e2fsck_sha256", json(&record.e2fsck_sha256)),
        ("mke2fs_config_sha256", json(&record.mke2fs_config_sha256)),
        ("e2fsck_config_sha256", json(&record.e2fsck_config_sha256)),
        ("manifest_schema", json(&record.manifest_schema)),
        ("validator_manifest_schema", json(&record.validator_manifest_schema)),
        ("builder_tools", format!("[{}]", tools.join(","))),
        ("source_date_epoch", json(&record.source_date_epoch)),
        ("target_initial_size_bytes", json(&record.target_initial_size_bytes)),
        ("target_initial_inodes", json(&record.target_initial_inodes)),
        ("target_retry_size_bytes", json(&record.target_retry_size_bytes)),
        ("target_retry_inodes", json(&record.target_retry_inodes)),
        ("filesystem_sizing_contract", json(&record.filesystem_sizing_contract)),
        ("directory_hash_seed_contract", json(&record.directory_hash_seed_contract)),
        ("capacity_retry_contract", json(&record.capacity_retry_contract)),
        ("conversion_contract", json(&record.conversion_contract)),
        ("validation_contract", json(&record.validation_contract)),
        ("protocol_major", json(&record.protocol_major)),
        ("protocol_minor", json(&record.protocol_minor)),
    ])
    .into_bytes())
}

/// A generation's identity must name what it is, not how much host scratch
/// space went into making it.
#[test]
fn payload_scratch_sizing_is_not_part_of_a_generation_identity() {
    let sizing = |bytes: u64| FilesystemSizing {
        initial: FilesystemSize {
            bytes,
            inodes: 65_536,
        },
        retry: None,
    };
    let digest = |target: FilesystemSizing| {
        build_contract_digest(&manifest(), target, 1, 0, &contract_json).expect("contract")
    };
    let target = sizing(64 * 1024 * 1024);
    // The same target sizing must give the same identity no matter what the
    // payload scratch image would have had to be.
    assert_eq!(digest(target), digest(target));
    // Target sizing does still shape the output, so it must still count.
    assert_ne!(digest(target), digest(sizing(128 * 1024 * 1024)));
}

#[test]
fn a_build_contract_is_digested_as_it_is_encoded() {
    let target = FilesystemSizing {
        initial: FilesystemSize {
            bytes: 64 * 1024 * 1024,
            inodes: 65_536,
        },
        retry: Some(FilesystemSize {
            bytes: 128 * 1024 * 1024,
            inodes: 131_072,
        }),
    };
    let encoded = contract_json(&build_contract(&manifest(), target, 1, 0)).expect("JSON");
    let text = String::from_utf8(encoded.clone()).expect("text");
    assert!(text.starts_with(
        "{\"schema\":\"pocket-host-build-contract-v4\",\"profile_id\":\"x86_64-smp-p4k\","
    ));
    assert!(text.contains(
        "\"target_retry_size_bytes\":134217728,\"target_retry_inodes\":131072,\
         \"filesystem_sizing_contract\":\"pocket-ext4-bytes-inodes-v2\""
    ));
    assert!(text.ends_with("\"protocol_major\":1,\"protocol_minor\":0}"));
    assert_eq!(
        build_contract_digest(&manifest(), target, 1, 0, &contract_json).expect("contract"),
        ArtifactDigest::of_bytes(&encoded)
    );
    match build_contract_digest(&manifest(), target, 1, 0, &|_: &BuildContractRecord| {
        Err("full".to_owned())
    }) {
        Err(HostBuildError::InvalidConfiguration { field, reason }) => {
            assert_eq!(field, "build_contract");
            assert_eq!(reason, "cannot serialize: full");
        }
        other => panic!("{other:?}"),
    }
}

#[test]
fn requests_outside_the_profile_are_refused() {
    let manifest = manifest();
    let policy = "native-amd64-v1";
    assert!(check_build_request(&manifest, &request(None), policy).is_ok());
    let mut relative = request(None);
    relative.oci_layout = "layout".to_owned();
    assert!(check_build_request(&manifest, &relative, policy).is_err());
    for reference in ["", "a\nb", "a\0b", &"r".repeat(1025)] {
        let mut bad = request(None);
        bad.source_reference = reference.to_owned();
        assert!(check_build_request(&manifest, &bad, policy).is_err());
    }
    match check_build_request(&manifest, &request(Some("v9")), policy) {
        Err(HostBuildError::InvalidConfiguration { field, reason }) => {
            assert_eq!(field, "requested_variant");
            assert_eq!(
                reason,
                "Some(\"v9\") is not admitted by [None, Some(\"v1\")]"
            );
        }
        other => panic!("an unlisted variant was admitted: {other:?}"),
    }
    assert!(matches!(
        check_build_request(&manifest, &request(None), "other-policy"),
        Err(HostBuildError::EvidenceMismatch {
            field: "selector_policy",
            ..
        })
    ));
}

#[test]
fn images_outside_the_canonical_boundary_are_refused() {
    let manifest = manifest();
    assert!(check_image(&manifest, &request(None), &image(None)).is_ok());
    let mut docker = image(None);
    docker.layers[0].media_type = "application/vnd.docker.image.rootfs.diff.tar".to_owned();
    assert!(matches!(
        check_image(&manifest, &request(None), &docker),
        Err(HostBuildError::Unsupported {
            field: "layer_media_type",
            ..
        })
    ));
    let mut foreign = image(None);
    foreign.config_platform.architecture = "arm64".to_owned();
    assert!(check_image(&manifest, &request(None), &foreign).is_err());
}

#[test]
fn layouts_hold_only_directories_and_files() {
    let totals = layout_totals();
    assert_eq!(totals.entries, 5);
    assert_eq!(totals.bytes, 1132);
    assert!(totals.count(LayoutEntry::Other, "/layout/socket").is_err());
    assert!(totals
        .count(LayoutEntry::File { length: u64::MAX }, "/layout/blob")
        .is_err());
    assert_eq!(
        validate_target_size(134_217_728).expect("smallest target"),
        134_217_728
    );
    assert!(validate_target_size(134_217_728 - 4096).is_err());
    assert!(validate_target_size(134_217_729).is_err());
    assert!(validate_target_size(549_755_813_888).is_ok());
    assert!(validate_target_size(549_755_813_888 + 4096).is_err());
}

fn tools() -> Vec<ToolIdentity> {
    vec![ToolIdentity {
        role: "umoci".to_owned(),
        sha256: "66".repeat(32),
        version: "umoci version 0.4.7".to_owned(),
    }]
}

fn builder_hello() -> BuilderHello {
    BuilderHello {
        guest_contract_id: "44".repeat(32),
        init_build_id: "55".repeat(32),
        kernel_build_id: "33".repeat(32),
        host_elf_machine: 62,
        guest_uts_machine: "x86_64".to_owned(),
        guest_page_size: 4096,
        online_cpus: 1,
        accepted_physmem_bytes: 512 * 1024 * 1024,
        cpu_state_hwcap_policy: "native-x86_64-v1".to_owned(),
        builder_tools: tools(),
        features: owned(&["account-db-v1"]),
    }
}

fn validator_hello() -> ValidatorHello {
    ValidatorHello {
        guest_contract_id: "77".repeat(32),
        init_build_id: "88".repeat(32),
        kernel_build_id: "33".repeat(32),
        host_elf_machine: 62,
        guest_uts_machine: "x86_64".to_owned(),
        guest_page_size: 4096,
        online_cpus: 1,
        accepted_physmem_bytes: 512 * 1024 * 1024,
        cpu_state_hwcap_policy: "native-x86_64-v1".to_owned(),
        features: owned(&["ext4-clean-state-v1"]),
    }
}

#[test]
fn guests_that_are_not_the_profiles_are_refused() {
    let manifest = manifest();
    assert!(verify_builder_hello(&manifest, &builder_hello()).is_ok());
    assert!(verify_validator_hello(&manifest, &validator_hello()).is_ok());
    let mut stranger = builder_hello();
    stranger.init_build_id = "56".repeat(32);
    match verify_builder_hello(&manifest, &stranger) {
        Err(HostBuildError::HelloMismatch {
            expected, actual, ..
        }) => {
            assert_eq!(expected, "55".repeat(32));
            assert_eq!(actual, "56".repeat(32));
        }
        other => panic!("a stranger was accepted: {other:?}"),
    }
    let mut tool = builder_hello();
    tool.builder_tools[0].version = "umoci version 0.4.8".to_owned();
    assert!(verify_builder_hello(&manifest, &tool).is_err());
    let mut small = validator_hello();
    small.accepted_physmem_bytes -= 4096;
    assert!(verify_validator_hello(&manifest, &small).is_err());
    let mut two = validator_hello();
    two.online_cpus = 2;
    assert!(verify_validator_hello(&manifest, &two).is_err());
}

fn builder_done() -> BuilderDone {
    BuilderDone {
        manifest_sha256: "a1".repeat(32),
        entry_count: 4,
        byte_count: 512,
        generation_marker_sha256: "07".repeat(32),
        account_db_sha256: "b2".repeat(32),
        original_user: "0".to_owned(),
        user_resolution: UserResolution {
            kind: 0,
            uid: 0,
            gid: 0,
            supplementary_gids: Vec::new(),
        },
        observed_tools: tools(),
    }
}

#[test]
fn a_builder_reports_in_one_order_only() {
    let manifest = manifest();
    let mut talk = BuilderConversation::new();
    assert!(talk
        .receive(&manifest, BuilderMessage::Hello(builder_hello()), "HELLO")
        .expect("hello")
        .is_none());
    assert_eq!(talk.stage(), BuilderStage::SendStart);
    talk.started();
    assert!(talk
        .receive(&manifest, BuilderMessage::ManifestBegin, "MANIFEST_BEGIN")
        .expect("begin")
        .is_none());
    assert!(talk
        .receive(&manifest, BuilderMessage::ManifestChunk, "MANIFEST_CHUNK")
        .expect("chunk")
        .is_none());
    for entry in whole_tree() {
        talk.accept_entry(&entry).expect("entry");
    }
    assert!(talk
        .receive(&manifest, BuilderMessage::ManifestEnd, "MANIFEST_END")
        .expect("end")
        .is_none());
    assert!(talk
        .receive(
            &manifest,
            BuilderMessage::AccountDb {
                sha256: "b2".repeat(32),
            },
            "ACCOUNT_DB",
        )
        .expect("accounts")
        .is_none());
    let done = talk
        .receive(&manifest, BuilderMessage::Done(builder_done()), "BUILD_DONE")
        .expect("report")
        .expect("complete");
    assert_eq!(done.entry_count, 4);
    assert_eq!(talk.stage(), BuilderStage::Complete);
}

#[test]
fn a_builder_that_skips_ahead_or_contradicts_itself_is_refused() {
    let manifest = manifest();
    let mut eager = BuilderConversation::new();
    assert!(eager
        .receive(&manifest, BuilderMessage::ManifestBegin, "MANIFEST_BEGIN")
        .is_err());
    let mut failed = BuilderConversation::new();
    assert!(matches!(
        failed.receive(
            &manifest,
            BuilderMessage::Error(ErrorMessage::new("boot", "internal", None, "no disk")),
            "ERROR",
        ),
        Err(HostBuildError::Guest { .. })
    ));

    let mut talk = BuilderConversation::new();
    talk.receive(&manifest, BuilderMessage::Hello(builder_hello()), "HELLO")
        .expect("hello");
    talk.started();
    talk.receive(&manifest, BuilderMessage::ManifestBegin, "MANIFEST_BEGIN")
        .expect("begin");
    for entry in whole_tree() {
        talk.accept_entry(&entry).expect("entry");
    }
    talk.receive(&manifest, BuilderMessage::ManifestEnd, "MANIFEST_END")
        .expect("end");
    talk.receive(
        &manifest,
        BuilderMessage::AccountDb {
            sha256: "c3".repeat(32),
        },
        "ACCOUNT_DB",
    )
    .expect("accounts");
    assert!(matches!(
        talk.receive(&manifest, BuilderMessage::Done(builder_done()), "BUILD_DONE"),
        Err(HostBuildError::EvidenceMismatch { .. })
    ));
}

fn validator_done() -> ValidatorDone {
    ValidatorDone {
        challenge: "cd".repeat(32),
        evidence_sha256: "e5".repeat(32),
        manifest_sha256: "a1".repeat(32),
        manifest_entry_count: 4,
        manifest_byte_count: 512,
        generation_marker_sha256: "07".repeat(32),
        account_db_sha256: "b2".repeat(32),
        filesystem_uuid: "11111111-2222-5333-8444-555555555555".to_owned(),
        filesystem_bytes: 8_589_934_592,
        clean_before_mount: true,
        block_device_read_only: true,
        mounted_read_only: true,
        unmounted: true,
        clean_after_unmount: true,
    }
}

#[test]
fn a_validator_is_told_what_the_builder_reported() {
    let manifest = manifest();
    let start = validator_start(
        &manifest,
        &[9; 32],
        &builder_done(),
        "11111111-2222-5333-8444-555555555555",
        8_589_934_592,
        &"cd".repeat(32),
    );
    assert_eq!(start.expected_manifest_sha256, "a1".repeat(32));
    assert_eq!(start.expected_generation_marker_sha256, "07".repeat(32));
    assert_eq!(start.expected_filesystem_bytes, 8_589_934_592);
    assert_eq!(start.derivation_key, "09".repeat(32));
    assert_eq!(start.challenge, "cd".repeat(32));

    let done = validator_done();
    let mut talk = ValidatorConversation::new();
    assert!(talk
        .receive(&manifest, ValidatorMessage::Done(done.clone()), "VALIDATE_DONE")
        .is_err());
    let mut talk = ValidatorConversation::new();
    talk.receive(
        &manifest,
        ValidatorMessage::Hello(validator_hello()),
        "HELLO",
    )
    .expect("hello");
    talk.started();
    assert!(talk
        .receive(&manifest, ValidatorMessage::Done(done), "VALIDATE_DONE")
        .expect("report")
        .is_some());
}

#[test]
fn a_failed_conversation_carries_the_console() {
    let captures = || GuestCaptures {
        guard_stdout: captured(b"out"),
        guard_stderr: captured(b"err"),
        console: captured(b"panic: no init"),
    };
    let ended = |success: bool| {
        Ok(GuardExit {
            success,
            status: "exit status: 0".to_owned(),
        })
    };
    let logs = conclude_guest_run(builder_stages(), None, ended(true), captures()).expect("logs");
    assert_eq!(logs.len(), 2);
    assert_eq!(logs[1].stage, "builder-console");
    assert_eq!(logs[1].stdout.bytes, b"panic: no init");

    let failed = FailedTalk {
        error: guest_failure(Some(ENOSPC), "target inode capacity exhausted"),
        reason: "guest failed".to_owned(),
    };
    match conclude_guest_run(builder_stages(), Some(failed), ended(true), captures()) {
        Err(HostBuildError::GuestProtocol {
            reason, diagnostic, ..
        }) => {
            assert_eq!(reason, "guest failed");
            assert_eq!(diagnostic, "panic: no init");
        }
        other => panic!("the failure was lost: {other:?}"),
    }
    assert!(matches!(
        conclude_guest_run(builder_stages(), None, ended(false), captures()),
        Err(HostBuildError::GuardStatus {
            stage: "builder-uml",
            ..
        })
    ));
    let helper = conclude_helper_run(
        "format-target",
        GuardExit {
            success: false,
            status: "exit status: 1".to_owned(),
        },
        captured(b""),
        captured(b"Could not allocate inode in ext2 filesystem"),
    )
    .expect_err("failed helper");
    assert_eq!(
        helper_capacity_resource(&helper),
        Some(CapacityResource::Inodes)
    );
    assert!(matches!(
        classify_protocol(true, "late", "HELLO", Duration::from_secs(2)),
        HostBuildError::Timeout { stage: "HELLO", .. }
    ));
    assert!(matches!(
        classify_protocol(false, "bad", "HELLO", Duration::from_secs(2)),
        HostBuildError::Protocol { .. }
    ));
}

#[test]
fn a_guard_is_released_before_it_is_killed() {
    assert_eq!(wait_guard(false, false, false), WaitAction::Sleep);
    assert_eq!(wait_guard(false, true, true), WaitAction::Collect);
    assert_eq!(wait_guard(false, false, true), WaitAction::Release);
    assert_eq!(wait_guard(true, false, false), WaitAction::Sleep);
    assert_eq!(wait_guard(true, true, false), WaitAction::TimedOut);
    assert_eq!(wait_guard(true, false, true), WaitAction::Kill);
}

#[test]
fn a_build_retries_each_filesystem_once_after_a_discard() {
    let sizes = sizes();
    let digest = ArtifactDigest::of_bytes(b"base");
    let mut machine = BuildMachine::new(sizes);
    assert_eq!(machine.action(), BuildAction::VerifyLayout);
    machine = machine
        .accept(BuildEvent::LayoutVerified {
            unchanged: true,
            expected: String::new(),
            actual: String::new(),
        })
        .expect("layout");
    machine = machine.accept(BuildEvent::Done).expect("directory");
    assert_eq!(machine.action(), BuildAction::FormatPayload);
    machine = machine
        .accept(BuildEvent::Failed(capacity_failure("format-payload", "block")))
        .expect("retry");
    assert_eq!(machine.action(), BuildAction::DiscardPayload);
    machine = machine
        .accept(BuildEvent::Discarded { failure: None })
        .expect("discard");
    assert_eq!(machine.action(), BuildAction::FormatPayload);
    assert_eq!(Some(machine.payload_size()), sizes.payload.retry);
    for expected in [
        BuildAction::CreateSidecars,
        BuildAction::FormatTarget,
        BuildAction::RunBuilder,
    ] {
        machine = machine.accept(BuildEvent::Done).expect("step");
        assert_eq!(machine.action(), expected);
    }
    machine = machine
        .accept(BuildEvent::Failed(guest_failure(
            Some(ENOSPC),
            "target block capacity exhausted",
        )))
        .expect("target retry");
    assert_eq!(machine.action(), BuildAction::DiscardTarget);
    machine = machine
        .accept(BuildEvent::Discarded { failure: None })
        .expect("discard");
    assert_eq!(machine.action(), BuildAction::FormatTarget);
    for expected in [
        BuildAction::RunBuilder,
        BuildAction::LoadAccounts,
        BuildAction::CheckTarget,
        BuildAction::HashBase,
    ] {
        machine = machine.accept(BuildEvent::Done).expect("step");
        assert_eq!(machine.action(), expected);
    }
    let size = machine.target_size().bytes;
    machine = machine
        .accept(BuildEvent::Hashed { digest, size })
        .expect("hash");
    machine = machine.accept(BuildEvent::Done).expect("validation");
    assert_eq!(machine.action(), BuildAction::RehashBase);
    machine = machine
        .accept(BuildEvent::Hashed { digest, size })
        .expect("unchanged");
    assert_eq!(machine.action(), BuildAction::Publish);
    let evidence = machine.sizing_evidence();
    assert_eq!(evidence.payload_attempts, 2);
    assert_eq!(
        evidence.payload_retry_resource,
        Some(CapacityResource::Blocks)
    );
    assert_eq!(evidence.target_attempts, 2);
    machine = machine.accept(BuildEvent::Done).expect("publication");
    assert_eq!(machine.action(), BuildAction::Finished);
}

#[test]
fn a_build_ends_where_it_cannot_go_on() {
    let verified = || {
        BuildMachine::new(sizes())
            .accept(BuildEvent::LayoutVerified {
                unchanged: true,
                expected: String::new(),
                actual: String::new(),
            })
            .expect("layout")
            .accept(BuildEvent::Done)
            .expect("directory")
    };
    assert!(matches!(
        BuildMachine::new(sizes()).accept(BuildEvent::LayoutVerified {
            unchanged: false,
            expected: "a".to_owned(),
            actual: "b".to_owned(),
        }),
        Err(HostBuildError::EvidenceMismatch {
            field: "oci_layout",
            ..
        })
    ));
    assert!(verified()
        .accept(BuildEvent::Failed(HostBuildError::invalid("x", "y")))
        .is_err());
    let second = verified()
        .accept(BuildEvent::Failed(capacity_failure("format-payload", "inode")))
        .expect("retry");
    assert!(matches!(
        second.accept(BuildEvent::Discarded {
            failure: Some("busy".to_owned()),
        }),
        Err(HostBuildError::Cleanup { .. })
    ));
    let second = verified()
        .accept(BuildEvent::Failed(capacity_failure("format-payload", "inode")))
        .expect("retry")
        .accept(BuildEvent::Discarded { failure: None })
        .expect("discard");
    assert!(second
        .accept(BuildEvent::Failed(capacity_failure("format-payload", "inode")))
        .is_err());
}

#[test]
fn a_target_that_changes_during_validation_is_not_published() {
    let mut machine = BuildMachine::new(sizes())
        .accept(BuildEvent::LayoutVerified {
            unchanged: true,
            expected: String::new(),
            actual: String::new(),
        })
        .expect("layout");
    while machine.action() != BuildAction::HashBase {
        machine = machine.accept(BuildEvent::Done).expect("step");
    }
    let size = machine.target_size().bytes;
    machine = machine
        .accept(BuildEvent::Hashed {
            digest: ArtifactDigest::of_bytes(b"before"),
            size,
        })
        .expect("hash")
        .accept(BuildEvent::Done)
        .expect("validation");
    match machine.accept(BuildEvent::Hashed {
        digest: ArtifactDigest::of_bytes(b"after"),
        size,
    }) {
        Err(HostBuildError::EvidenceMismatch {
            field, expected, ..
        }) => {
            assert_eq!(field, "base.after_validation");
            assert_eq!(
                expected,
                format!("{}:{size}", ArtifactDigest::of_bytes(b"before").to_text())
            );
        }
        other => panic!("a changed base was published: {other:?}"),
    }
}

#[test]
fn resizing_keeps_the_file_around_the_filesystem() {
    assert_eq!(
        resize_steps(8192, 16384),
        vec![
            ResizeStep::Check,
            ResizeStep::SetLength { bytes: 16384 },
            ResizeStep::Resize { blocks: 4 },
        ]
    );
    assert_eq!(
        resize_steps(16384, 8192),
        vec![
            ResizeStep::Check,
            ResizeStep::Resize { blocks: 2 },
            ResizeStep::SetLength { bytes: 8192 },
        ]
    );
    assert_eq!(source_size(2).expect("size"), 8192);
    assert!(source_size(u64::MAX).is_err());
    assert!(check_resized(2, 8192).is_ok());
    match check_resized(3, 8192) {
        Err(HostBuildError::InvalidConfiguration { reason, .. }) => assert_eq!(
            reason,
            "resize produced 12288 bytes, not the requested 8192"
        ),
        other => panic!("a wrong size was accepted: {other:?}"),
    }
    assert_eq!(check_arguments("/i"), owned(&["-f", "-n", "/i"]));
    assert_eq!(resize_arguments("/i", 7), owned(&["/i", "7"]));
    assert_eq!(
        locate_marker_arguments("/i"),
        owned(&["-R", "blocks /.pocket-generation.cbor", "/i"])
    );
    assert_eq!(
        dump_marker_arguments("/i", "/t"),
        owned(&["-R", "dump /.pocket-generation.cbor /t", "/i"])
    );
}

#[test]
fn markers_are_rewritten_in_their_own_blocks() {
    assert_eq!(parse_blocks(b"  12 13\n99 none\n"), vec![12, 13, 99]);
    let plan = plan_marker_writes(&vec![12, 40], 5000).expect("plan");
    assert!(plan.fault.is_none());
    assert_eq!(
        plan.writes,
        vec![
            MarkerWrite {
                offset: 12 * 4096,
                start: 0,
                end: 4096,
            },
            MarkerWrite {
                offset: 40 * 4096,
                start: 4096,
                end: 5000,
            },
        ]
    );
    assert!(plan_marker_writes(&vec![12], 5000).is_err());
    assert!(plan_marker_writes(&Vec::new(), 0).is_err());
    let overflow = plan_marker_writes(&vec![1, u64::MAX], 5000).expect("partial plan");
    assert_eq!(overflow.writes.len(), 1);
    assert!(overflow.fault.is_some());
    assert!(check_marker(b"marker").is_ok());
    assert!(check_marker(b"").is_err());
    assert!(check_replacement(b"abc", b"xyz").is_ok());
    assert!(check_replacement(b"abcd", b"xyz").is_err());
}

#[test]
fn an_adjusted_image_keeps_its_identity_but_the_contract() {
    let prepared = prepare_build(
        &manifest(),
        &request(None),
        &image(None),
        sizes(),
        ArtifactDigest::of_bytes(b"contract"),
    )
    .expect("prepared build");
    let request = AdjustRequest {
        source: AliasKey {
            reference: "docker://example.invalid/demo:latest".to_owned(),
            ..prepared.alias
        },
        reference: "demo:larger".to_owned(),
        target_bytes: 17_179_869_184,
    };
    let alias = adjusted_alias(&manifest(), &request, &prepared.spec);
    assert_eq!(alias.reference, "demo:larger");
    assert_eq!(alias.selector_policy, "native-amd64-v1");
    let manifest_digest = prepared.spec.selected_manifest_digest;
    let spec = adjusted_spec(prepared.spec, ArtifactDigest::of_bytes(b"larger"));
    assert_eq!(spec.selected_manifest_digest, manifest_digest);
    assert_eq!(
        spec.build_contract_digest,
        ArtifactDigest::of_bytes(b"larger")
    );
}

fn private_file(length: u64) -> FileFacts {
    FileFacts {
        regular: true,
        directory: false,
        length,
        mode: 0o100600,
        owner: 1000,
        device: 5,
        inode: 6,
    }
}

#[test]
fn build_files_must_be_the_ones_that_were_made() {
    assert!(check_sparse_file("payload", &private_file(4096), 4096).is_ok());
    assert!(check_sparse_file("payload", &private_file(4096), 8192).is_err());
    let mut shared = private_file(4096);
    shared.mode = 0o100644;
    assert!(check_sparse_file("payload", &shared, 4096).is_err());
    assert!(check_discard("target", &shared).is_err());
    assert!(check_discard("target", &private_file(1)).is_ok());

    assert!(check_blkid_file("/t/b", "/t/b", &private_file(0), 1000).is_ok());
    assert!(check_blkid_file("/t/b", "/t/c", &private_file(0), 1000).is_err());
    assert!(check_blkid_file("/t/b", "/t/b", &private_file(1), 1000).is_err());
    assert!(check_blkid_file("/t/b", "/t/b", &private_file(0), 1001).is_err());

    let root = FileFacts {
        regular: false,
        directory: true,
        length: 0,
        mode: 0o40700,
        owner: 1000,
        device: 5,
        inode: 2,
    };
    assert!(check_builder_root("/r", "/r", &root, 1000).is_ok());
    assert!(check_builder_root("/r", "/s", &root, 1000).is_err());
    assert!(check_builder_root("/r", "/r", &root, 0).is_err());
    assert!(check_builder_root("/r", "/r", &private_file(0), 1000).is_err());

    let directory = OwnedDirectory {
        root: "/srv/runtime".to_owned(),
        name: "build-0123456789abcdef".to_owned(),
        device: 5,
        inode: 9,
    };
    assert_eq!(directory.path(), "/srv/runtime/build-0123456789abcdef");
    let paths = build_paths(&directory, 63).expect("paths");
    assert_eq!(
        paths.payload,
        "/srv/runtime/build-0123456789abcdef/oci-payload.ext4"
    );
    assert_eq!(paths.validator_umid, "build-0123456789abcdef-v");
    assert!(build_paths(&directory, 10).is_err());
    let same = FileFacts { inode: 9, ..root };
    assert!(directory.check_cleanup(&same).is_ok());
    assert!(directory.check_cleanup(&root).is_err());
    let elsewhere = OwnedDirectory {
        name: "nested/build-0123456789abcdef".to_owned(),
        ..directory
    };
    assert!(elsewhere.check_cleanup(&same).is_err());

    let spec = artifact("guest/builder.cpio");
    assert!(check_initramfs_copy("builder", "builder_initramfs", &spec, spec.sha256, spec.size, 0o100400).is_ok());
    assert!(check_initramfs_copy(
        "builder",
        "builder_initramfs",
        &spec,
        ArtifactDigest::of_bytes(b"other"),
        spec.size,
        0o100400,
    )
    .is_err());
    assert!(check_account_read(&private_file(10), 64, 10).is_ok());
    assert!(check_account_read(&private_file(10), 64, 9).is_err());
    assert!(check_account_read(&private_file(10), 9, 10).is_err());
    assert!(check_account_digest("aa", "aa").is_ok());
    assert!(check_account_digest("aa", "bb").is_err());
}

#[test]
fn data_runs_walk_a_sparse_file() {
    assert_eq!(
        next_data_run(100, 0, Some(10), Some(30)),
        Some(DataRun { start: 10, end: 30 })
    );
    assert_eq!(next_data_run(100, 30, None, None), None);
    assert_eq!(next_data_run(100, 100, None, None), None);
}

#[test]
fn the_build_log_is_bounded() {
    let stages = vec![StageLog {
        stage: "format-target",
        stdout: captured(b"done"),
        stderr: CapturedStream {
            bytes: b"w".to_vec(),
            truncated: true,
            total_bytes: 9,
        },
    }];
    let text = "== format-target stdout total=4 retained=4 truncated=false ==\ndone\n\
                == format-target stderr total=9 retained=1 truncated=true ==\nw\n";
    assert_eq!(encode_build_log(&stages, 4096), text.as_bytes());
    assert_eq!(encode_build_log(&stages, 10), &text.as_bytes()[..10]);
}

#[test]
fn an_alias_is_set_only_to_a_generation_that_exists() {
    let mut made = vec![GenerationStep::Begin];
    for _ in 0..3 {
        made.push(generation_next(made[made.len() - 1], false));
    }
    assert_eq!(
        made,
        [
            GenerationStep::Begin,
            GenerationStep::Make,
            GenerationStep::SetAlias { cache_hit: false },
            GenerationStep::Finished { cache_hit: false },
        ]
    );
    assert_eq!(
        generation_next(GenerationStep::Begin, true),
        GenerationStep::SetAlias { cache_hit: true }
    );
}

#[test]
fn an_adjusted_image_is_resized_marked_and_measured_before_it_is_published() {
    let source_blocks = 2_097_152;
    let target_bytes = 17_179_869_184;
    let mut machine = AdjustMachine::new(source_blocks, target_bytes).expect("adjustment");
    let mut actions = Vec::new();
    while machine.action() != AdjustAction::Finished {
        let action = machine.action();
        actions.push(action);
        let event = match action {
            AdjustAction::ReadMarker => AdjustEvent::Marker {
                bytes: vec![1; 4100],
            },
            AdjustAction::EncodeMarker => AdjustEvent::Replacement {
                updated: vec![2; 4100],
            },
            AdjustAction::LocateMarker => AdjustEvent::Listing {
                output: b"12 40 ".to_vec(),
            },
            AdjustAction::WriteMarker => {
                let writes = machine.marker_writes();
                assert_eq!(writes.len(), 2);
                assert_eq!(writes[0], (12 * 4096, vec![2; 4096]));
                assert_eq!(writes[1], (40 * 4096, vec![2; 4]));
                AdjustEvent::Done
            }
            AdjustAction::MeasureTarget => AdjustEvent::Measured { blocks: 4_194_304 },
            _ => AdjustEvent::Done,
        };
        machine = machine.accept(event).expect("step");
    }
    assert_eq!(
        actions,
        [
            AdjustAction::PrepareDirectory,
            AdjustAction::CopyBase,
            AdjustAction::Resize {
                step: ResizeStep::Check,
            },
            AdjustAction::Resize {
                step: ResizeStep::SetLength {
                    bytes: target_bytes,
                },
            },
            AdjustAction::Resize {
                step: ResizeStep::Resize { blocks: 4_194_304 },
            },
            AdjustAction::ReadMarker,
            AdjustAction::EncodeMarker,
            AdjustAction::LocateMarker,
            AdjustAction::WriteMarker,
            AdjustAction::VerifyFilesystem,
            AdjustAction::MeasureTarget,
            AdjustAction::CopySidecars,
            AdjustAction::HashBase,
            AdjustAction::Publish,
            AdjustAction::CleanUp,
        ]
    );
}

#[test]
fn an_adjustment_ends_where_the_image_is_not_what_it_should_be() {
    assert!(AdjustMachine::new(2_097_152, 4097).is_err());
    assert!(AdjustMachine::new(u64::MAX, 8_589_934_592).is_err());
    let at_marker = || {
        let mut machine = AdjustMachine::new(2_097_152, 8_589_934_592).expect("adjustment");
        while machine.action() != AdjustAction::ReadMarker {
            machine = machine.accept(AdjustEvent::Done).expect("step");
        }
        machine
    };
    assert!(at_marker()
        .accept(AdjustEvent::Marker { bytes: Vec::new() })
        .is_err());
    let read = || {
        at_marker()
            .accept(AdjustEvent::Marker { bytes: vec![1; 10] })
            .expect("marker")
    };
    assert!(read()
        .accept(AdjustEvent::Replacement {
            updated: vec![2; 11],
        })
        .is_err());
    let replaced = || {
        read()
            .accept(AdjustEvent::Replacement {
                updated: vec![2; 10],
            })
            .expect("replacement")
    };
    assert!(replaced()
        .accept(AdjustEvent::Listing {
            output: b"none".to_vec(),
        })
        .is_err());
    let beyond = replaced()
        .accept(AdjustEvent::Listing {
            output: b"18446744073709551615".to_vec(),
        })
        .expect("listing");
    assert!(beyond.marker_writes().is_empty());
    assert!(beyond.accept(AdjustEvent::Done).is_err());
    let measured = replaced()
        .accept(AdjustEvent::Listing {
            output: b"7".to_vec(),
        })
        .expect("listing")
        .accept(AdjustEvent::Done)
        .expect("writes")
        .accept(AdjustEvent::Done)
        .expect("check");
    assert!(measured
        .accept(AdjustEvent::Measured { blocks: 2_097_151 })
        .is_err());
}

#[test]
fn a_build_names_its_filesystems_after_its_derivation_key() {
    let identities = build_identities(&[7; 32]);
    assert_eq!(
        identities.target_hash_seed,
        deterministic_uuid(b"pocket-target-directory-hash-seed\0v1\0", &[7; 32])
    );
    assert_eq!(
        identities.payload_hash_seed,
        deterministic_uuid(b"pocket-payload-directory-hash-seed\0v1\0", &[7; 32])
    );
    assert_eq!(
        identities.payload_uuid,
        deterministic_uuid(b"pocket-payload-ext4\0v1\0", &[7; 32])
    );
    assert_eq!(
        identities.target_uuid,
        deterministic_uuid(b"pocket-target-ext4\0v1\0", &[7; 32])
    );
    assert_ne!(identities.target_uuid, build_identities(&[8; 32]).target_uuid);
    let payload = payload_format("/p.ext4", &identities, 5120, "/layout");
    assert!(payload.contains(&"pocket-input".to_owned()));
    assert_eq!(payload[payload.len() - 3..], owned(&["-d", "/layout", "/p.ext4"]));
    let target = target_format("/t.ext4", &identities, 65_536);
    assert!(target.contains(&"pocket-root".to_owned()));
    assert!(target.contains(&identities.target_uuid));
}

#[test]
fn a_built_generation_has_its_sidecars_in_name_order() {
    let mut names = Vec::new();
    while let Some(name) = sidecar_name(names.len()) {
        names.push(name);
    }
    assert_eq!(
        names,
        [
            "accounts.cbor",
            "artifact.digest",
            "build-record.json",
            "build.log",
            "image-config.json",
            "metadata.manifest",
            "validation-evidence.cbor",
        ]
    );
    assert!(names.windows(2).all(|pair| pair[0] < pair[1]));
    let digest = ArtifactDigest::of_bytes(b"base");
    assert_eq!(
        artifact_digest_text(digest),
        format!("{}\n", digest.to_text())
    );
}

#[test]
fn a_build_record_states_what_was_built_and_how() {
    let manifest = manifest();
    let record = build_record(
        &manifest,
        &image(Some("v1")),
        "key-09",
        builder_done(),
        validator_done(),
        ArtifactDigest::of_bytes(b"base"),
        8_589_934_592,
        BuildSizingEvidence {
            payload: FilesystemSize { bytes: 134_217_728, inodes: 4096 },
            payload_attempts: 1,
            payload_retry_resource: None,
            target: FilesystemSize { bytes: 8_589_934_592, inodes: 65_536 },
            target_attempts: 2,
            target_retry_resource: Some(CapacityResource::Inodes),
        },
        "payload-seed",
        "target-seed",
    );
    assert_eq!(record.schema, "pocket-build-record-v4");
    assert_eq!(record.derivation_key, "key-09");
    assert_eq!(record.profile_id, manifest.profile_id);
    assert_eq!(
        record.selected_manifest,
        ArtifactDigest::of_bytes(b"manifest").to_text()
    );
    assert_eq!(record.config_platform.variant, None);
    assert_eq!(record.effective_platform.variant.as_deref(), Some("v1"));
    assert_eq!(record.base_sha256, ArtifactDigest::of_bytes(b"base").to_text());
    assert_eq!(record.account_db_sha256, "b2".repeat(32));
    assert_eq!(record.payload_retry_resource, None);
    assert_eq!(record.target_attempts, 2);
    assert_eq!(
        record.target_retry_resource,
        Some(CapacityResource::Inodes.as_str())
    );
    assert_eq!(record.target_directory_hash_seed, "target-seed");
    assert_eq!(record.validation.evidence_sha256, "e5".repeat(32));
    assert_eq!(
        record.validation_protocol,
        "fresh-read-only-uml-challenge-evidence-v1"
    );
}

#[test]
fn an_adjustment_asks_for_exactly_one_size() {
    let sizing = adjusted_sizing(134_217_728, 4096);
    assert_eq!(sizing.initial, FilesystemSize { bytes: 134_217_728, inodes: 4096 });
    assert_eq!(sizing.retry, None);
    assert_eq!(resize_budget_bytes(10, 20), 20);
    assert_eq!(resize_budget_bytes(20, 10), 20);
}

#[test]
fn evidence_files_are_bounded_and_stay_the_ones_that_were_named() {
    assert!(check_sparse_target(&private_file(4096), 4096).is_ok());
    assert!(check_sparse_target(&private_file(4096), 4095).is_err());
    assert!(check_account_file(&private_file(64), 64).is_ok());
    assert!(check_account_file(&private_file(65), 64).is_err());
    let mut elsewhere = private_file(64);
    elsewhere.inode = 7;
    assert!(check_artifact_open("/a", &private_file(64), &private_file(64)).is_ok());
    assert!(matches!(
        check_artifact_open("/a", &private_file(64), &elsewhere),
        Err(HostBuildError::InvalidConfiguration { field: "artifact", reason })
            if reason == "/a changed while opening"
    ));
    let mut directory = private_file(64);
    directory.regular = false;
    assert!(matches!(
        check_artifact_open("/a", &directory, &directory),
        Err(HostBuildError::InvalidConfiguration { field: "artifact", reason })
            if reason == "/a is not a regular file"
    ));
}

#[test]
fn guest_runs_are_logged_under_their_own_names() {
    assert_eq!(builder_stages().run, "builder-uml");
    assert_eq!(builder_stages().guard, "builder-guard");
    assert_eq!(builder_stages().console, "builder-console");
    assert_eq!(validator_stages().run, "validator-uml");
    assert_eq!(validator_stages().guard, "validator-guard");
    assert_eq!(validator_stages().console, "validator-console");
}
