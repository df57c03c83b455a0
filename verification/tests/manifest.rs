use pocket_runtime::digest::{ArtifactDigest, ProfileRevision};
use pocket_runtime::error::ManifestError;
use pocket_runtime::manifest::artifact::FileObservation;
use pocket_runtime::manifest::profile::{ProfileLoader, VerifiedProfile};
use pocket_runtime::manifest::rules::PolicyFacts;
use pocket_runtime::manifest::{
    ArtifactManifest, ArtifactSpec, BuilderContract, BuilderToolContract, CanonicalManifest, Contracts,
    CpuManifest,
    HelloContract, LaunchContract, MemoryManifest, ProfileManifest, ProfileMaturity,
    ValidatorContract, EM_X86_64, PROFILE_SCHEMA_VERSION,
};
use pocket_runtime::manifest::artifact::{
    check_bounded_file, locate_artifact, validate_exact_directory, validate_relative_artifact_path,
    verify_artifact_at, ArtifactRole,
};
use pocket_runtime::manifest::elf::verify_static_x86_64_elf;
use pocket_runtime::manifest::kernel::validate_kernel_config;
use pocket_runtime::manifest::registry::validate_registry_ca_bundle;
use pocket_runtime::manifest::rules::validate_manifest;
use pocket_runtime::path::join_path;

const ROOT: &str = "/srv/pocket/bundle";

const WORKLOAD_FEATURES: [&str; 3] = ["exit-clean-v1", "generated-etc-v1", "resize-v1"];
const BUILDER_FEATURES: [&str; 2] = ["account-db-v1", "fs-manifest-v1"];
const VALIDATOR_FEATURES: [&str; 2] = ["ext4-clean-state-v1", "fs-manifest-v1"];

fn owned(items: &[&str]) -> Vec<String> {
    items.iter().map(|item| (*item).to_owned()).collect()
}

fn facts(effective_max_cpus: u16) -> PolicyFacts {
    PolicyFacts {
        effective_max_cpus: Ok(effective_max_cpus),
        memory_policy: Ok(()),
        workload_features: owned(&WORKLOAD_FEATURES),
        builder_features: owned(&BUILDER_FEATURES),
        validator_features: owned(&VALIDATOR_FEATURES),
        source_date_epoch_min: 1,
        source_date_epoch_max: 4_102_444_800,
    }
}

fn minimal_elf(dynamic: bool) -> Vec<u8> {
    let mut bytes = vec![0_u8; 64 + 56 + if dynamic { 8 } else { 0 }];
    bytes[..4].copy_from_slice(b"\x7fELF");
    bytes[4] = 2;
    bytes[5] = 1;
    bytes[6] = 1;
    bytes[16..18].copy_from_slice(&2_u16.to_le_bytes());
    bytes[18..20].copy_from_slice(&62_u16.to_le_bytes());
    bytes[32..40].copy_from_slice(&64_u64.to_le_bytes());
    bytes[52..54].copy_from_slice(&64_u16.to_le_bytes());
    bytes[54..56].copy_from_slice(&56_u16.to_le_bytes());
    bytes[56..58].copy_from_slice(&1_u16.to_le_bytes());
    bytes[64..68].copy_from_slice(&(if dynamic { 3_u32 } else { 1_u32 }).to_le_bytes());
    if dynamic {
        bytes[72..80].copy_from_slice(&120_u64.to_le_bytes());
        bytes[96..104].copy_from_slice(&8_u64.to_le_bytes());
        bytes[120..128].copy_from_slice(b"/ld.so\0\0");
    }
    bytes
}

fn kernel_config(smp: bool) -> String {
    let yes = [
        "CONFIG_UML",
        "CONFIG_64BIT",
        "CONFIG_X86_64",
        "CONFIG_STATIC_LINK",
        "CONFIG_LD_SCRIPT_STATIC",
        "CONFIG_BLK_DEV_INITRD",
        "CONFIG_BLK_DEV_UBD",
        "CONFIG_EXT4_FS",
        "CONFIG_EXT4_FS_POSIX_ACL",
        "CONFIG_EXT4_FS_SECURITY",
        "CONFIG_TMPFS",
        "CONFIG_PROC_FS",
        "CONFIG_SYSFS",
        "CONFIG_DEVTMPFS",
        "CONFIG_DEVTMPFS_MOUNT",
        "CONFIG_BINFMT_ELF",
        "CONFIG_BINFMT_SCRIPT",
        "CONFIG_EPOLL",
        "CONFIG_FUTEX",
        "CONFIG_TIMERFD",
        "CONFIG_EVENTFD",
        "CONFIG_MEMFD_CREATE",
        "CONFIG_SIGNALFD",
        "CONFIG_SECCOMP",
        "CONFIG_SECCOMP_FILTER",
        "CONFIG_NAMESPACES",
        "CONFIG_UTS_NS",
        "CONFIG_IPC_NS",
        "CONFIG_PID_NS",
        "CONFIG_SSL",
        "CONFIG_NULL_CHAN",
        "CONFIG_DEBUG_INFO_NONE",
    ];
    let no = [
        "CONFIG_BLK_DEV_UBD_SYNC",
        "CONFIG_BLK_DEV_LOOP",
        "CONFIG_BLK_DEV_NBD",
        "CONFIG_HOSTFS",
        "CONFIG_MCONSOLE",
        "CONFIG_MODULES",
        "CONFIG_UML_NET_VECTOR",
        "CONFIG_IPV6",
        "CONFIG_USER_NS",
        "CONFIG_NETDEVICES",
    ];
    let mut config = String::new();
    for setting in yes {
        config.push_str(setting);
        config.push_str("=y\n");
    }
    for setting in no {
        config.push_str("# ");
        config.push_str(setting);
        config.push_str(" is not set\n");
    }
    if smp {
        config.push_str("CONFIG_SMP=y\nCONFIG_NR_CPUS=16\n");
    } else {
        config.push_str("# CONFIG_SMP is not set\n");
    }
    config
}

/// The files of a bundle, in the order in which they are verified.
struct Bundle {
    files: Vec<(&'static str, u32, Vec<u8>)>,
}

impl Bundle {
    fn new(smp: bool) -> Bundle {
        let elf = minimal_elf(false);
        Bundle {
            files: vec![
                ("host/pocket-guard", 0o555, elf.clone()),
                ("host/linux-uml", 0o555, elf.clone()),
                ("host/skopeo", 0o555, elf.clone()),
                ("host/slirp4netns", 0o555, elf.clone()),
                (
                    "host/registry-ca.pem",
                    0o444,
                    b"-----BEGIN CERTIFICATE-----\nZmFrZQ==\n-----END CERTIFICATE-----\n".to_vec(),
                ),
                ("guest/workload.cpio", 0o444, b"070701fixture".to_vec()),
                ("guest/builder.cpio", 0o444, b"070701builder-fixture".to_vec()),
                (
                    "guest/validator.cpio",
                    0o444,
                    b"070701validator-fixture".to_vec(),
                ),
                ("host/mke2fs", 0o555, elf.clone()),
                ("host/e2fsck", 0o555, elf),
                (
                    "host/mke2fs.conf",
                    0o444,
                    b"[defaults]\nbase_features = sparse_super,filetype,resize_inode,dir_index,ext_attr\n"
                        .to_vec(),
                ),
                ("host/e2fsck.conf", 0o444, Vec::new()),
                ("audit/kernel.config", 0o444, kernel_config(smp).into_bytes()),
            ],
        }
    }

    fn spec(&self, position: usize) -> ArtifactSpec {
        let (path, _, bytes) = &self.files[position];
        ArtifactSpec {
            path: (*path).to_owned(),
            sha256: ArtifactDigest::of_bytes(bytes),
            size: bytes.len() as u64,
        }
    }

    fn artifacts(&self) -> ArtifactManifest {
        ArtifactManifest {
            guard: self.spec(0),
            uml: self.spec(1),
            skopeo: self.spec(2),
            network_helper: self.spec(3),
            registry_ca_bundle: self.spec(4),
            workload_initramfs: self.spec(5),
            builder_initramfs: self.spec(6),
            validator_initramfs: self.spec(7),
            mke2fs: self.spec(8),
            e2fsck: self.spec(9),
            mke2fs_config: self.spec(10),
            e2fsck_config: self.spec(11),
            normalized_kernel_config: self.spec(12),
        }
    }

    fn observe(&self, position: usize) -> FileObservation {
        let (path, mode, bytes) = &self.files[position];
        FileObservation {
            canonical: format!("{ROOT}/{path}"),
            regular: true,
            mode: 0o100000 | *mode,
            size: bytes.len() as u64,
            capability: false,
            bytes: bytes.clone(),
        }
    }

    fn load(&self, manifest: ProfileManifest) -> Result<VerifiedProfile, ManifestError> {
        let maximum = manifest.cpu.effective_max_cpus;
        let mut loader = ProfileLoader::new(ROOT, manifest, &facts(maximum), &encode)?;
        let mut position = 0;
        while let Some(path) = loader.next() {
            assert_eq!(path?, self.observe(position).canonical);
            loader.accept(&self.observe(position))?;
            position += 1;
        }
        assert_eq!(position, self.files.len());
        loader.finish(&self.files[12].2, &self.files[4].2)
    }
}

fn hello(contract: &str, build: &str, features: &[&str]) -> HelloContract {
    HelloContract {
        guest_contract_id: contract.repeat(32),
        init_build_id: build.repeat(32),
        kernel_build_id: "33".repeat(32),
        required_features: owned(features),
    }
}

/// An encoding that holds every field of a manifest's canonical form.
fn encode(manifest: CanonicalManifest<'_>) -> Result<Vec<u8>, String> {
    Ok(format!("{manifest:?}").into_bytes())
}

fn synthetic_manifest(bundle: &Bundle, smp: bool) -> ProfileManifest {
    let cpu = if smp {
        CpuManifest {
            smp_enabled: true,
            product_max_cpus: 8,
            compiled_nr_cpus: Some(16),
            effective_max_cpus: 8,
        }
    } else {
        CpuManifest {
            smp_enabled: false,
            product_max_cpus: 1,
            compiled_nr_cpus: None,
            effective_max_cpus: 1,
        }
    };
    let mut manifest = ProfileManifest {
        schema_version: PROFILE_SCHEMA_VERSION,
        profile_id: if smp {
            "x86_64-smp-p4k".to_owned()
        } else {
            "x86_64-up-p4k-test".to_owned()
        },
        profile_revision: ProfileRevision::from_bytes([0; 32]),
        maturity: ProfileMaturity::Experimental,
        host_architecture: "x86_64".to_owned(),
        host_elf_machine: EM_X86_64,
        oci_os: "linux".to_owned(),
        oci_architecture: "amd64".to_owned(),
        accepted_oci_variants: vec![None, Some("v1".to_owned())],
        uml_subarchitecture: "x86_64".to_owned(),
        guest_page_size: 4096,
        cpu,
        memory: MemoryManifest {
            minimum_bytes: 128 * 1024 * 1024,
            default_memory_bytes: 256 * 1024 * 1024,
            product_maximum_bytes: 4 * 1024 * 1024 * 1024,
            effective_max_memory_bytes: 2 * 1024 * 1024 * 1024,
            builder_memory_bytes: 512 * 1024 * 1024,
            validator_memory_bytes: 512 * 1024 * 1024,
            alignment_bytes: 4096,
        },
        contracts: Contracts {
            selector_policy: "native-amd64-v1".to_owned(),
            root_layout: "pocket-root-v1".to_owned(),
            filesystem: "ext4-v1-b4096".to_owned(),
            cpu_state_hwcap_policy: "native-x86_64-v1".to_owned(),
            guest_capability_policy: "fixed-capabilities-v1".to_owned(),
        },
        hello: hello("11", "22", &WORKLOAD_FEATURES),
        builder: BuilderContract {
            hello: hello("44", "55", &BUILDER_FEATURES),
            manifest_schema: "pocket-fs-manifest-v1".to_owned(),
            required_tools: vec![BuilderToolContract {
                role: "umoci".to_owned(),
                sha256: "66".repeat(32),
                version: "umoci version 0.4.7".to_owned(),
            }],
            source_date_epoch: 1_786_940_622,
        },
        validator: ValidatorContract {
            hello: hello("77", "88", &VALIDATOR_FEATURES),
            manifest_schema: "pocket-fs-manifest-v1".to_owned(),
        },
        launch: LaunchContract {
            linkage: "static".to_owned(),
            cooperative_backend: "seccomp-on".to_owned(),
            noreboot: true,
            rdinit: "/init".to_owned(),
            rootfstype: "ramfs".to_owned(),
            ubd: "cow-v3".to_owned(),
            serial: "ssl-fd-v1".to_owned(),
            network: "none".to_owned(),
            max_ubd_path_bytes: 4095,
            max_umid_bytes: 63,
            max_unix_path_bytes: 107,
        },
        artifacts: bundle.artifacts(),
    };
    manifest.profile_revision = manifest.computed_revision(&encode).expect("revision");
    manifest
}

fn synthetic_profile(smp: bool) -> VerifiedProfile {
    let bundle = Bundle::new(smp);
    let manifest = synthetic_manifest(&bundle, smp);
    bundle.load(manifest).expect("verified profile")
}

fn minimal_elf_with_needed() -> Vec<u8> {
    let mut bytes = vec![0_u8; 64 + 56 + 32];
    bytes[..4].copy_from_slice(b"\x7fELF");
    bytes[4] = 2;
    bytes[5] = 1;
    bytes[6] = 1;
    bytes[16..18].copy_from_slice(&3_u16.to_le_bytes());
    bytes[18..20].copy_from_slice(&62_u16.to_le_bytes());
    bytes[32..40].copy_from_slice(&64_u64.to_le_bytes());
    bytes[52..54].copy_from_slice(&64_u16.to_le_bytes());
    bytes[54..56].copy_from_slice(&56_u16.to_le_bytes());
    bytes[56..58].copy_from_slice(&1_u16.to_le_bytes());
    bytes[64..68].copy_from_slice(&2_u32.to_le_bytes());
    bytes[72..80].copy_from_slice(&120_u64.to_le_bytes());
    bytes[96..104].copy_from_slice(&32_u64.to_le_bytes());
    bytes[120..128].copy_from_slice(&1_u64.to_le_bytes());
    bytes[136..144].copy_from_slice(&0_u64.to_le_bytes());
    bytes
}

#[test]
fn loads_and_reverifies_complete_static_x86_bundle() {
    let bundle = Bundle::new(true);
    let manifest = synthetic_manifest(&bundle, true);
    let profile = bundle.load(manifest).expect("verified profile");
    assert_eq!(profile.manifest().profile_id, "x86_64-smp-p4k");
    assert_eq!(profile.root_path(), ROOT);
    assert_eq!(profile.initramfs_path(), format!("{ROOT}/guest/workload.cpio"));
    for position in 0..13 {
        assert!(profile
            .reverify_artifact(position, &bundle.observe(position))
            .is_ok());
    }
    assert!(profile
        .reverify(&bundle.files[12].2, &bundle.files[4].2)
        .is_ok());

    let mut corrupt = bundle.observe(5);
    corrupt.mode = 0o100644;
    corrupt.bytes = b"corrupt".to_vec();
    corrupt.size = 7;
    assert!(profile.reverify_artifact(5, &corrupt).is_err());
}

#[test]
fn rejects_a_revision_bound_but_nonempty_e2fsck_configuration() {
    let mut bundle = Bundle::new(true);
    bundle.files[11].2 = b"[options]\nallow_cancellation = true\n".to_vec();
    let manifest = synthetic_manifest(&bundle, true);
    match bundle.load(manifest) {
        Err(ManifestError::UnsupportedContract { value, .. }) => {
            assert!(value.contains("exact empty configuration"));
        }
        Err(ManifestError::InvalidField { reason, .. }) => {
            assert!(reason.contains("exact empty configuration"));
        }
        other => panic!("nonempty e2fsck policy must be unsupported: {other:?}"),
    }
}

#[test]
fn builder_validator_memory_and_mandatory_release_features_are_revision_bound() {
    let bundle = Bundle::new(true);
    let facts = facts(8);
    let original = synthetic_manifest(&bundle, true);
    assert!(validate_manifest(&original, &facts).is_ok());

    let mut manifest = original.clone();
    manifest.memory.builder_memory_bytes = manifest.memory.effective_max_memory_bytes + 4096;
    assert!(validate_manifest(&manifest, &facts).is_err());

    let mut manifest = original.clone();
    manifest.memory.validator_memory_bytes = manifest.memory.effective_max_memory_bytes + 4096;
    assert!(validate_manifest(&manifest, &facts).is_err());

    let mut manifest = original.clone();
    manifest.memory.default_memory_bytes += 1;
    assert!(validate_manifest(&manifest, &facts).is_err());

    let mut manifest = original.clone();
    manifest
        .validator
        .hello
        .required_features
        .retain(|feature| feature != "ext4-clean-state-v1");
    assert!(validate_manifest(&manifest, &facts).is_err());

    let mut manifest = original.clone();
    manifest
        .builder
        .hello
        .required_features
        .retain(|feature| feature != "account-db-v1");
    assert!(validate_manifest(&manifest, &facts).is_err());

    let mut manifest = original;
    manifest
        .hello
        .required_features
        .retain(|feature| feature != "generated-etc-v1");
    assert!(validate_manifest(&manifest, &facts).is_err());
}

#[test]
fn rejects_revision_drift_and_dynamic_elf() {
    let bundle = Bundle::new(true);
    let mut manifest = synthetic_manifest(&bundle, true);
    manifest.profile_id = "changed-profile".to_owned();
    assert!(matches!(
        bundle.load(manifest),
        Err(ManifestError::RevisionMismatch { .. })
    ));

    let mut bundle = Bundle::new(true);
    bundle.files[1].2 = minimal_elf(true);
    let manifest = synthetic_manifest(&bundle, true);
    assert!(matches!(
        bundle.load(manifest),
        Err(ManifestError::Elf { .. })
    ));
}

#[test]
fn rejects_static_pie_with_a_dynamic_needed_entry() {
    match verify_static_x86_64_elf("needed-elf", &minimal_elf_with_needed()) {
        Err(ManifestError::Elf { reason, .. }) => assert!(reason.contains("DT_NEEDED")),
        other => panic!("DT_NEEDED must be rejected: {other:?}"),
    }
    let mut pie = vec![0_u8; 64 + 2 * 56 + 32];
    pie[..120].copy_from_slice(&minimal_elf(false));
    pie[16..18].copy_from_slice(&3_u16.to_le_bytes());
    pie[56..58].copy_from_slice(&2_u16.to_le_bytes());
    pie[120..124].copy_from_slice(&2_u32.to_le_bytes());
    pie[128..136].copy_from_slice(&176_u64.to_le_bytes());
    pie[152..160].copy_from_slice(&32_u64.to_le_bytes());
    pie[176..184].copy_from_slice(&5_u64.to_le_bytes());
    assert!(verify_static_x86_64_elf("pie", &pie).is_ok());
    pie[176..184].copy_from_slice(&1_u64.to_le_bytes());
    assert!(verify_static_x86_64_elf("pie", &pie).is_err());
}

#[test]
fn registry_ca_allows_utf8_comments_but_rejects_non_base64_pem_bodies() {
    assert!(validate_registry_ca_bundle(
        "## Főtanúsítvány\n-----BEGIN CERTIFICATE-----\nZmFrZQ==\n-----END CERTIFICATE-----\n"
            .as_bytes()
    )
    .is_ok());
    assert!(validate_registry_ca_bundle(
        b"-----BEGIN CERTIFICATE-----\nnot base64!\n-----END CERTIFICATE-----\n"
    )
    .is_err());
}

#[test]
fn registry_ca_needs_one_whole_certificate() {
    for broken in [
        "",
        "only a comment\n",
        "-----BEGIN CERTIFICATE-----\n-----END CERTIFICATE-----\n",
        "-----BEGIN CERTIFICATE-----\nZmFrZQ==\n",
        "-----END CERTIFICATE-----\n",
        "-----BEGIN CERTIFICATE-----\n-----BEGIN CERTIFICATE-----\nZmFrZQ==\n-----END CERTIFICATE-----\n",
    ] {
        assert!(
            validate_registry_ca_bundle(broken.as_bytes()).is_err(),
            "accepted {broken:?}"
        );
    }
    assert!(validate_registry_ca_bundle(b"\xff\xfe").is_err());
}

#[test]
fn revision_is_domain_separated_from_artifact_digests() {
    let encoded = b"manifest".to_vec();
    let revision = ProfileManifest::revision_over(&encoded);
    assert_ne!(
        revision.as_bytes(),
        ArtifactDigest::of_bytes(&encoded).as_bytes()
    );
    let mut framed = b"pocket-profile-revision\0v1\0".to_vec();
    framed.extend_from_slice(&encoded);
    assert_eq!(
        revision.as_bytes(),
        ArtifactDigest::of_bytes(&framed).as_bytes()
    );
    assert_eq!(
        ProfileRevision::parse(&revision.to_text()).expect("revision"),
        revision
    );
}

#[test]
fn no_artifact_outside_the_bundle_is_accepted() {
    for outside in ["/etc/guard", "../guard", "host/../../guard", "./guard", ""] {
        let bundle = Bundle::new(true);
        let mut manifest = synthetic_manifest(&bundle, true);
        manifest.artifacts.guard.path = outside.to_owned();
        manifest.profile_revision = manifest.computed_revision(&encode).expect("revision");
        let maximum = manifest.cpu.effective_max_cpus;
        let mut loader =
            ProfileLoader::new(ROOT, manifest, &facts(maximum), &encode).expect("manifest");
        let mut observed = bundle.observe(0);
        observed.canonical = join_path(ROOT, outside);
        for refused in [loader.next().expect("artifact").map(|_| ()), loader.accept(&observed)] {
            match refused {
                Err(ManifestError::ArtifactPath { path, .. }) => assert_eq!(path, outside),
                other => panic!("{outside:?}: {other:?}"),
            }
        }
    }
}

#[test]
fn a_revision_is_not_computed_over_itself() {
    let bundle = Bundle::new(true);
    let manifest = synthetic_manifest(&bundle, true);
    let mut other = manifest.clone();
    other.profile_revision = ProfileRevision::from_bytes([7; 32]);
    assert_ne!(format!("{manifest:?}"), format!("{other:?}"));
    assert_eq!(encode(manifest.canonical()), encode(other.canonical()));
    assert_eq!(
        other.computed_revision(&encode).expect("revision"),
        manifest.profile_revision
    );
    assert!(manifest.check_revision(&encode).is_ok());
    match other.check_revision(&encode) {
        Err(ManifestError::RevisionMismatch { declared, computed }) => {
            assert_eq!(declared, other.profile_revision.to_text());
            assert_eq!(computed, manifest.profile_revision.to_text());
        }
        unexpected => panic!("{unexpected:?}"),
    }

    let mut changed = manifest.clone();
    changed.guest_page_size += 1;
    assert_ne!(
        changed.computed_revision(&encode).expect("revision"),
        manifest.profile_revision
    );
    match manifest.computed_revision(&|_: CanonicalManifest<'_>| Err("no space".to_owned())) {
        Err(ManifestError::InvalidField { field, reason }) => {
            assert_eq!(field, "profile_revision");
            assert_eq!(reason, "canonicalization failed: no space");
        }
        other => panic!("{other:?}"),
    }
}

#[test]
fn artifact_paths_stay_inside_the_bundle() {
    assert!(validate_relative_artifact_path("host/linux").is_ok());
    for outside in ["", "/host/linux", "../linux", "host/../linux", "./linux"] {
        assert!(
            validate_relative_artifact_path(outside).is_err(),
            "accepted {outside:?}"
        );
    }
    assert!(validate_relative_artifact_path(&"a".repeat(160)).is_ok());
    assert!(validate_relative_artifact_path(&"a".repeat(161)).is_err());
    let bundle = Bundle::new(true);
    assert_eq!(
        locate_artifact(ROOT, &bundle.spec(1)).expect("artifact path"),
        format!("{ROOT}/host/linux-uml")
    );
}

#[test]
fn every_way_an_artifact_can_drift_is_refused() {
    let bundle = Bundle::new(true);
    let path = format!("{ROOT}/host/linux-uml");
    let spec = bundle.spec(1);
    let check = |file: &FileObservation| {
        verify_artifact_at(&path, &spec, ArtifactRole::HostExecutable, file)
    };
    assert!(check(&bundle.observe(1)).is_ok());

    let mut moved = bundle.observe(1);
    moved.canonical = format!("{ROOT}/host/elsewhere");
    assert!(matches!(
        check(&moved),
        Err(ManifestError::ArtifactResolution { .. })
    ));

    let mut special = bundle.observe(1);
    special.regular = false;
    assert!(matches!(
        check(&special),
        Err(ManifestError::ArtifactType { .. })
    ));

    let mut writable = bundle.observe(1);
    writable.mode = 0o100775;
    assert!(matches!(
        check(&writable),
        Err(ManifestError::ArtifactMode { .. })
    ));

    let mut privileged = bundle.observe(1);
    privileged.capability = true;
    assert!(matches!(
        check(&privileged),
        Err(ManifestError::ArtifactCapability { .. })
    ));

    let mut longer = bundle.observe(1);
    longer.size += 1;
    assert!(matches!(
        check(&longer),
        Err(ManifestError::ArtifactSize {
            expected: 120,
            actual: 121,
            ..
        })
    ));

    let mut changed = bundle.observe(1);
    changed.bytes[119] = 1;
    match check(&changed) {
        Err(ManifestError::ArtifactDigest {
            expected, actual, ..
        }) => {
            assert_eq!(expected, spec.sha256.to_text());
            assert_eq!(
                actual,
                ArtifactDigest::of_bytes(&changed.bytes).to_text()
            );
        }
        other => panic!("changed bytes were accepted: {other:?}"),
    }
}

#[test]
fn two_artifacts_cannot_share_a_path() {
    let mut bundle = Bundle::new(true);
    bundle.files[2].0 = "host/linux-uml";
    let manifest = synthetic_manifest(&bundle, true);
    assert!(bundle.load(manifest).is_err());
}

#[test]
fn directories_must_be_exact_and_unwritable_by_others() {
    assert!(validate_exact_directory("/srv/b", "/srv/b", true, 0o40755).is_ok());
    assert!(validate_exact_directory("/srv/b", "/srv/c", true, 0o40755).is_err());
    assert!(validate_exact_directory("/srv/b", "/srv/b", false, 0o40755).is_err());
    assert!(validate_exact_directory("/srv/b", "/srv/b", true, 0o40775).is_err());
    assert!(check_bounded_file("/srv/b/profile.json", true, 10, 10).is_ok());
    assert!(matches!(
        check_bounded_file("/srv/b/profile.json", true, 11, 10),
        Err(ManifestError::TooLarge { maximum: 10, .. })
    ));
    assert!(matches!(
        check_bounded_file("/srv/b/profile.json", false, 1, 10),
        Err(ManifestError::ArtifactType { .. })
    ));
}

#[test]
fn kernel_configuration_is_bound_to_the_cpu_contract() {
    let smp = CpuManifest {
        smp_enabled: true,
        product_max_cpus: 8,
        compiled_nr_cpus: Some(16),
        effective_max_cpus: 8,
    };
    let up = CpuManifest {
        smp_enabled: false,
        product_max_cpus: 1,
        compiled_nr_cpus: None,
        effective_max_cpus: 1,
    };
    assert!(validate_kernel_config("c", kernel_config(true).as_bytes(), &smp).is_ok());
    assert!(validate_kernel_config("c", kernel_config(false).as_bytes(), &up).is_ok());
    assert!(validate_kernel_config("c", kernel_config(true).as_bytes(), &up).is_err());
    match validate_kernel_config("c", kernel_config(false).as_bytes(), &smp) {
        Err(ManifestError::KernelConfig {
            setting,
            expected,
            actual,
            ..
        }) => {
            assert_eq!(setting, "CONFIG_SMP");
            assert_eq!(expected, "y");
            assert_eq!(actual, "n");
        }
        other => panic!("an unlinked SMP kernel was accepted: {other:?}"),
    }
    let fewer = kernel_config(true).replace("CONFIG_NR_CPUS=16", "CONFIG_NR_CPUS=4");
    assert!(validate_kernel_config("c", fewer.as_bytes(), &smp).is_err());
    let loadable = kernel_config(true).replace("# CONFIG_MODULES is not set", "CONFIG_MODULES=y");
    assert!(validate_kernel_config("c", loadable.as_bytes(), &smp).is_err());
    let repeated = format!("{}CONFIG_UML=y\n", kernel_config(true));
    match validate_kernel_config("c", repeated.as_bytes(), &smp) {
        Err(ManifestError::InvalidField { reason, .. }) => {
            assert_eq!(reason, "duplicate setting CONFIG_UML");
        }
        other => panic!("a repeated setting was accepted: {other:?}"),
    }
}

#[test]
fn every_manifest_field_is_bound() {
    let bundle = Bundle::new(true);
    let original = synthetic_manifest(&bundle, true);
    let changes: Vec<(&str, fn(&mut ProfileManifest))> = vec![
        ("schema", |m| m.schema_version += 1),
        ("profile id", |m| m.profile_id = String::new()),
        ("architecture", |m| m.host_architecture = "aarch64".to_owned()),
        ("machine", |m| m.host_elf_machine = 183),
        ("os", |m| m.oci_os = "windows".to_owned()),
        ("oci architecture", |m| m.oci_architecture = "arm64".to_owned()),
        ("repeated variant", |m| m.accepted_oci_variants = vec![None, None]),
        ("unknown variant", |m| m.accepted_oci_variants = vec![Some("v2".to_owned())]),
        ("unsorted features", |m| m.hello.required_features.reverse()),
        ("no variants", |m| m.accepted_oci_variants = Vec::new()),
        ("subarchitecture", |m| m.uml_subarchitecture = "i386".to_owned()),
        ("page size", |m| m.guest_page_size = 16384),
        ("cpu maximum", |m| m.cpu.effective_max_cpus = 7),
        ("alignment", |m| m.memory.alignment_bytes = 0),
        ("product maximum", |m| {
            m.memory.product_maximum_bytes = m.memory.effective_max_memory_bytes - 4096
        }),
        ("contract id", |m| m.hello.guest_contract_id = "11".repeat(31)),
        ("upper case build id", |m| m.hello.init_build_id = "AB".repeat(32)),
        ("tool role", |m| m.builder.required_tools = Vec::new()),
        ("epoch", |m| m.builder.source_date_epoch = 0),
        ("linkage", |m| m.launch.linkage = "dynamic".to_owned()),
        ("reboot", |m| m.launch.noreboot = false),
        ("network", |m| m.launch.network = "tap".to_owned()),
        ("unix path", |m| m.launch.max_unix_path_bytes = 4096),
    ];
    assert!(validate_manifest(&original, &facts(8)).is_ok());
    for (name, change) in changes {
        let mut manifest = original.clone();
        change(&mut manifest);
        assert!(
            validate_manifest(&manifest, &facts(8)).is_err(),
            "{name} is not bound"
        );
    }
}
