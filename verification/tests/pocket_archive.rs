use pocket_runtime::digest::ArtifactDigest;
use pocket_runtime::pocket_archive::{
    BaseRecord, Document, Extent, GenerationSpec, ImmutableSidecar, Platform, PlatformRecord,
    SidecarRecord, SpecRecord, MAGIC, SCHEMA,
};

fn platform_record() -> PlatformRecord {
    PlatformRecord {
        os: "linux".to_owned(),
        architecture: "amd64".to_owned(),
        variant: None,
        os_version: None,
        os_features: Vec::new(),
    }
}

fn document() -> Document {
    Document {
        schema: SCHEMA.to_owned(),
        generation_id: "pkvm-gen-v1-00".to_owned(),
        reference: "alpine:3.22".to_owned(),
        spec: SpecRecord {
            selected_manifest_digest: String::new(),
            config_digest: String::new(),
            layer_digests: Vec::new(),
            diff_ids: Vec::new(),
            descriptor_platform: None,
            config_platform: platform_record(),
            effective_platform: platform_record(),
            selector_policy_id: String::new(),
            profile_id: String::new(),
            profile_revision: String::new(),
            root_layout_contract: String::new(),
            filesystem_contract: String::new(),
            build_contract_digest: String::new(),
        },
        base: BaseRecord {
            size: 4096,
            digest: String::new(),
            extents: vec![Extent {
                offset: 0,
                length: 512,
            }],
        },
        sidecars: Vec::new(),
    }
}

#[test]
fn the_magic_names_the_archive() {
    assert_eq!(&MAGIC, b"pocket-archive1\n");
}

#[test]
fn a_foreign_schema_is_refused() {
    let mut subject = document();
    subject.schema = "something-else".to_owned();
    assert_eq!(
        subject.validate(),
        Err("archive schema is \"something-else\", not pocket-archive-v1".to_owned())
    );
    assert_eq!(document().validate(), Ok(()));
}

#[test]
fn overlapping_extents_are_refused() {
    let mut subject = document();
    subject.base.extents = vec![
        Extent {
            offset: 0,
            length: 1024,
        },
        Extent {
            offset: 512,
            length: 8,
        },
    ];
    assert_eq!(
        subject.validate(),
        Err("archive extents overlap or are unordered".to_owned())
    );
}

#[test]
fn an_extent_past_the_end_is_refused() {
    let mut subject = document();
    subject.base.extents = vec![Extent {
        offset: 4000,
        length: 1024,
    }];
    assert_eq!(
        subject.validate(),
        Err("archive extent runs past the end of the image".to_owned())
    );
    subject.base.extents = vec![Extent {
        offset: u64::MAX,
        length: 2,
    }];
    assert_eq!(
        subject.validate(),
        Err("archive extent overflows".to_owned())
    );
}

#[test]
fn an_empty_extent_is_refused() {
    let mut subject = document();
    subject.base.extents = vec![Extent {
        offset: 0,
        length: 0,
    }];
    assert_eq!(
        subject.validate(),
        Err("archive records an empty extent".to_owned())
    );
}

#[test]
fn a_sparse_image_is_described_by_its_data_alone() {
    let mut subject = document();
    subject.base.size = 8 * 1024 * 1024 * 1024;
    subject.base.extents = vec![
        Extent {
            offset: 0,
            length: 4096,
        },
        Extent {
            offset: 1 << 30,
            length: 8192,
        },
    ];
    subject.validate().expect("valid");
    assert_eq!(subject.data_length(), 12288);
}

fn spec() -> GenerationSpec {
    let platform = Platform {
        os: "linux".to_owned(),
        architecture: "amd64".to_owned(),
        variant: Some("v3".to_owned()),
        os_version: Some("6.1".to_owned()),
        os_features: vec!["f".to_owned()],
    };
    GenerationSpec {
        selected_manifest_digest: ArtifactDigest::from_bytes([1; 32]),
        config_digest: ArtifactDigest::from_bytes([2; 32]),
        layer_digests: vec![
            ArtifactDigest::from_bytes([3; 32]),
            ArtifactDigest::from_bytes([4; 32]),
        ],
        diff_ids: vec![ArtifactDigest::from_bytes([5; 32])],
        descriptor_platform: Some(platform.clone()),
        config_platform: platform.clone(),
        effective_platform: platform,
        selector_policy_id: "native-v1".to_owned(),
        profile_id: "x86_64-smp-p4k".to_owned(),
        profile_revision: ArtifactDigest::from_bytes([6; 32]),
        root_layout_contract: "pocket-root-v1".to_owned(),
        filesystem_contract: "ext4-v1-b4096".to_owned(),
        build_contract_digest: ArtifactDigest::from_bytes([7; 32]),
    }
}

fn parse(text: &String) -> Result<ArtifactDigest, String> {
    ArtifactDigest::parse(text).map_err(|_| format!("no digest: {text}"))
}

fn make(record: &PlatformRecord) -> Result<Platform, String> {
    if record.os.is_empty() {
        return Err("empty os".to_owned());
    }
    Ok(Platform {
        os: record.os.clone(),
        architecture: record.architecture.clone(),
        variant: record.variant.clone(),
        os_version: record.os_version.clone(),
        os_features: record.os_features.clone(),
    })
}

fn refuse_nothing(_: &GenerationSpec) -> Option<String> {
    None
}

#[test]
fn a_specification_survives_its_record() {
    let record = SpecRecord::of(&spec());
    assert_eq!(
        record.layer_digests[1],
        format!("sha256:{}", "04".repeat(32))
    );
    assert_eq!(record.build(&parse, &make, &refuse_nothing), Ok(spec()));
    assert_eq!(
        record.build(&parse, &make, &|spec: &GenerationSpec| Some(
            spec.profile_id.clone()
        )),
        Err("x86_64-smp-p4k".to_owned())
    );
}

#[test]
fn a_record_is_refused_for_its_first_part_that_the_store_refuses() {
    let mut record = SpecRecord::of(&spec());
    record.build_contract_digest = "last".to_owned();
    let refused = |record: &SpecRecord| {
        record
            .build(&parse, &make, &refuse_nothing)
            .expect_err("broken record")
    };
    assert_eq!(refused(&record), "no digest: last");
    record.effective_platform.os = String::new();
    assert_eq!(refused(&record), "empty os");
    record.diff_ids[0] = "other".to_owned();
    assert_eq!(refused(&record), "no digest: other");
    record.layer_digests[1] = "sha256:zz".to_owned();
    assert_eq!(refused(&record), "no digest: sha256:zz");
}

#[test]
fn a_sidecar_survives_its_record() {
    let sidecar = ImmutableSidecar {
        name: "accounts.cbor".to_owned(),
        digest: ArtifactDigest::from_bytes([9; 32]),
        size: 77,
    };
    let accepted = |_: &ImmutableSidecar| None;
    let mut record = SidecarRecord::of(&sidecar);
    assert_eq!(record.build(&parse, &accepted), Ok(sidecar));
    assert_eq!(
        record.build(&parse, &|sidecar: &ImmutableSidecar| Some(sidecar.name.clone())),
        Err("accounts.cbor".to_owned())
    );
    record.digest = "09".repeat(32);
    assert_eq!(
        record.build(&parse, &accepted),
        Err(format!("no digest: {}", "09".repeat(32)))
    );
}
