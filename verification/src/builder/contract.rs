//! What the guests of a build are told, and what is recorded of a build.

use vstd::prelude::*;

use crate::builder::capacity::{resource_name, CapacityResource};
use crate::builder::prepare::{ImageLayer, ImagePlatform, VerifiedImage};
use crate::builder::sizing::{FilesystemSize, FilesystemSizing};
use crate::digest::{digest_text, hex_of, hex_text, sha256_of, ArtifactDigest};
use crate::error::{invalid_build, HostBuildError, HostBuildFault};
use crate::image::account::UserResolution;
use crate::manifest::{BuilderToolContract, ProfileManifest};
use crate::pocket_archive::{copy_optional, GenerationSpec};
use crate::text::{copy_texts, join, optional_text, texts};

verus! {

// ---------------------------------------------------------------------------
// Tools
// ---------------------------------------------------------------------------

/// A tool as a guest identifies it.
#[derive(Debug, Clone, PartialEq, Eq)]
pub struct ToolIdentity {
    pub role: String,
    pub sha256: String,
    pub version: String,
}

/// The role, digest and version of a tool.
pub struct ToolText {
    pub role: Seq<char>,
    pub sha256: Seq<char>,
    pub version: Seq<char>,
}

pub open spec fn contract_tools(tools: Seq<BuilderToolContract>) -> Seq<ToolText> {
    Seq::new(
        tools.len(),
        |i: int|
            ToolText {
                role: tools[i].role@,
                sha256: tools[i].sha256@,
                version: tools[i].version@,
            },
    )
}

pub open spec fn tool_texts(tools: Seq<ToolIdentity>) -> Seq<ToolText> {
    Seq::new(
        tools.len(),
        |i: int|
            ToolText {
                role: tools[i].role@,
                sha256: tools[i].sha256@,
                version: tools[i].version@,
            },
    )
}

/// The tools that a profile requires, as a guest identifies them.
pub fn required_tools(tools: &Vec<BuilderToolContract>) -> (identities: Vec<ToolIdentity>)
    ensures
        tool_texts(identities@) == contract_tools(tools@),
{
    let mut identities: Vec<ToolIdentity> = Vec::new();
    let mut i: usize = 0;
    while i < tools.len()
        invariant
            i <= tools@.len(),
            tool_texts(identities@) =~= contract_tools(tools@).take(i as int),
        decreases tools@.len() - i,
    {
        let ghost before = tool_texts(identities@);
        identities.push(
            ToolIdentity {
                role: tools[i].role.clone(),
                sha256: tools[i].sha256.clone(),
                version: tools[i].version.clone(),
            },
        );
        i += 1;
        assert(tool_texts(identities@) =~= before.push(contract_tools(tools@)[i - 1]));
    }
    assert(contract_tools(tools@).take(i as int) =~= contract_tools(tools@));
    identities
}

fn copy_tools(tools: &Vec<ToolIdentity>) -> (copy: Vec<ToolIdentity>)
    ensures
        tool_texts(copy@) == tool_texts(tools@),
{
    let mut copy: Vec<ToolIdentity> = Vec::new();
    let mut i: usize = 0;
    while i < tools.len()
        invariant
            i <= tools@.len(),
            tool_texts(copy@) =~= tool_texts(tools@).take(i as int),
        decreases tools@.len() - i,
    {
        let ghost before = tool_texts(copy@);
        copy.push(
            ToolIdentity {
                role: tools[i].role.clone(),
                sha256: tools[i].sha256.clone(),
                version: tools[i].version.clone(),
            },
        );
        i += 1;
        assert(tool_texts(copy@) =~= before.push(tool_texts(tools@)[i - 1]));
    }
    assert(tool_texts(tools@).take(i as int) =~= tool_texts(tools@));
    copy
}

// ---------------------------------------------------------------------------
// The builder's start message
// ---------------------------------------------------------------------------

/// A platform as the guests read it.
#[derive(Debug, Clone, PartialEq, Eq)]
pub struct ProtocolPlatform {
    pub os: String,
    pub architecture: String,
    pub variant: Option<String>,
}

pub open spec fn is_protocol_platform(told: ProtocolPlatform, platform: ImagePlatform) -> bool {
    told.os@ == platform.os@ && told.architecture@ == platform.architecture@ && optional_text(
        told.variant,
    ) == optional_text(platform.variant)
}

pub fn protocol_platform(platform: &ImagePlatform) -> (told: ProtocolPlatform)
    ensures
        is_protocol_platform(told, *platform),
{
    ProtocolPlatform {
        os: platform.os.clone(),
        architecture: platform.architecture.clone(),
        variant: copy_optional(&platform.variant),
    }
}

/// A blob of an image.
#[derive(Debug, Clone, PartialEq, Eq)]
pub struct OciDescriptor {
    pub digest: String,
    pub size: u64,
    pub media_type: String,
}

pub open spec fn describes(
    descriptor: OciDescriptor,
    digest: ArtifactDigest,
    size: u64,
    media_type: Seq<char>,
) -> bool {
    descriptor.digest@ == digest_text(digest@) && descriptor.size == size
        && descriptor.media_type@ == media_type
}

fn describe_blob(digest: ArtifactDigest, size: u64, media_type: &str) -> (descriptor: OciDescriptor)
    ensures
        describes(descriptor, digest, size, media_type@),
{
    OciDescriptor { digest: digest.to_text(), size, media_type: media_type.to_owned() }
}

/// One layer that the builder applies.
#[derive(Debug, Clone, PartialEq, Eq)]
pub struct BuilderLayerDescriptor {
    pub descriptor: OciDescriptor,
    pub diff_id: String,
    pub uncompressed_size: u64,
}

pub open spec fn describes_layer(told: BuilderLayerDescriptor, layer: ImageLayer) -> bool {
    describes(told.descriptor, layer.digest, layer.size, layer.media_type@) && told.diff_id@
        == digest_text(layer.diff_id@) && told.uncompressed_size == layer.uncompressed_size
}

pub open spec fn describes_layers(
    told: Seq<BuilderLayerDescriptor>,
    layers: Seq<ImageLayer>,
) -> bool {
    told.len() == layers.len() && forall|i: int|
        0 <= i < told.len() ==> describes_layer(#[trigger] told[i], layers[i])
}

fn describe_layers(layers: &Vec<ImageLayer>) -> (told: Vec<BuilderLayerDescriptor>)
    ensures
        describes_layers(told@, layers@),
{
    let mut told: Vec<BuilderLayerDescriptor> = Vec::new();
    let mut i: usize = 0;
    while i < layers.len()
        invariant
            i <= layers@.len(),
            told@.len() == i,
            forall|j: int| 0 <= j < i ==> describes_layer(#[trigger] told@[j], layers@[j]),
        decreases layers@.len() - i,
    {
        let layer = &layers[i];
        told.push(
            BuilderLayerDescriptor {
                descriptor: describe_blob(layer.digest, layer.size, &layer.media_type),
                diff_id: layer.diff_id.to_text(),
                uncompressed_size: layer.uncompressed_size,
            },
        );
        i += 1;
    }
    told
}

/// What the builder guest is told. The limits on the manifest it streams are
/// those of the protocol and are added where the message is encoded.
#[derive(Debug, Clone)]
pub struct BuilderStart {
    pub profile_id: String,
    pub profile_revision: String,
    pub derivation_key: String,
    pub selected_manifest: OciDescriptor,
    pub config: OciDescriptor,
    pub layers: Vec<BuilderLayerDescriptor>,
    pub descriptor_platform: Option<ProtocolPlatform>,
    pub config_platform: ProtocolPlatform,
    pub effective_platform: ProtocolPlatform,
    pub selector_policy: String,
    pub root_layout: String,
    pub filesystem_contract: String,
    pub manifest_schema: String,
    pub expected_tools: Vec<ToolIdentity>,
    pub input_reference: String,
    pub original_user: String,
    pub expected_physmem_bytes: u64,
    pub source_date_epoch: u64,
}

/// Whether a start message tells a builder exactly the image and the profile.
pub open spec fn starts_builder(
    start: BuilderStart,
    manifest: ProfileManifest,
    image: VerifiedImage,
    derivation_key: Seq<u8>,
) -> bool {
    &&& start.profile_id@ == manifest.profile_id@
    &&& start.profile_revision@ == hex_of(manifest.profile_revision@)
    &&& start.derivation_key@ == hex_of(derivation_key)
    &&& describes(
        start.selected_manifest,
        image.manifest_digest,
        image.manifest_size,
        image.manifest_media_type@,
    )
    &&& describes(start.config, image.config_digest, image.config_size, image.config_media_type@)
    &&& describes_layers(start.layers@, image.layers@)
    &&& match (start.descriptor_platform, image.descriptor_platform) {
        (Some(told), Some(platform)) => is_protocol_platform(told, platform),
        (None, None) => true,
        _ => false,
    }
    &&& is_protocol_platform(start.config_platform, image.config_platform)
    &&& is_protocol_platform(start.effective_platform, image.effective_platform)
    &&& start.selector_policy@ == image.selector_policy@
    &&& start.root_layout@ == manifest.contracts.root_layout@
    &&& start.filesystem_contract@ == manifest.contracts.filesystem@
    &&& start.manifest_schema@ == manifest.builder.manifest_schema@
    &&& tool_texts(start.expected_tools@) == contract_tools(manifest.builder.required_tools@)
    &&& start.input_reference@ == "root"@
    &&& start.original_user@ == image.original_user@
    &&& start.expected_physmem_bytes == manifest.memory.builder_memory_bytes
    &&& start.source_date_epoch == manifest.builder.source_date_epoch
}

pub fn builder_start(
    manifest: &ProfileManifest,
    image: &VerifiedImage,
    derivation_key: &[u8; 32],
) -> (start: BuilderStart)
    ensures
        starts_builder(start, *manifest, *image, derivation_key@),
{
    BuilderStart {
        profile_id: manifest.profile_id.clone(),
        profile_revision: manifest.profile_revision.hexadecimal(),
        derivation_key: hex_text(derivation_key),
        selected_manifest: describe_blob(
            image.manifest_digest,
            image.manifest_size,
            &image.manifest_media_type,
        ),
        config: describe_blob(image.config_digest, image.config_size, &image.config_media_type),
        layers: describe_layers(&image.layers),
        descriptor_platform: match &image.descriptor_platform {
            Some(platform) => Some(protocol_platform(platform)),
            None => None,
        },
        config_platform: protocol_platform(&image.config_platform),
        effective_platform: protocol_platform(&image.effective_platform),
        selector_policy: image.selector_policy.clone(),
        root_layout: manifest.contracts.root_layout.clone(),
        filesystem_contract: manifest.contracts.filesystem.clone(),
        manifest_schema: manifest.builder.manifest_schema.clone(),
        expected_tools: required_tools(&manifest.builder.required_tools),
        input_reference: "root".to_owned(),
        original_user: image.original_user.clone(),
        expected_physmem_bytes: manifest.memory.builder_memory_bytes,
        source_date_epoch: manifest.builder.source_date_epoch,
    }
}

// ---------------------------------------------------------------------------
// The validator's start message
// ---------------------------------------------------------------------------

/// What the builder reports of a finished conversion.
#[derive(Debug, Clone)]
pub struct BuilderDone {
    pub manifest_sha256: String,
    pub entry_count: u64,
    pub byte_count: u64,
    pub generation_marker_sha256: String,
    pub account_db_sha256: String,
    pub original_user: String,
    pub user_resolution: UserResolution,
    pub observed_tools: Vec<ToolIdentity>,
}

/// What the validator guest is told. The generation marker and the account
/// database that it must find are added where the message is encoded.
#[derive(Debug, Clone)]
pub struct ValidatorStart {
    pub profile_id: String,
    pub profile_revision: String,
    pub challenge: String,
    pub derivation_key: String,
    pub root_layout: String,
    pub filesystem_contract: String,
    pub manifest_schema: String,
    pub expected_manifest_sha256: String,
    pub expected_manifest_entry_count: u64,
    pub expected_manifest_byte_count: u64,
    pub expected_generation_marker_sha256: String,
    pub expected_filesystem_uuid: String,
    pub expected_filesystem_bytes: u64,
    pub expected_physmem_bytes: u64,
}

/// Whether a start message asks a validator for exactly what the builder
/// reported.
pub open spec fn starts_validator(
    start: ValidatorStart,
    manifest: ProfileManifest,
    derivation_key: Seq<u8>,
    done: BuilderDone,
    target_uuid: Seq<char>,
    target_bytes: u64,
    challenge: Seq<char>,
) -> bool {
    &&& start.profile_id@ == manifest.profile_id@
    &&& start.profile_revision@ == hex_of(manifest.profile_revision@)
    &&& start.challenge@ == challenge
    &&& start.derivation_key@ == hex_of(derivation_key)
    &&& start.root_layout@ == manifest.contracts.root_layout@
    &&& start.filesystem_contract@ == manifest.contracts.filesystem@
    &&& start.manifest_schema@ == manifest.validator.manifest_schema@
    &&& start.expected_manifest_sha256@ == done.manifest_sha256@
    &&& start.expected_manifest_entry_count == done.entry_count
    &&& start.expected_manifest_byte_count == done.byte_count
    &&& start.expected_generation_marker_sha256@ == done.generation_marker_sha256@
    &&& start.expected_filesystem_uuid@ == target_uuid
    &&& start.expected_filesystem_bytes == target_bytes
    &&& start.expected_physmem_bytes == manifest.memory.validator_memory_bytes
}

pub fn validator_start(
    manifest: &ProfileManifest,
    derivation_key: &[u8; 32],
    done: &BuilderDone,
    target_uuid: &str,
    target_bytes: u64,
    challenge: &str,
) -> (start: ValidatorStart)
    ensures
        starts_validator(
            start,
            *manifest,
            derivation_key@,
            *done,
            target_uuid@,
            target_bytes,
            challenge@,
        ),
{
    ValidatorStart {
        profile_id: manifest.profile_id.clone(),
        profile_revision: manifest.profile_revision.hexadecimal(),
        challenge: challenge.to_owned(),
        derivation_key: hex_text(derivation_key),
        root_layout: manifest.contracts.root_layout.clone(),
        filesystem_contract: manifest.contracts.filesystem.clone(),
        manifest_schema: manifest.validator.manifest_schema.clone(),
        expected_manifest_sha256: done.manifest_sha256.clone(),
        expected_manifest_entry_count: done.entry_count,
        expected_manifest_byte_count: done.byte_count,
        expected_generation_marker_sha256: done.generation_marker_sha256.clone(),
        expected_filesystem_uuid: target_uuid.to_owned(),
        expected_filesystem_bytes: target_bytes,
        expected_physmem_bytes: manifest.memory.validator_memory_bytes,
    }
}

// ---------------------------------------------------------------------------
// The build contract
// ---------------------------------------------------------------------------

/// The identity contract for one built generation, in the order it is encoded.
///
/// Target sizing is here because it shapes the output filesystem. Payload
/// sizing is deliberately not: it is the scratch image the OCI layout is
/// copied into so the guest can read it, and its geometry leaves no trace in
/// the base. Folding it in would make the same image cache separately
/// depending on how many unreferenced blobs its source layout happened to
/// carry.
#[derive(Debug)]
pub struct BuildContractRecord {
    pub schema: &'static str,
    pub profile_id: String,
    pub profile_revision: String,
    pub selector_policy: String,
    pub uml_sha256: String,
    pub builder_initramfs_sha256: String,
    pub validator_initramfs_sha256: String,
    pub mke2fs_sha256: String,
    pub e2fsck_sha256: String,
    pub mke2fs_config_sha256: String,
    pub e2fsck_config_sha256: String,
    pub manifest_schema: String,
    pub validator_manifest_schema: String,
    pub builder_tools: Vec<ToolIdentity>,
    pub source_date_epoch: u64,
    pub target_initial_size_bytes: u64,
    pub target_initial_inodes: u64,
    pub target_retry_size_bytes: Option<u64>,
    pub target_retry_inodes: Option<u64>,
    pub filesystem_sizing_contract: &'static str,
    pub directory_hash_seed_contract: &'static str,
    pub capacity_retry_contract: &'static str,
    pub conversion_contract: &'static str,
    pub validation_contract: &'static str,
    pub protocol_major: u16,
    pub protocol_minor: u16,
}

/// The digests of the artifacts that shape a build.
pub open spec fn binds_artifacts(
    uml: Seq<char>,
    builder_initramfs: Seq<char>,
    validator_initramfs: Seq<char>,
    mke2fs: Seq<char>,
    e2fsck: Seq<char>,
    mke2fs_config: Seq<char>,
    e2fsck_config: Seq<char>,
    manifest: ProfileManifest,
) -> bool {
    &&& uml == digest_text(manifest.artifacts.uml.sha256@)
    &&& builder_initramfs == digest_text(manifest.artifacts.builder_initramfs.sha256@)
    &&& validator_initramfs == digest_text(manifest.artifacts.validator_initramfs.sha256@)
    &&& mke2fs == digest_text(manifest.artifacts.mke2fs.sha256@)
    &&& e2fsck == digest_text(manifest.artifacts.e2fsck.sha256@)
    &&& mke2fs_config == digest_text(manifest.artifacts.mke2fs_config.sha256@)
    &&& e2fsck_config == digest_text(manifest.artifacts.e2fsck_config.sha256@)
}

pub open spec fn retry_bytes(target: FilesystemSizing) -> Option<u64> {
    match target.retry {
        Some(size) => Some(size.bytes),
        None => None,
    }
}

pub open spec fn retry_inodes(target: FilesystemSizing) -> Option<u64> {
    match target.retry {
        Some(size) => Some(size.inodes),
        None => None,
    }
}

/// Whether a record is the build contract of a profile and a target sizing.
pub open spec fn is_build_contract(
    record: BuildContractRecord,
    manifest: ProfileManifest,
    target: FilesystemSizing,
    protocol_major: u16,
    protocol_minor: u16,
) -> bool {
    &&& record.schema@ == "pocket-host-build-contract-v4"@
    &&& record.profile_id@ == manifest.profile_id@
    &&& record.profile_revision@ == digest_text(manifest.profile_revision@)
    &&& record.selector_policy@ == manifest.contracts.selector_policy@
    &&& binds_artifacts(
        record.uml_sha256@,
        record.builder_initramfs_sha256@,
        record.validator_initramfs_sha256@,
        record.mke2fs_sha256@,
        record.e2fsck_sha256@,
        record.mke2fs_config_sha256@,
        record.e2fsck_config_sha256@,
        manifest,
    )
    &&& record.manifest_schema@ == manifest.builder.manifest_schema@
    &&& record.validator_manifest_schema@ == manifest.validator.manifest_schema@
    &&& tool_texts(record.builder_tools@) == contract_tools(manifest.builder.required_tools@)
    &&& record.source_date_epoch == manifest.builder.source_date_epoch
    &&& record.target_initial_size_bytes == target.initial.bytes
    &&& record.target_initial_inodes == target.initial.inodes
    &&& record.target_retry_size_bytes == retry_bytes(target)
    &&& record.target_retry_inodes == retry_inodes(target)
    &&& record.filesystem_sizing_contract@ == "pocket-ext4-bytes-inodes-v2"@
    &&& record.directory_hash_seed_contract@ == "sha256-derivation-domain-uuid-v1"@
    &&& record.capacity_retry_contract@ == "fresh-next-block-and-inode-class-once-v1"@
    &&& record.conversion_contract@ == "pocket-umoci-raw-unpack-v1"@
    &&& record.validation_contract@ == "fresh-read-only-uml-challenge-evidence-v1"@
    &&& record.protocol_major == protocol_major
    &&& record.protocol_minor == protocol_minor
}

pub fn build_contract(
    manifest: &ProfileManifest,
    target: FilesystemSizing,
    protocol_major: u16,
    protocol_minor: u16,
) -> (record: BuildContractRecord)
    ensures
        is_build_contract(record, *manifest, target, protocol_major, protocol_minor),
{
    BuildContractRecord {
        schema: "pocket-host-build-contract-v4",
        profile_id: manifest.profile_id.clone(),
        profile_revision: manifest.profile_revision.to_text(),
        selector_policy: manifest.contracts.selector_policy.clone(),
        uml_sha256: manifest.artifacts.uml.sha256.to_text(),
        builder_initramfs_sha256: manifest.artifacts.builder_initramfs.sha256.to_text(),
        validator_initramfs_sha256: manifest.artifacts.validator_initramfs.sha256.to_text(),
        mke2fs_sha256: manifest.artifacts.mke2fs.sha256.to_text(),
        e2fsck_sha256: manifest.artifacts.e2fsck.sha256.to_text(),
        mke2fs_config_sha256: manifest.artifacts.mke2fs_config.sha256.to_text(),
        e2fsck_config_sha256: manifest.artifacts.e2fsck_config.sha256.to_text(),
        manifest_schema: manifest.builder.manifest_schema.clone(),
        validator_manifest_schema: manifest.validator.manifest_schema.clone(),
        builder_tools: required_tools(&manifest.builder.required_tools),
        source_date_epoch: manifest.builder.source_date_epoch,
        target_initial_size_bytes: target.initial.bytes,
        target_initial_inodes: target.initial.inodes,
        target_retry_size_bytes: match target.retry {
            Some(size) => Some(size.bytes),
            None => None,
        },
        target_retry_inodes: match target.retry {
            Some(size) => Some(size.inodes),
            None => None,
        },
        filesystem_sizing_contract: "pocket-ext4-bytes-inodes-v2",
        directory_hash_seed_contract: "sha256-derivation-domain-uuid-v1",
        capacity_retry_contract: "fresh-next-block-and-inode-class-once-v1",
        conversion_contract: "pocket-umoci-raw-unpack-v1",
        validation_contract: "fresh-read-only-uml-challenge-evidence-v1",
        protocol_major,
        protocol_minor,
    }
}

/// How a build contract's digest turns out, given how its record was encoded.
pub open spec fn contract_digest_outcome(answer: Result<Vec<u8>, String>) -> Result<
    Seq<u8>,
    HostBuildFault,
> {
    match answer {
        Ok(encoded) => Ok(sha256_of(encoded@)),
        Err(reason) => Err(invalid_build("build_contract"@, "cannot serialize: "@ + reason@)),
    }
}

/// Whether `digest` is what the contract of a profile and a target sizing comes
/// to.
pub open spec fn is_contract_digest<E>(
    manifest: ProfileManifest,
    target: FilesystemSizing,
    protocol_major: u16,
    protocol_minor: u16,
    encode: E,
    digest: Result<Seq<u8>, HostBuildFault>,
) -> bool where E: Fn(&BuildContractRecord) -> Result<Vec<u8>, String> {
    exists|record: BuildContractRecord, answer: Result<Vec<u8>, String>|
        {
            &&& #[trigger] is_build_contract(
                record,
                manifest,
                target,
                protocol_major,
                protocol_minor,
            )
            &&& #[trigger] call_ensures(encode, (&record,), answer)
            &&& digest == contract_digest_outcome(answer)
        }
}

/// The identity of the build contract of a profile and a target sizing.
/// `encode` gives the contract in compact JSON, in the declared order, or says
/// why it cannot.
pub fn build_contract_digest<E>(
    manifest: &ProfileManifest,
    target: FilesystemSizing,
    protocol_major: u16,
    protocol_minor: u16,
    encode: &E,
) -> (digest: Result<ArtifactDigest, HostBuildError>) where
    E: Fn(&BuildContractRecord) -> Result<Vec<u8>, String>

    requires
        forall|record: &BuildContractRecord| #[trigger] call_requires(*encode, (record,)),
    ensures
        is_contract_digest(
            *manifest,
            target,
            protocol_major,
            protocol_minor,
            *encode,
            match digest {
                Ok(digest) => Ok(digest@),
                Err(error) => Err(error@),
            },
        ),
{
    let record = build_contract(manifest, target, protocol_major, protocol_minor);
    match encode(&record) {
        Ok(encoded) => Ok(ArtifactDigest::of_bytes(&encoded)),
        Err(reason) => Err(
            HostBuildError::invalid("build_contract", &join("cannot serialize: ", &reason)),
        ),
    }
}

/// Whether two contracts state the same thing.
pub open spec fn same_build_contract(left: BuildContractRecord, right: BuildContractRecord) -> bool {
    &&& left.schema@ == right.schema@
    &&& left.profile_id@ == right.profile_id@
    &&& left.profile_revision@ == right.profile_revision@
    &&& left.selector_policy@ == right.selector_policy@
    &&& left.uml_sha256@ == right.uml_sha256@
    &&& left.builder_initramfs_sha256@ == right.builder_initramfs_sha256@
    &&& left.validator_initramfs_sha256@ == right.validator_initramfs_sha256@
    &&& left.mke2fs_sha256@ == right.mke2fs_sha256@
    &&& left.e2fsck_sha256@ == right.e2fsck_sha256@
    &&& left.mke2fs_config_sha256@ == right.mke2fs_config_sha256@
    &&& left.e2fsck_config_sha256@ == right.e2fsck_config_sha256@
    &&& left.manifest_schema@ == right.manifest_schema@
    &&& left.validator_manifest_schema@ == right.validator_manifest_schema@
    &&& tool_texts(left.builder_tools@) == tool_texts(right.builder_tools@)
    &&& left.source_date_epoch == right.source_date_epoch
    &&& left.target_initial_size_bytes == right.target_initial_size_bytes
    &&& left.target_initial_inodes == right.target_initial_inodes
    &&& left.target_retry_size_bytes == right.target_retry_size_bytes
    &&& left.target_retry_inodes == right.target_retry_inodes
    &&& left.filesystem_sizing_contract@ == right.filesystem_sizing_contract@
    &&& left.directory_hash_seed_contract@ == right.directory_hash_seed_contract@
    &&& left.capacity_retry_contract@ == right.capacity_retry_contract@
    &&& left.conversion_contract@ == right.conversion_contract@
    &&& left.validation_contract@ == right.validation_contract@
    &&& left.protocol_major == right.protocol_major
    &&& left.protocol_minor == right.protocol_minor
}

/// A generation's identity names what it is, not how much host scratch space
/// went into making it: the same profile and target sizing give the same
/// contract whatever the payload, and another target sizing another one.
pub proof fn law_only_target_sizing_shapes_the_contract(
    left: BuildContractRecord,
    right: BuildContractRecord,
    manifest: ProfileManifest,
    first: FilesystemSizing,
    second: FilesystemSizing,
    protocol_major: u16,
    protocol_minor: u16,
)
    requires
        is_build_contract(left, manifest, first, protocol_major, protocol_minor),
        is_build_contract(right, manifest, second, protocol_major, protocol_minor),
    ensures
        same_build_contract(left, right) == (first == second),
{
}

// ---------------------------------------------------------------------------
// An adjusted generation
// ---------------------------------------------------------------------------

/// Whether a specification is another one under a new build contract.
pub open spec fn is_adjusted(
    spec: GenerationSpec,
    previous: GenerationSpec,
    contract: Seq<u8>,
) -> bool {
    spec == (GenerationSpec { build_contract_digest: spec.build_contract_digest, ..previous })
        && spec.build_contract_digest@ == contract
}

/// The specification of an image republished at another size: only its build
/// contract differs.
pub fn adjusted_spec(previous: GenerationSpec, contract: ArtifactDigest) -> (spec: GenerationSpec)
    ensures
        is_adjusted(spec, previous, contract@),
{
    let mut spec = previous;
    spec.build_contract_digest = contract;
    spec
}

// ---------------------------------------------------------------------------
// The build record
// ---------------------------------------------------------------------------

/// How reproducible a build is.
#[derive(Debug)]
pub struct BuildReproducibility {
    pub result: &'static str,
    pub normalized_inputs: [&'static str; 3],
    pub remaining_nondeterministic_inputs: [&'static str; 3],
}

pub open spec fn states_reproducibility(record: BuildReproducibility) -> bool {
    &&& record.result@ == "exact-output-digest-only-v1"@
    &&& record.normalized_inputs@.len() == 3
    &&& record.normalized_inputs@[0]@ == "e2fsprogs-fake-time"@
    &&& record.normalized_inputs@[1]@ == "guest-realtime-initialized-before-target-mount"@
    &&& record.normalized_inputs@[2]@ == "derivation-bound-ext4-directory-hash-seeds"@
    &&& record.remaining_nondeterministic_inputs@.len() == 3
    &&& record.remaining_nondeterministic_inputs@[0]@
        == "guest-realtime-advances-during-conversion-and-generated-ctime-can-vary"@
    &&& record.remaining_nondeterministic_inputs@[1]@
        == "kernel-ext4-inode-generation-and-journal-runtime-entropy-are-not-normalized"@
    &&& record.remaining_nondeterministic_inputs@[2]@
        == "fresh-validator-challenge-randomizes-validation-evidence-sidecar-and-final-generation-id"@
}

pub fn build_reproducibility() -> (record: BuildReproducibility)
    ensures
        states_reproducibility(record),
{
    BuildReproducibility {
        result: "exact-output-digest-only-v1",
        normalized_inputs: [
            "e2fsprogs-fake-time",
            "guest-realtime-initialized-before-target-mount",
            "derivation-bound-ext4-directory-hash-seeds",
        ],
        remaining_nondeterministic_inputs: [
            "guest-realtime-advances-during-conversion-and-generated-ctime-can-vary",
            "kernel-ext4-inode-generation-and-journal-runtime-entropy-are-not-normalized",
            "fresh-validator-challenge-randomizes-validation-evidence-sidecar-and-final-generation-id",
        ],
    }
}

/// The sizes a build ended with, and how it came to them.
#[derive(Debug, Clone, Copy)]
pub struct BuildSizingEvidence {
    pub payload: FilesystemSize,
    pub payload_attempts: u8,
    pub payload_retry_resource: Option<CapacityResource>,
    pub target: FilesystemSize,
    pub target_attempts: u8,
    pub target_retry_resource: Option<CapacityResource>,
}

/// What a validator attests of a filesystem.
#[derive(Debug, Clone)]
pub struct ValidatorDone {
    pub challenge: String,
    pub evidence_sha256: String,
    pub manifest_sha256: String,
    pub manifest_entry_count: u64,
    pub manifest_byte_count: u64,
    pub generation_marker_sha256: String,
    pub account_db_sha256: String,
    pub filesystem_uuid: String,
    pub filesystem_bytes: u64,
    pub clean_before_mount: bool,
    pub block_device_read_only: bool,
    pub mounted_read_only: bool,
    pub unmounted: bool,
    pub clean_after_unmount: bool,
}

/// What is recorded beside a published generation, in the order it is encoded.
#[derive(Debug)]
pub struct BuildRecord {
    pub schema: &'static str,
    pub profile_id: String,
    pub profile_revision: String,
    pub derivation_key: String,
    pub selected_manifest: String,
    pub config: String,
    pub descriptor_platform: Option<ImagePlatform>,
    pub config_platform: ImagePlatform,
    pub effective_platform: ImagePlatform,
    pub selector_policy: String,
    pub root_layout: String,
    pub filesystem_contract: String,
    pub base_sha256: String,
    pub base_size: u64,
    pub manifest_sha256: String,
    pub manifest_entry_count: u64,
    pub manifest_byte_count: u64,
    pub generation_marker_sha256: String,
    pub account_db_sha256: String,
    pub original_user: String,
    pub user_resolution: UserResolution,
    pub observed_tools: Vec<ToolIdentity>,
    pub uml_sha256: String,
    pub builder_initramfs_sha256: String,
    pub validator_initramfs_sha256: String,
    pub mke2fs_sha256: String,
    pub e2fsck_sha256: String,
    pub mke2fs_config_sha256: String,
    pub e2fsck_config_sha256: String,
    pub payload_size_bytes: u64,
    pub payload_requested_inode_count: u64,
    pub payload_attempts: u8,
    pub payload_retry_resource: Option<&'static str>,
    pub payload_directory_hash_seed: String,
    pub target_size_bytes: u64,
    pub target_requested_inode_count: u64,
    pub target_attempts: u8,
    pub target_retry_resource: Option<&'static str>,
    pub target_directory_hash_seed: String,
    pub source_date_epoch: u64,
    pub validation_protocol: &'static str,
    pub validation: ValidatorDone,
    pub reproducibility: BuildReproducibility,
}

/// The text of an image platform.
pub struct ImagePlatformText {
    pub os: Seq<char>,
    pub architecture: Seq<char>,
    pub variant: Option<Seq<char>>,
    pub os_version: Option<Seq<char>>,
    pub os_features: Seq<Seq<char>>,
    pub features: Seq<Seq<char>>,
}

pub open spec fn platform_text(platform: ImagePlatform) -> ImagePlatformText {
    ImagePlatformText {
        os: platform.os@,
        architecture: platform.architecture@,
        variant: optional_text(platform.variant),
        os_version: optional_text(platform.os_version),
        os_features: texts(platform.os_features@),
        features: texts(platform.features@),
    }
}

fn copy_platform(platform: &ImagePlatform) -> (copy: ImagePlatform)
    ensures
        platform_text(copy) == platform_text(*platform),
{
    ImagePlatform {
        os: platform.os.clone(),
        architecture: platform.architecture.clone(),
        variant: copy_optional(&platform.variant),
        os_version: copy_optional(&platform.os_version),
        os_features: copy_texts(&platform.os_features),
        features: copy_texts(&platform.features),
    }
}

pub open spec fn optional_resource(resource: Option<CapacityResource>) -> Option<Seq<char>> {
    match resource {
        Some(resource) => Some(resource_name(resource)),
        None => None,
    }
}

pub open spec fn static_text(text: Option<&'static str>) -> Option<Seq<char>> {
    match text {
        Some(text) => Some(text@),
        None => None,
    }
}

fn resource_text(resource: Option<CapacityResource>) -> (text: Option<&'static str>)
    ensures
        static_text(text) == optional_resource(resource),
{
    match resource {
        Some(resource) => Some(resource.as_str()),
        None => None,
    }
}

/// Whether a record states the identities of a build.
pub open spec fn records_identity(
    record: BuildRecord,
    manifest: ProfileManifest,
    image: VerifiedImage,
    derivation_key: Seq<char>,
    base_digest: Seq<u8>,
    base_size: u64,
) -> bool {
    &&& record.schema@ == "pocket-build-record-v4"@
    &&& record.profile_id@ == manifest.profile_id@
    &&& record.profile_revision@ == digest_text(manifest.profile_revision@)
    &&& record.derivation_key@ == derivation_key
    &&& record.selected_manifest@ == digest_text(image.manifest_digest@)
    &&& record.config@ == digest_text(image.config_digest@)
    &&& match (record.descriptor_platform, image.descriptor_platform) {
        (Some(recorded), Some(platform)) => platform_text(recorded) == platform_text(platform),
        (None, None) => true,
        _ => false,
    }
    &&& platform_text(record.config_platform) == platform_text(image.config_platform)
    &&& platform_text(record.effective_platform) == platform_text(image.effective_platform)
    &&& record.selector_policy@ == image.selector_policy@
    &&& record.root_layout@ == manifest.contracts.root_layout@
    &&& record.filesystem_contract@ == manifest.contracts.filesystem@
    &&& record.base_sha256@ == digest_text(base_digest)
    &&& record.base_size == base_size
    &&& binds_artifacts(
        record.uml_sha256@,
        record.builder_initramfs_sha256@,
        record.validator_initramfs_sha256@,
        record.mke2fs_sha256@,
        record.e2fsck_sha256@,
        record.mke2fs_config_sha256@,
        record.e2fsck_config_sha256@,
        manifest,
    )
    &&& record.source_date_epoch == manifest.builder.source_date_epoch
}

/// Whether a record states what the builder and the validator reported.
pub open spec fn records_reports(
    record: BuildRecord,
    done: BuilderDone,
    validation: ValidatorDone,
) -> bool {
    &&& record.manifest_sha256@ == done.manifest_sha256@
    &&& record.manifest_entry_count == done.entry_count
    &&& record.manifest_byte_count == done.byte_count
    &&& record.generation_marker_sha256@ == done.generation_marker_sha256@
    &&& record.account_db_sha256@ == done.account_db_sha256@
    &&& record.original_user@ == done.original_user@
    &&& record.user_resolution == done.user_resolution
    &&& tool_texts(record.observed_tools@) == tool_texts(done.observed_tools@)
    &&& record.validation_protocol@ == "fresh-read-only-uml-challenge-evidence-v1"@
    &&& record.validation == validation
    &&& states_reproducibility(record.reproducibility)
}

/// Whether a record states the sizes of a build.
pub open spec fn records_sizes(
    record: BuildRecord,
    sizing: BuildSizingEvidence,
    payload_hash_seed: Seq<char>,
    target_hash_seed: Seq<char>,
) -> bool {
    &&& record.payload_size_bytes == sizing.payload.bytes
    &&& record.payload_requested_inode_count == sizing.payload.inodes
    &&& record.payload_attempts == sizing.payload_attempts
    &&& static_text(record.payload_retry_resource) == optional_resource(
        sizing.payload_retry_resource,
    )
    &&& record.payload_directory_hash_seed@ == payload_hash_seed
    &&& record.target_size_bytes == sizing.target.bytes
    &&& record.target_requested_inode_count == sizing.target.inodes
    &&& record.target_attempts == sizing.target_attempts
    &&& static_text(record.target_retry_resource) == optional_resource(
        sizing.target_retry_resource,
    )
    &&& record.target_directory_hash_seed@ == target_hash_seed
}

/// Records a finished build. `derivation_key` is the key's text, as the store
/// spells it.
pub fn build_record(
    manifest: &ProfileManifest,
    image: &VerifiedImage,
    derivation_key: &str,
    done: BuilderDone,
    validation: ValidatorDone,
    base_digest: ArtifactDigest,
    base_size: u64,
    sizing: BuildSizingEvidence,
    payload_hash_seed: &str,
    target_hash_seed: &str,
) -> (record: BuildRecord)
    ensures
        records_identity(
            record,
            *manifest,
            *image,
            derivation_key@,
            base_digest@,
            base_size,
        ),
        records_reports(record, done, validation),
        records_sizes(record, sizing, payload_hash_seed@, target_hash_seed@),
{
    BuildRecord {
        schema: "pocket-build-record-v4",
        profile_id: manifest.profile_id.clone(),
        profile_revision: manifest.profile_revision.to_text(),
        derivation_key: derivation_key.to_owned(),
        selected_manifest: image.manifest_digest.to_text(),
        config: image.config_digest.to_text(),
        descriptor_platform: match &image.descriptor_platform {
            Some(platform) => Some(copy_platform(platform)),
            None => None,
        },
        config_platform: copy_platform(&image.config_platform),
        effective_platform: copy_platform(&image.effective_platform),
        selector_policy: image.selector_policy.clone(),
        root_layout: manifest.contracts.root_layout.clone(),
        filesystem_contract: manifest.contracts.filesystem.clone(),
        base_sha256: base_digest.to_text(),
        base_size,
        manifest_sha256: done.manifest_sha256.clone(),
        manifest_entry_count: done.entry_count,
        manifest_byte_count: done.byte_count,
        generation_marker_sha256: done.generation_marker_sha256.clone(),
        account_db_sha256: done.account_db_sha256.clone(),
        original_user: done.original_user.clone(),
        observed_tools: copy_tools(&done.observed_tools),
        user_resolution: done.user_resolution,
        uml_sha256: manifest.artifacts.uml.sha256.to_text(),
        builder_initramfs_sha256: manifest.artifacts.builder_initramfs.sha256.to_text(),
        validator_initramfs_sha256: manifest.artifacts.validator_initramfs.sha256.to_text(),
        mke2fs_sha256: manifest.artifacts.mke2fs.sha256.to_text(),
        e2fsck_sha256: manifest.artifacts.e2fsck.sha256.to_text(),
        mke2fs_config_sha256: manifest.artifacts.mke2fs_config.sha256.to_text(),
        e2fsck_config_sha256: manifest.artifacts.e2fsck_config.sha256.to_text(),
        payload_size_bytes: sizing.payload.bytes,
        payload_requested_inode_count: sizing.payload.inodes,
        payload_attempts: sizing.payload_attempts,
        payload_retry_resource: resource_text(sizing.payload_retry_resource),
        payload_directory_hash_seed: payload_hash_seed.to_owned(),
        target_size_bytes: sizing.target.bytes,
        target_requested_inode_count: sizing.target.inodes,
        target_attempts: sizing.target_attempts,
        target_retry_resource: resource_text(sizing.target_retry_resource),
        target_directory_hash_seed: target_hash_seed.to_owned(),
        source_date_epoch: manifest.builder.source_date_epoch,
        validation_protocol: "fresh-read-only-uml-challenge-evidence-v1",
        validation,
        reproducibility: build_reproducibility(),
    }
}

/// The builder is started with the image as it was verified, under the
/// profile's contracts, with the memory of builders.
pub proof fn law_builder_starts_with_the_image(
    manifest: ProfileManifest,
    image: VerifiedImage,
    derivation_key: &[u8; 32],
    start: BuilderStart,
)
    requires
        call_ensures(builder_start, (&manifest, &image, derivation_key), start),
    ensures
        start.profile_id@ == manifest.profile_id@,
        start.profile_revision@ == hex_of(manifest.profile_revision@),
        start.derivation_key@ == hex_of(derivation_key@),
        start.selected_manifest.digest@ == digest_text(image.manifest_digest@),
        start.selected_manifest.size == image.manifest_size,
        start.selected_manifest.media_type@ == image.manifest_media_type@,
        start.config.digest@ == digest_text(image.config_digest@),
        start.config.size == image.config_size,
        start.config.media_type@ == image.config_media_type@,
        start.layers@.len() == image.layers@.len(),
        forall|i: int|
            0 <= i < image.layers@.len() ==> {
                let told = #[trigger] start.layers@[i];
                let layer = image.layers@[i];
                &&& told.descriptor.digest@ == digest_text(layer.digest@)
                &&& told.descriptor.size == layer.size
                &&& told.descriptor.media_type@ == layer.media_type@
                &&& told.diff_id@ == digest_text(layer.diff_id@)
                &&& told.uncompressed_size == layer.uncompressed_size
            },
        start.descriptor_platform is Some <==> image.descriptor_platform is Some,
        start.descriptor_platform matches Some(told) ==> {
            &&& told.os@ == image.descriptor_platform->Some_0.os@
            &&& told.architecture@ == image.descriptor_platform->Some_0.architecture@
            &&& optional_text(told.variant) == optional_text(
                image.descriptor_platform->Some_0.variant,
            )
        },
        start.config_platform.os@ == image.config_platform.os@,
        start.config_platform.architecture@ == image.config_platform.architecture@,
        optional_text(start.config_platform.variant) == optional_text(
            image.config_platform.variant,
        ),
        start.effective_platform.os@ == image.effective_platform.os@,
        start.effective_platform.architecture@ == image.effective_platform.architecture@,
        optional_text(start.effective_platform.variant) == optional_text(
            image.effective_platform.variant,
        ),
        start.selector_policy@ == image.selector_policy@,
        start.root_layout@ == manifest.contracts.root_layout@,
        start.filesystem_contract@ == manifest.contracts.filesystem@,
        start.manifest_schema@ == manifest.builder.manifest_schema@,
        start.input_reference@ == "root"@,
        start.original_user@ == image.original_user@,
        start.expected_physmem_bytes == manifest.memory.builder_memory_bytes,
        start.source_date_epoch == manifest.builder.source_date_epoch,
        start.expected_tools@.len() == manifest.builder.required_tools@.len(),
        forall|i: int|
            0 <= i < start.expected_tools@.len() ==> {
                let told = #[trigger] start.expected_tools@[i];
                let tool = manifest.builder.required_tools@[i];
                told.role@ == tool.role@ && told.sha256@ == tool.sha256@ && told.version@
                    == tool.version@
            },
{
    lemma_same_tools(start.expected_tools@, manifest.builder.required_tools@);
}

proof fn lemma_same_tools(told: Seq<ToolIdentity>, tools: Seq<BuilderToolContract>)
    requires
        tool_texts(told) == contract_tools(tools),
    ensures
        told.len() == tools.len(),
        forall|i: int|
            0 <= i < told.len() ==> (#[trigger] told[i]).role@ == tools[i].role@ && told[i].sha256@
                == tools[i].sha256@ && told[i].version@ == tools[i].version@,
{
    assert(tool_texts(told).len() == told.len());
    assert(contract_tools(tools).len() == tools.len());
    assert forall|i: int| 0 <= i < told.len() implies (#[trigger] told[i]).role@ == tools[i].role@
        && told[i].sha256@ == tools[i].sha256@ && told[i].version@ == tools[i].version@ by {
        let left = tool_texts(told)[i];
        let right = contract_tools(tools)[i];
        assert(left == right);
        assert(left.role == told[i].role@ && right.role == tools[i].role@);
        assert(left.sha256 == told[i].sha256@ && right.sha256 == tools[i].sha256@);
        assert(left.version == told[i].version@ && right.version == tools[i].version@);
    }
}

/// The validator is started with what the builder reported, the challenge, and
/// the filesystem that it is to find, with the memory of validators.
pub proof fn law_validator_starts_with_the_report(
    manifest: ProfileManifest,
    derivation_key: &[u8; 32],
    done: BuilderDone,
    target_uuid: &str,
    target_bytes: u64,
    challenge: &str,
    start: ValidatorStart,
)
    requires
        call_ensures(
            validator_start,
            (&manifest, derivation_key, &done, target_uuid, target_bytes, challenge),
            start,
        ),
    ensures
        start.profile_id@ == manifest.profile_id@,
        start.profile_revision@ == hex_of(manifest.profile_revision@),
        start.challenge@ == challenge@,
        start.derivation_key@ == hex_of(derivation_key@),
        start.root_layout@ == manifest.contracts.root_layout@,
        start.filesystem_contract@ == manifest.contracts.filesystem@,
        start.manifest_schema@ == manifest.validator.manifest_schema@,
        start.expected_manifest_sha256@ == done.manifest_sha256@,
        start.expected_manifest_entry_count == done.entry_count,
        start.expected_manifest_byte_count == done.byte_count,
        start.expected_generation_marker_sha256@ == done.generation_marker_sha256@,
        start.expected_filesystem_uuid@ == target_uuid@,
        start.expected_filesystem_bytes == target_bytes,
        start.expected_physmem_bytes == manifest.memory.validator_memory_bytes,
{
}

/// A build contract names every artifact by its own digest, the target's sizes,
/// and the rules that the build keeps.
pub proof fn law_contract_names_what_builds(
    manifest: ProfileManifest,
    target: FilesystemSizing,
    protocol_major: u16,
    protocol_minor: u16,
    record: BuildContractRecord,
)
    requires
        call_ensures(
            build_contract,
            (&manifest, target, protocol_major, protocol_minor),
            record,
        ),
    ensures
        record.schema@ == "pocket-host-build-contract-v4"@,
        record.profile_id@ == manifest.profile_id@,
        record.profile_revision@ == digest_text(manifest.profile_revision@),
        record.selector_policy@ == manifest.contracts.selector_policy@,
        record.uml_sha256@ == digest_text(manifest.artifacts.uml.sha256@),
        record.builder_initramfs_sha256@ == digest_text(manifest.artifacts.builder_initramfs.sha256@),
        record.validator_initramfs_sha256@ == digest_text(manifest.artifacts.validator_initramfs.sha256@),
        record.mke2fs_sha256@ == digest_text(manifest.artifacts.mke2fs.sha256@),
        record.e2fsck_sha256@ == digest_text(manifest.artifacts.e2fsck.sha256@),
        record.mke2fs_config_sha256@ == digest_text(manifest.artifacts.mke2fs_config.sha256@),
        record.e2fsck_config_sha256@ == digest_text(manifest.artifacts.e2fsck_config.sha256@),
        record.manifest_schema@ == manifest.builder.manifest_schema@,
        record.validator_manifest_schema@ == manifest.validator.manifest_schema@,
        record.source_date_epoch == manifest.builder.source_date_epoch,
        record.target_initial_size_bytes == target.initial.bytes,
        record.target_initial_inodes == target.initial.inodes,
        target.retry is None ==> record.target_retry_size_bytes is None
            && record.target_retry_inodes is None,
        target.retry matches Some(retry) ==> record.target_retry_size_bytes == Some(retry.bytes)
            && record.target_retry_inodes == Some(retry.inodes),
        record.filesystem_sizing_contract@ == "pocket-ext4-bytes-inodes-v2"@,
        record.directory_hash_seed_contract@ == "sha256-derivation-domain-uuid-v1"@,
        record.capacity_retry_contract@ == "fresh-next-block-and-inode-class-once-v1"@,
        record.conversion_contract@ == "pocket-umoci-raw-unpack-v1"@,
        record.validation_contract@ == "fresh-read-only-uml-challenge-evidence-v1"@,
        record.protocol_major == protocol_major,
        record.protocol_minor == protocol_minor,
        forall|i: int|
            0 <= i < record.builder_tools@.len() ==> {
                let told = #[trigger] record.builder_tools@[i];
                let tool = manifest.builder.required_tools@[i];
                told.role@ == tool.role@ && told.sha256@ == tool.sha256@ && told.version@
                    == tool.version@
            },
        record.builder_tools@.len() == manifest.builder.required_tools@.len(),
{
    lemma_same_tools(record.builder_tools@, manifest.builder.required_tools@);
}

/// Resizing a generation changes its build contract and nothing else of it.
pub proof fn law_adjusted_generation_keeps_its_image(
    previous: GenerationSpec,
    contract: ArtifactDigest,
    spec: GenerationSpec,
)
    requires
        call_ensures(adjusted_spec, (previous, contract), spec),
    ensures
        spec.build_contract_digest@ == contract@,
        spec.selected_manifest_digest == previous.selected_manifest_digest,
        spec.config_digest == previous.config_digest,
        spec.layer_digests == previous.layer_digests,
        spec.diff_ids == previous.diff_ids,
        spec.descriptor_platform == previous.descriptor_platform,
        spec.config_platform == previous.config_platform,
        spec.effective_platform == previous.effective_platform,
        spec.selector_policy_id == previous.selector_policy_id,
        spec.profile_id == previous.profile_id,
        spec.profile_revision == previous.profile_revision,
        spec.root_layout_contract == previous.root_layout_contract,
        spec.filesystem_contract == previous.filesystem_contract,
{
}

/// A build record says what was built of what, what the guests reported, and
/// what it took.
pub proof fn law_record_says_what_was_built(
    manifest: ProfileManifest,
    image: VerifiedImage,
    derivation_key: &str,
    done: BuilderDone,
    validation: ValidatorDone,
    base_digest: ArtifactDigest,
    base_size: u64,
    sizing: BuildSizingEvidence,
    payload_hash_seed: &str,
    target_hash_seed: &str,
    record: BuildRecord,
)
    requires
        call_ensures(
            build_record,
            (
                &manifest,
                &image,
                derivation_key,
                done,
                validation,
                base_digest,
                base_size,
                sizing,
                payload_hash_seed,
                target_hash_seed,
            ),
            record,
        ),
    ensures
        record.schema@ == "pocket-build-record-v4"@,
        record.profile_id@ == manifest.profile_id@,
        record.profile_revision@ == digest_text(manifest.profile_revision@),
        record.derivation_key@ == derivation_key@,
        record.selected_manifest@ == digest_text(image.manifest_digest@),
        record.config@ == digest_text(image.config_digest@),
        platform_text(record.config_platform) == platform_text(image.config_platform),
        platform_text(record.effective_platform) == platform_text(image.effective_platform),
        record.descriptor_platform is Some <==> image.descriptor_platform is Some,
        record.descriptor_platform matches Some(platform) ==> platform_text(platform)
            == platform_text(image.descriptor_platform->Some_0),
        record.selector_policy@ == image.selector_policy@,
        record.root_layout@ == manifest.contracts.root_layout@,
        record.filesystem_contract@ == manifest.contracts.filesystem@,
        record.base_sha256@ == digest_text(base_digest@),
        record.base_size == base_size,
        record.uml_sha256@ == digest_text(manifest.artifacts.uml.sha256@),
        record.builder_initramfs_sha256@ == digest_text(manifest.artifacts.builder_initramfs.sha256@),
        record.validator_initramfs_sha256@ == digest_text(manifest.artifacts.validator_initramfs.sha256@),
        record.mke2fs_sha256@ == digest_text(manifest.artifacts.mke2fs.sha256@),
        record.e2fsck_sha256@ == digest_text(manifest.artifacts.e2fsck.sha256@),
        record.mke2fs_config_sha256@ == digest_text(manifest.artifacts.mke2fs_config.sha256@),
        record.e2fsck_config_sha256@ == digest_text(manifest.artifacts.e2fsck_config.sha256@),
        record.source_date_epoch == manifest.builder.source_date_epoch,
        record.manifest_sha256@ == done.manifest_sha256@,
        record.manifest_entry_count == done.entry_count,
        record.manifest_byte_count == done.byte_count,
        record.generation_marker_sha256@ == done.generation_marker_sha256@,
        record.account_db_sha256@ == done.account_db_sha256@,
        record.original_user@ == done.original_user@,
        record.user_resolution == done.user_resolution,
        tool_texts(record.observed_tools@) == tool_texts(done.observed_tools@),
        record.validation_protocol@ == "fresh-read-only-uml-challenge-evidence-v1"@,
        record.validation == validation,
        record.payload_size_bytes == sizing.payload.bytes,
        record.payload_requested_inode_count == sizing.payload.inodes,
        record.payload_attempts == sizing.payload_attempts,
        record.payload_directory_hash_seed@ == payload_hash_seed@,
        record.target_size_bytes == sizing.target.bytes,
        record.target_requested_inode_count == sizing.target.inodes,
        record.target_attempts == sizing.target_attempts,
        record.target_directory_hash_seed@ == target_hash_seed@,
        static_text(record.payload_retry_resource) == match sizing.payload_retry_resource {
            Some(resource) => Some(resource_name(resource)),
            None => None,
        },
        static_text(record.target_retry_resource) == match sizing.target_retry_resource {
            Some(resource) => Some(resource_name(resource)),
            None => None,
        },
{
}

/// What a build promises of its output, and what it does not.
pub proof fn law_reproducibility_is_stated(record: BuildReproducibility)
    requires
        call_ensures(build_reproducibility, (), record),
    ensures
        record.result@ == "exact-output-digest-only-v1"@,
        record.normalized_inputs@[0]@ == "e2fsprogs-fake-time"@,
        record.normalized_inputs@[1]@ == "guest-realtime-initialized-before-target-mount"@,
        record.normalized_inputs@[2]@ == "derivation-bound-ext4-directory-hash-seeds"@,
        record.remaining_nondeterministic_inputs@[0]@
            == "guest-realtime-advances-during-conversion-and-generated-ctime-can-vary"@,
        record.remaining_nondeterministic_inputs@[1]@
            == "kernel-ext4-inode-generation-and-journal-runtime-entropy-are-not-normalized"@,
        record.remaining_nondeterministic_inputs@[2]@
            == "fresh-validator-challenge-randomizes-validation-evidence-sidecar-and-final-generation-id"@,
{
}

} // verus!
