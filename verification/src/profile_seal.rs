//! Deterministic, content-addressed publication of profile bundles.

pub mod publication;

use vstd::prelude::*;
use vstd::utf8::*;

use crate::bytes::extend;
use crate::digest::{all_lower_hex, hex_of, hex_text, is_lower_hex, sha256, sha256_of, FileDigest};
use crate::error::{
    first_of, invalid_field, manifest_fault, manifest_outcome, ManifestError, ManifestFault,
};
use crate::manifest::artifact::permissions;
use crate::manifest::rules::{
    each_tool_fault, has_control, rules_fault, same_features, same_optional, tool_roles,
    validate_manifest, variant_texts, PolicyFacts,
};
use crate::manifest::{
    revision_domain, revision_of, ArtifactManifest, ArtifactSpec, BuilderContract, BuilderToolContract, Contracts,
    CpuManifest, HelloContract, LaunchContract, ProfileManifest, ValidatorContract,
};
use crate::path::{
    absolute, components, is_absolute, join_path, joined, law_joined_path_stays_below, same_location,
    same_path,
};
use crate::text::{
    byte_count, byte_len, chars_of, control_char, debug_spelling, debug_text, decimal, decimal_text,
    is_control, join, join3, same_text, texts,
};

verus! {

/// Most bytes of a profile template.
pub const MAX_TEMPLATE_BYTES: usize = 1024 * 1024;

/// Most bytes of one artifact source.
pub const MAX_SOURCE_ARTIFACT_BYTES: u64 = 4 * 1024 * 1024 * 1024;

pub const GUARD_PATH: &'static str = "host/pocket-guard";

pub const UML_PATH: &'static str = "host/linux";

pub const SKOPEO_PATH: &'static str = "host/skopeo";

pub const NETWORK_HELPER_PATH: &'static str = "host/slirp4netns";

pub const REGISTRY_CA_PATH: &'static str = "host/registry-ca.pem";

pub const WORKLOAD_INITRAMFS_PATH: &'static str = "guest/workload.cpio";

pub const BUILDER_INITRAMFS_PATH: &'static str = "guest/builder.cpio";

pub const VALIDATOR_INITRAMFS_PATH: &'static str = "guest/validator.cpio";

pub const MKE2FS_PATH: &'static str = "host/mke2fs";

pub const E2FSCK_PATH: &'static str = "host/e2fsck";

pub const MKE2FS_CONFIG_PATH: &'static str = "host/mke2fs.conf";

pub const E2FSCK_CONFIG_PATH: &'static str = "host/e2fsck.conf";

pub const KERNEL_CONFIG_PATH: &'static str = "config/linux.config";

/// The mode of a sealed executable.
pub const EXECUTABLE_MODE: u32 = 0o555;

/// The mode of sealed data.
pub const DATA_MODE: u32 = 0o444;

/// Exact build outputs copied into one immutable release-profile revision.
#[derive(Debug, Clone, PartialEq, Eq)]
pub struct ProfileArtifactSources {
    pub guard: String,
    pub uml: String,
    pub skopeo: String,
    /// Unprivileged userspace network stack for the guest's vector device.
    pub network_helper: String,
    pub registry_ca_bundle: String,
    pub workload_initramfs: String,
    pub builder_initramfs: String,
    pub validator_initramfs: String,
    pub mke2fs: String,
    pub e2fsck: String,
    pub mke2fs_config: String,
    pub e2fsck_config: String,
    pub normalized_kernel_config: String,
}

/// Inputs to deterministic, content-addressed profile publication.
#[derive(Debug, Clone, PartialEq, Eq)]
pub struct ProfileSealRequest {
    /// Strict JSON template. Its revision, identities, sizes, and digests must
    /// be zero placeholders; all semantic policy fields are authoritative.
    pub template: String,
    /// Existing non-symlink collection root. Output is
    /// `<root>/<profile-id>/<revision-hex>`.
    pub output_parent: String,
    pub artifacts: ProfileArtifactSources,
    /// Identity measured from `/usr/bin/umoci` while constructing the exact
    /// builder initramfs.
    pub umoci: BuilderToolContract,
}

// ---------------------------------------------------------------------------
// The request and the template
// ---------------------------------------------------------------------------

/// Why a measured tool identity is refused, if it is.
pub open spec fn umoci_fault(tool: BuilderToolContract) -> Option<ManifestFault> {
    if tool.role@ != "umoci"@ {
        Some(
            invalid_field(
                "builder.required_tools.role"@,
                "release sealer accepts only the measured umoci role"@,
            ),
        )
    } else if byte_count(tool.sha256@) != 64 || !is_lower_hex(tool.sha256@) {
        Some(
            invalid_field(
                "builder.required_tools.sha256"@,
                "must be 64 lowercase hexadecimal characters"@,
            ),
        )
    } else if tool.version@.len() == 0 || byte_count(tool.version@) > 256 || has_control(
        tool.version@,
    ) {
        Some(
            invalid_field(
                "builder.required_tools.version"@,
                "must be a bounded, measured version line"@,
            ),
        )
    } else {
        None
    }
}

/// Whether the text holds a control character.
fn holds_control(text: &str) -> (found: bool)
    ensures
        found == has_control(text@),
{
    let chars = chars_of(text);
    let mut i: usize = 0;
    while i < chars.len()
        invariant
            i <= chars@.len(),
            chars@ == text@,
            forall|j: int| 0 <= j < i ==> !is_control(#[trigger] text@[j]),
        decreases chars@.len() - i,
    {
        if control_char(chars[i]) {
            assert(is_control(text@[i as int]));
            return true;
        }
        i += 1;
    }
    false
}

pub fn validate_umoci_request(tool: &BuilderToolContract) -> (checked: Result<(), ManifestError>)
    ensures
        manifest_fault(checked) == umoci_fault(*tool),
{
    if !same_text(&tool.role, "umoci") {
        return Err(
            ManifestError::invalid(
                "builder.required_tools.role",
                "release sealer accepts only the measured umoci role",
            ),
        );
    }
    if byte_len(&tool.sha256) != 64 || !all_lower_hex(&chars_of(&tool.sha256)) {
        return Err(
            ManifestError::invalid(
                "builder.required_tools.sha256",
                "must be 64 lowercase hexadecimal characters",
            ),
        );
    }
    if tool.version.as_str().is_empty() || byte_len(&tool.version) > 256 || holds_control(
        &tool.version,
    ) {
        return Err(
            ManifestError::invalid(
                "builder.required_tools.version",
                "must be a bounded, measured version line",
            ),
        );
    }
    Ok(())
}

/// 32 zero bytes.
pub open spec fn zero_digest() -> Seq<u8> {
    Seq::new(32, |i: int| 0u8)
}

/// 64 zero digits.
pub open spec fn zero_identity() -> Seq<char> {
    Seq::new(64, |i: int| '0')
}

fn is_zero_digest(bytes: &[u8; 32]) -> (zero: bool)
    ensures
        zero == (bytes@ == zero_digest()),
{
    let mut i: usize = 0;
    while i < 32
        invariant
            i <= 32,
            forall|j: int| 0 <= j < i ==> bytes@[j] == 0,
        decreases 32 - i,
    {
        if bytes[i] != 0 {
            assert(bytes@[i as int] != zero_digest()[i as int]);
            return false;
        }
        i += 1;
    }
    assert(bytes@ =~= zero_digest());
    true
}

fn is_zero_identity(text: &str) -> (zero: bool)
    ensures
        zero == (text@ == zero_identity()),
{
    let chars = chars_of(text);
    if chars.len() != 64 {
        return false;
    }
    let mut i: usize = 0;
    while i < 64
        invariant
            i <= 64,
            chars@.len() == 64,
            chars@ == text@,
            forall|j: int| 0 <= j < i ==> chars@[j] == '0',
        decreases 64 - i,
    {
        if chars[i] != '0' {
            assert(chars@[i as int] != zero_identity()[i as int]);
            return false;
        }
        i += 1;
    }
    assert(chars@ =~= zero_identity());
    true
}

pub open spec fn identity_placeholder_fault(field: Seq<char>, value: Seq<char>) -> Option<
    ManifestFault,
> {
    if value == zero_identity() {
        None
    } else {
        Some(
            invalid_field(field, "profile template identity must be the all-zero placeholder"@),
        )
    }
}

fn check_identity_placeholder(field: &'static str, value: &str) -> (checked: Result<
    (),
    ManifestError,
>)
    ensures
        manifest_fault(checked) == identity_placeholder_fault(field@, value@),
{
    if !is_zero_identity(value) {
        return Err(
            ManifestError::invalid(
                field,
                "profile template identity must be the all-zero placeholder",
            ),
        );
    }
    Ok(())
}

pub open spec fn identities_fault(manifest: ProfileManifest) -> Option<ManifestFault> {
    first_of(
        identity_placeholder_fault("hello.guest_contract_id"@, manifest.hello.guest_contract_id@),
        first_of(
            identity_placeholder_fault("hello.init_build_id"@, manifest.hello.init_build_id@),
            first_of(
                identity_placeholder_fault(
                    "hello.kernel_build_id"@,
                    manifest.hello.kernel_build_id@,
                ),
                first_of(
                    identity_placeholder_fault(
                        "builder.hello.guest_contract_id"@,
                        manifest.builder.hello.guest_contract_id@,
                    ),
                    first_of(
                        identity_placeholder_fault(
                            "builder.hello.init_build_id"@,
                            manifest.builder.hello.init_build_id@,
                        ),
                        first_of(
                            identity_placeholder_fault(
                                "builder.hello.kernel_build_id"@,
                                manifest.builder.hello.kernel_build_id@,
                            ),
                            first_of(
                                identity_placeholder_fault(
                                    "validator.hello.guest_contract_id"@,
                                    manifest.validator.hello.guest_contract_id@,
                                ),
                                first_of(
                                    identity_placeholder_fault(
                                        "validator.hello.init_build_id"@,
                                        manifest.validator.hello.init_build_id@,
                                    ),
                                    identity_placeholder_fault(
                                        "validator.hello.kernel_build_id"@,
                                        manifest.validator.hello.kernel_build_id@,
                                    ),
                                ),
                            ),
                        ),
                    ),
                ),
            ),
        ),
    )
}

fn check_identities(manifest: &ProfileManifest) -> (checked: Result<(), ManifestError>)
    ensures
        manifest_fault(checked) == identities_fault(*manifest),
{
    if let Err(error) = check_identity_placeholder(
        "hello.guest_contract_id",
        &manifest.hello.guest_contract_id,
    ) {
        return Err(error);
    }
    if let Err(error) = check_identity_placeholder(
        "hello.init_build_id",
        &manifest.hello.init_build_id,
    ) {
        return Err(error);
    }
    if let Err(error) = check_identity_placeholder(
        "hello.kernel_build_id",
        &manifest.hello.kernel_build_id,
    ) {
        return Err(error);
    }
    if let Err(error) = check_identity_placeholder(
        "builder.hello.guest_contract_id",
        &manifest.builder.hello.guest_contract_id,
    ) {
        return Err(error);
    }
    if let Err(error) = check_identity_placeholder(
        "builder.hello.init_build_id",
        &manifest.builder.hello.init_build_id,
    ) {
        return Err(error);
    }
    if let Err(error) = check_identity_placeholder(
        "builder.hello.kernel_build_id",
        &manifest.builder.hello.kernel_build_id,
    ) {
        return Err(error);
    }
    if let Err(error) = check_identity_placeholder(
        "validator.hello.guest_contract_id",
        &manifest.validator.hello.guest_contract_id,
    ) {
        return Err(error);
    }
    if let Err(error) = check_identity_placeholder(
        "validator.hello.init_build_id",
        &manifest.validator.hello.init_build_id,
    ) {
        return Err(error);
    }
    check_identity_placeholder(
        "validator.hello.kernel_build_id",
        &manifest.validator.hello.kernel_build_id,
    )
}

pub open spec fn artifact_placeholder_fault(
    field: Seq<char>,
    artifact: ArtifactSpec,
    expected_path: Seq<char>,
) -> Option<ManifestFault> {
    if artifact.path@ == expected_path && artifact.size == 0 && artifact.sha256@ == zero_digest() {
        None
    } else {
        Some(
            invalid_field(
                field,
                "template requires path "@ + debug_spelling(expected_path)
                    + ", zero size, and zero digest"@,
            ),
        )
    }
}

fn check_artifact_placeholder(
    field: &'static str,
    artifact: &ArtifactSpec,
    expected_path: &str,
) -> (checked: Result<(), ManifestError>)
    ensures
        manifest_fault(checked) == artifact_placeholder_fault(field@, *artifact, expected_path@),
{
    if !same_text(&artifact.path, expected_path) || artifact.size != 0 || !is_zero_digest(
        &artifact.sha256.as_bytes(),
    ) {
        return Err(
            ManifestError::invalid(
                field,
                &join3(
                    "template requires path ",
                    &debug_text(expected_path),
                    ", zero size, and zero digest",
                ),
            ),
        );
    }
    Ok(())
}

pub open spec fn artifacts_placeholder_fault(artifacts: ArtifactManifest) -> Option<
    ManifestFault,
> {
    first_of(
        artifact_placeholder_fault("artifacts.guard"@, artifacts.guard, GUARD_PATH@),
        first_of(
            artifact_placeholder_fault("artifacts.uml"@, artifacts.uml, UML_PATH@),
            first_of(
                artifact_placeholder_fault("artifacts.skopeo"@, artifacts.skopeo, SKOPEO_PATH@),
                first_of(
                    artifact_placeholder_fault(
                        "artifacts.network_helper"@,
                        artifacts.network_helper,
                        NETWORK_HELPER_PATH@,
                    ),
                    first_of(
                        artifact_placeholder_fault(
                            "artifacts.registry_ca_bundle"@,
                            artifacts.registry_ca_bundle,
                            REGISTRY_CA_PATH@,
                        ),
                        first_of(
                            artifact_placeholder_fault(
                                "artifacts.workload_initramfs"@,
                                artifacts.workload_initramfs,
                                WORKLOAD_INITRAMFS_PATH@,
                            ),
                            first_of(
                                artifact_placeholder_fault(
                                    "artifacts.builder_initramfs"@,
                                    artifacts.builder_initramfs,
                                    BUILDER_INITRAMFS_PATH@,
                                ),
                                first_of(
                                    artifact_placeholder_fault(
                                        "artifacts.validator_initramfs"@,
                                        artifacts.validator_initramfs,
                                        VALIDATOR_INITRAMFS_PATH@,
                                    ),
                                    host_tools_placeholder_fault(artifacts),
                                ),
                            ),
                        ),
                    ),
                ),
            ),
        ),
    )
}

pub open spec fn host_tools_placeholder_fault(artifacts: ArtifactManifest) -> Option<
    ManifestFault,
> {
    first_of(
        artifact_placeholder_fault("artifacts.mke2fs"@, artifacts.mke2fs, MKE2FS_PATH@),
        first_of(
            artifact_placeholder_fault("artifacts.e2fsck"@, artifacts.e2fsck, E2FSCK_PATH@),
            first_of(
                artifact_placeholder_fault(
                    "artifacts.mke2fs_config"@,
                    artifacts.mke2fs_config,
                    MKE2FS_CONFIG_PATH@,
                ),
                first_of(
                    artifact_placeholder_fault(
                        "artifacts.e2fsck_config"@,
                        artifacts.e2fsck_config,
                        E2FSCK_CONFIG_PATH@,
                    ),
                    artifact_placeholder_fault(
                        "artifacts.normalized_kernel_config"@,
                        artifacts.normalized_kernel_config,
                        KERNEL_CONFIG_PATH@,
                    ),
                ),
            ),
        ),
    )
}

fn check_artifact_placeholders(artifacts: &ArtifactManifest) -> (checked: Result<
    (),
    ManifestError,
>)
    ensures
        manifest_fault(checked) == artifacts_placeholder_fault(*artifacts),
{
    if let Err(error) = check_artifact_placeholder(
        "artifacts.guard",
        &artifacts.guard,
        GUARD_PATH,
    ) {
        return Err(error);
    }
    if let Err(error) = check_artifact_placeholder("artifacts.uml", &artifacts.uml, UML_PATH) {
        return Err(error);
    }
    if let Err(error) = check_artifact_placeholder(
        "artifacts.skopeo",
        &artifacts.skopeo,
        SKOPEO_PATH,
    ) {
        return Err(error);
    }
    if let Err(error) = check_artifact_placeholder(
        "artifacts.network_helper",
        &artifacts.network_helper,
        NETWORK_HELPER_PATH,
    ) {
        return Err(error);
    }
    if let Err(error) = check_artifact_placeholder(
        "artifacts.registry_ca_bundle",
        &artifacts.registry_ca_bundle,
        REGISTRY_CA_PATH,
    ) {
        return Err(error);
    }
    if let Err(error) = check_artifact_placeholder(
        "artifacts.workload_initramfs",
        &artifacts.workload_initramfs,
        WORKLOAD_INITRAMFS_PATH,
    ) {
        return Err(error);
    }
    if let Err(error) = check_artifact_placeholder(
        "artifacts.builder_initramfs",
        &artifacts.builder_initramfs,
        BUILDER_INITRAMFS_PATH,
    ) {
        return Err(error);
    }
    if let Err(error) = check_artifact_placeholder(
        "artifacts.validator_initramfs",
        &artifacts.validator_initramfs,
        VALIDATOR_INITRAMFS_PATH,
    ) {
        return Err(error);
    }
    if let Err(error) = check_artifact_placeholder(
        "artifacts.mke2fs",
        &artifacts.mke2fs,
        MKE2FS_PATH,
    ) {
        return Err(error);
    }
    if let Err(error) = check_artifact_placeholder(
        "artifacts.e2fsck",
        &artifacts.e2fsck,
        E2FSCK_PATH,
    ) {
        return Err(error);
    }
    if let Err(error) = check_artifact_placeholder(
        "artifacts.mke2fs_config",
        &artifacts.mke2fs_config,
        MKE2FS_CONFIG_PATH,
    ) {
        return Err(error);
    }
    if let Err(error) = check_artifact_placeholder(
        "artifacts.e2fsck_config",
        &artifacts.e2fsck_config,
        E2FSCK_CONFIG_PATH,
    ) {
        return Err(error);
    }
    check_artifact_placeholder(
        "artifacts.normalized_kernel_config",
        &artifacts.normalized_kernel_config,
        KERNEL_CONFIG_PATH,
    )
}

/// Why a template is refused, if it is.
pub open spec fn template_fault(manifest: ProfileManifest) -> Option<ManifestFault> {
    first_of(
        if manifest.profile_revision@ == zero_digest() {
            None
        } else {
            Some(
                invalid_field(
                    "profile_revision"@,
                    "profile template must contain the all-zero placeholder"@,
                ),
            )
        },
        first_of(
            identities_fault(manifest),
            first_of(
                if manifest.builder.required_tools@.len() == 1
                    && manifest.builder.required_tools@[0].role@ == "umoci"@ {
                    None
                } else {
                    Some(
                        invalid_field(
                            "builder.required_tools"@,
                            "profile template must contain one umoci placeholder"@,
                        ),
                    )
                },
                artifacts_placeholder_fault(manifest.artifacts),
            ),
        ),
    )
}

/// Refuses a template whose measured fields are not zero placeholders.
pub fn validate_template_placeholders(manifest: &ProfileManifest) -> (checked: Result<
    (),
    ManifestError,
>)
    ensures
        manifest_fault(checked) == template_fault(*manifest),
{
    if !is_zero_digest(&manifest.profile_revision.as_bytes()) {
        return Err(
            ManifestError::invalid(
                "profile_revision",
                "profile template must contain the all-zero placeholder",
            ),
        );
    }
    if let Err(error) = check_identities(manifest) {
        return Err(error);
    }
    if manifest.builder.required_tools.len() != 1 || !same_text(
        &manifest.builder.required_tools[0].role,
        "umoci",
    ) {
        return Err(
            ManifestError::invalid(
                "builder.required_tools",
                "profile template must contain one umoci placeholder",
            ),
        );
    }
    check_artifact_placeholders(&manifest.artifacts)
}

// ---------------------------------------------------------------------------
// Copying artifacts
// ---------------------------------------------------------------------------

/// What identifies an unchanged source file.
#[derive(Debug, Clone, Copy, PartialEq, Eq, Structural)]
pub struct SourceMetadata {
    pub dev: u64,
    pub ino: u64,
    pub len: u64,
    pub mtime: i64,
    pub mtime_nsec: i64,
    pub ctime: i64,
    pub ctime_nsec: i64,
}

/// Whether a source still is what it was.
pub fn same_source_metadata(before: &SourceMetadata, after: &SourceMetadata) -> (same: bool)
    ensures
        same == (*before == *after),
{
    before.dev == after.dev && before.ino == after.ino && before.len == after.len && before.mtime
        == after.mtime && before.mtime_nsec == after.mtime_nsec && before.ctime == after.ctime
        && before.ctime_nsec == after.ctime_nsec
}

/// Why a source's size is refused, if it is: one policy file must be empty and
/// every other artifact must not be.
pub open spec fn source_size_fault(path: Seq<char>, len: u64, require_empty: bool) -> Option<
    ManifestFault,
> {
    if require_empty == (len == 0) && len <= MAX_SOURCE_ARTIFACT_BYTES {
        None
    } else {
        Some(
            invalid_field(
                "artifact source"@,
                path + " has invalid size "@ + decimal(len as nat) + " (must be "@ + (
                if require_empty {
                    "empty"@
                } else {
                    "non-empty"@
                }) + " and at most "@ + decimal(MAX_SOURCE_ARTIFACT_BYTES as nat) + ")"@,
            ),
        )
    }
}

pub fn check_source_size(path: &str, len: u64, require_empty: bool) -> (checked: Result<
    (),
    ManifestError,
>)
    ensures
        manifest_fault(checked) == source_size_fault(path@, len, require_empty),
{
    if (require_empty && len != 0) || (!require_empty && len == 0) || len
        > MAX_SOURCE_ARTIFACT_BYTES {
        let size = join3(path, " has invalid size ", &decimal_text(len));
        let emptiness = if require_empty {
            "empty"
        } else {
            "non-empty"
        };
        let policy = join3(&size, " (must be ", emptiness);
        let limit = join3(&policy, " and at most ", &decimal_text(MAX_SOURCE_ARTIFACT_BYTES));
        return Err(ManifestError::invalid("artifact source", &join(&limit, ")")));
    }
    Ok(())
}

/// Why a finished copy is refused, if it is.
pub open spec fn copied_fault(
    path: Seq<char>,
    before: SourceMetadata,
    after: SourceMetadata,
    total: u64,
) -> Option<ManifestFault> {
    if before == after && total == before.len {
        None
    } else {
        Some(invalid_field("artifact source"@, path + " changed while it was copied"@))
    }
}

/// Why one more piece of a copy is refused, if it is.
pub open spec fn copied_chunk_fault(copied: nat, more: nat) -> Option<ManifestFault> {
    if copied + more > u64::MAX {
        Some(invalid_field("artifact source"@, "copied size overflow"@))
    } else {
        None
    }
}

/// Hashes and counts one more piece of a copy.
pub fn copy_chunk(copied: &mut FileDigest, chunk: &[u8]) -> (counted: Result<(), ManifestError>)
    ensures
        manifest_fault(counted) == copied_chunk_fault(old(copied).bytes().len(), chunk@.len()),
        counted is Ok ==> final(copied).bytes() == old(copied).bytes() + chunk@,
        counted is Err ==> final(copied).bytes() == old(copied).bytes(),
{
    if !copied.accept(chunk) {
        return Err(ManifestError::invalid("artifact source", "copied size overflow"));
    }
    Ok(())
}

/// Describes an artifact that was copied whole from an unchanged source.
/// `copied` took every piece as it was copied.
pub fn describe_copied_artifact(
    source_path: &str,
    relative: &str,
    before: &SourceMetadata,
    after: &SourceMetadata,
    copied: FileDigest,
) -> (spec: Result<ArtifactSpec, ManifestError>)
    ensures
        manifest_fault(spec) == copied_fault(
            source_path@,
            *before,
            *after,
            copied.bytes().len() as u64,
        ),
        spec matches Ok(spec) ==> spec.path@ == relative@ && spec.sha256@ == sha256_of(
            copied.bytes(),
        ) && spec.size == copied.bytes().len(),
{
    let (digest, total) = copied.finish();
    if !same_source_metadata(before, after) || total != before.len {
        return Err(
            ManifestError::invalid(
                "artifact source",
                &join(source_path, " changed while it was copied"),
            ),
        );
    }
    Ok(ArtifactSpec { path: relative.to_owned(), sha256: digest, size: total })
}

/// Bytes that were read at once.
fn read_whole(bytes: &Vec<u8>) -> (file: FileDigest)
    ensures
        file.bytes() == bytes@,
{
    let mut file = FileDigest::new();
    assert(bytes.len() <= u64::MAX);
    let counted = file.accept(bytes);
    assert(Seq::<u8>::empty() + bytes@ =~= bytes@);
    file
}

/// Seals the contents of a non-empty source under its relative path.
pub fn copy_artifact(
    source_path: &str,
    relative: &str,
    before: &SourceMetadata,
    after: &SourceMetadata,
    bytes: &Vec<u8>,
) -> (spec: Result<ArtifactSpec, ManifestError>)
    ensures
        manifest_fault(spec) == first_of(
            source_size_fault(source_path@, before.len, false),
            copied_fault(source_path@, *before, *after, bytes@.len() as u64),
        ),
        spec matches Ok(spec) ==> spec.path@ == relative@ && spec.sha256@ == sha256_of(bytes@)
            && spec.size == bytes@.len(),
{
    if let Err(error) = check_source_size(source_path, before.len, false) {
        return Err(error);
    }
    describe_copied_artifact(source_path, relative, before, after, read_whole(bytes))
}

/// Seals the one deliberately zero-byte policy artifact without weakening the
/// non-empty requirement for executable, initramfs, CA, and kernel inputs.
pub fn copy_empty_artifact(
    source_path: &str,
    relative: &str,
    before: &SourceMetadata,
    after: &SourceMetadata,
    bytes: &Vec<u8>,
) -> (spec: Result<ArtifactSpec, ManifestError>)
    ensures
        manifest_fault(spec) == first_of(
            source_size_fault(source_path@, before.len, true),
            copied_fault(source_path@, *before, *after, bytes@.len() as u64),
        ),
        spec matches Ok(spec) ==> spec.path@ == relative@ && spec.sha256@ == sha256_of(bytes@)
            && spec.size == bytes@.len() == 0,
{
    if let Err(error) = check_source_size(source_path, before.len, true) {
        return Err(error);
    }
    describe_copied_artifact(source_path, relative, before, after, read_whole(bytes))
}

/// Why a source path is refused, if it is: it must be the absolute, canonical
/// path of a regular file.
pub open spec fn exact_path_fault(path: Seq<char>, regular: bool, canonical: Seq<char>) -> Option<
    ManifestFault,
> {
    if !is_absolute(path) {
        Some(ManifestFault::ArtifactResolution { path })
    } else if !regular {
        Some(ManifestFault::ArtifactType { path })
    } else if !same_location(canonical, path) {
        Some(ManifestFault::ArtifactResolution { path })
    } else {
        None
    }
}

pub fn exact_regular_path(path: &str, regular: bool, canonical: &str) -> (checked: Result<
    (),
    ManifestError,
>)
    ensures
        manifest_fault(checked) == exact_path_fault(path@, regular, canonical@),
{
    if !absolute(path) {
        return Err(ManifestError::ArtifactResolution { path: path.to_owned() });
    }
    if !regular {
        return Err(ManifestError::ArtifactType { path: path.to_owned() });
    }
    if !same_path(canonical, path) {
        return Err(ManifestError::ArtifactResolution { path: path.to_owned() });
    }
    Ok(())
}

/// Why a publication directory is refused, if it is.
pub open spec fn publish_directory_fault(
    path: Seq<char>,
    directory: bool,
    canonical: Seq<char>,
    owned: bool,
    raw_mode: u32,
) -> Option<ManifestFault> {
    let mode = permissions(raw_mode);
    if !directory {
        Some(ManifestFault::ArtifactType { path })
    } else if !same_location(canonical, path) || !owned {
        Some(ManifestFault::ArtifactResolution { path })
    } else if mode & 0o022u32 != 0 || mode & 0o200u32 == 0 {
        Some(
            ManifestFault::ArtifactMode {
                path,
                mode,
                reason: "profile publication directory must be owner-writable and not group/world-writable"@,
            },
        )
    } else {
        None
    }
}

pub fn validate_publish_directory(
    path: &str,
    directory: bool,
    canonical: &str,
    owned: bool,
    raw_mode: u32,
) -> (checked: Result<(), ManifestError>)
    ensures
        manifest_fault(checked) == publish_directory_fault(
            path@,
            directory,
            canonical@,
            owned,
            raw_mode,
        ),
{
    if !directory {
        return Err(ManifestError::ArtifactType { path: path.to_owned() });
    }
    if !same_path(canonical, path) || !owned {
        return Err(ManifestError::ArtifactResolution { path: path.to_owned() });
    }
    let mode: u32 = raw_mode & 0o7777u32;
    if mode & 0o022u32 != 0 || mode & 0o200u32 == 0 {
        return Err(
            ManifestError::ArtifactMode {
                path: path.to_owned(),
                mode,
                reason: "profile publication directory must be owner-writable and not group/world-writable",
            },
        );
    }
    Ok(())
}

// ---------------------------------------------------------------------------
// Binding identities
// ---------------------------------------------------------------------------

/// The bytes that separate a guest contract from every other digest.
pub open spec fn contract_domain() -> Seq<u8> {
    seq![
        112u8, 111u8, 99u8, 107u8, 101u8, 116u8, 45u8, 103u8, 117u8, 101u8, 115u8, 116u8, 45u8,
        99u8, 111u8, 110u8, 116u8, 114u8, 97u8, 99u8, 116u8, 0u8, 118u8, 49u8, 0u8,
    ]
}

/// The identity of a guest contract in canonical JSON.
pub open spec fn contract_id(encoded: Seq<u8>) -> Seq<char> {
    hex_of(sha256_of(contract_domain() + encoded))
}

/// The fields that a guest contract's identity covers, in the order in which
/// they are encoded.
#[derive(Debug)]
pub struct GuestContractRecord<'a> {
    pub schema: &'static str,
    pub role: &'static str,
    pub protocol_major: u16,
    pub protocol_minor: u16,
    pub host_elf_machine: u16,
    pub oci_architecture: &'a String,
    pub guest_page_size: u32,
    pub contracts: &'a Contracts,
    pub required_features: &'a Vec<String>,
    pub manifest_schema: Option<&'a String>,
}

/// The guest that a contract is for.
#[derive(Debug, Clone, Copy, PartialEq, Eq, Structural)]
pub enum ContractRole {
    Workload,
    Builder,
    Validator,
}

/// What the identity of a guest's contract covers.
pub open spec fn guest_contract_of<'a>(
    manifest: &'a ProfileManifest,
    role: ContractRole,
    protocol_major: u16,
    protocol_minor: u16,
) -> GuestContractRecord<'a> {
    GuestContractRecord {
        schema: "pocket-guest-contract-v1",
        role: match role {
            ContractRole::Workload => "workload",
            ContractRole::Builder => "builder",
            ContractRole::Validator => "validator",
        },
        protocol_major,
        protocol_minor,
        host_elf_machine: manifest.host_elf_machine,
        oci_architecture: &manifest.oci_architecture,
        guest_page_size: manifest.guest_page_size,
        contracts: &manifest.contracts,
        required_features: match role {
            ContractRole::Workload => &manifest.hello.required_features,
            ContractRole::Builder => &manifest.builder.hello.required_features,
            ContractRole::Validator => &manifest.validator.hello.required_features,
        },
        manifest_schema: match role {
            ContractRole::Workload => None,
            ContractRole::Builder => Some(&manifest.builder.manifest_schema),
            ContractRole::Validator => Some(&manifest.validator.manifest_schema),
        },
    }
}

/// Collects what the identity of a guest's contract covers.
pub fn guest_contract_record(
    manifest: &ProfileManifest,
    role: ContractRole,
    protocol_major: u16,
    protocol_minor: u16,
) -> (record: GuestContractRecord<'_>)
    ensures
        record == guest_contract_of(manifest, role, protocol_major, protocol_minor),
{
    let (name, features, schema): (&'static str, &Vec<String>, Option<&String>) = match role {
        ContractRole::Workload => ("workload", &manifest.hello.required_features, None),
        ContractRole::Builder => (
            "builder",
            &manifest.builder.hello.required_features,
            Some(&manifest.builder.manifest_schema),
        ),
        ContractRole::Validator => (
            "validator",
            &manifest.validator.hello.required_features,
            Some(&manifest.validator.manifest_schema),
        ),
    };
    GuestContractRecord {
        schema: "pocket-guest-contract-v1",
        role: name,
        protocol_major,
        protocol_minor,
        host_elf_machine: manifest.host_elf_machine,
        oci_architecture: &manifest.oci_architecture,
        guest_page_size: manifest.guest_page_size,
        contracts: &manifest.contracts,
        required_features: features,
        manifest_schema: schema,
    }
}

/// The identity of a guest contract, given its canonical JSON.
pub fn contract_identity(encoded: &Vec<u8>) -> (identity: String)
    ensures
        identity@ == contract_id(encoded@),
{
    let mut bytes: Vec<u8> = vec![
        112u8, 111u8, 99u8, 107u8, 101u8, 116u8, 45u8, 103u8, 117u8, 101u8, 115u8, 116u8, 45u8,
        99u8, 111u8, 110u8, 116u8, 114u8, 97u8, 99u8, 116u8, 0u8, 118u8, 49u8, 0u8,
    ];
    assert(bytes@ =~= contract_domain());
    extend(&mut bytes, encoded);
    hex_text(&sha256(&bytes))
}

/// The canonical JSON of the three guest contracts.
#[derive(Debug)]
pub struct ContractEncodings {
    pub workload: Vec<u8>,
    pub builder: Vec<u8>,
    pub validator: Vec<u8>,
}

/// A guest contract could not be encoded.
pub open spec fn unencoded_contract(reason: Seq<char>) -> ManifestFault {
    invalid_field("guest_contract_id"@, "canonicalization failed: "@ + reason)
}

/// Whether `encoded` is what encoding one guest's contract gave.
pub open spec fn is_contract_encoding<E>(
    encode: E,
    record: GuestContractRecord<'_>,
    encoded: Vec<u8>,
) -> bool where E: Fn(GuestContractRecord<'_>) -> Result<Vec<u8>, String> {
    call_ensures(encode, (record,), Ok(encoded))
}

/// Encodes the contract of one guest.
fn encode_contract<E>(
    manifest: &ProfileManifest,
    role: ContractRole,
    protocol_major: u16,
    protocol_minor: u16,
    encode: &E,
) -> (encoded: Result<Vec<u8>, ManifestError>) where
    E: Fn(GuestContractRecord<'_>) -> Result<Vec<u8>, String>

    requires
        call_requires(
            *encode,
            (guest_contract_of(manifest, role, protocol_major, protocol_minor),),
        ),
    ensures
        ({
            let record = guest_contract_of(manifest, role, protocol_major, protocol_minor);
            match encoded {
                Ok(encoded) => is_contract_encoding(*encode, record, encoded),
                Err(error) => exists|reason: String| #[trigger]
                    call_ensures(*encode, (record,), Err(reason)) && error@ == unencoded_contract(
                        reason@,
                    ),
            }
        }),
{
    match encode(guest_contract_record(manifest, role, protocol_major, protocol_minor)) {
        Ok(encoded) => Ok(encoded),
        Err(reason) => Err(
            ManifestError::invalid(
                "guest_contract_id",
                &join("canonicalization failed: ", &reason),
            ),
        ),
    }
}

impl ContractEncodings {
    /// Encodes the contract of each guest of a manifest, the workload's first.
    /// `encode` gives a contract in compact JSON, in the declared order, or
    /// says why it cannot.
    pub fn of_manifest<E>(
        manifest: &ProfileManifest,
        protocol_major: u16,
        protocol_minor: u16,
        encode: &E,
    ) -> (encodings: Result<ContractEncodings, ManifestError>) where
        E: Fn(GuestContractRecord<'_>) -> Result<Vec<u8>, String>

        requires
            forall|role: ContractRole| #[trigger]
                call_requires(
                    *encode,
                    (guest_contract_of(manifest, role, protocol_major, protocol_minor),),
                ),
        ensures
            match encodings {
                Ok(encodings) => {
                    &&& is_contract_encoding(
                        *encode,
                        guest_contract_of(
                            manifest,
                            ContractRole::Workload,
                            protocol_major,
                            protocol_minor,
                        ),
                        encodings.workload,
                    )
                    &&& is_contract_encoding(
                        *encode,
                        guest_contract_of(
                            manifest,
                            ContractRole::Builder,
                            protocol_major,
                            protocol_minor,
                        ),
                        encodings.builder,
                    )
                    &&& is_contract_encoding(
                        *encode,
                        guest_contract_of(
                            manifest,
                            ContractRole::Validator,
                            protocol_major,
                            protocol_minor,
                        ),
                        encodings.validator,
                    )
                },
                Err(error) => exists|role: ContractRole, reason: String| #[trigger]
                    call_ensures(
                        *encode,
                        (guest_contract_of(manifest, role, protocol_major, protocol_minor),),
                        Err(reason),
                    ) && error@ == unencoded_contract(reason@),
            },
    {
        let workload = match encode_contract(
            manifest,
            ContractRole::Workload,
            protocol_major,
            protocol_minor,
            encode,
        ) {
            Ok(encoded) => encoded,
            Err(error) => {
                return Err(error);
            },
        };
        let builder = match encode_contract(
            manifest,
            ContractRole::Builder,
            protocol_major,
            protocol_minor,
            encode,
        ) {
            Ok(encoded) => encoded,
            Err(error) => {
                return Err(error);
            },
        };
        let validator = match encode_contract(
            manifest,
            ContractRole::Validator,
            protocol_major,
            protocol_minor,
            encode,
        ) {
            Ok(encoded) => encoded,
            Err(error) => {
                return Err(error);
            },
        };
        Ok(ContractEncodings { workload, builder, validator })
    }
}

/// A HELLO contract whose identities are bound to measured bytes.
pub open spec fn bound_hello(
    before: HelloContract,
    after: HelloContract,
    kernel: Seq<u8>,
    init: Seq<u8>,
    encoded: Seq<u8>,
) -> bool {
    &&& after.kernel_build_id@ == hex_of(kernel)
    &&& after.init_build_id@ == hex_of(init)
    &&& after.guest_contract_id@ == contract_id(encoded)
    &&& after.required_features == before.required_features
}

/// A manifest whose identities are bound to its artifacts and contracts, and
/// which is otherwise unchanged.
pub open spec fn bound_manifest(
    before: ProfileManifest,
    after: ProfileManifest,
    encodings: ContractEncodings,
) -> bool {
    let kernel = before.artifacts.uml.sha256@;
    &&& bound_hello(
        before.hello,
        after.hello,
        kernel,
        before.artifacts.workload_initramfs.sha256@,
        encodings.workload@,
    )
    &&& bound_hello(
        before.builder.hello,
        after.builder.hello,
        kernel,
        before.artifacts.builder_initramfs.sha256@,
        encodings.builder@,
    )
    &&& bound_hello(
        before.validator.hello,
        after.validator.hello,
        kernel,
        before.artifacts.validator_initramfs.sha256@,
        encodings.validator@,
    )
    &&& after == (ProfileManifest {
        hello: after.hello,
        builder: (BuilderContract { hello: after.builder.hello, ..before.builder }),
        validator: (ValidatorContract { hello: after.validator.hello, ..before.validator }),
        ..before
    })
}

/// Binds the build and contract identities of a manifest to its artifacts.
pub fn bind_build_and_contract_identities(
    manifest: &mut ProfileManifest,
    encodings: &ContractEncodings,
)
    ensures
        bound_manifest(*old(manifest), *final(manifest), *encodings),
{
    manifest.hello.kernel_build_id = manifest.artifacts.uml.sha256.hexadecimal();
    manifest.builder.hello.kernel_build_id = manifest.artifacts.uml.sha256.hexadecimal();
    manifest.validator.hello.kernel_build_id = manifest.artifacts.uml.sha256.hexadecimal();
    manifest.hello.init_build_id = manifest.artifacts.workload_initramfs.sha256.hexadecimal();
    manifest.builder.hello.init_build_id = manifest.artifacts.builder_initramfs.sha256.hexadecimal();
    manifest.validator.hello.init_build_id =
    manifest.artifacts.validator_initramfs.sha256.hexadecimal();
    manifest.hello.guest_contract_id = contract_identity(&encodings.workload);
    manifest.builder.hello.guest_contract_id = contract_identity(&encodings.builder);
    manifest.validator.hello.guest_contract_id = contract_identity(&encodings.validator);
}

/// No contract covers an identity that sealing binds: what a guest's contract
/// is computed over is the same before and after.
pub proof fn law_contracts_leave_identities_out(
    before: ProfileManifest,
    after: ProfileManifest,
    encodings: ContractEncodings,
    role: ContractRole,
    protocol_major: u16,
    protocol_minor: u16,
)
    requires
        bound_manifest(before, after, encodings),
    ensures
        guest_contract_of(&after, role, protocol_major, protocol_minor) == guest_contract_of(
            &before,
            role,
            protocol_major,
            protocol_minor,
        ),
{
}

/// A template that was given its artifacts and its measured tool.
pub open spec fn equipped_manifest(
    template: ProfileManifest,
    artifacts: ArtifactManifest,
    umoci: BuilderToolContract,
    equipped: ProfileManifest,
) -> bool {
    &&& equipped.builder.required_tools@.len() == 1
    &&& equipped.builder.required_tools@[0].role@ == umoci.role@
    &&& equipped.builder.required_tools@[0].sha256@ == umoci.sha256@
    &&& equipped.builder.required_tools@[0].version@ == umoci.version@
    &&& equipped == (ProfileManifest {
        artifacts,
        builder: (BuilderContract {
            required_tools: equipped.builder.required_tools,
            ..template.builder
        }),
        ..template
    })
}

/// Whether `sealed` is what a template comes to: its copied artifacts and its
/// measured tool are put in, every identity is bound, and the result meets
/// every contract or is refused.
pub open spec fn is_sealing(
    template: ProfileManifest,
    artifacts: ArtifactManifest,
    umoci: BuilderToolContract,
    encodings: ContractEncodings,
    facts: PolicyFacts,
    sealed: Result<ProfileManifest, ManifestFault>,
) -> bool {
    exists|equipped: ProfileManifest, bound: ProfileManifest|
        {
            &&& equipped_manifest(template, artifacts, umoci, equipped)
            &&& #[trigger] bound_manifest(equipped, bound, encodings)
            &&& sealed == match rules_fault(bound, facts) {
                Some(fault) => Err::<ProfileManifest, _>(fault),
                None => Ok(bound),
            }
        }
}

/// What sealing makes of an accepted template, before its revision is set: the
/// copied artifacts and the measured tool are put in and every identity is
/// bound. The result must itself meet every contract.
pub fn seal_manifest(
    template: ProfileManifest,
    artifacts: ArtifactManifest,
    umoci: &BuilderToolContract,
    encodings: &ContractEncodings,
    facts: &PolicyFacts,
) -> (sealed: Result<ProfileManifest, ManifestError>)
    ensures
        is_sealing(template, artifacts, *umoci, *encodings, *facts, manifest_outcome(sealed)),
{
    let mut manifest = template;
    manifest.artifacts = artifacts;
    let tool = BuilderToolContract {
        role: umoci.role.clone(),
        sha256: umoci.sha256.clone(),
        version: umoci.version.clone(),
    };
    let mut tools: Vec<BuilderToolContract> = Vec::new();
    tools.push(tool);
    manifest.builder.required_tools = tools;
    let ghost equipped = manifest;
    bind_build_and_contract_identities(&mut manifest, encodings);
    assert(bound_manifest(equipped, manifest, *encodings));
    match validate_manifest(&manifest, facts) {
        Ok(()) => Ok(manifest),
        Err(error) => Err(error),
    }
}

/// Sets the revision of a sealed manifest, given its canonical JSON without
/// the revision field.
pub fn set_revision(manifest: &mut ProfileManifest, encoded: &Vec<u8>)
    ensures
        final(manifest).profile_revision@ == revision_of(encoded@),
        *final(manifest) == (ProfileManifest {
            profile_revision: final(manifest).profile_revision,
            ..*old(manifest)
        }),
{
    let revision = ProfileManifest::revision_over(encoded);
    manifest.profile_revision = revision;
}

/// Where a sealed manifest is published: below the collection of its profile,
/// in a directory named by its revision.
pub fn publication_path(output_parent: &str, manifest: &ProfileManifest) -> (path: String)
    ensures
        path@ == joined(
            joined(output_parent@, manifest.profile_id@),
            hex_of(manifest.profile_revision@),
        ),
{
    let collection = join_path(output_parent, &manifest.profile_id);
    join_path(&collection, &manifest.profile_revision.hexadecimal())
}

/// The name of the staging directory number `sequence` of a process.
pub fn stage_name(pid: u32, sequence: u16) -> (name: String)
    ensures
        name@ == ".seal-"@ + decimal(pid as nat) + "-"@ + decimal(sequence as nat),
{
    let head = join3(".seal-", &decimal_text(pid as u64), "-");
    join(&head, &decimal_text(sequence as u64))
}

/// How many staging directories a process tries to create.
pub const STAGE_ATTEMPTS: u16 = 1024;

/// The staging directory to try after so many whose names were taken.
pub fn stage_candidate(pid: u32, taken: u16) -> (name: Result<String, ManifestError>)
    ensures
        match name {
            Ok(name) => taken < STAGE_ATTEMPTS && name@ == ".seal-"@ + decimal(pid as nat) + "-"@
                + decimal(taken as nat),
            Err(error) => taken >= STAGE_ATTEMPTS && error@ == invalid_field(
                "profile staging"@,
                "could not allocate a bounded unique staging directory"@,
            ),
        },
{
    if taken >= STAGE_ATTEMPTS {
        return Err(
            ManifestError::invalid(
                "profile staging",
                "could not allocate a bounded unique staging directory",
            ),
        );
    }
    Ok(stage_name(pid, taken))
}

/// A staging directory, removed again unless its contents were published.
#[derive(Debug)]
pub struct StageDirectory {
    path: String,
    armed: bool,
}

impl StageDirectory {
    pub closed spec fn view_path(self) -> Seq<char> {
        self.path@
    }

    pub closed spec fn is_armed(self) -> bool {
        self.armed
    }

    pub fn new(path: String) -> (stage: StageDirectory)
        ensures
            stage.view_path() == path@,
            stage.is_armed(),
    {
        StageDirectory { path, armed: true }
    }

    pub fn path(&self) -> (path: &str)
        ensures
            path@ == self.view_path(),
    {
        &self.path
    }

    /// Whether the directory must still be removed.
    pub fn armed(&self) -> (armed: bool)
        ensures
            armed == self.is_armed(),
    {
        self.armed
    }

    pub fn disarm(&mut self)
        ensures
            !final(self).is_armed(),
            final(self).view_path() == old(self).view_path(),
    {
        self.armed = false;
    }
}

// ---------------------------------------------------------------------------
// Comparing manifests
// ---------------------------------------------------------------------------

pub open spec fn same_artifact_spec(left: ArtifactSpec, right: ArtifactSpec) -> bool {
    left.path@ == right.path@ && left.sha256@ == right.sha256@ && left.size == right.size
}

pub open spec fn same_hello(left: HelloContract, right: HelloContract) -> bool {
    &&& left.guest_contract_id@ == right.guest_contract_id@
    &&& left.init_build_id@ == right.init_build_id@
    &&& left.kernel_build_id@ == right.kernel_build_id@
    &&& texts(left.required_features@) == texts(right.required_features@)
}

pub open spec fn same_tool(left: BuilderToolContract, right: BuilderToolContract) -> bool {
    left.role@ == right.role@ && left.sha256@ == right.sha256@ && left.version@ == right.version@
}

pub open spec fn same_tools(
    left: Seq<BuilderToolContract>,
    right: Seq<BuilderToolContract>,
) -> bool {
    left.len() == right.len() && forall|i: int|
        0 <= i < left.len() ==> same_tool(#[trigger] left[i], right[i])
}

pub open spec fn same_contracts(left: Contracts, right: Contracts) -> bool {
    &&& left.selector_policy@ == right.selector_policy@
    &&& left.root_layout@ == right.root_layout@
    &&& left.filesystem@ == right.filesystem@
    &&& left.cpu_state_hwcap_policy@ == right.cpu_state_hwcap_policy@
    &&& left.guest_capability_policy@ == right.guest_capability_policy@
}

pub open spec fn same_launch(left: LaunchContract, right: LaunchContract) -> bool {
    &&& left.linkage@ == right.linkage@
    &&& left.cooperative_backend@ == right.cooperative_backend@
    &&& left.noreboot == right.noreboot
    &&& left.rdinit@ == right.rdinit@
    &&& left.rootfstype@ == right.rootfstype@
    &&& left.ubd@ == right.ubd@
    &&& left.serial@ == right.serial@
    &&& left.network@ == right.network@
    &&& left.max_ubd_path_bytes == right.max_ubd_path_bytes
    &&& left.max_umid_bytes == right.max_umid_bytes
    &&& left.max_unix_path_bytes == right.max_unix_path_bytes
}

pub open spec fn same_artifacts(left: ArtifactManifest, right: ArtifactManifest) -> bool {
    &&& same_artifact_spec(left.guard, right.guard)
    &&& same_artifact_spec(left.uml, right.uml)
    &&& same_artifact_spec(left.skopeo, right.skopeo)
    &&& same_artifact_spec(left.network_helper, right.network_helper)
    &&& same_artifact_spec(left.registry_ca_bundle, right.registry_ca_bundle)
    &&& same_artifact_spec(left.workload_initramfs, right.workload_initramfs)
    &&& same_artifact_spec(left.builder_initramfs, right.builder_initramfs)
    &&& same_artifact_spec(left.validator_initramfs, right.validator_initramfs)
    &&& same_artifact_spec(left.mke2fs, right.mke2fs)
    &&& same_artifact_spec(left.e2fsck, right.e2fsck)
    &&& same_artifact_spec(left.mke2fs_config, right.mke2fs_config)
    &&& same_artifact_spec(left.e2fsck_config, right.e2fsck_config)
    &&& same_artifact_spec(left.normalized_kernel_config, right.normalized_kernel_config)
}

/// Whether two manifests agree in every field.
pub open spec fn same_manifest(left: ProfileManifest, right: ProfileManifest) -> bool {
    &&& left.schema_version == right.schema_version
    &&& left.profile_id@ == right.profile_id@
    &&& left.profile_revision@ == right.profile_revision@
    &&& left.maturity == right.maturity
    &&& left.host_architecture@ == right.host_architecture@
    &&& left.host_elf_machine == right.host_elf_machine
    &&& left.oci_os@ == right.oci_os@
    &&& left.oci_architecture@ == right.oci_architecture@
    &&& variant_texts(left.accepted_oci_variants@) == variant_texts(right.accepted_oci_variants@)
    &&& left.uml_subarchitecture@ == right.uml_subarchitecture@
    &&& left.guest_page_size == right.guest_page_size
    &&& left.cpu == right.cpu
    &&& left.memory == right.memory
    &&& same_contracts(left.contracts, right.contracts)
    &&& same_hello(left.hello, right.hello)
    &&& same_hello(left.builder.hello, right.builder.hello)
    &&& left.builder.manifest_schema@ == right.builder.manifest_schema@
    &&& same_tools(left.builder.required_tools@, right.builder.required_tools@)
    &&& left.builder.source_date_epoch == right.builder.source_date_epoch
    &&& same_hello(left.validator.hello, right.validator.hello)
    &&& left.validator.manifest_schema@ == right.validator.manifest_schema@
    &&& same_launch(left.launch, right.launch)
    &&& same_artifacts(left.artifacts, right.artifacts)
}

fn equal_spec(left: &ArtifactSpec, right: &ArtifactSpec) -> (same: bool)
    ensures
        same == same_artifact_spec(*left, *right),
{
    same_text(&left.path, &right.path) && left.sha256.same(right.sha256) && left.size == right.size
}

fn equal_hello(left: &HelloContract, right: &HelloContract) -> (same: bool)
    ensures
        same == same_hello(*left, *right),
{
    same_text(&left.guest_contract_id, &right.guest_contract_id) && same_text(
        &left.init_build_id,
        &right.init_build_id,
    ) && same_text(&left.kernel_build_id, &right.kernel_build_id) && same_features(
        &left.required_features,
        &right.required_features,
    )
}

fn equal_tools(left: &Vec<BuilderToolContract>, right: &Vec<BuilderToolContract>) -> (same: bool)
    ensures
        same == same_tools(left@, right@),
{
    if left.len() != right.len() {
        return false;
    }
    let mut i: usize = 0;
    while i < left.len()
        invariant
            i <= left@.len(),
            left@.len() == right@.len(),
            forall|j: int| 0 <= j < i ==> same_tool(#[trigger] left@[j], right@[j]),
        decreases left@.len() - i,
    {
        if !(same_text(&left[i].role, &right[i].role) && same_text(
            &left[i].sha256,
            &right[i].sha256,
        ) && same_text(&left[i].version, &right[i].version)) {
            assert(!same_tool(left@[i as int], right@[i as int]));
            return false;
        }
        i += 1;
    }
    true
}

fn equal_variants(left: &Vec<Option<String>>, right: &Vec<Option<String>>) -> (same: bool)
    ensures
        same == (variant_texts(left@) == variant_texts(right@)),
{
    let ghost a = variant_texts(left@);
    let ghost b = variant_texts(right@);
    if left.len() != right.len() {
        assert(a.len() != b.len());
        return false;
    }
    let mut i: usize = 0;
    while i < left.len()
        invariant
            i <= left@.len(),
            left@.len() == right@.len(),
            a == variant_texts(left@),
            b == variant_texts(right@),
            forall|j: int| 0 <= j < i ==> a[j] == b[j],
        decreases left@.len() - i,
    {
        if !same_optional(&left[i], &right[i]) {
            assert(a[i as int] != b[i as int]);
            return false;
        }
        i += 1;
    }
    assert(a =~= b);
    true
}

fn equal_contracts(left: &Contracts, right: &Contracts) -> (same: bool)
    ensures
        same == same_contracts(*left, *right),
{
    same_text(&left.selector_policy, &right.selector_policy) && same_text(
        &left.root_layout,
        &right.root_layout,
    ) && same_text(&left.filesystem, &right.filesystem) && same_text(
        &left.cpu_state_hwcap_policy,
        &right.cpu_state_hwcap_policy,
    ) && same_text(&left.guest_capability_policy, &right.guest_capability_policy)
}

fn equal_launch(left: &LaunchContract, right: &LaunchContract) -> (same: bool)
    ensures
        same == same_launch(*left, *right),
{
    same_text(&left.linkage, &right.linkage) && same_text(
        &left.cooperative_backend,
        &right.cooperative_backend,
    ) && left.noreboot == right.noreboot && same_text(&left.rdinit, &right.rdinit) && same_text(
        &left.rootfstype,
        &right.rootfstype,
    ) && same_text(&left.ubd, &right.ubd) && same_text(&left.serial, &right.serial) && same_text(
        &left.network,
        &right.network,
    ) && left.max_ubd_path_bytes == right.max_ubd_path_bytes && left.max_umid_bytes
        == right.max_umid_bytes && left.max_unix_path_bytes == right.max_unix_path_bytes
}

fn equal_artifacts(left: &ArtifactManifest, right: &ArtifactManifest) -> (same: bool)
    ensures
        same == same_artifacts(*left, *right),
{
    equal_spec(&left.guard, &right.guard) && equal_spec(&left.uml, &right.uml) && equal_spec(
        &left.skopeo,
        &right.skopeo,
    ) && equal_spec(&left.network_helper, &right.network_helper) && equal_spec(
        &left.registry_ca_bundle,
        &right.registry_ca_bundle,
    ) && equal_spec(&left.workload_initramfs, &right.workload_initramfs) && equal_spec(
        &left.builder_initramfs,
        &right.builder_initramfs,
    ) && equal_spec(&left.validator_initramfs, &right.validator_initramfs) && equal_spec(
        &left.mke2fs,
        &right.mke2fs,
    ) && equal_spec(&left.e2fsck, &right.e2fsck) && equal_spec(
        &left.mke2fs_config,
        &right.mke2fs_config,
    ) && equal_spec(&left.e2fsck_config, &right.e2fsck_config) && equal_spec(
        &left.normalized_kernel_config,
        &right.normalized_kernel_config,
    )
}

fn equal_cpu(left: &CpuManifest, right: &CpuManifest) -> (same: bool)
    ensures
        same == (*left == *right),
{
    let compiled = match (left.compiled_nr_cpus, right.compiled_nr_cpus) {
        (Some(a), Some(b)) => a == b,
        (None, None) => true,
        _ => false,
    };
    left.smp_enabled == right.smp_enabled && left.product_max_cpus == right.product_max_cpus
        && compiled && left.effective_max_cpus == right.effective_max_cpus
}

/// Whether two manifests agree in every field.
pub fn equal_manifests(left: &ProfileManifest, right: &ProfileManifest) -> (same: bool)
    ensures
        same == same_manifest(*left, *right),
{
    left.schema_version == right.schema_version && same_text(&left.profile_id, &right.profile_id)
        && left.profile_revision.same(right.profile_revision) && left.maturity == right.maturity
        && same_text(&left.host_architecture, &right.host_architecture) && left.host_elf_machine
        == right.host_elf_machine && same_text(&left.oci_os, &right.oci_os) && same_text(
        &left.oci_architecture,
        &right.oci_architecture,
    ) && equal_variants(&left.accepted_oci_variants, &right.accepted_oci_variants) && same_text(
        &left.uml_subarchitecture,
        &right.uml_subarchitecture,
    ) && left.guest_page_size == right.guest_page_size && equal_cpu(&left.cpu, &right.cpu)
        && left.memory == right.memory && equal_contracts(&left.contracts, &right.contracts)
        && equal_hello(&left.hello, &right.hello) && equal_hello(
        &left.builder.hello,
        &right.builder.hello,
    ) && same_text(&left.builder.manifest_schema, &right.builder.manifest_schema) && equal_tools(
        &left.builder.required_tools,
        &right.builder.required_tools,
    ) && left.builder.source_date_epoch == right.builder.source_date_epoch && equal_hello(
        &left.validator.hello,
        &right.validator.hello,
    ) && same_text(&left.validator.manifest_schema, &right.validator.manifest_schema)
        && equal_launch(&left.launch, &right.launch) && equal_artifacts(
        &left.artifacts,
        &right.artifacts,
    )
}

/// Refuses a staged bundle that does not load as the manifest it was made of.
pub fn check_staged(loaded: &ProfileManifest, sealed: &ProfileManifest) -> (checked: Result<
    (),
    ManifestError,
>)
    ensures
        manifest_fault(checked) == if same_manifest(*loaded, *sealed) {
            None
        } else {
            Some(invalid_field("profile"@, "staged profile changed during verification"@))
        },
{
    if !equal_manifests(loaded, sealed) {
        return Err(
            ManifestError::invalid("profile", "staged profile changed during verification"),
        );
    }
    Ok(())
}

/// Refuses a published bundle that did not load, or that loaded as another
/// manifest than the sealed one.
pub fn check_published(
    path: &str,
    loaded: Option<&ProfileManifest>,
    sealed: &ProfileManifest,
) -> (checked: Result<(), ManifestError>)
    ensures
        manifest_fault(checked) == if loaded matches Some(loaded) && same_manifest(
            *loaded,
            *sealed,
        ) {
            None
        } else {
            Some(ManifestFault::PublishConflict { path: path@ })
        },
{
    match loaded {
        Some(loaded) => if equal_manifests(loaded, sealed) {
            Ok(())
        } else {
            Err(ManifestError::PublishConflict { path: path.to_owned() })
        },
        None => Err(ManifestError::PublishConflict { path: path.to_owned() }),
    }
}

/// Sealing binds the kernel to every guest: the three HELLO contracts of a
/// sealed manifest name one and the same kernel, the digest of its UML binary.
pub proof fn law_sealed_guests_share_the_kernel(
    before: ProfileManifest,
    after: ProfileManifest,
    encodings: ContractEncodings,
)
    requires
        bound_manifest(before, after, encodings),
    ensures
        after.hello.kernel_build_id@ == hex_of(after.artifacts.uml.sha256@),
        after.builder.hello.kernel_build_id@ == after.hello.kernel_build_id@,
        after.validator.hello.kernel_build_id@ == after.hello.kernel_build_id@,
        after.hello.init_build_id@ == hex_of(after.artifacts.workload_initramfs.sha256@),
        after.builder.hello.init_build_id@ == hex_of(after.artifacts.builder_initramfs.sha256@),
        after.validator.hello.init_build_id@ == hex_of(
            after.artifacts.validator_initramfs.sha256@,
        ),
{
}

/// Sealing one template with the same inputs gives the same manifest, or
/// refuses it both times: what is published depends on nothing but the request.
pub proof fn law_sealing_is_deterministic(
    template: ProfileManifest,
    artifacts: ArtifactManifest,
    umoci: BuilderToolContract,
    encodings: ContractEncodings,
    facts: PolicyFacts,
    left: Result<ProfileManifest, ManifestFault>,
    right: Result<ProfileManifest, ManifestFault>,
)
    requires
        is_sealing(template, artifacts, umoci, encodings, facts, left),
        is_sealing(template, artifacts, umoci, encodings, facts, right),
    ensures
        match (left, right) {
            (Ok(left), Ok(right)) => same_manifest(left, right),
            (Err(left), Err(right)) => left == right,
            _ => false,
        },
{
    let (one, bound_one) = choose|equipped: ProfileManifest, bound: ProfileManifest|
        {
            &&& equipped_manifest(template, artifacts, umoci, equipped)
            &&& #[trigger] bound_manifest(equipped, bound, encodings)
            &&& left == match rules_fault(bound, facts) {
                Some(fault) => Err::<ProfileManifest, _>(fault),
                None => Ok(bound),
            }
        };
    let (two, bound_two) = choose|equipped: ProfileManifest, bound: ProfileManifest|
        {
            &&& equipped_manifest(template, artifacts, umoci, equipped)
            &&& #[trigger] bound_manifest(equipped, bound, encodings)
            &&& right == match rules_fault(bound, facts) {
                Some(fault) => Err::<ProfileManifest, _>(fault),
                None => Ok(bound),
            }
        };
    assert(same_manifest(bound_one, bound_two));
    lemma_same_rules(bound_one, bound_two, facts);
}

/// The rules look at nothing but what manifests say.
proof fn lemma_same_rules(left: ProfileManifest, right: ProfileManifest, facts: PolicyFacts)
    requires
        same_manifest(left, right),
    ensures
        rules_fault(left, facts) == rules_fault(right, facts),
{
    lemma_same_tool_faults(left.builder.required_tools@, right.builder.required_tools@);
    assert(tool_roles(left.builder.required_tools@) =~= tool_roles(
        right.builder.required_tools@,
    ));
}

proof fn lemma_same_tool_faults(left: Seq<BuilderToolContract>, right: Seq<BuilderToolContract>)
    requires
        same_tools(left, right),
    ensures
        each_tool_fault(left) == each_tool_fault(right),
    decreases left.len(),
{
    if left.len() > 0 {
        assert(same_tool(left[left.len() - 1], right[left.len() - 1]));
        assert forall|i: int| 0 <= i < left.drop_last().len() implies same_tool(
            #[trigger] left.drop_last()[i],
            right.drop_last()[i],
        ) by {
            assert(same_tool(left[i], right[i]));
        }
        lemma_same_tool_faults(left.drop_last(), right.drop_last());
        assert(tool_roles(left.drop_last()) =~= tool_roles(right.drop_last()));
    }
}

/// Whether an artifact of a template says nothing yet but where it will lie.
pub open spec fn is_placeholder(artifact: ArtifactSpec, path: Seq<char>) -> bool {
    &&& artifact.path@ == path
    &&& artifact.size == 0
    &&& artifact.sha256@ == Seq::new(32, |i: int| 0u8)
}

/// A template is accepted exactly where it claims nothing that sealing is to
/// find out: its revision, its nine identities and each artifact's size and
/// digest are zero, each artifact lies at the path of its role, and its one
/// tool is umoci.
pub proof fn law_template_claims_nothing(
    manifest: ProfileManifest,
    checked: Result<(), ManifestError>,
)
    requires
        call_ensures(validate_template_placeholders, (&manifest,), checked),
    ensures
        checked is Ok <==> {
            let nothing = Seq::new(64, |i: int| '0');
            let artifacts = manifest.artifacts;
            &&& manifest.profile_revision@ == Seq::new(32, |i: int| 0u8)
            &&& manifest.hello.guest_contract_id@ == nothing
            &&& manifest.hello.init_build_id@ == nothing
            &&& manifest.hello.kernel_build_id@ == nothing
            &&& manifest.builder.hello.guest_contract_id@ == nothing
            &&& manifest.builder.hello.init_build_id@ == nothing
            &&& manifest.builder.hello.kernel_build_id@ == nothing
            &&& manifest.validator.hello.guest_contract_id@ == nothing
            &&& manifest.validator.hello.init_build_id@ == nothing
            &&& manifest.validator.hello.kernel_build_id@ == nothing
            &&& manifest.builder.required_tools@.len() == 1
            &&& manifest.builder.required_tools@[0].role@ == "umoci"@
            &&& is_placeholder(artifacts.guard, "host/pocket-guard"@)
            &&& is_placeholder(artifacts.uml, "host/linux"@)
            &&& is_placeholder(artifacts.skopeo, "host/skopeo"@)
            &&& is_placeholder(artifacts.network_helper, "host/slirp4netns"@)
            &&& is_placeholder(artifacts.registry_ca_bundle, "host/registry-ca.pem"@)
            &&& is_placeholder(artifacts.workload_initramfs, "guest/workload.cpio"@)
            &&& is_placeholder(artifacts.builder_initramfs, "guest/builder.cpio"@)
            &&& is_placeholder(artifacts.validator_initramfs, "guest/validator.cpio"@)
            &&& is_placeholder(artifacts.mke2fs, "host/mke2fs"@)
            &&& is_placeholder(artifacts.e2fsck, "host/e2fsck"@)
            &&& is_placeholder(artifacts.mke2fs_config, "host/mke2fs.conf"@)
            &&& is_placeholder(artifacts.e2fsck_config, "host/e2fsck.conf"@)
            &&& is_placeholder(artifacts.normalized_kernel_config, "config/linux.config"@)
        },
{
    assert(zero_digest() =~= Seq::new(32, |i: int| 0u8));
    assert(zero_identity() =~= Seq::new(64, |i: int| '0'));
}

/// The only tool that is sealed is umoci, named by the digest of its bytes and
/// one bounded line for its version.
pub proof fn law_sealed_tool_is_measured(
    tool: BuilderToolContract,
    checked: Result<(), ManifestError>,
)
    requires
        call_ensures(validate_umoci_request, (&tool,), checked),
    ensures
        checked is Ok <==> {
            &&& tool.role@ == "umoci"@
            &&& byte_count(tool.sha256@) == 64
            &&& is_lower_hex(tool.sha256@)
            &&& 0 < tool.version@.len()
            &&& byte_count(tool.version@) <= 256
            &&& !has_control(tool.version@)
        },
{
}

/// A source is copied only where it is empty if it must be, not empty
/// otherwise, at most 4 GiB, and the same file from the beginning of the copy
/// to its end.
pub proof fn law_copied_source_is_whole(
    path: &str,
    relative: &str,
    before: SourceMetadata,
    after: SourceMetadata,
    bytes: Vec<u8>,
    require_empty: bool,
    sized: Result<(), ManifestError>,
    copied: FileDigest,
    described: Result<ArtifactSpec, ManifestError>,
    whole: Result<ArtifactSpec, ManifestError>,
    empty: Result<ArtifactSpec, ManifestError>,
)
    requires
        call_ensures(check_source_size, (path, before.len, require_empty), sized),
        copied.bytes().len() <= u64::MAX,
        call_ensures(
            describe_copied_artifact,
            (path, relative, &before, &after, copied),
            described,
        ),
        call_ensures(copy_artifact, (path, relative, &before, &after, &bytes), whole),
        call_ensures(copy_empty_artifact, (path, relative, &before, &after, &bytes), empty),
    ensures
        sized is Ok <==> if require_empty {
            before.len == 0
        } else {
            0 < before.len <= 4_294_967_296
        },
        described is Ok <==> {
            &&& copied.bytes().len() == before.len == after.len
            &&& before.dev == after.dev
            &&& before.ino == after.ino
            &&& before.mtime == after.mtime
            &&& before.mtime_nsec == after.mtime_nsec
            &&& before.ctime == after.ctime
            &&& before.ctime_nsec == after.ctime_nsec
        },
        described matches Ok(spec) ==> spec.path@ == relative@ && spec.sha256@ == sha256_of(
            copied.bytes(),
        ) && spec.size == copied.bytes().len(),
        whole matches Ok(spec) ==> spec.path@ == relative@ && spec.sha256@ == sha256_of(bytes@)
            && spec.size == bytes@.len() == before.len && before.len > 0,
        empty matches Ok(spec) ==> spec.path@ == relative@ && spec.sha256@ == sha256_of(bytes@)
            && spec.size == 0 && bytes@.len() == 0,
{
}

/// The identity of a guest contract is the hexadecimal SHA-256 of its JSON
/// behind a prefix of its own, which no revision of a profile shares.
pub proof fn law_contracts_have_their_own_domain(
    encoded: Vec<u8>,
    identity: String,
)
    requires
        call_ensures(contract_identity, (&encoded,), identity),
    ensures
        identity@ == hex_of(
            sha256_of(
                encode_utf8("pocket-guest-contract"@) + seq![0u8] + encode_utf8("v1"@) + seq![0u8]
                    + encoded@,
            ),
        ),
        revision_of(encoded@) == sha256_of(
            encode_utf8("pocket-profile-revision"@) + seq![0u8] + encode_utf8("v1"@) + seq![0u8]
                + encoded@,
        ),
{
    let encoded = encoded@;
    reveal_strlit("pocket-guest-contract");
    reveal_strlit("pocket-profile-revision");
    reveal_strlit("v1");
    vstd::utf8::is_ascii_chars_encode_utf8("pocket-guest-contract"@);
    vstd::utf8::is_ascii_chars_encode_utf8("pocket-profile-revision"@);
    vstd::utf8::is_ascii_chars_encode_utf8("v1"@);
    assert(contract_domain() =~= encode_utf8("pocket-guest-contract"@) + seq![0u8] + encode_utf8(
        "v1"@,
    ) + seq![0u8]);
    assert(revision_domain() =~= encode_utf8("pocket-profile-revision"@) + seq![0u8] + encode_utf8(
        "v1"@,
    ) + seq![0u8]);
}

/// A guest's contract is that of its role: it covers the protocol and the
/// machine, the features and the schema of that guest and of no other.
pub proof fn law_contract_is_of_its_guest(
    manifest: ProfileManifest,
    protocol_major: u16,
    protocol_minor: u16,
)
    ensures
        ({
            let workload = guest_contract_of(
                &manifest,
                ContractRole::Workload,
                protocol_major,
                protocol_minor,
            );
            let builder = guest_contract_of(
                &manifest,
                ContractRole::Builder,
                protocol_major,
                protocol_minor,
            );
            let validator = guest_contract_of(
                &manifest,
                ContractRole::Validator,
                protocol_major,
                protocol_minor,
            );
            &&& workload.role@ == "workload"@
            &&& builder.role@ == "builder"@
            &&& validator.role@ == "validator"@
            &&& *workload.required_features == manifest.hello.required_features
            &&& *builder.required_features == manifest.builder.hello.required_features
            &&& *validator.required_features == manifest.validator.hello.required_features
            &&& workload.manifest_schema is None
            &&& builder.manifest_schema == Some(&manifest.builder.manifest_schema)
            &&& validator.manifest_schema == Some(&manifest.validator.manifest_schema)
            &&& forall|role: ContractRole|
                #![trigger guest_contract_of(&manifest, role, protocol_major, protocol_minor)]
                {
                    let record = guest_contract_of(
                        &manifest,
                        role,
                        protocol_major,
                        protocol_minor,
                    );
                    &&& record.schema@ == "pocket-guest-contract-v1"@
                    &&& record.protocol_major == protocol_major
                    &&& record.protocol_minor == protocol_minor
                    &&& record.host_elf_machine == manifest.host_elf_machine
                    &&& *record.oci_architecture == manifest.oci_architecture
                    &&& record.guest_page_size == manifest.guest_page_size
                    &&& *record.contracts == manifest.contracts
                }
        }),
{
}

/// Sealing binds each guest to its own contract and initramfs and to the one
/// kernel, puts in what was copied and the measured tool, and changes nothing
/// else of the template.
pub proof fn law_sealing_keeps_the_template(
    template: ProfileManifest,
    artifacts: ArtifactManifest,
    umoci: BuilderToolContract,
    encodings: ContractEncodings,
    facts: PolicyFacts,
    sealed: ProfileManifest,
)
    requires
        call_ensures(seal_manifest, (template, artifacts, &umoci, &encodings, &facts), Ok(sealed)),
    ensures
        sealed.artifacts == artifacts,
        sealed.builder.required_tools@.len() == 1,
        same_tool(sealed.builder.required_tools@[0], umoci),
        sealed.hello.guest_contract_id@ == contract_id(encodings.workload@),
        sealed.builder.hello.guest_contract_id@ == contract_id(encodings.builder@),
        sealed.validator.hello.guest_contract_id@ == contract_id(encodings.validator@),
        sealed.hello.init_build_id@ == hex_of(artifacts.workload_initramfs.sha256@),
        sealed.builder.hello.init_build_id@ == hex_of(artifacts.builder_initramfs.sha256@),
        sealed.validator.hello.init_build_id@ == hex_of(artifacts.validator_initramfs.sha256@),
        sealed.hello.kernel_build_id@ == hex_of(artifacts.uml.sha256@),
        sealed.builder.hello.kernel_build_id@ == hex_of(artifacts.uml.sha256@),
        sealed.validator.hello.kernel_build_id@ == hex_of(artifacts.uml.sha256@),
        sealed.hello.required_features == template.hello.required_features,
        sealed.builder.hello.required_features == template.builder.hello.required_features,
        sealed.validator.hello.required_features == template.validator.hello.required_features,
        sealed.builder.manifest_schema == template.builder.manifest_schema,
        sealed.builder.source_date_epoch == template.builder.source_date_epoch,
        sealed.validator.manifest_schema == template.validator.manifest_schema,
        sealed.schema_version == template.schema_version,
        sealed.profile_id == template.profile_id,
        sealed.maturity == template.maturity,
        sealed.host_architecture == template.host_architecture,
        sealed.host_elf_machine == template.host_elf_machine,
        sealed.oci_os == template.oci_os,
        sealed.oci_architecture == template.oci_architecture,
        sealed.accepted_oci_variants == template.accepted_oci_variants,
        sealed.uml_subarchitecture == template.uml_subarchitecture,
        sealed.guest_page_size == template.guest_page_size,
        sealed.cpu == template.cpu,
        sealed.memory == template.memory,
        sealed.contracts == template.contracts,
        sealed.launch == template.launch,
        rules_fault(sealed, facts) is None,
{
}

/// A bundle lies below the collection of its profile, under its revision.
pub proof fn law_bundle_is_found_by_its_revision(
    output_parent: &str,
    manifest: ProfileManifest,
    path: String,
)
    requires
        call_ensures(publication_path, (output_parent, &manifest), path),
        !is_absolute(manifest.profile_id@),
    ensures
        components(path@) == components(output_parent@) + components(manifest.profile_id@)
            + components(hex_of(manifest.profile_revision@)),
        is_absolute(path@) == is_absolute(output_parent@),
{
    let revision = hex_of(manifest.profile_revision@);
    assert(!is_absolute(revision)) by {
        if revision.len() > 0 {
            assert(revision[0] != '/');
        }
    }
    law_joined_path_stays_below(output_parent@, manifest.profile_id@);
    law_joined_path_stays_below(joined(output_parent@, manifest.profile_id@), revision);
}

/// Whether two descriptions of an artifact say the same.
pub open spec fn is_same_artifact(left: ArtifactSpec, right: ArtifactSpec) -> bool {
    left.path@ == right.path@ && left.sha256@ == right.sha256@ && left.size == right.size
}

/// Manifests that are taken for the same agree in everything that they say.
pub proof fn law_same_manifests_agree_everywhere(
    left: ProfileManifest,
    right: ProfileManifest,
)
    requires
        call_ensures(equal_manifests, (&left, &right), true),
    ensures
        left.schema_version == right.schema_version,
        left.profile_id@ == right.profile_id@,
        left.profile_revision@ == right.profile_revision@,
        left.maturity == right.maturity,
        left.host_architecture@ == right.host_architecture@,
        left.host_elf_machine == right.host_elf_machine,
        left.oci_os@ == right.oci_os@,
        left.oci_architecture@ == right.oci_architecture@,
        variant_texts(left.accepted_oci_variants@) == variant_texts(right.accepted_oci_variants@),
        left.uml_subarchitecture@ == right.uml_subarchitecture@,
        left.guest_page_size == right.guest_page_size,
        left.cpu == right.cpu,
        left.memory == right.memory,
        left.contracts.selector_policy@ == right.contracts.selector_policy@,
        left.contracts.root_layout@ == right.contracts.root_layout@,
        left.contracts.filesystem@ == right.contracts.filesystem@,
        left.contracts.cpu_state_hwcap_policy@ == right.contracts.cpu_state_hwcap_policy@,
        left.contracts.guest_capability_policy@ == right.contracts.guest_capability_policy@,
        forall|which: ContractRole|
            {
                let mine = #[trigger] hello_of(left, which);
                let other = hello_of(right, which);
                &&& mine.guest_contract_id@ == other.guest_contract_id@
                &&& mine.init_build_id@ == other.init_build_id@
                &&& mine.kernel_build_id@ == other.kernel_build_id@
                &&& texts(mine.required_features@) == texts(other.required_features@)
            },
        left.builder.manifest_schema@ == right.builder.manifest_schema@,
        left.builder.source_date_epoch == right.builder.source_date_epoch,
        left.builder.required_tools@.len() == right.builder.required_tools@.len(),
        forall|i: int|
            0 <= i < left.builder.required_tools@.len() ==> {
                let mine = #[trigger] left.builder.required_tools@[i];
                let other = right.builder.required_tools@[i];
                mine.role@ == other.role@ && mine.sha256@ == other.sha256@ && mine.version@
                    == other.version@
            },
        left.validator.manifest_schema@ == right.validator.manifest_schema@,
        left.launch.linkage@ == right.launch.linkage@,
        left.launch.cooperative_backend@ == right.launch.cooperative_backend@,
        left.launch.noreboot == right.launch.noreboot,
        left.launch.rdinit@ == right.launch.rdinit@,
        left.launch.rootfstype@ == right.launch.rootfstype@,
        left.launch.ubd@ == right.launch.ubd@,
        left.launch.serial@ == right.launch.serial@,
        left.launch.network@ == right.launch.network@,
        left.launch.max_ubd_path_bytes == right.launch.max_ubd_path_bytes,
        left.launch.max_umid_bytes == right.launch.max_umid_bytes,
        left.launch.max_unix_path_bytes == right.launch.max_unix_path_bytes,
        is_same_artifact(left.artifacts.guard, right.artifacts.guard),
        is_same_artifact(left.artifacts.uml, right.artifacts.uml),
        is_same_artifact(left.artifacts.skopeo, right.artifacts.skopeo),
        is_same_artifact(left.artifacts.network_helper, right.artifacts.network_helper),
        is_same_artifact(left.artifacts.registry_ca_bundle, right.artifacts.registry_ca_bundle),
        is_same_artifact(left.artifacts.workload_initramfs, right.artifacts.workload_initramfs),
        is_same_artifact(left.artifacts.builder_initramfs, right.artifacts.builder_initramfs),
        is_same_artifact(left.artifacts.validator_initramfs, right.artifacts.validator_initramfs),
        is_same_artifact(left.artifacts.mke2fs, right.artifacts.mke2fs),
        is_same_artifact(left.artifacts.e2fsck, right.artifacts.e2fsck),
        is_same_artifact(left.artifacts.mke2fs_config, right.artifacts.mke2fs_config),
        is_same_artifact(left.artifacts.e2fsck_config, right.artifacts.e2fsck_config),
        is_same_artifact(left.artifacts.normalized_kernel_config, right.artifacts.normalized_kernel_config),
{
}

/// What a guest of a profile must say first.
pub open spec fn hello_of(manifest: ProfileManifest, role: ContractRole) -> HelloContract {
    match role {
        ContractRole::Workload => manifest.hello,
        ContractRole::Builder => manifest.builder.hello,
        ContractRole::Validator => manifest.validator.hello,
    }
}

/// A source is an absolute path to a regular file, without a link on the way.
pub proof fn law_source_is_given_by_its_own_path(
    path: &str,
    regular: bool,
    canonical: &str,
    checked: Result<(), ManifestError>,
)
    requires
        call_ensures(exact_regular_path, (path, regular, canonical), checked),
    ensures
        checked is Ok <==> path@.len() > 0 && path@[0] == '/' && regular && same_location(
            canonical@,
            path@,
        ),
        checked matches Err(error) ==> error@ == (ManifestFault::ArtifactType { path: path@ })
            || error@ == (ManifestFault::ArtifactResolution { path: path@ }),
{
}

/// Profiles are published in a directory of the user that no other can write.
pub proof fn law_publication_directory_is_the_users(
    path: &str,
    directory: bool,
    canonical: &str,
    owned: bool,
    raw_mode: u32,
    checked: Result<(), ManifestError>,
)
    requires
        call_ensures(
            validate_publish_directory,
            (path, directory, canonical, owned, raw_mode),
            checked,
        ),
    ensures
        checked is Ok <==> directory && same_location(canonical@, path@) && owned && raw_mode
            & 0x92u32 == 0x80,
{
    let mode = permissions(raw_mode);
    assert((raw_mode & 0o7777u32) & 0o022u32 == 0 && (raw_mode & 0o7777u32) & 0o200u32 != 0
        <==> raw_mode & 0x92u32 == 0x80) by (bit_vector);
}

/// A staging directory is named after the process and the attempt, of which
/// there are 1024; until it is published it is removed on the way out.
pub proof fn law_stage_is_named_after_its_process(
    pid: u32,
    taken: u16,
    name: Result<String, ManifestError>,
    direct: String,
    path: String,
    stage: StageDirectory,
    armed: bool,
)
    requires
        call_ensures(stage_candidate, (pid, taken), name),
        call_ensures(stage_name, (pid, taken), direct),
        call_ensures(StageDirectory::new, (path,), stage),
        call_ensures(StageDirectory::armed, (&stage,), armed),
    ensures
        name is Ok <==> taken < 1024,
        direct@ == ".seal-"@ + decimal(pid as nat) + "-"@ + decimal(taken as nat),
        name matches Ok(name) ==> name@ == direct@,
        armed,
        stage.view_path() == path@,
{
}

/// A guest's contract record is the one of its role.
pub proof fn law_contract_record_is_of_its_role<'a>(
    manifest: &'a ProfileManifest,
    role: ContractRole,
    protocol_major: u16,
    protocol_minor: u16,
    record: GuestContractRecord<'a>,
)
    requires
        call_ensures(
            guest_contract_record,
            (manifest, role, protocol_major, protocol_minor),
            record,
        ),
    ensures
        record.schema@ == "pocket-guest-contract-v1"@,
        role is Workload ==> record.role@ == "workload"@ && *record.required_features
            == manifest.hello.required_features && record.manifest_schema is None,
        role is Builder ==> record.role@ == "builder"@ && *record.required_features
            == manifest.builder.hello.required_features && record.manifest_schema == Some(
            &manifest.builder.manifest_schema,
        ),
        role is Validator ==> record.role@ == "validator"@ && *record.required_features
            == manifest.validator.hello.required_features && record.manifest_schema == Some(
            &manifest.validator.manifest_schema,
        ),
        record.protocol_major == protocol_major,
        record.protocol_minor == protocol_minor,
        record.host_elf_machine == manifest.host_elf_machine,
        *record.oci_architecture == manifest.oci_architecture,
        record.guest_page_size == manifest.guest_page_size,
        *record.contracts == manifest.contracts,
{
}

/// What was staged, and what is published already, is accepted where it is the
/// sealed manifest; a manifest is always itself.
pub proof fn law_only_the_sealed_manifest_is_accepted(
    path: &str,
    loaded: ProfileManifest,
    sealed: ProfileManifest,
    same: bool,
    staged: Result<(), ManifestError>,
    published: Result<(), ManifestError>,
    missing: Result<(), ManifestError>,
)
    requires
        call_ensures(equal_manifests, (&loaded, &sealed), same),
        call_ensures(check_staged, (&loaded, &sealed), staged),
        call_ensures(check_published, (path, Some(&loaded), &sealed), published),
        call_ensures(check_published, (path, None, &sealed), missing),
    ensures
        staged is Ok <==> same,
        published is Ok <==> same,
        missing is Err,
        loaded == sealed ==> same,
        !same ==> published->Err_0@ == (ManifestFault::PublishConflict { path: path@ }),
{
}

/// A source is digested as far as it was copied.
pub proof fn law_source_is_digested_as_it_is_copied(
    copied: &mut FileDigest,
    chunk: &[u8],
    counted: Result<(), ManifestError>,
)
    requires
        call_ensures(copy_chunk, (copied, chunk), counted),
    ensures
        counted is Ok <==> old(copied).bytes().len() + chunk@.len() <= u64::MAX,
        counted is Ok ==> final(copied).bytes() == old(copied).bytes() + chunk@,
        counted is Err ==> final(copied).bytes() == old(copied).bytes(),
{
}

/// A revision is set over the encoding, and nothing else is changed with it.
pub proof fn law_revision_is_set_alone(manifest: &mut ProfileManifest, encoded: Vec<u8>)
    requires
        call_ensures(set_revision, (manifest, &encoded), ()),
    ensures
        final(manifest).profile_revision@ == revision_of(encoded@),
        final(manifest).profile_id == old(manifest).profile_id,
        final(manifest).artifacts == old(manifest).artifacts,
        final(manifest).hello == old(manifest).hello,
        final(manifest).builder == old(manifest).builder,
        final(manifest).validator == old(manifest).validator,
        final(manifest).launch == old(manifest).launch,
        final(manifest).contracts == old(manifest).contracts,
        final(manifest).cpu == old(manifest).cpu && final(manifest).memory == old(manifest).memory,
        final(manifest).schema_version == old(manifest).schema_version,
{
}

/// A published stage is no longer removed.
pub proof fn law_published_stage_stays(stage: &mut StageDirectory)
    requires
        call_ensures(StageDirectory::disarm, (stage,), ()),
    ensures
        !final(stage).is_armed(),
        final(stage).view_path() == old(stage).view_path(),
{
}

/// Sealing gives each guest the kernel's digest, the digest of its own init and
/// the identity of its own contract, and changes nothing else.
pub proof fn law_guests_are_bound_to_their_own_parts(
    manifest: &mut ProfileManifest,
    encodings: ContractEncodings,
)
    requires
        call_ensures(bind_build_and_contract_identities, (manifest, &encodings), ()),
    ensures
        final(manifest).hello.kernel_build_id@ == hex_of(old(manifest).artifacts.uml.sha256@),
        final(manifest).builder.hello.kernel_build_id@ == hex_of(
            old(manifest).artifacts.uml.sha256@,
        ),
        final(manifest).validator.hello.kernel_build_id@ == hex_of(
            old(manifest).artifacts.uml.sha256@,
        ),
        final(manifest).hello.init_build_id@ == hex_of(
            old(manifest).artifacts.workload_initramfs.sha256@,
        ),
        final(manifest).builder.hello.init_build_id@ == hex_of(
            old(manifest).artifacts.builder_initramfs.sha256@,
        ),
        final(manifest).validator.hello.init_build_id@ == hex_of(
            old(manifest).artifacts.validator_initramfs.sha256@,
        ),
        final(manifest).hello.guest_contract_id@ == contract_id(encodings.workload@),
        final(manifest).builder.hello.guest_contract_id@ == contract_id(encodings.builder@),
        final(manifest).validator.hello.guest_contract_id@ == contract_id(encodings.validator@),
        final(manifest).artifacts == old(manifest).artifacts,
        final(manifest).launch == old(manifest).launch,
        final(manifest).contracts == old(manifest).contracts,
        final(manifest).profile_id == old(manifest).profile_id,
        final(manifest).builder.required_tools == old(manifest).builder.required_tools,
        final(manifest).hello.required_features == old(manifest).hello.required_features,
{
}

} // verus!
