//! What a build admits, and the identities it gives its output.

use vstd::prelude::*;

use crate::builder::sizing::{
    payload_outcome, payload_sizing, target_outcome, target_sizing, total, FilesystemSizing,
    LayoutTotals, MAX_LAYOUT_ENTRIES,
};
use crate::builder::BuildRequest;
use crate::debug::{
    list_debug, list_debug_text, optional_debug, optional_debug_text, optional_list_debug,
    optional_list_debug_text,
};
use crate::digest::ArtifactDigest;
use crate::error::{
    build_fault, build_outcome, first_of, invalid_build, HostBuildError, HostBuildFault,
};
use crate::manifest::rules::{lists_variant, same_optional, variant_texts};
use crate::manifest::ProfileManifest;
use crate::path::{absolute, is_absolute};
use crate::pocket_archive::{copy_optional, GenerationSpec, Platform, PlatformText};
use crate::text::{
    byte_count, byte_len, copy_texts, has_char, join, join3, optional_text, same_text, texts,
};

verus! {

pub const OCI_MANIFEST: &'static str = "application/vnd.oci.image.manifest.v1+json";

pub const OCI_CONFIG: &'static str = "application/vnd.oci.image.config.v1+json";

pub const OCI_LAYER: &'static str = "application/vnd.oci.image.layer.v1.tar";

pub const OCI_LAYER_GZIP: &'static str = "application/vnd.oci.image.layer.v1.tar+gzip";

pub const OCI_LAYER_ZSTD: &'static str = "application/vnd.oci.image.layer.v1.tar+zstd";

/// Most bytes of a source reference.
pub const MAX_REFERENCE_BYTES: usize = 1024;

/// A platform as an image states it.
#[derive(Debug, Clone, PartialEq, Eq)]
pub struct ImagePlatform {
    pub os: String,
    pub architecture: String,
    pub variant: Option<String>,
    pub os_version: Option<String>,
    pub os_features: Vec<String>,
    pub features: Vec<String>,
}

/// One layer of a verified image.
#[derive(Debug, Clone, PartialEq, Eq)]
pub struct ImageLayer {
    pub media_type: String,
    pub digest: ArtifactDigest,
    pub size: u64,
    pub diff_id: ArtifactDigest,
    pub uncompressed_size: u64,
}

/// An image whose layout was authenticated.
#[derive(Debug, Clone, PartialEq, Eq)]
pub struct VerifiedImage {
    pub manifest_digest: ArtifactDigest,
    pub manifest_size: u64,
    pub manifest_media_type: String,
    pub config_digest: ArtifactDigest,
    pub config_size: u64,
    pub config_media_type: String,
    pub layers: Vec<ImageLayer>,
    pub descriptor_platform: Option<ImagePlatform>,
    pub config_platform: ImagePlatform,
    pub effective_platform: ImagePlatform,
    pub selector_policy: String,
    pub original_user: String,
}

/// The name under which a generation is found again.
#[derive(Debug, Clone, PartialEq, Eq)]
pub struct AliasKey {
    pub profile_id: String,
    pub profile_revision: ArtifactDigest,
    pub reference: String,
    pub platform: Platform,
    pub selector_policy: String,
}

// ---------------------------------------------------------------------------
// The request
// ---------------------------------------------------------------------------

pub open spec fn unsupported(field: Seq<char>, value: Seq<char>) -> HostBuildFault {
    HostBuildFault::Unsupported { field, value }
}

pub open spec fn evidence_mismatch(
    field: Seq<char>,
    expected: Seq<char>,
    actual: Seq<char>,
) -> HostBuildFault {
    HostBuildFault::EvidenceMismatch { field, expected, actual }
}

fn unsupported_error(field: &'static str, value: &str) -> (error: HostBuildError)
    ensures
        error@ == unsupported(field@, value@),
{
    HostBuildError::Unsupported { field, value: value.to_owned() }
}

/// The error of evidence that is not the expected one.
pub fn mismatch_error(field: &'static str, expected: &str, actual: &str) -> (error: HostBuildError)
    ensures
        error@ == evidence_mismatch(field@, expected@, actual@),
{
    HostBuildError::EvidenceMismatch {
        field,
        expected: expected.to_owned(),
        actual: actual.to_owned(),
    }
}

/// Why two pieces of evidence are refused, if they are.
pub open spec fn evidence_fault(
    field: Seq<char>,
    expected: Seq<char>,
    actual: Seq<char>,
) -> Option<HostBuildFault> {
    if expected != actual {
        Some(evidence_mismatch(field, expected, actual))
    } else {
        None
    }
}

/// Refuses evidence that is not the expected one.
pub fn compare_evidence(field: &'static str, expected: &str, actual: &str) -> (checked: Result<
    (),
    HostBuildError,
>)
    ensures
        build_fault(checked) == evidence_fault(field@, expected@, actual@),
{
    if !same_text(expected, actual) {
        return Err(mismatch_error(field, expected, actual));
    }
    Ok(())
}

pub open spec fn reference_fault(reference: Seq<char>) -> Option<HostBuildFault> {
    if reference.len() == 0 || byte_count(reference) > MAX_REFERENCE_BYTES || reference.contains(
        '\0',
    ) || reference.contains('\n') || reference.contains('\r') {
        Some(
            invalid_build(
                "source_reference"@,
                "must contain 1..=1024 bytes without NUL or line separators"@,
            ),
        )
    } else {
        None
    }
}

/// Why a request is refused before its layout is opened, if it is.
pub open spec fn request_fault(
    manifest: ProfileManifest,
    request: BuildRequest,
    selector_policy: Seq<char>,
) -> Option<HostBuildFault> {
    let variants = variant_texts(manifest.accepted_oci_variants@);
    let wanted = optional_text(request.requested_variant);
    first_of(
        reference_fault(request.source_reference@),
        if !is_absolute(request.oci_layout@) {
            Some(invalid_build("oci_layout"@, "must be an absolute path"@))
        } else if manifest.oci_os@ != "linux"@ || manifest.oci_architecture@ != "amd64"@ {
            Some(
                unsupported(
                    "profile.platform"@,
                    manifest.oci_os@ + "/"@ + manifest.oci_architecture@,
                ),
            )
        } else if manifest.contracts.selector_policy@ != selector_policy {
            Some(
                evidence_mismatch(
                    "selector_policy"@,
                    manifest.contracts.selector_policy@,
                    selector_policy,
                ),
            )
        } else if !variants.contains(wanted) {
            Some(
                invalid_build(
                    "requested_variant"@,
                    optional_debug(wanted) + " is not admitted by "@ + optional_list_debug(
                        variants,
                    ),
                ),
            )
        } else {
            None
        },
    )
}

proof fn lemma_text_is_empty(text: Seq<char>)
    ensures
        (byte_count(text) == 0) == (text.len() == 0),
{
    vstd::utf8::encode_utf8_decode_utf8(text);
    vstd::utf8::encode_utf8_decode_utf8(Seq::<char>::empty());
    if text.len() == 0 {
        assert(text =~= Seq::<char>::empty());
    }
    if byte_count(text) == 0 {
        assert(vstd::utf8::encode_utf8(text) =~= vstd::utf8::encode_utf8(Seq::<char>::empty()));
    }
}

fn check_reference(reference: &str) -> (checked: Result<(), HostBuildError>)
    ensures
        build_fault(checked) == reference_fault(reference@),
{
    proof {
        lemma_text_is_empty(reference@);
    }
    let length: usize = byte_len(reference);
    if length == 0 || length > MAX_REFERENCE_BYTES || has_char(reference, '\0') || has_char(
        reference,
        '\n',
    ) || has_char(reference, '\r') {
        return Err(
            HostBuildError::invalid(
                "source_reference",
                "must contain 1..=1024 bytes without NUL or line separators",
            ),
        );
    }
    Ok(())
}

/// Refuses a request that the profile does not admit, before anything is
/// opened. `selector_policy` names the selection rules that are compiled in.
pub fn check_build_request(
    manifest: &ProfileManifest,
    request: &BuildRequest,
    selector_policy: &str,
) -> (checked: Result<(), HostBuildError>)
    ensures
        build_fault(checked) == request_fault(*manifest, *request, selector_policy@),
{
    if let Err(error) = check_reference(&request.source_reference) {
        return Err(error);
    }
    if !absolute(&request.oci_layout) {
        return Err(HostBuildError::invalid("oci_layout", "must be an absolute path"));
    }
    if !same_text(&manifest.oci_os, "linux") || !same_text(&manifest.oci_architecture, "amd64") {
        return Err(
            unsupported_error(
                "profile.platform",
                &join3(&manifest.oci_os, "/", &manifest.oci_architecture),
            ),
        );
    }
    if !same_text(&manifest.contracts.selector_policy, selector_policy) {
        return Err(
            mismatch_error(
                "selector_policy",
                &manifest.contracts.selector_policy,
                selector_policy,
            ),
        );
    }
    let ghost variants = variant_texts(manifest.accepted_oci_variants@);
    assert(variants.take(variants.len() as int) =~= variants);
    if !lists_variant(
        &manifest.accepted_oci_variants,
        manifest.accepted_oci_variants.len(),
        &request.requested_variant,
    ) {
        return Err(
            HostBuildError::invalid(
                "requested_variant",
                &join3(
                    &optional_debug_text(&request.requested_variant),
                    " is not admitted by ",
                    &optional_list_debug_text(&manifest.accepted_oci_variants),
                ),
            ),
        );
    }
    Ok(())
}

// ---------------------------------------------------------------------------
// The image
// ---------------------------------------------------------------------------

pub open spec fn is_layer_type(media_type: Seq<char>) -> bool {
    media_type == OCI_LAYER@ || media_type == OCI_LAYER_GZIP@ || media_type == OCI_LAYER_ZSTD@
}

/// Why the first refused layer is refused, if one is.
pub open spec fn layers_fault(layers: Seq<ImageLayer>) -> Option<HostBuildFault>
    decreases layers.len(),
{
    if layers.len() == 0 {
        None
    } else {
        first_of(
            layers_fault(layers.drop_last()),
            if is_layer_type(layers.last().media_type@) {
                None
            } else {
                Some(unsupported("layer_media_type"@, layers.last().media_type@))
            },
        )
    }
}

pub open spec fn boundary_fault(image: VerifiedImage) -> Option<HostBuildFault> {
    if image.manifest_media_type@ != OCI_MANIFEST@ {
        Some(unsupported("manifest_media_type"@, image.manifest_media_type@))
    } else if image.config_media_type@ != OCI_CONFIG@ {
        Some(unsupported("config_media_type"@, image.config_media_type@))
    } else {
        layers_fault(image.layers@)
    }
}

proof fn lemma_layers_prefix(layers: Seq<ImageLayer>, n: int)
    requires
        0 <= n <= layers.len(),
        layers_fault(layers.take(n)) is Some,
    ensures
        layers_fault(layers) == layers_fault(layers.take(n)),
    decreases layers.len(),
{
    if n == layers.len() {
        assert(layers.take(n) =~= layers);
    } else {
        assert(layers.drop_last().take(n) =~= layers.take(n));
        lemma_layers_prefix(layers.drop_last(), n);
    }
}

/// Refuses an image with a media type outside the canonical OCI ones.
pub fn require_canonical_oci_boundary(image: &VerifiedImage) -> (checked: Result<
    (),
    HostBuildError,
>)
    ensures
        build_fault(checked) == boundary_fault(*image),
{
    if !same_text(&image.manifest_media_type, OCI_MANIFEST) {
        return Err(unsupported_error("manifest_media_type", &image.manifest_media_type));
    }
    if !same_text(&image.config_media_type, OCI_CONFIG) {
        return Err(unsupported_error("config_media_type", &image.config_media_type));
    }
    let ghost layers = image.layers@;
    let mut i: usize = 0;
    assert(layers.take(0) =~= Seq::<ImageLayer>::empty());
    while i < image.layers.len()
        invariant
            i <= image.layers@.len(),
            layers == image.layers@,
            layers_fault(layers.take(i as int)) is None,
            image.manifest_media_type@ == OCI_MANIFEST@,
            image.config_media_type@ == OCI_CONFIG@,
        decreases image.layers@.len() - i,
    {
        assert(layers.take(i + 1).drop_last() =~= layers.take(i as int));
        let kind = &image.layers[i].media_type;
        if !same_text(kind, OCI_LAYER) && !same_text(kind, OCI_LAYER_GZIP) && !same_text(
            kind,
            OCI_LAYER_ZSTD,
        ) {
            proof {
                lemma_layers_prefix(layers, i + 1);
            }
            return Err(unsupported_error("layer_media_type", kind));
        }
        i += 1;
    }
    assert(layers.take(i as int) =~= layers);
    Ok(())
}

/// Why one platform of an image is refused, if it is.
pub open spec fn image_platform_fault(
    field: Seq<char>,
    platform: ImagePlatform,
    variants: Seq<Option<Seq<char>>>,
) -> Option<HostBuildFault> {
    if platform.os@ != "linux"@ || platform.architecture@ != "amd64"@ {
        Some(unsupported(field, platform.os@ + "/"@ + platform.architecture@))
    } else if platform.os_version is Some || platform.os_features@.len() != 0
        || platform.features@.len() != 0 {
        Some(
            unsupported(
                field,
                "os_version="@ + optional_debug(optional_text(platform.os_version))
                    + ", os_features="@ + list_debug(texts(platform.os_features@)) + ", features="@
                    + list_debug(texts(platform.features@)),
            ),
        )
    } else if !variants.contains(optional_text(platform.variant)) {
        Some(unsupported(field, "variant "@ + optional_debug(optional_text(platform.variant))))
    } else {
        None
    }
}

/// Why an image's platforms are refused, if they are.
pub open spec fn platforms_fault(manifest: ProfileManifest, image: VerifiedImage) -> Option<
    HostBuildFault,
> {
    let variants = variant_texts(manifest.accepted_oci_variants@);
    first_of(
        image_platform_fault("config_platform"@, image.config_platform, variants),
        first_of(
            image_platform_fault("effective_platform"@, image.effective_platform, variants),
            match image.descriptor_platform {
                Some(platform) => image_platform_fault(
                    "descriptor_platform"@,
                    platform,
                    variants,
                ),
                None => None,
            },
        ),
    )
}

fn check_platform(
    manifest: &ProfileManifest,
    field: &'static str,
    platform: &ImagePlatform,
) -> (checked: Result<(), HostBuildError>)
    ensures
        build_fault(checked) == image_platform_fault(
            field@,
            *platform,
            variant_texts(manifest.accepted_oci_variants@),
        ),
{
    if !same_text(&platform.os, "linux") || !same_text(&platform.architecture, "amd64") {
        return Err(
            unsupported_error(field, &join3(&platform.os, "/", &platform.architecture)),
        );
    }
    if platform.os_version.is_some() || platform.os_features.len() != 0
        || platform.features.len() != 0 {
        let version = join("os_version=", &optional_debug_text(&platform.os_version));
        let features = join3(
            &version,
            ", os_features=",
            &list_debug_text(&platform.os_features),
        );
        return Err(
            unsupported_error(
                field,
                &join3(&features, ", features=", &list_debug_text(&platform.features)),
            ),
        );
    }
    let ghost variants = variant_texts(manifest.accepted_oci_variants@);
    assert(variants.take(variants.len() as int) =~= variants);
    if !lists_variant(
        &manifest.accepted_oci_variants,
        manifest.accepted_oci_variants.len(),
        &platform.variant,
    ) {
        return Err(
            unsupported_error(field, &join("variant ", &optional_debug_text(&platform.variant))),
        );
    }
    Ok(())
}

/// Refuses an image for another platform than the profile's, in any of the
/// three places where an image states one.
pub fn validate_image_platforms(manifest: &ProfileManifest, image: &VerifiedImage) -> (checked:
    Result<(), HostBuildError>)
    ensures
        build_fault(checked) == platforms_fault(*manifest, *image),
{
    if let Err(error) = check_platform(manifest, "config_platform", &image.config_platform) {
        return Err(error);
    }
    if let Err(error) = check_platform(
        manifest,
        "effective_platform",
        &image.effective_platform,
    ) {
        return Err(error);
    }
    match &image.descriptor_platform {
        Some(platform) => check_platform(manifest, "descriptor_platform", platform),
        None => Ok(()),
    }
}

/// Why an image is refused for a request, if it is.
pub open spec fn image_fault(
    manifest: ProfileManifest,
    request: BuildRequest,
    image: VerifiedImage,
) -> Option<HostBuildFault> {
    let wanted = optional_text(request.requested_variant);
    let actual = optional_text(image.effective_platform.variant);
    first_of(
        evidence_fault(
            "verified_image.selector_policy"@,
            manifest.contracts.selector_policy@,
            image.selector_policy@,
        ),
        first_of(
            boundary_fault(image),
            first_of(
                platforms_fault(manifest, image),
                if wanted is Some && actual != wanted {
                    Some(
                        evidence_mismatch(
                            "requested_variant"@,
                            optional_debug(wanted),
                            optional_debug(actual),
                        ),
                    )
                } else {
                    None
                },
            ),
        ),
    )
}

/// Refuses an authenticated image that the request or the profile excludes.
pub fn check_image(
    manifest: &ProfileManifest,
    request: &BuildRequest,
    image: &VerifiedImage,
) -> (checked: Result<(), HostBuildError>)
    ensures
        build_fault(checked) == image_fault(*manifest, *request, *image),
{
    if let Err(error) = compare_evidence(
        "verified_image.selector_policy",
        &manifest.contracts.selector_policy,
        &image.selector_policy,
    ) {
        return Err(error);
    }
    if let Err(error) = require_canonical_oci_boundary(image) {
        return Err(error);
    }
    if let Err(error) = validate_image_platforms(manifest, image) {
        return Err(error);
    }
    if request.requested_variant.is_some() && !same_optional(
        &image.effective_platform.variant,
        &request.requested_variant,
    ) {
        return Err(
            mismatch_error(
                "requested_variant",
                &optional_debug_text(&request.requested_variant),
                &optional_debug_text(&image.effective_platform.variant),
            ),
        );
    }
    Ok(())
}

// ---------------------------------------------------------------------------
// Identities
// ---------------------------------------------------------------------------

/// A platform as the store identifies it.
pub open spec fn stored_platform(platform: ImagePlatform) -> PlatformText {
    PlatformText {
        os: platform.os@,
        architecture: platform.architecture@,
        variant: optional_text(platform.variant),
        os_version: optional_text(platform.os_version),
        os_features: texts(platform.os_features@),
    }
}

pub open spec fn store_platform_outcome(platform: ImagePlatform) -> Result<
    PlatformText,
    HostBuildFault,
> {
    if platform.features@.len() != 0 {
        Err(unsupported("platform.features"@, list_debug(texts(platform.features@))))
    } else {
        Ok(stored_platform(platform))
    }
}

/// The store's platform of an image's, which must not state features that the
/// store cannot record.
pub fn store_platform(platform: &ImagePlatform) -> (stored: Result<Platform, HostBuildError>)
    ensures
        match stored {
            Ok(stored) => store_platform_outcome(*platform) == Ok::<_, HostBuildFault>(stored@),
            Err(error) => store_platform_outcome(*platform) == Err::<PlatformText, _>(error@),
        },
{
    if platform.features.len() != 0 {
        return Err(unsupported_error("platform.features", &list_debug_text(&platform.features)));
    }
    Ok(
        Platform {
            os: platform.os.clone(),
            architecture: platform.architecture.clone(),
            variant: copy_optional(&platform.variant),
            os_version: copy_optional(&platform.os_version),
            os_features: copy_texts(&platform.os_features),
        },
    )
}

pub open spec fn digests_of(layers: Seq<ImageLayer>) -> Seq<Seq<u8>> {
    Seq::new(layers.len(), |i: int| layers[i].digest@)
}

pub open spec fn diff_ids_of(layers: Seq<ImageLayer>) -> Seq<Seq<u8>> {
    Seq::new(layers.len(), |i: int| layers[i].diff_id@)
}

pub open spec fn sizes_of(layers: Seq<ImageLayer>) -> Seq<u64> {
    Seq::new(layers.len(), |i: int| layers[i].uncompressed_size)
}

pub open spec fn digest_list(digests: Seq<ArtifactDigest>) -> Seq<Seq<u8>> {
    Seq::new(digests.len(), |i: int| digests[i]@)
}

/// Whether a specification is that of an image built under a profile.
pub open spec fn specifies(
    spec: GenerationSpec,
    manifest: ProfileManifest,
    image: VerifiedImage,
    build_contract: Seq<u8>,
) -> bool {
    &&& spec.selected_manifest_digest@ == image.manifest_digest@
    &&& spec.config_digest@ == image.config_digest@
    &&& digest_list(spec.layer_digests@) == digests_of(image.layers@)
    &&& digest_list(spec.diff_ids@) == diff_ids_of(image.layers@)
    &&& match (spec.descriptor_platform, image.descriptor_platform) {
        (Some(stored), Some(platform)) => stored@ == stored_platform(platform),
        (None, None) => true,
        _ => false,
    }
    &&& spec.config_platform@ == stored_platform(image.config_platform)
    &&& spec.effective_platform@ == stored_platform(image.effective_platform)
    &&& spec.selector_policy_id@ == image.selector_policy@
    &&& spec.profile_id@ == manifest.profile_id@
    &&& spec.profile_revision@ == manifest.profile_revision@
    &&& spec.root_layout_contract@ == manifest.contracts.root_layout@
    &&& spec.filesystem_contract@ == manifest.contracts.filesystem@
    &&& spec.build_contract_digest@ == build_contract
}

/// The platform that a request names.
pub open spec fn requested_platform(request: BuildRequest) -> PlatformText {
    PlatformText {
        os: "linux"@,
        architecture: "amd64"@,
        variant: optional_text(request.requested_variant),
        os_version: None,
        os_features: Seq::empty(),
    }
}

/// Whether an alias is the one that a request names its output by.
pub open spec fn names_request(
    alias: AliasKey,
    manifest: ProfileManifest,
    request: BuildRequest,
) -> bool {
    &&& alias.profile_id@ == manifest.profile_id@
    &&& alias.profile_revision@ == manifest.profile_revision@
    &&& alias.reference@ == request.source_reference@
    &&& alias.platform@ == requested_platform(request)
    &&& alias.selector_policy@ == manifest.contracts.selector_policy@
}

fn layer_digests(layers: &Vec<ImageLayer>) -> (digests: Vec<ArtifactDigest>)
    ensures
        digest_list(digests@) == digests_of(layers@),
{
    let mut digests: Vec<ArtifactDigest> = Vec::new();
    let mut i: usize = 0;
    while i < layers.len()
        invariant
            i <= layers@.len(),
            digest_list(digests@) =~= digests_of(layers@).take(i as int),
        decreases layers@.len() - i,
    {
        let ghost before = digest_list(digests@);
        digests.push(layers[i].digest);
        i += 1;
        assert(digest_list(digests@) =~= before.push(layers@[i - 1].digest@));
    }
    assert(digests_of(layers@).take(i as int) =~= digests_of(layers@));
    digests
}

fn layer_diff_ids(layers: &Vec<ImageLayer>) -> (digests: Vec<ArtifactDigest>)
    ensures
        digest_list(digests@) == diff_ids_of(layers@),
{
    let mut digests: Vec<ArtifactDigest> = Vec::new();
    let mut i: usize = 0;
    while i < layers.len()
        invariant
            i <= layers@.len(),
            digest_list(digests@) =~= diff_ids_of(layers@).take(i as int),
        decreases layers@.len() - i,
    {
        let ghost before = digest_list(digests@);
        digests.push(layers[i].diff_id);
        i += 1;
        assert(digest_list(digests@) =~= before.push(layers@[i - 1].diff_id@));
    }
    assert(diff_ids_of(layers@).take(i as int) =~= diff_ids_of(layers@));
    digests
}

fn uncompressed_sizes(layers: &Vec<ImageLayer>) -> (sizes: Vec<u64>)
    ensures
        sizes@ == sizes_of(layers@),
{
    let mut sizes: Vec<u64> = Vec::new();
    let mut i: usize = 0;
    while i < layers.len()
        invariant
            i <= layers@.len(),
            sizes@ =~= sizes_of(layers@).take(i as int),
        decreases layers@.len() - i,
    {
        sizes.push(layers[i].uncompressed_size);
        i += 1;
    }
    assert(sizes_of(layers@).take(i as int) =~= sizes_of(layers@));
    sizes
}

/// The sizes of the two filesystems of a build.
#[derive(Debug, Clone, Copy)]
pub struct BuildSizes {
    pub payload: FilesystemSizing,
    pub target: FilesystemSizing,
}

/// What sizing a build comes to.
pub open spec fn sizes_outcome(
    totals: LayoutTotals,
    image: VerifiedImage,
    maximum_manifest_entries: u64,
) -> Result<BuildSizes, HostBuildFault> {
    match payload_outcome(totals.entries as nat, totals.bytes as nat) {
        Err(fault) => Err(fault),
        Ok(payload) => match target_outcome(
            total(sizes_of(image.layers@)),
            maximum_manifest_entries as nat,
        ) {
            Err(fault) => Err(fault),
            Ok(target) => Ok(BuildSizes { payload, target }),
        },
    }
}

/// Sizes the scratch and the target filesystem of a build.
pub fn size_build(totals: LayoutTotals, image: &VerifiedImage, maximum_manifest_entries: u64) -> (sizes:
    Result<BuildSizes, HostBuildError>)
    requires
        totals.entries <= MAX_LAYOUT_ENTRIES,
    ensures
        build_outcome(sizes) == sizes_outcome(totals, *image, maximum_manifest_entries),
{
    let payload = match payload_sizing(totals) {
        Ok(sizing) => sizing,
        Err(error) => {
            return Err(error);
        },
    };
    match target_sizing(&uncompressed_sizes(&image.layers), maximum_manifest_entries) {
        Ok(target) => Ok(BuildSizes { payload, target }),
        Err(error) => Err(error),
    }
}

/// What a build is going to produce, and under which name.
#[derive(Debug)]
pub struct PreparedBuild {
    pub spec: GenerationSpec,
    pub alias: AliasKey,
    pub sizes: BuildSizes,
}

/// Why an image cannot be prepared, if it cannot: the request and the image
/// come first, then the sizes.
pub open spec fn prepare_outcome(
    manifest: ProfileManifest,
    request: BuildRequest,
    image: VerifiedImage,
    totals: LayoutTotals,
    selector_policy: Seq<char>,
    maximum_manifest_entries: u64,
) -> Result<BuildSizes, HostBuildFault> {
    match first_of(
        request_fault(manifest, request, selector_policy),
        image_fault(manifest, request, image),
    ) {
        Some(fault) => Err(fault),
        None => sizes_outcome(totals, image, maximum_manifest_entries),
    }
}

/// Admits a request and its image, and sizes the build.
pub fn admit_build(
    manifest: &ProfileManifest,
    request: &BuildRequest,
    image: &VerifiedImage,
    totals: LayoutTotals,
    selector_policy: &str,
    maximum_manifest_entries: u64,
) -> (sizes: Result<BuildSizes, HostBuildError>)
    requires
        totals.entries <= MAX_LAYOUT_ENTRIES,
    ensures
        build_outcome(sizes) == prepare_outcome(
            *manifest,
            *request,
            *image,
            totals,
            selector_policy@,
            maximum_manifest_entries,
        ),
{
    if let Err(error) = check_build_request(manifest, request, selector_policy) {
        return Err(error);
    }
    if let Err(error) = check_image(manifest, request, image) {
        return Err(error);
    }
    size_build(totals, image, maximum_manifest_entries)
}

/// Why the platforms of an image cannot be stored, if they cannot.
pub open spec fn stored_platforms_fault(image: VerifiedImage) -> Option<HostBuildFault> {
    first_of(
        match image.descriptor_platform {
            Some(platform) => features_fault(platform),
            None => None,
        },
        first_of(features_fault(image.config_platform), features_fault(image.effective_platform)),
    )
}

pub open spec fn features_fault(platform: ImagePlatform) -> Option<HostBuildFault> {
    match store_platform_outcome(platform) {
        Ok(_) => None,
        Err(fault) => Some(fault),
    }
}

/// Names the output of an admitted build. `build_contract` is the digest of
/// the build contract for the target sizing.
pub fn prepare_build(
    manifest: &ProfileManifest,
    request: &BuildRequest,
    image: &VerifiedImage,
    sizes: BuildSizes,
    build_contract: ArtifactDigest,
) -> (prepared: Result<PreparedBuild, HostBuildError>)
    ensures
        match prepared {
            Ok(prepared) => stored_platforms_fault(*image) is None && specifies(
                prepared.spec,
                *manifest,
                *image,
                build_contract@,
            ) && names_request(prepared.alias, *manifest, *request) && prepared.sizes == sizes,
            Err(error) => stored_platforms_fault(*image) == Some(error@),
        },
{
    let descriptor_platform = match &image.descriptor_platform {
        Some(platform) => match store_platform(platform) {
            Ok(stored) => Some(stored),
            Err(error) => {
                return Err(error);
            },
        },
        None => None,
    };
    let config_platform = match store_platform(&image.config_platform) {
        Ok(stored) => stored,
        Err(error) => {
            return Err(error);
        },
    };
    let effective_platform = match store_platform(&image.effective_platform) {
        Ok(stored) => stored,
        Err(error) => {
            return Err(error);
        },
    };
    let revision = ArtifactDigest::from_bytes(manifest.profile_revision.as_bytes());
    let spec = GenerationSpec {
        selected_manifest_digest: image.manifest_digest,
        config_digest: image.config_digest,
        layer_digests: layer_digests(&image.layers),
        diff_ids: layer_diff_ids(&image.layers),
        descriptor_platform,
        config_platform,
        effective_platform,
        selector_policy_id: image.selector_policy.clone(),
        profile_id: manifest.profile_id.clone(),
        profile_revision: revision,
        root_layout_contract: manifest.contracts.root_layout.clone(),
        filesystem_contract: manifest.contracts.filesystem.clone(),
        build_contract_digest: build_contract,
    };
    let os_features: Vec<String> = Vec::new();
    assert(texts(os_features@) =~= Seq::<Seq<char>>::empty());
    let platform = Platform {
        os: "linux".to_owned(),
        architecture: "amd64".to_owned(),
        variant: copy_optional(&request.requested_variant),
        os_version: None,
        os_features,
    };
    let alias = AliasKey {
        profile_id: manifest.profile_id.clone(),
        profile_revision: revision,
        reference: request.source_reference.clone(),
        platform,
        selector_policy: manifest.contracts.selector_policy.clone(),
    };
    Ok(PreparedBuild { spec, alias, sizes })
}

/// The raw platforms of an image are recorded as they are: what the descriptor
/// and the configuration state separately stays separate in the identity.
pub proof fn law_platform_evidence_is_not_collapsed(
    spec: GenerationSpec,
    manifest: ProfileManifest,
    image: VerifiedImage,
    build_contract: Seq<u8>,
)
    requires
        specifies(spec, manifest, image, build_contract),
    ensures
        spec.config_platform@.variant == optional_text(image.config_platform.variant),
        spec.effective_platform@.variant == optional_text(image.effective_platform.variant),
        spec.descriptor_platform is Some == image.descriptor_platform is Some,
        image.descriptor_platform matches Some(platform)
            ==> spec.descriptor_platform->Some_0@.variant == optional_text(platform.variant),
{
}

/// An admitted build runs the platform that was asked for, on Linux and amd64,
/// with a variant that the profile accepts, and its identity can be recorded.
pub proof fn law_admitted_image_matches_its_request(
    manifest: ProfileManifest,
    request: BuildRequest,
    image: VerifiedImage,
)
    requires
        image_fault(manifest, request, image) is None,
    ensures
        image.effective_platform.os@ == "linux"@,
        image.effective_platform.architecture@ == "amd64"@,
        request.requested_variant is Some ==> optional_text(image.effective_platform.variant)
            == optional_text(request.requested_variant),
        variant_texts(manifest.accepted_oci_variants@).contains(
            optional_text(image.effective_platform.variant),
        ),
        stored_platforms_fault(image) is None,
{
}

/// A request is admitted exactly where its reference is plain text of at most
/// 1024 bytes, its layout is an absolute path, and the profile builds for this
/// machine under the same selection policy and with the wanted variant.
pub proof fn law_request_is_admitted_by_its_profile(
    manifest: ProfileManifest,
    request: BuildRequest,
    selector_policy: &str,
    checked: Result<(), HostBuildError>,
)
    requires
        call_ensures(check_build_request, (&manifest, &request, selector_policy), checked),
    ensures
        checked is Ok <==> {
            let reference = request.source_reference@;
            &&& 0 < reference.len() && byte_count(reference) <= 1024
            &&& !reference.contains('\0') && !reference.contains('\n') && !reference.contains('\r')
            &&& request.oci_layout@.len() > 0 && request.oci_layout@[0] == '/'
            &&& manifest.oci_os@ == "linux"@ && manifest.oci_architecture@ == "amd64"@
            &&& manifest.contracts.selector_policy@ == selector_policy@
            &&& variant_texts(manifest.accepted_oci_variants@).contains(
                optional_text(request.requested_variant),
            )
        },
{
}

/// Whether a platform is this machine's, of a variant that the profile accepts,
/// with nothing more asked of it.
pub open spec fn is_this_machine(platform: ImagePlatform, manifest: ProfileManifest) -> bool {
    &&& platform.os@ == "linux"@
    &&& platform.architecture@ == "amd64"@
    &&& platform.os_version is None
    &&& platform.os_features@.len() == 0
    &&& platform.features@.len() == 0
    &&& variant_texts(manifest.accepted_oci_variants@).contains(optional_text(platform.variant))
}

/// An image is admitted exactly where it is an OCI image of OCI layers, selected
/// under the profile's policy, for this machine in all that it says of it, and
/// of the wanted variant.
pub proof fn law_image_is_admitted_by_its_request(
    manifest: ProfileManifest,
    request: BuildRequest,
    image: VerifiedImage,
    checked: Result<(), HostBuildError>,
)
    requires
        call_ensures(check_image, (&manifest, &request, &image), checked),
    ensures
        checked is Ok <==> {
            &&& image.selector_policy@ == manifest.contracts.selector_policy@
            &&& image.manifest_media_type@ == "application/vnd.oci.image.manifest.v1+json"@
            &&& image.config_media_type@ == "application/vnd.oci.image.config.v1+json"@
            &&& forall|i: int|
                0 <= i < image.layers@.len() ==> {
                    let media_type = (#[trigger] image.layers@[i]).media_type@;
                    ||| media_type == "application/vnd.oci.image.layer.v1.tar"@
                    ||| media_type == "application/vnd.oci.image.layer.v1.tar+gzip"@
                    ||| media_type == "application/vnd.oci.image.layer.v1.tar+zstd"@
                }
            &&& is_this_machine(image.config_platform, manifest)
            &&& is_this_machine(image.effective_platform, manifest)
            &&& image.descriptor_platform matches Some(platform) ==> is_this_machine(
                platform,
                manifest,
            )
            &&& request.requested_variant is Some ==> optional_text(
                image.effective_platform.variant,
            ) == optional_text(request.requested_variant)
        },
{
    lemma_layers(image.layers@);
}

proof fn lemma_layers(layers: Seq<ImageLayer>)
    ensures
        layers_fault(layers) is None <==> forall|i: int|
            0 <= i < layers.len() ==> is_layer_type((#[trigger] layers[i]).media_type@),
    decreases layers.len(),
{
    if layers.len() > 0 {
        let front = layers.drop_last();
        lemma_layers(front);
        if layers_fault(layers) is None {
            assert forall|i: int| 0 <= i < layers.len() implies is_layer_type(
                (#[trigger] layers[i]).media_type@,
            ) by {
                if i < front.len() {
                    assert(front[i] == layers[i]);
                }
            }
        }
        if forall|i: int|
            0 <= i < layers.len() ==> is_layer_type((#[trigger] layers[i]).media_type@) {
            assert forall|i: int| 0 <= i < front.len() implies is_layer_type(
                (#[trigger] front[i]).media_type@,
            ) by {
                assert(front[i] == layers[i]);
            }
            assert(layers[layers.len() - 1] == layers.last());
        }
    }
}

/// A platform is stored as it is, unless it names features.
pub proof fn law_platform_is_stored_as_it_is(
    platform: ImagePlatform,
    stored: Result<Platform, HostBuildError>,
)
    requires
        call_ensures(store_platform, (&platform,), stored),
    ensures
        stored is Ok <==> platform.features@.len() == 0,
        stored matches Ok(stored) ==> {
            &&& stored@.os == platform.os@
            &&& stored@.architecture == platform.architecture@
            &&& stored@.variant == optional_text(platform.variant)
            &&& stored@.os_version == optional_text(platform.os_version)
            &&& stored@.os_features == texts(platform.os_features@)
        },
{
}

/// A generation is specified by the image that it is made of, layer by layer,
/// and by the profile and the contract that make it.
pub proof fn law_generation_is_the_images(
    manifest: ProfileManifest,
    request: BuildRequest,
    image: VerifiedImage,
    sizes: BuildSizes,
    build_contract: ArtifactDigest,
    prepared: PreparedBuild,
)
    requires
        call_ensures(
            prepare_build,
            (&manifest, &request, &image, sizes, build_contract),
            Ok(prepared),
        ),
    ensures
        prepared.sizes == sizes,
        prepared.spec.selected_manifest_digest@ == image.manifest_digest@,
        prepared.spec.config_digest@ == image.config_digest@,
        prepared.spec.build_contract_digest@ == build_contract@,
        prepared.spec.profile_id@ == manifest.profile_id@,
        prepared.spec.profile_revision@ == manifest.profile_revision@,
        prepared.spec.root_layout_contract@ == manifest.contracts.root_layout@,
        prepared.spec.filesystem_contract@ == manifest.contracts.filesystem@,
        prepared.spec.selector_policy_id@ == image.selector_policy@,
        prepared.spec.layer_digests@.len() == image.layers@.len(),
        prepared.spec.diff_ids@.len() == image.layers@.len(),
        forall|i: int|
            0 <= i < image.layers@.len() ==> (#[trigger] prepared.spec.layer_digests@[i])@
                == image.layers@[i].digest@,
        forall|i: int|
            0 <= i < image.layers@.len() ==> (#[trigger] prepared.spec.diff_ids@[i])@
                == image.layers@[i].diff_id@,
        prepared.spec.config_platform@.os == image.config_platform.os@,
        prepared.spec.config_platform@.architecture == image.config_platform.architecture@,
        prepared.spec.config_platform@.variant == optional_text(image.config_platform.variant),
        prepared.spec.effective_platform@.os == image.effective_platform.os@,
        prepared.spec.effective_platform@.architecture == image.effective_platform.architecture@,
        prepared.spec.effective_platform@.variant == optional_text(
            image.effective_platform.variant,
        ),
        prepared.spec.descriptor_platform is Some <==> image.descriptor_platform is Some,
        prepared.alias.profile_id@ == manifest.profile_id@,
        prepared.alias.profile_revision@ == manifest.profile_revision@,
        prepared.alias.reference@ == request.source_reference@,
        prepared.alias.selector_policy@ == manifest.contracts.selector_policy@,
        prepared.alias.platform@.os == "linux"@,
        prepared.alias.platform@.architecture == "amd64"@,
        prepared.alias.platform@.variant == optional_text(request.requested_variant),
        prepared.alias.platform@.os_version is None,
        prepared.alias.platform@.os_features.len() == 0,
{
    let spec = prepared.spec;
    assert(digest_list(spec.layer_digests@).len() == spec.layer_digests@.len());
    assert(digest_list(spec.diff_ids@).len() == spec.diff_ids@.len());
    assert forall|i: int| 0 <= i < image.layers@.len() implies (#[trigger] spec.layer_digests@[i])@
        == image.layers@[i].digest@ by {
        assert(digest_list(spec.layer_digests@)[i] == digests_of(image.layers@)[i]);
    }
    assert forall|i: int| 0 <= i < image.layers@.len() implies (#[trigger] spec.diff_ids@[i])@
        == image.layers@[i].diff_id@ by {
        assert(digest_list(spec.diff_ids@)[i] == diff_ids_of(image.layers@)[i]);
    }
}

/// The sizes of a build: the scratch filesystem follows the layout, the target
/// follows the uncompressed layers.
pub proof fn law_sizes_follow_their_contents(
    totals: LayoutTotals,
    image: VerifiedImage,
    maximum_manifest_entries: u64,
    sizes: BuildSizes,
)
    requires
        totals.entries <= MAX_LAYOUT_ENTRIES,
        call_ensures(size_build, (totals, &image, maximum_manifest_entries), Ok(sizes)),
    ensures
        payload_outcome(totals.entries as nat, totals.bytes as nat) == Ok::<_, HostBuildFault>(
            sizes.payload,
        ),
        target_outcome(
            total(Seq::new(image.layers@.len(), |i: int| image.layers@[i].uncompressed_size)),
            maximum_manifest_entries as nat,
        ) == Ok::<_, HostBuildFault>(sizes.target),
{
}

/// Evidence is accepted where it is the expected one, and is told otherwise with
/// both values in their places.
pub proof fn law_refused_evidence_says_what_differs(
    field: &'static str,
    expected: &str,
    actual: &str,
    checked: Result<(), HostBuildError>,
)
    requires
        call_ensures(compare_evidence, (field, expected, actual), checked),
    ensures
        checked is Ok <==> expected@ == actual@,
        checked matches Err(error) ==> error@ == (HostBuildFault::EvidenceMismatch {
            field: field@,
            expected: expected@,
            actual: actual@,
        }),
{
}

/// An image of another format is refused with what is not supported.
pub proof fn law_other_image_format_is_refused(
    image: VerifiedImage,
    checked: Result<(), HostBuildError>,
)
    requires
        call_ensures(require_canonical_oci_boundary, (&image,), checked),
    ensures
        image.manifest_media_type@ != "application/vnd.oci.image.manifest.v1+json"@ ==> build_fault(
            checked,
        ) == Some(
            HostBuildFault::Unsupported {
                field: "manifest_media_type"@,
                value: image.manifest_media_type@,
            },
        ),
        image.manifest_media_type@ == "application/vnd.oci.image.manifest.v1+json"@
            && image.config_media_type@ != "application/vnd.oci.image.config.v1+json"@
            ==> build_fault(checked) == Some(
            HostBuildFault::Unsupported {
                field: "config_media_type"@,
                value: image.config_media_type@,
            },
        ),
        checked is Ok ==> image.layers@.len() == 0 || is_layer_type(image.layers@.last().media_type@),
{
}

} // verus!
