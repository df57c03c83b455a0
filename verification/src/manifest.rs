//! The external profile manifest and the artifacts it binds.

pub mod artifact;
pub mod elf;
pub mod kernel;
pub mod profile;
pub mod registry;
pub mod rules;

use vstd::prelude::*;
use vstd::utf8::*;

use crate::digest::{digest_text, sha256, sha256_of, ArtifactDigest, ProfileRevision};
use crate::error::{invalid_field, manifest_fault, ManifestError, ManifestFault};
use crate::text::join;

verus! {

pub const PROFILE_SCHEMA_VERSION: u16 = 3;

pub const PROFILE_MANIFEST_FILE: &'static str = "profile.json";

/// Most bytes of a manifest file.
pub const MAX_MANIFEST_BYTES: usize = 1024 * 1024;

/// The ELF machine number of x86_64.
pub const EM_X86_64: u16 = 62;

#[derive(Debug, Clone, Copy, PartialEq, Eq, Structural)]
pub enum ProfileMaturity {
    Release,
    Experimental,
}

#[derive(Debug, Clone, PartialEq, Eq)]
pub struct ArtifactSpec {
    pub path: String,
    pub sha256: ArtifactDigest,
    pub size: u64,
}

#[derive(Debug, Clone, Copy, PartialEq, Eq)]
pub struct CpuManifest {
    pub smp_enabled: bool,
    pub product_max_cpus: u16,
    pub compiled_nr_cpus: Option<u16>,
    pub effective_max_cpus: u16,
}

#[derive(Debug, Clone, Copy, PartialEq, Eq, Structural)]
pub struct MemoryManifest {
    pub minimum_bytes: u64,
    pub default_memory_bytes: u64,
    pub product_maximum_bytes: u64,
    pub effective_max_memory_bytes: u64,
    pub builder_memory_bytes: u64,
    pub validator_memory_bytes: u64,
    pub alignment_bytes: u64,
}

#[derive(Debug, Clone, PartialEq, Eq)]
pub struct Contracts {
    pub selector_policy: String,
    pub root_layout: String,
    pub filesystem: String,
    pub cpu_state_hwcap_policy: String,
    pub guest_capability_policy: String,
}

#[derive(Debug, Clone, PartialEq, Eq)]
pub struct HelloContract {
    pub guest_contract_id: String,
    pub init_build_id: String,
    pub kernel_build_id: String,
    pub required_features: Vec<String>,
}

#[derive(Debug, Clone, PartialEq, Eq)]
pub struct BuilderToolContract {
    pub role: String,
    pub sha256: String,
    pub version: String,
}

#[derive(Debug, Clone, PartialEq, Eq)]
pub struct BuilderContract {
    pub hello: HelloContract,
    pub manifest_schema: String,
    pub required_tools: Vec<BuilderToolContract>,
    pub source_date_epoch: u64,
}

#[derive(Debug, Clone, PartialEq, Eq)]
pub struct ValidatorContract {
    pub hello: HelloContract,
    pub manifest_schema: String,
}

#[derive(Debug, Clone, PartialEq, Eq)]
pub struct LaunchContract {
    pub linkage: String,
    pub cooperative_backend: String,
    pub noreboot: bool,
    pub rdinit: String,
    pub rootfstype: String,
    pub ubd: String,
    pub serial: String,
    pub network: String,
    pub max_ubd_path_bytes: u16,
    pub max_umid_bytes: u16,
    pub max_unix_path_bytes: u16,
}

#[derive(Debug, Clone, PartialEq, Eq)]
pub struct ArtifactManifest {
    pub guard: ArtifactSpec,
    pub uml: ArtifactSpec,
    pub skopeo: ArtifactSpec,
    pub network_helper: ArtifactSpec,
    pub registry_ca_bundle: ArtifactSpec,
    pub workload_initramfs: ArtifactSpec,
    pub builder_initramfs: ArtifactSpec,
    pub validator_initramfs: ArtifactSpec,
    pub mke2fs: ArtifactSpec,
    pub e2fsck: ArtifactSpec,
    pub mke2fs_config: ArtifactSpec,
    pub e2fsck_config: ArtifactSpec,
    pub normalized_kernel_config: ArtifactSpec,
}

/// Strict external profile-manifest schema. Unknown JSON fields are rejected.
#[derive(Debug, Clone, PartialEq, Eq)]
pub struct ProfileManifest {
    pub schema_version: u16,
    pub profile_id: String,
    pub profile_revision: ProfileRevision,
    pub maturity: ProfileMaturity,
    pub host_architecture: String,
    pub host_elf_machine: u16,
    pub oci_os: String,
    pub oci_architecture: String,
    pub accepted_oci_variants: Vec<Option<String>>,
    pub uml_subarchitecture: String,
    pub guest_page_size: u32,
    pub cpu: CpuManifest,
    pub memory: MemoryManifest,
    pub contracts: Contracts,
    pub hello: HelloContract,
    pub builder: BuilderContract,
    pub validator: ValidatorContract,
    pub launch: LaunchContract,
    pub artifacts: ArtifactManifest,
}

/// The bytes that separate a profile revision from every other digest.
pub open spec fn revision_domain() -> Seq<u8> {
    seq![
        112u8, 111u8, 99u8, 107u8, 101u8, 116u8, 45u8, 112u8, 114u8, 111u8, 102u8, 105u8, 108u8,
        101u8, 45u8, 114u8, 101u8, 118u8, 105u8, 115u8, 105u8, 111u8, 110u8, 0u8, 118u8, 49u8, 0u8,
    ]
}

/// A manifest without its revision: what the revision is computed over, in the
/// order in which it is encoded.
#[derive(Debug, Clone, Copy)]
pub struct CanonicalManifest<'a> {
    pub schema_version: u16,
    pub profile_id: &'a String,
    pub maturity: ProfileMaturity,
    pub host_architecture: &'a String,
    pub host_elf_machine: u16,
    pub oci_os: &'a String,
    pub oci_architecture: &'a String,
    pub accepted_oci_variants: &'a Vec<Option<String>>,
    pub uml_subarchitecture: &'a String,
    pub guest_page_size: u32,
    pub cpu: CpuManifest,
    pub memory: MemoryManifest,
    pub contracts: &'a Contracts,
    pub hello: &'a HelloContract,
    pub builder: &'a BuilderContract,
    pub validator: &'a ValidatorContract,
    pub launch: &'a LaunchContract,
    pub artifacts: &'a ArtifactManifest,
}

/// A manifest without its revision.
pub open spec fn canonical_of<'a>(manifest: &'a ProfileManifest) -> CanonicalManifest<'a> {
    CanonicalManifest {
        schema_version: manifest.schema_version,
        profile_id: &manifest.profile_id,
        maturity: manifest.maturity,
        host_architecture: &manifest.host_architecture,
        host_elf_machine: manifest.host_elf_machine,
        oci_os: &manifest.oci_os,
        oci_architecture: &manifest.oci_architecture,
        accepted_oci_variants: &manifest.accepted_oci_variants,
        uml_subarchitecture: &manifest.uml_subarchitecture,
        guest_page_size: manifest.guest_page_size,
        cpu: manifest.cpu,
        memory: manifest.memory,
        contracts: &manifest.contracts,
        hello: &manifest.hello,
        builder: &manifest.builder,
        validator: &manifest.validator,
        launch: &manifest.launch,
        artifacts: &manifest.artifacts,
    }
}

/// The revision that encoded bytes have.
pub open spec fn revision_of(encoded: Seq<u8>) -> Seq<u8> {
    sha256_of(revision_domain() + encoded)
}

/// The canonical form could not be encoded.
pub open spec fn unencoded(reason: Seq<char>) -> ManifestFault {
    invalid_field("profile_revision"@, "canonicalization failed: "@ + reason)
}

/// What is wrong with a manifest's revision, given how its canonical form was
/// encoded.
pub open spec fn revision_fault(
    manifest: ProfileManifest,
    answer: Result<Vec<u8>, String>,
) -> Option<ManifestFault> {
    match answer {
        Err(reason) => Some(unencoded(reason@)),
        Ok(encoded) => if manifest.profile_revision@ == revision_of(encoded@) {
            None
        } else {
            Some(
                ManifestFault::RevisionMismatch {
                    declared: digest_text(manifest.profile_revision@),
                    computed: digest_text(revision_of(encoded@)),
                },
            )
        },
    }
}

impl ProfileManifest {
    /// The manifest without its revision.
    pub fn canonical<'a>(&'a self) -> (canonical: CanonicalManifest<'a>)
        ensures
            canonical == canonical_of(self),
    {
        CanonicalManifest {
            schema_version: self.schema_version,
            profile_id: &self.profile_id,
            maturity: self.maturity,
            host_architecture: &self.host_architecture,
            host_elf_machine: self.host_elf_machine,
            oci_os: &self.oci_os,
            oci_architecture: &self.oci_architecture,
            accepted_oci_variants: &self.accepted_oci_variants,
            uml_subarchitecture: &self.uml_subarchitecture,
            guest_page_size: self.guest_page_size,
            cpu: self.cpu,
            memory: self.memory,
            contracts: &self.contracts,
            hello: &self.hello,
            builder: &self.builder,
            validator: &self.validator,
            launch: &self.launch,
            artifacts: &self.artifacts,
        }
    }

    /// Compute the non-circular revision over the manifest with its revision
    /// field omitted. `encode` gives that manifest in compact JSON, in the
    /// declared schema order, or says why it cannot; the revision is
    /// domain-separated from every artifact digest.
    pub fn computed_revision<E>(&self, encode: &E) -> (revision: Result<
        ProfileRevision,
        ManifestError,
    >) where E: Fn(CanonicalManifest<'_>) -> Result<Vec<u8>, String>
        requires
            call_requires(*encode, (canonical_of(self),)),
        ensures
            exists|answer: Result<Vec<u8>, String>| #[trigger]
                call_ensures(*encode, (canonical_of(self),), answer) && match (answer, revision) {
                    (Ok(encoded), Ok(revision)) => revision@ == revision_of(encoded@),
                    (Err(reason), Err(error)) => error@ == unencoded(reason@),
                    _ => false,
                },
    {
        match self.encoded(encode) {
            Ok(encoded) => Ok(ProfileManifest::revision_over(&encoded)),
            Err(error) => Err(error),
        }
    }

    /// The bytes that the revision is computed over, or why the canonical form
    /// has none.
    pub fn encoded<E>(&self, encode: &E) -> (encoded: Result<Vec<u8>, ManifestError>) where
        E: Fn(CanonicalManifest<'_>) -> Result<Vec<u8>, String>

        requires
            call_requires(*encode, (canonical_of(self),)),
        ensures
            match encoded {
                Ok(encoded) => call_ensures(*encode, (canonical_of(self),), Ok(encoded)),
                Err(error) => exists|reason: String| #[trigger]
                    call_ensures(*encode, (canonical_of(self),), Err(reason)) && error@
                        == unencoded(reason@),
            },
    {
        match encode(self.canonical()) {
            Ok(encoded) => Ok(encoded),
            Err(reason) => Err(
                ManifestError::invalid(
                    "profile_revision",
                    &join("canonicalization failed: ", &reason),
                ),
            ),
        }
    }

    /// The revision of a manifest whose canonical form is encoded like this.
    pub fn revision_over(encoded: &Vec<u8>) -> (revision: ProfileRevision)
        ensures
            revision@ == revision_of(encoded@),
    {
        let mut bytes: Vec<u8> = vec![
            112u8, 111u8, 99u8, 107u8, 101u8, 116u8, 45u8, 112u8, 114u8, 111u8, 102u8, 105u8, 108u8,
            101u8, 45u8, 114u8, 101u8, 118u8, 105u8, 115u8, 105u8, 111u8, 110u8, 0u8, 118u8, 49u8,
            0u8,
        ];
        assert(bytes@ =~= revision_domain());
        crate::bytes::extend(&mut bytes, encoded);
        ProfileRevision::from_bytes(sha256(&bytes))
    }

    /// Refuses a manifest whose declared revision is not the computed one.
    pub fn check_revision<E>(&self, encode: &E) -> (checked: Result<(), ManifestError>) where
        E: Fn(CanonicalManifest<'_>) -> Result<Vec<u8>, String>

        requires
            call_requires(*encode, (canonical_of(self),)),
        ensures
            exists|answer: Result<Vec<u8>, String>| #[trigger]
                call_ensures(*encode, (canonical_of(self),), answer) && manifest_fault(checked)
                    == revision_fault(*self, answer),
    {
        let computed = match self.computed_revision(encode) {
            Ok(computed) => computed,
            Err(error) => {
                return Err(error);
            },
        };
        if !computed.same(self.profile_revision) {
            return Err(
                ManifestError::RevisionMismatch {
                    declared: self.profile_revision.to_text(),
                    computed: computed.to_text(),
                },
            );
        }
        Ok(())
    }
}

/// The revision that a manifest has under an encoding of canonical forms.
pub open spec fn revision_under(
    encoding: spec_fn(CanonicalManifest<'_>) -> Seq<u8>,
    manifest: ProfileManifest,
) -> Seq<u8> {
    revision_of(encoding(canonical_of(&manifest)))
}

/// A revision is not computed over itself: manifests that differ in nothing
/// but their revision have one canonical form and one computed revision, so a
/// manifest that was given its revision still has it.
pub proof fn law_revision_leaves_itself_out(
    encoding: spec_fn(CanonicalManifest<'_>) -> Seq<u8>,
    manifest: ProfileManifest,
    revision: ProfileRevision,
)
    ensures
        canonical_of(&(ProfileManifest { profile_revision: revision, ..manifest }))
            == canonical_of(&manifest),
        revision_under(encoding, ProfileManifest { profile_revision: revision, ..manifest })
            == revision_under(encoding, manifest),
        revision@ == revision_under(encoding, manifest) ==> (ProfileManifest {
            profile_revision: revision,
            ..manifest
        }).profile_revision@ == revision_under(
            encoding,
            ProfileManifest { profile_revision: revision, ..manifest },
        ),
{
}

/// What a revision is of: every field of the manifest but the revision, under
/// `pocket-profile-revision` and its version.
pub proof fn law_revision_is_of_everything_else(
    manifest: &ProfileManifest,
    canonical: CanonicalManifest<'_>,
    encoded: Vec<u8>,
    revision: ProfileRevision,
)
    requires
        call_ensures(ProfileManifest::canonical, (manifest,), canonical),
        call_ensures(ProfileManifest::revision_over, (&encoded,), revision),
    ensures
        canonical.schema_version == manifest.schema_version,
        *canonical.profile_id == manifest.profile_id,
        canonical.maturity == manifest.maturity,
        *canonical.host_architecture == manifest.host_architecture,
        canonical.host_elf_machine == manifest.host_elf_machine,
        *canonical.oci_os == manifest.oci_os,
        *canonical.oci_architecture == manifest.oci_architecture,
        *canonical.accepted_oci_variants == manifest.accepted_oci_variants,
        *canonical.uml_subarchitecture == manifest.uml_subarchitecture,
        canonical.guest_page_size == manifest.guest_page_size,
        canonical.cpu == manifest.cpu,
        canonical.memory == manifest.memory,
        *canonical.contracts == manifest.contracts,
        *canonical.hello == manifest.hello,
        *canonical.builder == manifest.builder,
        *canonical.validator == manifest.validator,
        *canonical.launch == manifest.launch,
        *canonical.artifacts == manifest.artifacts,
        revision@ == sha256_of(encode_utf8("pocket-profile-revision\0v1\0"@) + encoded@),
{
    reveal_strlit("pocket-profile-revision\0v1\0");
    is_ascii_chars_encode_utf8("pocket-profile-revision\0v1\0"@);
    assert(revision_domain() =~= encode_utf8("pocket-profile-revision\0v1\0"@));
}

/// A manifest's revision is accepted exactly where it is the one of its
/// encoding.
pub proof fn law_declared_revision_is_the_computed_one(
    manifest: ProfileManifest,
    encoded: Vec<u8>,
    reason: String,
)
    ensures
        revision_fault(manifest, Ok(encoded)) is None <==> manifest.profile_revision@ == revision_of(
            encoded@,
        ),
        revision_fault(manifest, Err(reason)) is Some,
{
}

} // verus!
