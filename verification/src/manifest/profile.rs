//! A profile bundle that was checked artifact by artifact.

use vstd::prelude::*;

use crate::error::{first_of, invalid_field, manifest_fault, ManifestError, ManifestFault};
use crate::manifest::artifact::{
    artifact_fault, locate_artifact, relative_path_fault, verify_artifact_at, ArtifactRole,
    FileObservation, VerifiedArtifact,
};
use crate::manifest::kernel::{kernel_config_fault, validate_kernel_config};
use crate::manifest::registry::{bundle_fault, validate_registry_ca_bundle};
use crate::manifest::rules::{rules_fault, validate_manifest, PolicyFacts};
use crate::manifest::{
    canonical_of, revision_fault, ArtifactManifest, ArtifactSpec, CanonicalManifest, ProfileManifest,
};
use crate::path::{
    components, is_absolute, joined, law_joined_path_stays_below, lemma_component_is_a_piece,
    lemma_first_piece_is_named, same_location, same_path,
};
use crate::text::split;

verus! {

/// How many artifacts a bundle binds.
pub const ARTIFACT_COUNT: usize = 13;

pub const GUARD: usize = 0;

pub const UML: usize = 1;

pub const SKOPEO: usize = 2;

pub const NETWORK_HELPER: usize = 3;

pub const REGISTRY_CA_BUNDLE: usize = 4;

pub const INITRAMFS: usize = 5;

pub const BUILDER_INITRAMFS: usize = 6;

pub const VALIDATOR_INITRAMFS: usize = 7;

pub const MKE2FS: usize = 8;

pub const E2FSCK: usize = 9;

pub const MKE2FS_CONFIG: usize = 10;

pub const E2FSCK_CONFIG: usize = 11;

pub const KERNEL_CONFIG: usize = 12;

/// The artifact that is checked at each position.
pub open spec fn artifact_at(artifacts: ArtifactManifest, position: int) -> ArtifactSpec {
    if position == GUARD {
        artifacts.guard
    } else if position == UML {
        artifacts.uml
    } else if position == SKOPEO {
        artifacts.skopeo
    } else if position == NETWORK_HELPER {
        artifacts.network_helper
    } else if position == REGISTRY_CA_BUNDLE {
        artifacts.registry_ca_bundle
    } else if position == INITRAMFS {
        artifacts.workload_initramfs
    } else if position == BUILDER_INITRAMFS {
        artifacts.builder_initramfs
    } else if position == VALIDATOR_INITRAMFS {
        artifacts.validator_initramfs
    } else if position == MKE2FS {
        artifacts.mke2fs
    } else if position == E2FSCK {
        artifacts.e2fsck
    } else if position == MKE2FS_CONFIG {
        artifacts.mke2fs_config
    } else if position == E2FSCK_CONFIG {
        artifacts.e2fsck_config
    } else {
        artifacts.normalized_kernel_config
    }
}

/// The role of the artifact at each position.
pub open spec fn role_at(position: int) -> ArtifactRole {
    if position == REGISTRY_CA_BUNDLE || position == MKE2FS_CONFIG || position == E2FSCK_CONFIG {
        ArtifactRole::Data
    } else if position == INITRAMFS || position == BUILDER_INITRAMFS || position
        == VALIDATOR_INITRAMFS {
        ArtifactRole::Initramfs
    } else if position == KERNEL_CONFIG {
        ArtifactRole::KernelConfig
    } else {
        ArtifactRole::HostExecutable
    }
}

fn artifact_spec(artifacts: &ArtifactManifest, position: usize) -> (spec: &ArtifactSpec)
    ensures
        *spec == artifact_at(*artifacts, position as int),
{
    if position == GUARD {
        &artifacts.guard
    } else if position == UML {
        &artifacts.uml
    } else if position == SKOPEO {
        &artifacts.skopeo
    } else if position == NETWORK_HELPER {
        &artifacts.network_helper
    } else if position == REGISTRY_CA_BUNDLE {
        &artifacts.registry_ca_bundle
    } else if position == INITRAMFS {
        &artifacts.workload_initramfs
    } else if position == BUILDER_INITRAMFS {
        &artifacts.builder_initramfs
    } else if position == VALIDATOR_INITRAMFS {
        &artifacts.validator_initramfs
    } else if position == MKE2FS {
        &artifacts.mke2fs
    } else if position == E2FSCK {
        &artifacts.e2fsck
    } else if position == MKE2FS_CONFIG {
        &artifacts.mke2fs_config
    } else if position == E2FSCK_CONFIG {
        &artifacts.e2fsck_config
    } else {
        &artifacts.normalized_kernel_config
    }
}

fn artifact_role(position: usize) -> (role: ArtifactRole)
    ensures
        role == role_at(position as int),
{
    if position == REGISTRY_CA_BUNDLE || position == MKE2FS_CONFIG || position == E2FSCK_CONFIG {
        ArtifactRole::Data
    } else if position == INITRAMFS || position == BUILDER_INITRAMFS || position
        == VALIDATOR_INITRAMFS {
        ArtifactRole::Initramfs
    } else if position == KERNEL_CONFIG {
        ArtifactRole::KernelConfig
    } else {
        ArtifactRole::HostExecutable
    }
}

fn copy_spec(spec: &ArtifactSpec) -> (copy: ArtifactSpec)
    ensures
        copy.path@ == spec.path@,
        copy.sha256 == spec.sha256,
        copy.size == spec.size,
{
    ArtifactSpec { path: spec.path.clone(), sha256: spec.sha256, size: spec.size }
}

/// Two artifact descriptions that say the same.
pub open spec fn same_spec(left: ArtifactSpec, right: ArtifactSpec) -> bool {
    left.path@ == right.path@ && left.sha256@ == right.sha256@ && left.size == right.size
}

/// The only supported e2fsck policy is an empty file.
pub open spec fn e2fsck_config_fault(position: int, spec: ArtifactSpec) -> Option<ManifestFault> {
    if position == E2FSCK_CONFIG && spec.size != 0 {
        Some(
            invalid_field(
                "artifacts.e2fsck_config"@,
                "the supported e2fsck policy is an exact empty configuration file"@,
            ),
        )
    } else {
        None
    }
}

/// Whether each artifact is the manifest's, in its role, at its relative path
/// from the bundle.
pub open spec fn are_bound(
    root: Seq<char>,
    artifacts: ArtifactManifest,
    verified: Seq<VerifiedArtifact>,
) -> bool {
    forall|i: int|
        #![trigger verified[i]]
        0 <= i < verified.len() ==> {
            &&& relative_path_fault(artifact_at(artifacts, i).path@) is None
            &&& verified[i].path@ == joined(root, artifact_at(artifacts, i).path@)
            &&& same_spec(verified[i].spec, artifact_at(artifacts, i))
            &&& verified[i].role == role_at(i)
        }
}

/// Every artifact of a bundle lies inside it: its path goes through the
/// bundle's own entries first, then through at least one more, and never back.
pub proof fn law_artifacts_lie_inside_the_bundle(
    root: Seq<char>,
    artifacts: ArtifactManifest,
    verified: Seq<VerifiedArtifact>,
    i: int,
)
    requires
        are_bound(root, artifacts, verified),
        0 <= i < verified.len(),
    ensures
        ({
            let path = components(verified[i].path@);
            let above = components(root);
            &&& is_absolute(verified[i].path@) == is_absolute(root)
            &&& path.len() > above.len()
            &&& path.take(above.len() as int) == above
            &&& forall|j: int| above.len() <= j < path.len() ==> #[trigger] path[j] != ".."@
        }),
{
    let relative = artifact_at(artifacts, i).path@;
    let parts = split(relative, '/');
    let path = components(verified[i].path@);
    let above = components(root);
    let below = components(relative);
    law_joined_path_stays_below(root, relative);
    assert(path == above + below);
    assert(path.take(above.len() as int) =~= above);
    relative.index_of_first_ensures('/');
    assert(parts[0].len() > 0) by {
        if relative.contains('/') {
            assert(relative.index_of_first('/')->Some_0 > 0);
        }
    }
    lemma_first_piece_is_named(parts);
    assert forall|j: int| above.len() <= j < path.len() implies #[trigger] path[j] != ".."@ by {
        lemma_component_is_a_piece(parts, j - above.len());
        assert(path[j] == below[j - above.len()]);
    }
}

/// A bundle of which a manifest was accepted and some artifacts were checked.
#[derive(Debug)]
pub struct ProfileLoader {
    root: String,
    manifest: ProfileManifest,
    verified: Vec<VerifiedArtifact>,
}

impl ProfileLoader {
    pub closed spec fn root(self) -> Seq<char> {
        self.root@
    }

    pub closed spec fn manifest(self) -> ProfileManifest {
        self.manifest
    }

    pub closed spec fn verified(self) -> Seq<VerifiedArtifact> {
        self.verified@
    }

    /// Where the artifact at a position must lie.
    pub open spec fn path_at(self, position: int) -> Seq<char> {
        joined(self.root(), artifact_at(self.manifest().artifacts, position).path@)
    }

    /// No artifact was accepted but the manifest's own, inside the bundle.
    pub open spec fn well_formed(self) -> bool {
        &&& self.verified().len() <= ARTIFACT_COUNT
        &&& are_bound(self.root(), self.manifest().artifacts, self.verified())
    }

    /// Begins to load a bundle, refusing a manifest that is not supported or
    /// not the one its revision names.
    pub fn new<E>(
        root: &str,
        manifest: ProfileManifest,
        facts: &PolicyFacts,
        encode: &E,
    ) -> (loader: Result<ProfileLoader, ManifestError>) where
        E: Fn(CanonicalManifest<'_>) -> Result<Vec<u8>, String>

        requires
            call_requires(*encode, (canonical_of(&manifest),)),
        ensures
            rules_fault(manifest, *facts) is Some ==> manifest_fault(loader) == rules_fault(
                manifest,
                *facts,
            ),
            rules_fault(manifest, *facts) is None ==> exists|answer: Result<Vec<u8>, String>|
                #[trigger] call_ensures(*encode, (canonical_of(&manifest),), answer)
                    && manifest_fault(loader) == revision_fault(manifest, answer),
            loader matches Ok(loader) ==> loader.root() == root@ && loader.manifest() == manifest
                && loader.verified().len() == 0 && loader.well_formed(),
    {
        if let Err(error) = validate_manifest(&manifest, facts) {
            return Err(error);
        }
        if let Err(error) = manifest.check_revision(encode) {
            return Err(error);
        }
        Ok(ProfileLoader { root: root.to_owned(), manifest, verified: Vec::new() })
    }

    /// The path of the next artifact to observe, or why it may not be one.
    pub fn next(&self) -> (path: Option<Result<String, ManifestError>>)
        requires
            self.well_formed(),
        ensures
            path is None <==> self.verified().len() == ARTIFACT_COUNT,
            path matches Some(Ok(path)) ==> relative_path_fault(
                artifact_at(self.manifest().artifacts, self.verified().len() as int).path@,
            ) is None && path@ == self.path_at(self.verified().len() as int),
            path matches Some(Err(error)) ==> relative_path_fault(
                artifact_at(self.manifest().artifacts, self.verified().len() as int).path@,
            ) == Some(error@),
    {
        let position: usize = self.verified.len();
        if position == ARTIFACT_COUNT {
            return None;
        }
        Some(locate_artifact(&self.root, artifact_spec(&self.manifest.artifacts, position)))
    }

    /// Checks the next artifact against what was observed of it.
    pub fn accept(&mut self, file: &FileObservation) -> (accepted: Result<(), ManifestError>)
        requires
            old(self).well_formed(),
            old(self).verified().len() < ARTIFACT_COUNT,
        ensures
            final(self).well_formed(),
            final(self).root() == old(self).root(),
            final(self).manifest() == old(self).manifest(),
            manifest_fault(accepted) == ({
                let position = old(self).verified().len() as int;
                let spec = artifact_at(old(self).manifest().artifacts, position);
                first_of(
                    relative_path_fault(spec.path@),
                    first_of(
                        artifact_fault(old(self).path_at(position), spec, role_at(position), *file),
                        e2fsck_config_fault(position, spec),
                    ),
                )
            }),
            accepted is Ok ==> final(self).verified().len() == old(self).verified().len() + 1,
            accepted is Err ==> final(self).verified() == old(self).verified(),
    {
        let position: usize = self.verified.len();
        let spec = artifact_spec(&self.manifest.artifacts, position);
        let role = artifact_role(position);
        let path = match locate_artifact(&self.root, spec) {
            Ok(path) => path,
            Err(error) => {
                return Err(error);
            },
        };
        if let Err(error) = verify_artifact_at(&path, spec, role, file) {
            return Err(error);
        }
        if position == E2FSCK_CONFIG && spec.size != 0 {
            return Err(
                ManifestError::invalid(
                    "artifacts.e2fsck_config",
                    "the supported e2fsck policy is an exact empty configuration file",
                ),
            );
        }
        let copy = copy_spec(spec);
        let ghost before = self.verified@;
        self.verified.push(VerifiedArtifact { path, spec: copy, role });
        assert(self.verified@ =~= before.push(self.verified@.last()));
        Ok(())
    }

    /// Completes a bundle whose artifacts were all accepted: they must be
    /// distinct files, and the kernel configuration and trust roots must hold.
    pub fn finish(self, kernel_config: &Vec<u8>, registry_ca_bundle: &Vec<u8>) -> (profile: Result<
        VerifiedProfile,
        ManifestError,
    >)
        requires
            self.well_formed(),
            self.verified().len() == ARTIFACT_COUNT,
        ensures
            manifest_fault(profile) == first_of(
                distinct_fault(self.verified()),
                first_of(
                    kernel_config_fault(
                        self.verified()[KERNEL_CONFIG as int].path@,
                        kernel_config@,
                        self.manifest().cpu,
                    ),
                    bundle_fault(registry_ca_bundle@),
                ),
            ),
            profile matches Ok(profile) ==> profile.root() == self.root() && profile.view_manifest()
                == self.manifest() && profile.artifacts() == self.verified() && profile.bound(),
    {
        if let Err(error) = check_distinct(&self.verified) {
            return Err(error);
        }
        if let Err(error) = validate_kernel_config(
            &self.verified[KERNEL_CONFIG].path,
            kernel_config,
            &self.manifest.cpu,
        ) {
            return Err(error);
        }
        if let Err(error) = validate_registry_ca_bundle(registry_ca_bundle) {
            return Err(error);
        }
        Ok(
            VerifiedProfile {
                root: self.root,
                manifest: self.manifest,
                verified: self.verified,
            },
        )
    }
}

/// Whether two artifacts lie at the same place.
pub open spec fn shares_a_path(artifacts: Seq<VerifiedArtifact>) -> bool {
    exists|i: int, j: int|
        0 <= i < j < artifacts.len() && same_location(
            (#[trigger] artifacts[i]).path@,
            (#[trigger] artifacts[j]).path@,
        )
}

pub open spec fn distinct_fault(artifacts: Seq<VerifiedArtifact>) -> Option<ManifestFault> {
    if shares_a_path(artifacts) {
        Some(invalid_field("artifacts"@, "artifact roles must resolve to distinct files"@))
    } else {
        None
    }
}

fn check_distinct(artifacts: &Vec<VerifiedArtifact>) -> (checked: Result<(), ManifestError>)
    ensures
        manifest_fault(checked) == distinct_fault(artifacts@),
{
    let mut j: usize = 0;
    while j < artifacts.len()
        invariant
            j <= artifacts@.len(),
            forall|a: int, b: int|
                0 <= a < b < j ==> !same_location(
                    (#[trigger] artifacts@[a]).path@,
                    (#[trigger] artifacts@[b]).path@,
                ),
        decreases artifacts@.len() - j,
    {
        let mut i: usize = 0;
        while i < j
            invariant
                i <= j < artifacts@.len(),
                forall|a: int|
                    0 <= a < i ==> !same_location(
                        (#[trigger] artifacts@[a]).path@,
                        artifacts@[j as int].path@,
                    ),
            decreases j - i,
        {
            if same_path(&artifacts[i].path, &artifacts[j].path) {
                assert(same_location(artifacts@[i as int].path@, artifacts@[j as int].path@));
                return Err(
                    ManifestError::invalid(
                        "artifacts",
                        "artifact roles must resolve to distinct files",
                    ),
                );
            }
            i += 1;
        }
        j += 1;
    }
    Ok(())
}

/// A fully checked, explicit x86_64 profile bundle.
#[derive(Debug)]
pub struct VerifiedProfile {
    root: String,
    manifest: ProfileManifest,
    verified: Vec<VerifiedArtifact>,
}

impl VerifiedProfile {
    pub closed spec fn root(self) -> Seq<char> {
        self.root@
    }

    pub closed spec fn view_manifest(self) -> ProfileManifest {
        self.manifest
    }

    pub closed spec fn artifacts(self) -> Seq<VerifiedArtifact> {
        self.verified@
    }

    /// All artifacts are there, each the manifest's and inside the bundle.
    pub open spec fn bound(self) -> bool {
        &&& self.artifacts().len() == ARTIFACT_COUNT
        &&& are_bound(self.root(), self.view_manifest().artifacts, self.artifacts())
    }

    #[verifier::type_invariant]
    spec fn complete(self) -> bool {
        self.bound()
    }

    /// The path of the artifact at a position.
    pub open spec fn artifact_path(self, position: int) -> Seq<char> {
        self.artifacts()[position].path@
    }

    /// Checks one artifact again against what is observed of it now.
    pub fn reverify_artifact(&self, position: usize, file: &FileObservation) -> (checked: Result<
        (),
        ManifestError,
    >)
        requires
            position < ARTIFACT_COUNT,
        ensures
            manifest_fault(checked) == artifact_fault(
                self.artifacts()[position as int].path@,
                self.artifacts()[position as int].spec,
                self.artifacts()[position as int].role,
                *file,
            ),
    {
        proof {
            use_type_invariant(self);
        }
        let artifact = &self.verified[position];
        verify_artifact_at(&artifact.path, &artifact.spec, artifact.role, file)
    }

    /// Checks the kernel configuration and the trust roots again.
    pub fn reverify(&self, kernel_config: &Vec<u8>, registry_ca_bundle: &Vec<u8>) -> (checked:
        Result<(), ManifestError>)
        ensures
            manifest_fault(checked) == first_of(
                kernel_config_fault(
                    self.artifact_path(KERNEL_CONFIG as int),
                    kernel_config@,
                    self.view_manifest().cpu,
                ),
                bundle_fault(registry_ca_bundle@),
            ),
    {
        proof {
            use_type_invariant(self);
        }
        if let Err(error) = validate_kernel_config(
            &self.verified[KERNEL_CONFIG].path,
            kernel_config,
            &self.manifest.cpu,
        ) {
            return Err(error);
        }
        validate_registry_ca_bundle(registry_ca_bundle)
    }

    pub fn manifest(&self) -> (manifest: &ProfileManifest)
        ensures
            *manifest == self.view_manifest(),
    {
        &self.manifest
    }

    pub fn root_path(&self) -> (path: &str)
        ensures
            path@ == self.root(),
    {
        &self.root
    }

    fn path_of(&self, position: usize) -> (path: &str)
        requires
            position < ARTIFACT_COUNT,
        ensures
            path@ == self.artifact_path(position as int),
    {
        proof {
            use_type_invariant(self);
        }
        &self.verified[position].path
    }

    pub fn guard_path(&self) -> (path: &str)
        ensures
            path@ == self.artifact_path(GUARD as int),
    {
        self.path_of(GUARD)
    }

    pub fn uml_path(&self) -> (path: &str)
        ensures
            path@ == self.artifact_path(UML as int),
    {
        self.path_of(UML)
    }

    /// Exact static acquisition helper bound into this profile revision.
    pub fn skopeo_path(&self) -> (path: &str)
        ensures
            path@ == self.artifact_path(SKOPEO as int),
    {
        self.path_of(SKOPEO)
    }

    /// Exact user-mode network helper bound into this profile revision.
    pub fn network_helper_path(&self) -> (path: &str)
        ensures
            path@ == self.artifact_path(NETWORK_HELPER as int),
    {
        self.path_of(NETWORK_HELPER)
    }

    /// Exact registry trust roots used by the profile-bound acquisition helper.
    pub fn registry_ca_bundle_path(&self) -> (path: &str)
        ensures
            path@ == self.artifact_path(REGISTRY_CA_BUNDLE as int),
    {
        self.path_of(REGISTRY_CA_BUNDLE)
    }

    pub fn initramfs_path(&self) -> (path: &str)
        ensures
            path@ == self.artifact_path(INITRAMFS as int),
    {
        self.path_of(INITRAMFS)
    }

    pub fn builder_initramfs_path(&self) -> (path: &str)
        ensures
            path@ == self.artifact_path(BUILDER_INITRAMFS as int),
    {
        self.path_of(BUILDER_INITRAMFS)
    }

    pub fn validator_initramfs_path(&self) -> (path: &str)
        ensures
            path@ == self.artifact_path(VALIDATOR_INITRAMFS as int),
    {
        self.path_of(VALIDATOR_INITRAMFS)
    }

    pub fn mke2fs_path(&self) -> (path: &str)
        ensures
            path@ == self.artifact_path(MKE2FS as int),
    {
        self.path_of(MKE2FS)
    }

    pub fn e2fsck_path(&self) -> (path: &str)
        ensures
            path@ == self.artifact_path(E2FSCK as int),
    {
        self.path_of(E2FSCK)
    }

    pub fn mke2fs_config_path(&self) -> (path: &str)
        ensures
            path@ == self.artifact_path(MKE2FS_CONFIG as int),
    {
        self.path_of(MKE2FS_CONFIG)
    }

    /// Exact empty policy file that prevents e2fsck from reading
    /// `/etc/e2fsck.conf` or another host default.
    pub fn e2fsck_config_path(&self) -> (path: &str)
        ensures
            path@ == self.artifact_path(E2FSCK_CONFIG as int),
    {
        self.path_of(E2FSCK_CONFIG)
    }
}

/// Each artifact of a profile is the one that the manifest names for its
/// purpose, checked as what it is used for.
pub proof fn law_artifacts_serve_their_purpose(profile: VerifiedProfile)
    requires
        profile.bound(),
    ensures
        ({
            let root = profile.root();
            let artifacts = profile.view_manifest().artifacts;
            &&& profile.artifact_path(GUARD as int) == joined(root, artifacts.guard.path@)
            &&& profile.artifacts()[GUARD as int].role == ArtifactRole::HostExecutable
            &&& profile.artifacts()[GUARD as int].spec.sha256@ == artifacts.guard.sha256@
            &&& profile.artifact_path(UML as int) == joined(root, artifacts.uml.path@)
            &&& profile.artifacts()[UML as int].role == ArtifactRole::HostExecutable
            &&& profile.artifacts()[UML as int].spec.sha256@ == artifacts.uml.sha256@
            &&& profile.artifact_path(SKOPEO as int) == joined(root, artifacts.skopeo.path@)
            &&& profile.artifacts()[SKOPEO as int].role == ArtifactRole::HostExecutable
            &&& profile.artifacts()[SKOPEO as int].spec.sha256@ == artifacts.skopeo.sha256@
            &&& profile.artifact_path(NETWORK_HELPER as int) == joined(root, artifacts.network_helper.path@)
            &&& profile.artifacts()[NETWORK_HELPER as int].role == ArtifactRole::HostExecutable
            &&& profile.artifacts()[NETWORK_HELPER as int].spec.sha256@ == artifacts.network_helper.sha256@
            &&& profile.artifact_path(REGISTRY_CA_BUNDLE as int) == joined(root, artifacts.registry_ca_bundle.path@)
            &&& profile.artifacts()[REGISTRY_CA_BUNDLE as int].role == ArtifactRole::Data
            &&& profile.artifacts()[REGISTRY_CA_BUNDLE as int].spec.sha256@ == artifacts.registry_ca_bundle.sha256@
            &&& profile.artifact_path(INITRAMFS as int) == joined(root, artifacts.workload_initramfs.path@)
            &&& profile.artifacts()[INITRAMFS as int].role == ArtifactRole::Initramfs
            &&& profile.artifacts()[INITRAMFS as int].spec.sha256@ == artifacts.workload_initramfs.sha256@
            &&& profile.artifact_path(BUILDER_INITRAMFS as int) == joined(root, artifacts.builder_initramfs.path@)
            &&& profile.artifacts()[BUILDER_INITRAMFS as int].role == ArtifactRole::Initramfs
            &&& profile.artifacts()[BUILDER_INITRAMFS as int].spec.sha256@ == artifacts.builder_initramfs.sha256@
            &&& profile.artifact_path(VALIDATOR_INITRAMFS as int) == joined(root, artifacts.validator_initramfs.path@)
            &&& profile.artifacts()[VALIDATOR_INITRAMFS as int].role == ArtifactRole::Initramfs
            &&& profile.artifacts()[VALIDATOR_INITRAMFS as int].spec.sha256@ == artifacts.validator_initramfs.sha256@
            &&& profile.artifact_path(MKE2FS as int) == joined(root, artifacts.mke2fs.path@)
            &&& profile.artifacts()[MKE2FS as int].role == ArtifactRole::HostExecutable
            &&& profile.artifacts()[MKE2FS as int].spec.sha256@ == artifacts.mke2fs.sha256@
            &&& profile.artifact_path(E2FSCK as int) == joined(root, artifacts.e2fsck.path@)
            &&& profile.artifacts()[E2FSCK as int].role == ArtifactRole::HostExecutable
            &&& profile.artifacts()[E2FSCK as int].spec.sha256@ == artifacts.e2fsck.sha256@
            &&& profile.artifact_path(MKE2FS_CONFIG as int) == joined(root, artifacts.mke2fs_config.path@)
            &&& profile.artifacts()[MKE2FS_CONFIG as int].role == ArtifactRole::Data
            &&& profile.artifacts()[MKE2FS_CONFIG as int].spec.sha256@ == artifacts.mke2fs_config.sha256@
            &&& profile.artifact_path(E2FSCK_CONFIG as int) == joined(root, artifacts.e2fsck_config.path@)
            &&& profile.artifacts()[E2FSCK_CONFIG as int].role == ArtifactRole::Data
            &&& profile.artifacts()[E2FSCK_CONFIG as int].spec.sha256@ == artifacts.e2fsck_config.sha256@
            &&& profile.artifact_path(KERNEL_CONFIG as int) == joined(root, artifacts.normalized_kernel_config.path@)
            &&& profile.artifacts()[KERNEL_CONFIG as int].role == ArtifactRole::KernelConfig
            &&& profile.artifacts()[KERNEL_CONFIG as int].spec.sha256@ == artifacts.normalized_kernel_config.sha256@
        }),
{
    let all = profile.artifacts();
    assert forall|i: int| 0 <= i < 13 implies #[trigger] all[i].role == role_at(i) && same_spec(
        all[i].spec,
        artifact_at(profile.view_manifest().artifacts, i),
    ) by {}
}

/// Whoever asks a profile for the path of a tool is given the path of that
/// tool.
pub proof fn law_paths_are_the_manifests(profile: VerifiedProfile, path: &str)
    requires
        profile.bound(),
    ensures
        ({
            let root = profile.root();
            let artifacts = profile.view_manifest().artifacts;
            &&& call_ensures(VerifiedProfile::guard_path, (&profile,), path) ==> path@ == joined(
                root,
                artifacts.guard.path@,
            )
            &&& call_ensures(VerifiedProfile::uml_path, (&profile,), path) ==> path@ == joined(
                root,
                artifacts.uml.path@,
            )
            &&& call_ensures(VerifiedProfile::skopeo_path, (&profile,), path) ==> path@ == joined(
                root,
                artifacts.skopeo.path@,
            )
            &&& call_ensures(VerifiedProfile::network_helper_path, (&profile,), path) ==> path@ == joined(
                root,
                artifacts.network_helper.path@,
            )
            &&& call_ensures(VerifiedProfile::registry_ca_bundle_path, (&profile,), path) ==> path@ == joined(
                root,
                artifacts.registry_ca_bundle.path@,
            )
            &&& call_ensures(VerifiedProfile::initramfs_path, (&profile,), path) ==> path@ == joined(
                root,
                artifacts.workload_initramfs.path@,
            )
            &&& call_ensures(VerifiedProfile::builder_initramfs_path, (&profile,), path) ==> path@ == joined(
                root,
                artifacts.builder_initramfs.path@,
            )
            &&& call_ensures(VerifiedProfile::validator_initramfs_path, (&profile,), path) ==> path@ == joined(
                root,
                artifacts.validator_initramfs.path@,
            )
            &&& call_ensures(VerifiedProfile::mke2fs_path, (&profile,), path) ==> path@ == joined(
                root,
                artifacts.mke2fs.path@,
            )
            &&& call_ensures(VerifiedProfile::e2fsck_path, (&profile,), path) ==> path@ == joined(
                root,
                artifacts.e2fsck.path@,
            )
            &&& call_ensures(VerifiedProfile::mke2fs_config_path, (&profile,), path) ==> path@ == joined(
                root,
                artifacts.mke2fs_config.path@,
            )
            &&& call_ensures(VerifiedProfile::e2fsck_config_path, (&profile,), path) ==> path@ == joined(
                root,
                artifacts.e2fsck_config.path@,
            )
        }),
{
    law_artifacts_serve_their_purpose(profile);
}

/// A bundle is loaded artifact by artifact in their order: each is looked for
/// inside the bundle, under its own name and for its own purpose, and a refused
/// one changes nothing.
pub proof fn law_bundle_is_loaded_in_order(
    loader: &mut ProfileLoader,
    file: FileObservation,
    accepted: Result<(), ManifestError>,
    other: ProfileLoader,
    path: Option<Result<String, ManifestError>>,
)
    requires
        old(loader).well_formed(),
        old(loader).verified().len() < 13,
        call_ensures(ProfileLoader::accept, (loader, &file), accepted),
        call_ensures(ProfileLoader::next, (&other,), path),
    ensures
        path is None <==> other.verified().len() == 13,
        path matches Some(Ok(path)) ==> path@ == joined(
            other.root(),
            artifact_at(other.manifest().artifacts, other.verified().len() as int).path@,
        ),
        accepted is Err ==> final(loader).verified() == old(loader).verified(),
        accepted is Ok ==> {
            let position = old(loader).verified().len() as int;
            let spec = artifact_at(old(loader).manifest().artifacts, position);
            let added = final(loader).verified()[position];
            &&& final(loader).verified().len() == position + 1
            &&& relative_path_fault(spec.path@) is None
            &&& artifact_fault(
                joined(old(loader).root(), spec.path@),
                spec,
                role_at(position),
                file,
            ) is None
            &&& position == 11 ==> spec.size == 0
            &&& added.path@ == joined(old(loader).root(), spec.path@)
        },
        final(loader).manifest() == old(loader).manifest(),
        final(loader).root() == old(loader).root(),
{
}

/// The artifacts in their order.
pub proof fn law_artifacts_have_their_order(artifacts: ArtifactManifest)
    ensures
        artifact_at(artifacts, 0) == artifacts.guard,
        artifact_at(artifacts, 1) == artifacts.uml,
        artifact_at(artifacts, 2) == artifacts.skopeo,
        artifact_at(artifacts, 3) == artifacts.network_helper,
        artifact_at(artifacts, 4) == artifacts.registry_ca_bundle,
        artifact_at(artifacts, 5) == artifacts.workload_initramfs,
        artifact_at(artifacts, 6) == artifacts.builder_initramfs,
        artifact_at(artifacts, 7) == artifacts.validator_initramfs,
        artifact_at(artifacts, 8) == artifacts.mke2fs,
        artifact_at(artifacts, 9) == artifacts.e2fsck,
        artifact_at(artifacts, 10) == artifacts.mke2fs_config,
        artifact_at(artifacts, 11) == artifacts.e2fsck_config,
        artifact_at(artifacts, 12) == artifacts.normalized_kernel_config,
{
}

/// A bundle is complete exactly where its artifacts are distinct files, its
/// kernel configuration is accepted and its trust roots are certificates.
pub proof fn law_complete_bundle_is_checked(
    loader: ProfileLoader,
    kernel_config: Vec<u8>,
    registry_ca_bundle: Vec<u8>,
    profile: Result<VerifiedProfile, ManifestError>,
)
    requires
        loader.well_formed(),
        loader.verified().len() == 13,
        call_ensures(ProfileLoader::finish, (loader, &kernel_config, &registry_ca_bundle), profile),
    ensures
        profile is Ok ==> {
            &&& forall|i: int, j: int|
                0 <= i < j < 13 ==> !same_location(
                    (#[trigger] loader.verified()[i]).path@,
                    (#[trigger] loader.verified()[j]).path@,
                )
            &&& kernel_config_fault(
                loader.verified()[12].path@,
                kernel_config@,
                loader.manifest().cpu,
            ) is None
            &&& bundle_fault(registry_ca_bundle@) is None
        },
        profile matches Ok(profile) ==> profile.root() == loader.root(),
        profile matches Ok(profile) ==> profile.artifacts() == loader.verified(),
        profile matches Ok(profile) ==> profile.view_manifest() == loader.manifest(),
{
}

} // verus!
