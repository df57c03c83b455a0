//! The order in which a bundle is sealed and published.

use vstd::prelude::*;

use super::{
    check_published, check_staged, is_sealing, law_sealing_is_deterministic, publication_path,
    same_manifest, seal_manifest, set_revision, template_fault, umoci_fault, validate_template_placeholders,
    validate_umoci_request, ContractEncodings, ProfileArtifactSources, BUILDER_INITRAMFS_PATH,
    DATA_MODE, E2FSCK_CONFIG_PATH, E2FSCK_PATH, EXECUTABLE_MODE, GUARD_PATH, KERNEL_CONFIG_PATH,
    MKE2FS_CONFIG_PATH, MKE2FS_PATH, NETWORK_HELPER_PATH, REGISTRY_CA_PATH, SKOPEO_PATH, UML_PATH,
    VALIDATOR_INITRAMFS_PATH, WORKLOAD_INITRAMFS_PATH,
};
use crate::digest::hex_of;
use crate::error::{invalid_field, manifest_outcome, ManifestError, ManifestFault};

use crate::manifest::profile::{
    artifact_at, role_at, ARTIFACT_COUNT, BUILDER_INITRAMFS, E2FSCK, E2FSCK_CONFIG, GUARD,
    INITRAMFS, KERNEL_CONFIG, MKE2FS, MKE2FS_CONFIG, NETWORK_HELPER, REGISTRY_CA_BUNDLE, SKOPEO,
    UML, VALIDATOR_INITRAMFS,
};
use crate::manifest::rules::PolicyFacts;
use crate::manifest::{
    revision_of, ArtifactManifest, ArtifactSpec, BuilderToolContract, ProfileManifest,
};
use crate::path::joined;

verus! {

// ---------------------------------------------------------------------------
// What is copied
// ---------------------------------------------------------------------------

/// How one artifact is copied into a bundle.
#[derive(Debug)]
pub struct ArtifactCopy {
    pub source: String,
    pub relative: &'static str,
    pub mode: u32,
    pub require_empty: bool,
}

/// The source of the artifact at each position.
pub open spec fn source_at(sources: ProfileArtifactSources, position: int) -> Seq<char> {
    if position == GUARD {
        sources.guard@
    } else if position == UML {
        sources.uml@
    } else if position == SKOPEO {
        sources.skopeo@
    } else if position == NETWORK_HELPER {
        sources.network_helper@
    } else if position == REGISTRY_CA_BUNDLE {
        sources.registry_ca_bundle@
    } else if position == INITRAMFS {
        sources.workload_initramfs@
    } else if position == BUILDER_INITRAMFS {
        sources.builder_initramfs@
    } else if position == VALIDATOR_INITRAMFS {
        sources.validator_initramfs@
    } else if position == MKE2FS {
        sources.mke2fs@
    } else if position == E2FSCK {
        sources.e2fsck@
    } else if position == MKE2FS_CONFIG {
        sources.mke2fs_config@
    } else if position == E2FSCK_CONFIG {
        sources.e2fsck_config@
    } else {
        sources.normalized_kernel_config@
    }
}

/// Where the artifact at each position lies in a bundle.
pub open spec fn sealed_path(position: int) -> Seq<char> {
    if position == GUARD {
        GUARD_PATH@
    } else if position == UML {
        UML_PATH@
    } else if position == SKOPEO {
        SKOPEO_PATH@
    } else if position == NETWORK_HELPER {
        NETWORK_HELPER_PATH@
    } else if position == REGISTRY_CA_BUNDLE {
        REGISTRY_CA_PATH@
    } else if position == INITRAMFS {
        WORKLOAD_INITRAMFS_PATH@
    } else if position == BUILDER_INITRAMFS {
        BUILDER_INITRAMFS_PATH@
    } else if position == VALIDATOR_INITRAMFS {
        VALIDATOR_INITRAMFS_PATH@
    } else if position == MKE2FS {
        MKE2FS_PATH@
    } else if position == E2FSCK {
        E2FSCK_PATH@
    } else if position == MKE2FS_CONFIG {
        MKE2FS_CONFIG_PATH@
    } else if position == E2FSCK_CONFIG {
        E2FSCK_CONFIG_PATH@
    } else {
        KERNEL_CONFIG_PATH@
    }
}

/// The mode of the artifact at each position: only what the host executes is
/// executable.
pub open spec fn sealed_mode(position: int) -> u32 {
    if role_at(position) is HostExecutable {
        EXECUTABLE_MODE
    } else {
        DATA_MODE
    }
}

fn copy_of(source: &String, relative: &'static str, mode: u32) -> (copy: ArtifactCopy)
    ensures
        copy.source@ == source@,
        copy.relative@ == relative@,
        copy.mode == mode,
        !copy.require_empty,
{
    ArtifactCopy { source: source.clone(), relative, mode, require_empty: false }
}

/// How the artifact at a position is copied, in the order of the manifest. One
/// policy file is copied empty; nothing else may be.
pub fn artifact_copy(sources: &ProfileArtifactSources, position: usize) -> (copy: Option<
    ArtifactCopy,
>)
    ensures
        match copy {
            Some(copy) => {
                &&& position < ARTIFACT_COUNT
                &&& copy.source@ == source_at(*sources, position as int)
                &&& copy.relative@ == sealed_path(position as int)
                &&& copy.mode == sealed_mode(position as int)
                &&& copy.require_empty == (position == E2FSCK_CONFIG)
            },
            None => position >= ARTIFACT_COUNT,
        },
{
    let copy = if position == GUARD {
        copy_of(&sources.guard, GUARD_PATH, EXECUTABLE_MODE)
    } else if position == UML {
        copy_of(&sources.uml, UML_PATH, EXECUTABLE_MODE)
    } else if position == SKOPEO {
        copy_of(&sources.skopeo, SKOPEO_PATH, EXECUTABLE_MODE)
    } else if position == NETWORK_HELPER {
        copy_of(&sources.network_helper, NETWORK_HELPER_PATH, EXECUTABLE_MODE)
    } else if position == REGISTRY_CA_BUNDLE {
        copy_of(&sources.registry_ca_bundle, REGISTRY_CA_PATH, DATA_MODE)
    } else if position == INITRAMFS {
        copy_of(&sources.workload_initramfs, WORKLOAD_INITRAMFS_PATH, DATA_MODE)
    } else if position == BUILDER_INITRAMFS {
        copy_of(&sources.builder_initramfs, BUILDER_INITRAMFS_PATH, DATA_MODE)
    } else if position == VALIDATOR_INITRAMFS {
        copy_of(&sources.validator_initramfs, VALIDATOR_INITRAMFS_PATH, DATA_MODE)
    } else if position == MKE2FS {
        copy_of(&sources.mke2fs, MKE2FS_PATH, EXECUTABLE_MODE)
    } else if position == E2FSCK {
        copy_of(&sources.e2fsck, E2FSCK_PATH, EXECUTABLE_MODE)
    } else if position == MKE2FS_CONFIG {
        copy_of(&sources.mke2fs_config, MKE2FS_CONFIG_PATH, DATA_MODE)
    } else if position == E2FSCK_CONFIG {
        ArtifactCopy {
            source: sources.e2fsck_config.clone(),
            relative: E2FSCK_CONFIG_PATH,
            mode: DATA_MODE,
            require_empty: true,
        }
    } else if position == KERNEL_CONFIG {
        copy_of(&sources.normalized_kernel_config, KERNEL_CONFIG_PATH, DATA_MODE)
    } else {
        return None;
    };
    Some(copy)
}

/// The copied artifacts, each in its place.
pub open spec fn gathered(copied: Seq<ArtifactSpec>) -> ArtifactManifest {
    ArtifactManifest {
        guard: copied[GUARD as int],
        uml: copied[UML as int],
        skopeo: copied[SKOPEO as int],
        network_helper: copied[NETWORK_HELPER as int],
        registry_ca_bundle: copied[REGISTRY_CA_BUNDLE as int],
        workload_initramfs: copied[INITRAMFS as int],
        builder_initramfs: copied[BUILDER_INITRAMFS as int],
        validator_initramfs: copied[VALIDATOR_INITRAMFS as int],
        mke2fs: copied[MKE2FS as int],
        e2fsck: copied[E2FSCK as int],
        mke2fs_config: copied[MKE2FS_CONFIG as int],
        e2fsck_config: copied[E2FSCK_CONFIG as int],
        normalized_kernel_config: copied[KERNEL_CONFIG as int],
    }
}

fn gather(copied: Vec<ArtifactSpec>) -> (artifacts: ArtifactManifest)
    requires
        copied@.len() == ARTIFACT_COUNT,
    ensures
        artifacts == gathered(copied@),
{
    let mut rest = copied;
    let normalized_kernel_config = rest.remove(KERNEL_CONFIG);
    let e2fsck_config = rest.remove(E2FSCK_CONFIG);
    let mke2fs_config = rest.remove(MKE2FS_CONFIG);
    let e2fsck = rest.remove(E2FSCK);
    let mke2fs = rest.remove(MKE2FS);
    let validator_initramfs = rest.remove(VALIDATOR_INITRAMFS);
    let builder_initramfs = rest.remove(BUILDER_INITRAMFS);
    let workload_initramfs = rest.remove(INITRAMFS);
    let registry_ca_bundle = rest.remove(REGISTRY_CA_BUNDLE);
    let network_helper = rest.remove(NETWORK_HELPER);
    let skopeo = rest.remove(SKOPEO);
    let uml = rest.remove(UML);
    let guard = rest.remove(GUARD);
    ArtifactManifest {
        guard,
        uml,
        skopeo,
        network_helper,
        registry_ca_bundle,
        workload_initramfs,
        builder_initramfs,
        validator_initramfs,
        mke2fs,
        e2fsck,
        mke2fs_config,
        e2fsck_config,
        normalized_kernel_config,
    }
}

// ---------------------------------------------------------------------------
// The order
// ---------------------------------------------------------------------------

/// What a seal does next.
#[derive(Debug, Clone, Copy, PartialEq, Eq, Structural)]
pub enum SealAction {
    /// Check the directory that bundles are published under.
    CheckOutput,
    /// Read and parse the template.
    ReadTemplate,
    /// Make sure of the profile's own collection.
    OpenCollection,
    /// Make a private staging directory in it.
    CreateStage,
    /// Copy the next artifact.
    CopyArtifact,
    /// Encode the three guest contracts.
    EncodeContracts,
    /// Encode the manifest without its revision.
    EncodeManifest,
    /// Write the manifest into the staging directory.
    WriteManifest,
    /// Verify the staged bytes through the path used for every launch.
    LoadStaged,
    /// Take every write permission from the staging directory.
    MakeImmutable,
    /// Give the staging directory its published name, replacing nothing.
    Rename,
    /// Make the new name durable.
    SyncCollection,
    /// Load what is published under the name.
    LoadPublished,
    Finished,
}

/// What came of an action.
#[derive(Debug)]
pub enum SealEvent {
    Done,
    Template { manifest: ProfileManifest },
    Copied { spec: ArtifactSpec },
    Contracts { encodings: ContractEncodings, facts: PolicyFacts },
    Encoded { bytes: Vec<u8> },
    /// The manifest that was loaded, if the bundle loaded at all.
    Loaded { found: Option<ProfileManifest> },
    /// Something is published under the name already.
    Exists,
}

/// Where a seal stands.
pub struct SealState {
    pub action: SealAction,
    pub output_parent: Seq<char>,
    pub umoci: BuilderToolContract,
    pub manifest: Option<ProfileManifest>,
    pub copied: Seq<ArtifactSpec>,
    pub newly_published: bool,
}

/// How far a seal has come.
pub open spec fn seal_rank(action: SealAction) -> nat {
    match action {
        SealAction::CheckOutput => 0,
        SealAction::ReadTemplate => 1,
        SealAction::OpenCollection => 2,
        SealAction::CreateStage => 3,
        SealAction::CopyArtifact => 4,
        SealAction::EncodeContracts => 5,
        SealAction::EncodeManifest => 6,
        SealAction::WriteManifest => 7,
        SealAction::LoadStaged => 8,
        SealAction::MakeImmutable => 9,
        SealAction::Rename => 10,
        SealAction::SyncCollection => 11,
        SealAction::LoadPublished => 12,
        SealAction::Finished => 13,
    }
}

/// Whether an event can come of an action. A staged bundle that does not load
/// fails for its own reason, so only a loaded one is an event there.
pub open spec fn expects(action: SealAction, event: SealEvent) -> bool {
    match event {
        SealEvent::Done => action is CheckOutput || action is OpenCollection
            || action is CreateStage || action is WriteManifest || action is MakeImmutable
            || action is Rename || action is SyncCollection,
        SealEvent::Template { .. } => action is ReadTemplate,
        SealEvent::Copied { .. } => action is CopyArtifact,
        SealEvent::Contracts { .. } => action is EncodeContracts,
        SealEvent::Encoded { .. } => action is EncodeManifest,
        SealEvent::Loaded { found } => action is LoadPublished || (action is LoadStaged
            && found is Some),
        SealEvent::Exists => action is Rename,
    }
}

/// The action after one that was done.
pub open spec fn action_after(action: SealAction) -> SealAction {
    match action {
        SealAction::CheckOutput => SealAction::ReadTemplate,
        SealAction::OpenCollection => SealAction::CreateStage,
        SealAction::CreateStage => SealAction::CopyArtifact,
        SealAction::WriteManifest => SealAction::LoadStaged,
        SealAction::MakeImmutable => SealAction::Rename,
        SealAction::Rename => SealAction::SyncCollection,
        SealAction::SyncCollection => SealAction::LoadPublished,
        other => other,
    }
}

/// What holds of every state of a seal.
pub open spec fn sound(state: SealState) -> bool {
    &&& state.manifest is Some <==> seal_rank(state.action) >= 2
    &&& seal_rank(state.action) < 4 ==> state.copied.len() == 0
    &&& state.action is CopyArtifact ==> state.copied.len() < ARTIFACT_COUNT
    &&& state.action is EncodeContracts ==> state.copied.len() == ARTIFACT_COUNT
    &&& seal_rank(state.action) > 5 ==> state.copied.len() == 0
    &&& seal_rank(state.action) <= 10 ==> !state.newly_published
    &&& state.action is SyncCollection ==> state.newly_published
}

/// Where a manifest is published.
pub open spec fn published_at(output_parent: Seq<char>, manifest: ProfileManifest) -> Seq<char> {
    joined(joined(output_parent, manifest.profile_id@), hex_of(manifest.profile_revision@))
}

/// Where a seal stands once its identities are bound.
pub open spec fn after_sealing(
    state: SealState,
    sealed: Result<ProfileManifest, ManifestFault>,
) -> Result<SealState, ManifestFault> {
    match sealed {
        Err(fault) => Err(fault),
        Ok(bound) => Ok(
            SealState {
                action: SealAction::EncodeManifest,
                manifest: Some(bound),
                copied: Seq::empty(),
                ..state
            },
        ),
    }
}

/// Whether binding the identities leads to an outcome.
pub open spec fn is_bound_step(
    state: SealState,
    encodings: ContractEncodings,
    facts: PolicyFacts,
    outcome: Result<SealState, ManifestFault>,
) -> bool {
    exists|sealed: Result<ProfileManifest, ManifestFault>|
        {
            &&& #[trigger] is_sealing(
                state.manifest->Some_0,
                gathered(state.copied),
                state.umoci,
                encodings,
                facts,
                sealed,
            )
            &&& outcome == after_sealing(state, sealed)
        }
}

/// Whether sealing goes on to `next` after an event, or ends with a fault.
pub open spec fn is_seal_step(
    state: SealState,
    event: SealEvent,
    outcome: Result<SealState, ManifestFault>,
) -> bool {
    let manifest = state.manifest->Some_0;
    match event {
        SealEvent::Done => outcome == if state.action is CheckOutput && umoci_fault(
            state.umoci,
        ) is Some {
            Err::<SealState, _>(umoci_fault(state.umoci)->Some_0)
        } else {
            Ok(
                SealState {
                    action: action_after(state.action),
                    newly_published: state.newly_published || state.action is Rename,
                    ..state
                },
            )
        },
        SealEvent::Template { manifest } => outcome == match template_fault(manifest) {
            Some(fault) => Err::<SealState, _>(fault),
            None => Ok(
                SealState {
                    action: SealAction::OpenCollection,
                    manifest: Some(manifest),
                    ..state
                },
            ),
        },
        SealEvent::Copied { spec } => outcome == Ok::<_, ManifestFault>(
            SealState {
                action: if state.copied.len() + 1 == ARTIFACT_COUNT {
                    SealAction::EncodeContracts
                } else {
                    SealAction::CopyArtifact
                },
                copied: state.copied.push(spec),
                ..state
            },
        ),
        SealEvent::Contracts { encodings, facts } => is_bound_step(
            state,
            encodings,
            facts,
            outcome,
        ),
        SealEvent::Encoded { bytes } => {
            &&& outcome is Ok
            &&& outcome->Ok_0.manifest is Some
            &&& outcome->Ok_0.manifest->Some_0.profile_revision@ == revision_of(
                bytes@,
            )
            &&& outcome->Ok_0.manifest->Some_0 == (ProfileManifest {
                profile_revision: outcome->Ok_0.manifest->Some_0.profile_revision,
                ..manifest
            })
            &&& outcome->Ok_0 == (SealState {
                action: SealAction::WriteManifest,
                manifest: outcome->Ok_0.manifest,
                ..state
            })
        },
        SealEvent::Loaded { found } => outcome == if found is Some && same_manifest(
            found->Some_0,
            manifest,
        ) {
            Ok(
                SealState {
                    action: if state.action is LoadStaged {
                        SealAction::MakeImmutable
                    } else {
                        SealAction::Finished
                    },
                    ..state
                },
            )
        } else if state.action is LoadStaged {
            Err::<SealState, _>(
                invalid_field("profile"@, "staged profile changed during verification"@),
            )
        } else {
            Err(
                ManifestFault::PublishConflict {
                    path: published_at(state.output_parent, manifest),
                },
            )
        },
        SealEvent::Exists => outcome == Ok::<_, ManifestFault>(
            SealState { action: SealAction::LoadPublished, ..state },
        ),
    }
}

/// One seal of a profile bundle.
#[derive(Debug)]
pub struct SealMachine {
    action: SealAction,
    output_parent: String,
    umoci: BuilderToolContract,
    manifest: Option<ProfileManifest>,
    copied: Vec<ArtifactSpec>,
    newly_published: bool,
}

impl View for SealMachine {
    type V = SealState;

    closed spec fn view(&self) -> SealState {
        SealState {
            action: self.action,
            output_parent: self.output_parent@,
            umoci: self.umoci,
            manifest: self.manifest,
            copied: self.copied@,
            newly_published: self.newly_published,
        }
    }
}

impl SealMachine {
    pub fn new(output_parent: String, umoci: BuilderToolContract) -> (machine: SealMachine)
        ensures
            machine@ == (SealState {
                action: SealAction::CheckOutput,
                output_parent: output_parent@,
                umoci,
                manifest: None,
                copied: Seq::empty(),
                newly_published: false,
            }),
            sound(machine@),
    {
        let machine = SealMachine {
            action: SealAction::CheckOutput,
            output_parent,
            umoci,
            manifest: None,
            copied: Vec::new(),
            newly_published: false,
        };
        assert(machine@.copied =~= Seq::<ArtifactSpec>::empty());
        machine
    }

    /// What to do next.
    pub fn action(&self) -> (action: SealAction)
        ensures
            action == self@.action,
    {
        self.action
    }

    /// The position of the artifact to copy next.
    pub fn position(&self) -> (position: usize)
        ensures
            position == self@.copied.len(),
    {
        self.copied.len()
    }

    /// The manifest as far as it is made.
    pub fn manifest(&self) -> (manifest: Option<&ProfileManifest>)
        ensures
            match manifest {
                Some(manifest) => self@.manifest == Some(*manifest),
                None => self@.manifest is None,
            },
    {
        match &self.manifest {
            Some(manifest) => Some(manifest),
            None => None,
        }
    }

    /// Whether the staging directory is the published one now. Every other
    /// end of a seal removes the staging directory.
    pub fn newly_published(&self) -> (newly: bool)
        ensures
            newly == self@.newly_published,
    {
        self.newly_published
    }

    fn at(self, action: SealAction) -> (next: SealMachine)
        ensures
            next@ == (SealState { action, ..self@ }),
    {
        SealMachine {
            action,
            output_parent: self.output_parent,
            umoci: self.umoci,
            manifest: self.manifest,
            copied: self.copied,
            newly_published: self.newly_published,
        }
    }

    /// Goes on after what came of the action, or ends the seal.
    pub fn accept(self, event: SealEvent) -> (next: Result<SealMachine, ManifestError>)
        requires
            sound(self@),
            expects(self@.action, event),
        ensures
            match next {
                Ok(next) => is_seal_step(self@, event, Ok(next@)) && sound(next@),
                Err(error) => is_seal_step(self@, event, Err(error@)),
            },
    {
        match event {
            SealEvent::Done => self.done(),
            SealEvent::Template { manifest } => {
                if let Err(error) = validate_template_placeholders(&manifest) {
                    return Err(error);
                }
                Ok(
                    SealMachine {
                        action: SealAction::OpenCollection,
                        output_parent: self.output_parent,
                        umoci: self.umoci,
                        manifest: Some(manifest),
                        copied: self.copied,
                        newly_published: self.newly_published,
                    },
                )
            },
            SealEvent::Copied { spec } => {
                let mut copied = self.copied;
                copied.push(spec);
                let action = if copied.len() == ARTIFACT_COUNT {
                    SealAction::EncodeContracts
                } else {
                    SealAction::CopyArtifact
                };
                Ok(
                    SealMachine {
                        action,
                        output_parent: self.output_parent,
                        umoci: self.umoci,
                        manifest: self.manifest,
                        copied,
                        newly_published: self.newly_published,
                    },
                )
            },
            SealEvent::Contracts { encodings, facts } => self.bind(encodings, facts),
            SealEvent::Encoded { bytes } => self.revise(bytes),
            SealEvent::Loaded { found } => self.loaded(found),
            SealEvent::Exists => Ok(self.at(SealAction::LoadPublished)),
        }
    }

    fn done(self) -> (next: Result<SealMachine, ManifestError>)
        requires
            sound(self@),
            expects(self@.action, SealEvent::Done),
        ensures
            match next {
                Ok(next) => is_seal_step(self@, SealEvent::Done, Ok(next@)) && sound(next@),
                Err(error) => is_seal_step(self@, SealEvent::Done, Err(error@)),
            },
    {
        let action = match self.action {
            SealAction::CheckOutput => {
                if let Err(error) = validate_umoci_request(&self.umoci) {
                    return Err(error);
                }
                SealAction::ReadTemplate
            },
            SealAction::OpenCollection => SealAction::CreateStage,
            SealAction::CreateStage => SealAction::CopyArtifact,
            SealAction::WriteManifest => SealAction::LoadStaged,
            SealAction::MakeImmutable => SealAction::Rename,
            SealAction::Rename => {
                return Ok(
                    SealMachine {
                        action: SealAction::SyncCollection,
                        output_parent: self.output_parent,
                        umoci: self.umoci,
                        manifest: self.manifest,
                        copied: self.copied,
                        newly_published: true,
                    },
                );
            },
            SealAction::SyncCollection => SealAction::LoadPublished,
            other => other,
        };
        Ok(self.at(action))
    }

    fn bind(self, encodings: ContractEncodings, facts: PolicyFacts) -> (next: Result<
        SealMachine,
        ManifestError,
    >)
        requires
            sound(self@),
            self@.action is EncodeContracts,
        ensures
            match next {
                Ok(next) => is_seal_step(
                    self@,
                    SealEvent::Contracts { encodings, facts },
                    Ok(next@),
                ) && sound(next@),
                Err(error) => is_seal_step(
                    self@,
                    SealEvent::Contracts { encodings, facts },
                    Err(error@),
                ),
            },
    {
        let ghost before = self@;
        match self.manifest {
            Some(template) => {
                let artifacts = gather(self.copied);
                let sealed = seal_manifest(template, artifacts, &self.umoci, &encodings, &facts);
                assert(is_sealing(
                    before.manifest->Some_0,
                    gathered(before.copied),
                    before.umoci,
                    encodings,
                    facts,
                    manifest_outcome(sealed),
                ));
                match sealed {
                    Ok(manifest) => {
                        let next = SealMachine {
                            action: SealAction::EncodeManifest,
                            output_parent: self.output_parent,
                            umoci: self.umoci,
                            manifest: Some(manifest),
                            copied: Vec::new(),
                            newly_published: self.newly_published,
                        };
                        assert(next@.copied =~= Seq::<ArtifactSpec>::empty());
                        assert(is_bound_step(before, encodings, facts, Ok(next@)));
                        Ok(next)
                    },
                    Err(error) => Err(error),
                }
            },
            None => Err(ManifestError::invalid("profile", "no template was read")),
        }
    }

    fn revise(self, bytes: Vec<u8>) -> (next: Result<SealMachine, ManifestError>)
        requires
            sound(self@),
            self@.action is EncodeManifest,
        ensures
            next is Ok,
            is_seal_step(self@, SealEvent::Encoded { bytes }, Ok(next->Ok_0@)),
            sound(next->Ok_0@),
    {
        match self.manifest {
            Some(sealed) => {
                let mut manifest = sealed;
                set_revision(&mut manifest, &bytes);
                Ok(
                    SealMachine {
                        action: SealAction::WriteManifest,
                        output_parent: self.output_parent,
                        umoci: self.umoci,
                        manifest: Some(manifest),
                        copied: self.copied,
                        newly_published: self.newly_published,
                    },
                )
            },
            None => Err(ManifestError::invalid("profile", "no template was read")),
        }
    }

    fn loaded(self, found: Option<ProfileManifest>) -> (next: Result<SealMachine, ManifestError>)
        requires
            sound(self@),
            expects(self@.action, SealEvent::Loaded { found }),
        ensures
            match next {
                Ok(next) => is_seal_step(
                    self@,
                    SealEvent::Loaded { found },
                    Ok(next@),
                ) && sound(next@),
                Err(error) => is_seal_step(
                    self@,
                    SealEvent::Loaded { found },
                    Err(error@),
                ),
            },
    {
        let staged = match self.action {
            SealAction::LoadStaged => true,
            _ => false,
        };
        if let Some(sealed) = &self.manifest {
            if staged {
                if let Some(manifest) = &found {
                    if let Err(error) = check_staged(manifest, sealed) {
                        return Err(error);
                    }
                }
            } else {
                let path = publication_path(&self.output_parent, sealed);
                let published = match &found {
                    Some(manifest) => check_published(&path, Some(manifest), sealed),
                    None => check_published(&path, None, sealed),
                };
                if let Err(error) = published {
                    return Err(error);
                }
            }
        }
        Ok(
            self.at(
                if staged {
                    SealAction::MakeImmutable
                } else {
                    SealAction::Finished
                },
            ),
        )
    }
}

// ---------------------------------------------------------------------------
// Laws
// ---------------------------------------------------------------------------

/// A bundle is given its published name only once its staged bytes loaded as
/// the very manifest it was made of.
pub proof fn law_only_a_verified_stage_is_published(
    state: SealState,
    event: SealEvent,
    next: SealState,
)
    requires
        sound(state),
        expects(state.action, event),
        is_seal_step(state, event, Ok(next)),
    ensures
        next.action is Rename ==> state.action is MakeImmutable,
        next.action is MakeImmutable ==> state.action is LoadStaged && event is Loaded
            && event->found is Some && same_manifest(
            event->found->Some_0,
            state.manifest->Some_0,
        ),
        next.newly_published && !state.newly_published ==> state.action is Rename && event is Done,
{
}

/// A seal ends well only with the sealed manifest itself loaded from its
/// published place, whether that was published now or before; what was
/// published before is never replaced.
pub proof fn law_finished_seal_is_the_published_one(
    state: SealState,
    event: SealEvent,
    next: SealState,
)
    requires
        sound(state),
        expects(state.action, event),
        is_seal_step(state, event, Ok(next)),
        next.action is Finished,
    ensures
        state.action is LoadPublished,
        event is Loaded && event->found is Some && same_manifest(
            event->found->Some_0,
            next.manifest->Some_0,
        ),
        next.newly_published == state.newly_published,
{
}

/// Every step brings a seal closer to its end: the next action comes later, or
/// one more artifact is copied.
pub proof fn law_every_step_brings_the_seal_further(
    state: SealState,
    event: SealEvent,
    next: SealState,
)
    requires
        sound(state),
        expects(state.action, event),
        is_seal_step(state, event, Ok(next)),
    ensures
        seal_rank(state.action) < seal_rank(next.action) || (next.action is CopyArtifact
            && state.action is CopyArtifact && next.copied.len() == state.copied.len() + 1),
{
}

/// Sealing puts every artifact where its template says it will be, and gives
/// the host's programs and nothing else an executable mode.
pub proof fn law_copies_follow_the_template(manifest: ProfileManifest, position: int)
    requires
        template_fault(manifest) is None,
        0 <= position < ARTIFACT_COUNT,
    ensures
        artifact_at(manifest.artifacts, position).path@ == sealed_path(position),
        sealed_mode(position) == EXECUTABLE_MODE <==> role_at(position) is HostExecutable,
{
}

/// Whether two seals of one request stand at the same point, with the same
/// manifest as far as it is made.
pub open spec fn alike(left: SealState, right: SealState) -> bool {
    &&& left.action == right.action
    &&& left.output_parent == right.output_parent
    &&& left.umoci == right.umoci
    &&& left.copied == right.copied
    &&& left.newly_published == right.newly_published
    &&& left.manifest is Some <==> right.manifest is Some
    &&& left.manifest is Some && seal_rank(left.action) <= 5 ==> left.manifest == right.manifest
    &&& left.manifest is Some ==> same_manifest(left.manifest->Some_0, right.manifest->Some_0)
}

/// Sealing the same request again goes the same way: where the first seal went
/// on, the second, which finds what the first found, goes on to the same point
/// with the same manifest, up to its publication.
pub proof fn law_sealing_again_goes_the_same_way(
    first: SealState,
    second: SealState,
    event: SealEvent,
    next: SealState,
    outcome: Result<SealState, ManifestFault>,
)
    requires
        alike(first, second),
        sound(first),
        sound(second),
        expects(first.action, event),
        seal_rank(first.action) < 10,
        is_seal_step(first, event, Ok(next)),
        is_seal_step(second, event, outcome),
    ensures
        outcome is Ok,
        alike(next, outcome->Ok_0),
{
    match event {
        SealEvent::Contracts { encodings, facts } => {
            lemma_binding_again(first, second, encodings, facts, next, outcome);
        },
        _ => {},
    }
}

proof fn lemma_binding_again(
    first: SealState,
    second: SealState,
    encodings: ContractEncodings,
    facts: PolicyFacts,
    next: SealState,
    outcome: Result<SealState, ManifestFault>,
)
    requires
        alike(first, second),
        first.action is EncodeContracts,
        first.manifest is Some,
        is_bound_step(first, encodings, facts, Ok(next)),
        is_bound_step(second, encodings, facts, outcome),
    ensures
        outcome is Ok,
        alike(next, outcome->Ok_0),
{
    let template = first.manifest->Some_0;
    let artifacts = gathered(first.copied);
    let left = choose|sealed: Result<ProfileManifest, ManifestFault>|
        {
            &&& #[trigger] is_sealing(
                template,
                artifacts,
                first.umoci,
                encodings,
                facts,
                sealed,
            )
            &&& Ok::<SealState, ManifestFault>(next) == after_sealing(first, sealed)
        };
    let right = choose|sealed: Result<ProfileManifest, ManifestFault>|
        {
            &&& #[trigger] is_sealing(
                template,
                artifacts,
                first.umoci,
                encodings,
                facts,
                sealed,
            )
            &&& outcome == after_sealing(second, sealed)
        };
    law_sealing_is_deterministic(
        template,
        artifacts,
        first.umoci,
        encodings,
        facts,
        left,
        right,
    );
}

/// Whether a seal went through the states with what came of each action.
pub open spec fn is_course(states: Seq<SealState>, events: Seq<SealEvent>) -> bool {
    &&& states.len() == events.len() + 1
    &&& forall|i: int|
        0 <= i < events.len() ==> {
            &&& sound(#[trigger] states[i])
            &&& expects(states[i].action, events[i])
            &&& is_seal_step(states[i], events[i], Ok(states[i + 1]))
        }
}

/// Two seals of one request that find the same things are at the same point
/// with the same manifest after every number of steps, up to publication.
pub proof fn law_equal_requests_seal_alike(
    first: Seq<SealState>,
    second: Seq<SealState>,
    events: Seq<SealEvent>,
    n: int,
)
    requires
        is_course(first, events),
        is_course(second, events),
        alike(first[0], second[0]),
        0 <= n <= events.len(),
        forall|i: int| 0 <= i < n ==> seal_rank((#[trigger] first[i]).action) < 10,
    ensures
        alike(first[n], second[n]),
    decreases n,
{
    if n > 0 {
        law_equal_requests_seal_alike(first, second, events, n - 1);
        assert(sound(first[n - 1]) && sound(second[n - 1]));
        assert(is_seal_step(first[n - 1], events[n - 1], Ok(first[n - 1 + 1])));
        assert(is_seal_step(second[n - 1], events[n - 1], Ok(second[n - 1 + 1])));
        law_sealing_again_goes_the_same_way(
            first[n - 1],
            second[n - 1],
            events[n - 1],
            first[n],
            Ok(second[n]),
        );
    }
}

/// Where a seal publishes its manifest.
pub open spec fn place_of(state: SealState) -> Seq<char> {
    published_at(state.output_parent, state.manifest->Some_0)
}

/// What comes of giving a bundle its name, where nothing is replaced.
pub open spec fn rename_event(bundles: Map<Seq<char>, ProfileManifest>, state: SealState) -> SealEvent {
    if bundles.contains_key(place_of(state)) {
        SealEvent::Exists
    } else {
        SealEvent::Done
    }
}

/// What is published after a bundle was to be given its name.
pub open spec fn bundles_after(
    bundles: Map<Seq<char>, ProfileManifest>,
    state: SealState,
) -> Map<Seq<char>, ProfileManifest> {
    if bundles.contains_key(place_of(state)) {
        bundles
    } else {
        bundles.insert(place_of(state), state.manifest->Some_0)
    }
}

/// Whether a seal that was to give its bundle a name ends well, with this
/// manifest and having published it now or not, when it loads what is published
/// under the name.
pub open spec fn ends_with(
    renamed: SealState,
    found: ProfileManifest,
    manifest: ProfileManifest,
    newly_published: bool,
) -> bool {
    &&& renamed.action is LoadPublished
    &&& forall|outcome: Result<SealState, ManifestFault>|
        #[trigger] is_seal_step(renamed, SealEvent::Loaded { found: Some(found) }, outcome) ==> {
            &&& outcome is Ok
            &&& outcome->Ok_0.action is Finished
            &&& outcome->Ok_0.newly_published == newly_published
            &&& outcome->Ok_0.manifest is Some && same_manifest(
                outcome->Ok_0.manifest->Some_0,
                manifest,
            )
        }
}

/// The first seal of a request publishes its bundle, where nothing is published
/// yet. The second arrives at the same place, finds the first one's bundle,
/// replaces nothing and publishes nothing: both end with the same manifest.
pub proof fn law_second_seal_finds_the_first(
    first: SealState,
    second: SealState,
    bundles: Map<Seq<char>, ProfileManifest>,
    named: SealState,
    synced: SealState,
    refused: SealState,
    found: ProfileManifest,
)
    requires
        alike(first, second),
        sound(first),
        sound(second),
        first.action is Rename,
        !bundles.contains_key(place_of(first)),
        is_seal_step(first, rename_event(bundles, first), Ok(named)),
        is_seal_step(named, SealEvent::Done, Ok(synced)),
        is_seal_step(
            second,
            rename_event(bundles_after(bundles, first), second),
            Ok(refused),
        ),
        same_manifest(found, bundles_after(bundles, first)[place_of(first)]),
    ensures
        place_of(second) == place_of(first),
        bundles_after(bundles_after(bundles, first), second) == bundles_after(bundles, first),
        forall|place: Seq<char>| #[trigger]
            bundles.contains_key(place) ==> bundles_after(bundles, first)[place]
                == bundles[place],
        ends_with(synced, found, first.manifest->Some_0, true),
        ends_with(refused, found, first.manifest->Some_0, false),
{
    let sealed = first.manifest->Some_0;
    let again = second.manifest->Some_0;
    assert(same_manifest(found, sealed));
    lemma_same_through(found, sealed, again);
    assert(hex_of(sealed.profile_revision@) == hex_of(again.profile_revision@));
}

proof fn lemma_same_through(left: ProfileManifest, middle: ProfileManifest, right: ProfileManifest)
    requires
        same_manifest(left, middle),
        same_manifest(middle, right),
    ensures
        same_manifest(left, right),
        same_manifest(right, middle),
        same_manifest(middle, left),
{
}

/// Each artifact of a sealed bundle is copied from the request's source of the
/// same role, under that role's path, with a mode that suits it; only the
/// checker's policy must be empty.
pub proof fn law_each_artifact_comes_from_its_source(
    sources: ProfileArtifactSources,
    position: usize,
    copy: ArtifactCopy,
)
    requires
        call_ensures(artifact_copy, (&sources, position), Some(copy)),
    ensures
        copy.relative@ == "host/pocket-guard"@ ==> copy.source@ == sources.guard@ && copy.mode == 0o555u32,
        copy.relative@ == "host/linux"@ ==> copy.source@ == sources.uml@ && copy.mode == 0o555u32,
        copy.relative@ == "host/skopeo"@ ==> copy.source@ == sources.skopeo@ && copy.mode == 0o555u32,
        copy.relative@ == "host/slirp4netns"@ ==> copy.source@ == sources.network_helper@ && copy.mode == 0o555u32,
        copy.relative@ == "host/registry-ca.pem"@ ==> copy.source@ == sources.registry_ca_bundle@ && copy.mode == 0o444u32,
        copy.relative@ == "guest/workload.cpio"@ ==> copy.source@ == sources.workload_initramfs@ && copy.mode == 0o444u32,
        copy.relative@ == "guest/builder.cpio"@ ==> copy.source@ == sources.builder_initramfs@ && copy.mode == 0o444u32,
        copy.relative@ == "guest/validator.cpio"@ ==> copy.source@ == sources.validator_initramfs@ && copy.mode == 0o444u32,
        copy.relative@ == "host/mke2fs"@ ==> copy.source@ == sources.mke2fs@ && copy.mode == 0o555u32,
        copy.relative@ == "host/e2fsck"@ ==> copy.source@ == sources.e2fsck@ && copy.mode == 0o555u32,
        copy.relative@ == "host/mke2fs.conf"@ ==> copy.source@ == sources.mke2fs_config@ && copy.mode == 0o444u32,
        copy.relative@ == "host/e2fsck.conf"@ ==> copy.source@ == sources.e2fsck_config@ && copy.mode == 0o444u32,
        copy.relative@ == "config/linux.config"@ ==> copy.source@ == sources.normalized_kernel_config@ && copy.mode == 0o444u32,
        copy.require_empty == (copy.relative@ == "host/e2fsck.conf"@),
        ({
            ||| copy.relative@ == "host/pocket-guard"@
            ||| copy.relative@ == "host/linux"@
            ||| copy.relative@ == "host/skopeo"@
            ||| copy.relative@ == "host/slirp4netns"@
            ||| copy.relative@ == "host/registry-ca.pem"@
            ||| copy.relative@ == "guest/workload.cpio"@
            ||| copy.relative@ == "guest/builder.cpio"@
            ||| copy.relative@ == "guest/validator.cpio"@
            ||| copy.relative@ == "host/mke2fs"@
            ||| copy.relative@ == "host/e2fsck"@
            ||| copy.relative@ == "host/mke2fs.conf"@
            ||| copy.relative@ == "host/e2fsck.conf"@
            ||| copy.relative@ == "config/linux.config"@
        }),
{
    lemma_sealed_paths();
}

/// The paths of a bundle, no two of them alike.
proof fn lemma_sealed_paths()
    ensures
        forall|i: int, j: int|
            0 <= i < 13 && 0 <= j < 13 && #[trigger] sealed_path(i) == #[trigger] sealed_path(j)
                ==> i == j,
        sealed_path(GUARD as int) == "host/pocket-guard"@,
        sealed_path(UML as int) == "host/linux"@,
        sealed_path(SKOPEO as int) == "host/skopeo"@,
        sealed_path(NETWORK_HELPER as int) == "host/slirp4netns"@,
        sealed_path(REGISTRY_CA_BUNDLE as int) == "host/registry-ca.pem"@,
        sealed_path(INITRAMFS as int) == "guest/workload.cpio"@,
        sealed_path(BUILDER_INITRAMFS as int) == "guest/builder.cpio"@,
        sealed_path(VALIDATOR_INITRAMFS as int) == "guest/validator.cpio"@,
        sealed_path(MKE2FS as int) == "host/mke2fs"@,
        sealed_path(E2FSCK as int) == "host/e2fsck"@,
        sealed_path(MKE2FS_CONFIG as int) == "host/mke2fs.conf"@,
        sealed_path(E2FSCK_CONFIG as int) == "host/e2fsck.conf"@,
        sealed_path(KERNEL_CONFIG as int) == "config/linux.config"@,
{
    reveal_strlit("host/pocket-guard");
    reveal_strlit("host/linux");
    reveal_strlit("host/skopeo");
    reveal_strlit("host/slirp4netns");
    reveal_strlit("host/registry-ca.pem");
    reveal_strlit("guest/workload.cpio");
    reveal_strlit("guest/builder.cpio");
    reveal_strlit("guest/validator.cpio");
    reveal_strlit("host/mke2fs");
    reveal_strlit("host/e2fsck");
    reveal_strlit("host/mke2fs.conf");
    reveal_strlit("host/e2fsck.conf");
    reveal_strlit("config/linux.config");
    assert("host/skopeo"@[5] == 's');
    assert("host/slirp4netns"@[5] == 's');
    assert("host/registry-ca.pem"@[0] == 'h');
    assert("guest/workload.cpio"@[0] == 'g');
    assert("guest/validator.cpio"@[0] == 'g');
    assert("host/mke2fs"@[5] == 'm');
    assert("host/e2fsck"@[5] == 'e');
    assert("host/mke2fs.conf"@[5] == 'm');
    assert("host/e2fsck.conf"@[5] == 'e');
    assert("config/linux.config"@[0] == 'c');
    assert(sealed_path(GUARD as int) == "host/pocket-guard"@);
    assert(sealed_path(UML as int) == "host/linux"@);
    assert(sealed_path(SKOPEO as int) == "host/skopeo"@);
    assert(sealed_path(NETWORK_HELPER as int) == "host/slirp4netns"@);
    assert(sealed_path(REGISTRY_CA_BUNDLE as int) == "host/registry-ca.pem"@);
    assert(sealed_path(INITRAMFS as int) == "guest/workload.cpio"@);
    assert(sealed_path(BUILDER_INITRAMFS as int) == "guest/builder.cpio"@);
    assert(sealed_path(VALIDATOR_INITRAMFS as int) == "guest/validator.cpio"@);
    assert(sealed_path(MKE2FS as int) == "host/mke2fs"@);
    assert(sealed_path(E2FSCK as int) == "host/e2fsck"@);
    assert(sealed_path(MKE2FS_CONFIG as int) == "host/mke2fs.conf"@);
    assert(sealed_path(E2FSCK_CONFIG as int) == "host/e2fsck.conf"@);
    assert(sealed_path(KERNEL_CONFIG as int) == "config/linux.config"@);
}

/// Whether what was copied under a path of the bundle is what the manifest says.
pub open spec fn is_copied_as(
    copied: Seq<ArtifactSpec>,
    path: Seq<char>,
    artifact: ArtifactSpec,
) -> bool {
    exists|position: int|
        0 <= position < copied.len() && #[trigger] sealed_path(position) == path
            && copied[position] == artifact
}

/// The sealed manifest says of each role what was copied under that role's
/// path.
pub proof fn law_manifest_describes_what_was_copied(copied: Seq<ArtifactSpec>)
    requires
        copied.len() == 13,
    ensures
        is_copied_as(copied, "host/pocket-guard"@, gathered(copied).guard),
        is_copied_as(copied, "host/linux"@, gathered(copied).uml),
        is_copied_as(copied, "host/skopeo"@, gathered(copied).skopeo),
        is_copied_as(copied, "host/slirp4netns"@, gathered(copied).network_helper),
        is_copied_as(copied, "host/registry-ca.pem"@, gathered(copied).registry_ca_bundle),
        is_copied_as(copied, "guest/workload.cpio"@, gathered(copied).workload_initramfs),
        is_copied_as(copied, "guest/builder.cpio"@, gathered(copied).builder_initramfs),
        is_copied_as(copied, "guest/validator.cpio"@, gathered(copied).validator_initramfs),
        is_copied_as(copied, "host/mke2fs"@, gathered(copied).mke2fs),
        is_copied_as(copied, "host/e2fsck"@, gathered(copied).e2fsck),
        is_copied_as(copied, "host/mke2fs.conf"@, gathered(copied).mke2fs_config),
        is_copied_as(copied, "host/e2fsck.conf"@, gathered(copied).e2fsck_config),
        is_copied_as(copied, "config/linux.config"@, gathered(copied).normalized_kernel_config),
{
    lemma_sealed_paths();
}

/// What follows each step of a seal: the output is checked, the template read,
/// the collection opened, a stage made and every artifact copied into it; the
/// contracts and the manifest are encoded and written; what was staged is loaded,
/// made immutable and renamed, or what is published already is loaded instead.
pub proof fn law_seal_goes_step_by_step(
    machine: SealMachine,
    event: SealEvent,
    next: Result<SealMachine, ManifestError>,
)
    requires
        sound(machine@),
        expects(machine@.action, event),
        call_ensures(SealMachine::accept, (machine, event), next),
    ensures
        event is Done && !(machine@.action is CheckOutput) ==> next is Ok,
        event is Done && machine@.action is CheckOutput ==> (next is Ok <==> umoci_fault(
            machine@.umoci,
        ) is None),
        event is Done && next is Ok ==> match machine@.action {
            SealAction::CheckOutput => next->Ok_0@.action is ReadTemplate,
            SealAction::OpenCollection => next->Ok_0@.action is CreateStage,
            SealAction::CreateStage => next->Ok_0@.action is CopyArtifact,
            SealAction::WriteManifest => next->Ok_0@.action is LoadStaged,
            SealAction::MakeImmutable => next->Ok_0@.action is Rename,
            SealAction::Rename => next->Ok_0@.action is SyncCollection
                && next->Ok_0@.newly_published,
            SealAction::SyncCollection => next->Ok_0@.action is LoadPublished,
            _ => true,
        },
        event matches SealEvent::Template { manifest } ==> (next is Ok <==> template_fault(manifest)
            is None),
        event matches SealEvent::Template { manifest } ==> next is Ok ==> next->Ok_0@.action
            is OpenCollection && next->Ok_0@.manifest == Some(manifest),
        event matches SealEvent::Copied { spec } ==> next is Ok && next->Ok_0@.copied
            == machine@.copied.push(spec) && (next->Ok_0@.action is EncodeContracts
            <==> next->Ok_0@.copied.len() == 13),
        event matches SealEvent::Encoded { bytes } ==> next is Ok && next->Ok_0@.action
            is WriteManifest && next->Ok_0@.manifest->Some_0.profile_revision@ == revision_of(
            bytes@,
        ),
        event matches SealEvent::Loaded { found } ==> (next is Ok <==> (found matches Some(loaded)
            && same_manifest(loaded, machine@.manifest->Some_0))),
        event is Loaded && next is Ok && machine@.action is LoadStaged ==> next->Ok_0@.action
            is MakeImmutable,
        event is Loaded && next is Ok && machine@.action is LoadPublished ==> next->Ok_0@.action
            is Finished,
        event is Exists ==> next is Ok && next->Ok_0@.action is LoadPublished
            && next->Ok_0@.newly_published == machine@.newly_published,
{
}

} // verus!
