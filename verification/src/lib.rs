//! Verified host-side orchestration for one trusted User-Mode Linux workload.
//!
//! The library owns the rules of profile verification, per-run files and
//! descriptors, the guard's launch, and the bounded host side of the guest
//! protocol. What touches files, processes and sockets stands around it and
//! asks it what to do. It never assembles a shell command.

pub mod builder;
pub mod bytes;
pub mod capture;
pub mod cow;
pub mod debug;
pub mod digest;
pub mod duration;
pub mod error;
pub mod filesystem;
pub mod image;
pub mod launch;
pub mod manifest;
pub mod numeral;
pub mod oci_export;
pub mod operation;
pub mod order;
pub mod path;
pub mod pocket_archive;
pub mod profile_seal;
pub mod protocol;
pub mod runtime;
pub mod terminal;
pub mod text;

pub use builder::adjust::AdjustRequest;
pub use builder::{BuildRequest, BuilderPolicy};
pub use capture::CapturedStream;
pub use digest::{ArtifactDigest, ProfileRevision};
pub use error::{HostBuildError, ManifestError, RuntimeError};
pub use image::signal::parse_image_signal;
pub use image::{ImageArgv, ImageProcessOverrides, ResolvedImageProcess};
pub use manifest::profile::VerifiedProfile;
pub use manifest::{
    ArtifactManifest, ArtifactSpec, BuilderContract, BuilderToolContract, Contracts, CpuManifest,
    HelloContract, LaunchContract, MemoryManifest, ProfileManifest, ProfileMaturity,
    ValidatorContract, PROFILE_MANIFEST_FILE, PROFILE_SCHEMA_VERSION,
};
pub use profile_seal::{ProfileArtifactSources, ProfileSealRequest};
pub use runtime::lifecycle::RunOutput;
pub use runtime::{RuntimePolicy, WorkloadSpec};
