//! One artifact of a profile bundle: where it lies and what it must be.

use vstd::prelude::*;

use crate::digest::{digest_text, sha256_of, ArtifactDigest};
use crate::error::{first_of, manifest_fault, ManifestError, ManifestFault};
use crate::manifest::elf::{elf_fault, verify_static_x86_64_elf};
use crate::manifest::ArtifactSpec;
use crate::path::{is_absolute, join_path, joined, same_location, same_path};
use crate::text::{
    byte_count, byte_len, chars_of, is_whitespace, pieces, same_chars, split, split_on,
    whitespace_char,
};

verus! {

/// Most bytes of an artifact's relative path.
pub const MAX_ARTIFACT_PATH_BYTES: usize = 160;

/// What an artifact is for, which decides the modes it may have.
#[derive(Debug, Clone, Copy, PartialEq, Eq, Structural)]
pub enum ArtifactRole {
    HostExecutable,
    Initramfs,
    Data,
    KernelConfig,
}

/// What was observed of a file: its canonical path, its metadata and its
/// contents.
#[derive(Debug)]
pub struct FileObservation {
    pub canonical: String,
    pub regular: bool,
    /// The raw mode bits of the file's status.
    pub mode: u32,
    pub size: u64,
    /// Whether the file carries a Linux file capability.
    pub capability: bool,
    pub bytes: Vec<u8>,
}

/// An artifact that was found to be what its manifest says.
#[derive(Debug)]
pub struct VerifiedArtifact {
    pub path: String,
    pub spec: ArtifactSpec,
    pub role: ArtifactRole,
}

/// A character that a path may not hold.
pub open spec fn is_reserved(c: char) -> bool {
    is_whitespace(c) || c == ',' || c == ':' || c == '\0'
}

pub open spec fn has_reserved(path: Seq<char>) -> bool {
    exists|i: int| 0 <= i < path.len() && is_reserved(#[trigger] path[i])
}

/// Whether a relative path begins at `.` or goes through `..`.
pub open spec fn leaves_its_place(path: Seq<char>) -> bool {
    let parts = split(path, '/');
    parts[0] == "."@ || parts.contains(".."@)
}

pub open spec fn path_refused(path: Seq<char>, reason: Seq<char>) -> ManifestFault {
    ManifestFault::ArtifactPath { path, reason }
}

/// Why a relative artifact path is refused, if it is.
pub open spec fn relative_path_fault(path: Seq<char>) -> Option<ManifestFault> {
    if path.len() == 0 || is_absolute(path) {
        Some(path_refused(path, "must be non-empty and relative"@))
    } else if byte_count(path) > MAX_ARTIFACT_PATH_BYTES || has_reserved(path) {
        Some(path_refused(path, "contains a reserved character or is too long"@))
    } else if leaves_its_place(path) {
        Some(path_refused(path, "contains a dot, parent, root, or prefix component"@))
    } else {
        None
    }
}

/// Refuses a path that is not normalized and relative.
pub fn validate_relative_artifact_path(path: &str) -> (checked: Result<(), ManifestError>)
    ensures
        manifest_fault(checked) == relative_path_fault(path@),
{
    let chars = chars_of(path);
    if chars.len() == 0 || chars[0] == '/' {
        return Err(
            ManifestError::ArtifactPath {
                path: path.to_owned(),
                reason: "must be non-empty and relative",
            },
        );
    }
    let mut bad = byte_len(path) > MAX_ARTIFACT_PATH_BYTES;
    let mut i: usize = 0;
    while i < chars.len()
        invariant
            i <= chars@.len(),
            chars@ == path@,
            bad == (byte_count(path@) > MAX_ARTIFACT_PATH_BYTES || exists|j: int|
                0 <= j < i && is_reserved(#[trigger] path@[j])),
        decreases chars@.len() - i,
    {
        let c: char = chars[i];
        if whitespace_char(c) || c == ',' || c == ':' || c == '\0' {
            assert(is_reserved(path@[i as int]));
            bad = true;
        }
        i += 1;
    }
    if bad {
        return Err(
            ManifestError::ArtifactPath {
                path: path.to_owned(),
                reason: "contains a reserved character or is too long",
            },
        );
    }
    let parts = split_on(&chars, '/');
    let ghost all = pieces(parts@);
    let dot = chars_of(".");
    let dots = chars_of("..");
    assert(all[0] == parts@[0]@);
    let mut leaves = same_chars(&parts[0], &dot);
    let mut k: usize = 0;
    while k < parts.len()
        invariant
            k <= parts@.len(),
            all == pieces(parts@),
            dots@ == ".."@,
            leaves == (all[0] == "."@ || exists|j: int| 0 <= j < k && #[trigger] all[j] == ".."@),
        decreases parts@.len() - k,
    {
        assert(all[k as int] == parts@[k as int]@);
        if same_chars(&parts[k], &dots) {
            leaves = true;
        }
        k += 1;
    }
    if leaves {
        return Err(
            ManifestError::ArtifactPath {
                path: path.to_owned(),
                reason: "contains a dot, parent, root, or prefix component",
            },
        );
    }
    Ok(())
}

/// Where a bundle keeps an artifact.
pub fn locate_artifact(root: &str, spec: &ArtifactSpec) -> (path: Result<String, ManifestError>)
    ensures
        match path {
            Ok(path) => relative_path_fault(spec.path@) is None && path@ == joined(
                root@,
                spec.path@,
            ),
            Err(error) => relative_path_fault(spec.path@) == Some(error@),
        },
{
    match validate_relative_artifact_path(&spec.path) {
        Ok(()) => Ok(join_path(root, &spec.path)),
        Err(error) => Err(error),
    }
}

/// The permission bits.
pub open spec fn permissions(mode: u32) -> u32 {
    mode & 0o7777u32
}

/// A mode may not let others write, and must suit the role.
pub open spec fn mode_fault(path: Seq<char>, raw: u32, role: ArtifactRole) -> Option<
    ManifestFault,
> {
    let mode = permissions(raw);
    if mode & 0o022u32 != 0 {
        Some(
            ManifestFault::ArtifactMode {
                path,
                mode,
                reason: "artifact must not be group- or world-writable"@,
            },
        )
    } else if role is HostExecutable {
        if mode & 0o111u32 == 0 || mode & 0o6000u32 != 0 {
            Some(
                ManifestFault::ArtifactMode {
                    path,
                    mode,
                    reason: "host executable needs an execute bit and no set-ID bit"@,
                },
            )
        } else {
            None
        }
    } else if mode & 0o111u32 != 0 || mode & 0o6000u32 != 0 {
        Some(
            ManifestFault::ArtifactMode {
                path,
                mode,
                reason: "data artifact must be non-executable and have no set-ID bit"@,
            },
        )
    } else {
        None
    }
}

fn check_mode(path: &str, raw: u32, role: ArtifactRole) -> (checked: Result<(), ManifestError>)
    ensures
        manifest_fault(checked) == mode_fault(path@, raw, role),
{
    let mode: u32 = raw & 0o7777u32;
    if mode & 0o022u32 != 0 {
        return Err(
            ManifestError::ArtifactMode {
                path: path.to_owned(),
                mode,
                reason: "artifact must not be group- or world-writable",
            },
        );
    }
    match role {
        ArtifactRole::HostExecutable => {
            if mode & 0o111u32 == 0 || mode & 0o6000u32 != 0 {
                return Err(
                    ManifestError::ArtifactMode {
                        path: path.to_owned(),
                        mode,
                        reason: "host executable needs an execute bit and no set-ID bit",
                    },
                );
            }
        },
        ArtifactRole::Initramfs | ArtifactRole::Data | ArtifactRole::KernelConfig => {
            if mode & 0o111u32 != 0 || mode & 0o6000u32 != 0 {
                return Err(
                    ManifestError::ArtifactMode {
                        path: path.to_owned(),
                        mode,
                        reason: "data artifact must be non-executable and have no set-ID bit",
                    },
                );
            }
        },
    }
    Ok(())
}

/// Why the file at a path is not the artifact, if it is not.
pub open spec fn artifact_fault(
    path: Seq<char>,
    spec: ArtifactSpec,
    role: ArtifactRole,
    file: FileObservation,
) -> Option<ManifestFault> {
    if !same_location(file.canonical@, path) {
        Some(ManifestFault::ArtifactResolution { path })
    } else if !file.regular {
        Some(ManifestFault::ArtifactType { path })
    } else {
        first_of(
            mode_fault(path, file.mode, role),
            if file.size != spec.size {
                Some(
                    ManifestFault::ArtifactSize { path, expected: spec.size, actual: file.size },
                )
            } else if file.capability {
                Some(ManifestFault::ArtifactCapability { path })
            } else if sha256_of(file.bytes@) != spec.sha256@ {
                Some(
                    ManifestFault::ArtifactDigest {
                        path,
                        expected: digest_text(spec.sha256@),
                        actual: digest_text(sha256_of(file.bytes@)),
                    },
                )
            } else if role is HostExecutable {
                elf_fault(path, file.bytes@)
            } else {
                None
            },
        )
    }
}

/// Refuses a file that is not the artifact its manifest describes.
pub fn verify_artifact_at(
    path: &str,
    spec: &ArtifactSpec,
    role: ArtifactRole,
    file: &FileObservation,
) -> (checked: Result<(), ManifestError>)
    ensures
        manifest_fault(checked) == artifact_fault(path@, *spec, role, *file),
{
    if !same_path(&file.canonical, path) {
        return Err(ManifestError::ArtifactResolution { path: path.to_owned() });
    }
    if !file.regular {
        return Err(ManifestError::ArtifactType { path: path.to_owned() });
    }
    if let Err(error) = check_mode(path, file.mode, role) {
        return Err(error);
    }
    if file.size != spec.size {
        return Err(
            ManifestError::ArtifactSize {
                path: path.to_owned(),
                expected: spec.size,
                actual: file.size,
            },
        );
    }
    if file.capability {
        return Err(ManifestError::ArtifactCapability { path: path.to_owned() });
    }
    let observed = ArtifactDigest::of_bytes(&file.bytes);
    if !observed.same(spec.sha256) {
        return Err(
            ManifestError::ArtifactDigest {
                path: path.to_owned(),
                expected: spec.sha256.to_text(),
                actual: observed.to_text(),
            },
        );
    }
    match role {
        ArtifactRole::HostExecutable => verify_static_x86_64_elf(path, &file.bytes),
        _ => Ok(()),
    }
}

/// Why a bundle directory is refused, if it is: it must be an exact directory
/// that only its owner can write.
pub open spec fn directory_fault(
    path: Seq<char>,
    canonical: Seq<char>,
    directory: bool,
    mode: u32,
) -> Option<ManifestFault> {
    if !same_location(canonical, path) {
        Some(ManifestFault::ArtifactResolution { path })
    } else if !directory {
        Some(ManifestFault::ArtifactType { path })
    } else if mode & 0o022u32 != 0 {
        Some(
            ManifestFault::ArtifactMode {
                path,
                mode: permissions(mode),
                reason: "bundle directory must not be group- or world-writable"@,
            },
        )
    } else {
        None
    }
}

pub fn validate_exact_directory(path: &str, canonical: &str, directory: bool, mode: u32) -> (checked:
    Result<(), ManifestError>)
    ensures
        manifest_fault(checked) == directory_fault(path@, canonical@, directory, mode),
{
    if !same_path(canonical, path) {
        return Err(ManifestError::ArtifactResolution { path: path.to_owned() });
    }
    if !directory {
        return Err(ManifestError::ArtifactType { path: path.to_owned() });
    }
    if mode & 0o022u32 != 0 {
        return Err(
            ManifestError::ArtifactMode {
                path: path.to_owned(),
                mode: mode & 0o7777u32,
                reason: "bundle directory must not be group- or world-writable",
            },
        );
    }
    Ok(())
}

/// Why a file that must be small is refused, if it is.
pub open spec fn bounded_file_fault(
    path: Seq<char>,
    regular: bool,
    size: u64,
    maximum: usize,
) -> Option<ManifestFault> {
    if !regular {
        Some(ManifestFault::ArtifactType { path })
    } else if size > maximum {
        Some(ManifestFault::TooLarge { path, maximum })
    } else {
        None
    }
}

/// Refuses to read what is not a regular file of at most `maximum` bytes.
pub fn check_bounded_file(path: &str, regular: bool, size: u64, maximum: usize) -> (checked: Result<
    (),
    ManifestError,
>)
    ensures
        manifest_fault(checked) == bounded_file_fault(path@, regular, size, maximum),
{
    if !regular {
        return Err(ManifestError::ArtifactType { path: path.to_owned() });
    }
    if size > maximum as u64 {
        return Err(ManifestError::TooLarge { path: path.to_owned(), maximum });
    }
    Ok(())
}

/// An artifact that a bundle accepts lies inside the bundle, has the declared
/// size and digest, and is writable by its owner alone.
pub proof fn law_accepted_artifact_lies_in_its_bundle(
    root: Seq<char>,
    spec: ArtifactSpec,
    role: ArtifactRole,
    file: FileObservation,
)
    requires
        root.len() > 0,
        root.last() != '/',
        relative_path_fault(spec.path@) is None,
        artifact_fault(joined(root, spec.path@), spec, role, file) is None,
    ensures
        crate::path::components(file.canonical@) == crate::path::components(root)
            + crate::path::components(spec.path@),
        file.size == spec.size,
        sha256_of(file.bytes@) == spec.sha256@,
        permissions(file.mode) & 0o022u32 == 0,
{
    crate::path::law_joined_path_stays_below(root, spec.path@);
}

/// A path inside a bundle is relative, of at most 160 bytes, without white
/// space, commas, colons and zero bytes, begins with no `.` and goes through no
/// `..`; every such path is one.
pub proof fn law_artifact_paths_are_confined(
    path: &str,
    root: &str,
    spec: ArtifactSpec,
    checked: Result<(), ManifestError>,
    located: Result<String, ManifestError>,
)
    requires
        call_ensures(validate_relative_artifact_path, (path,), checked),
        call_ensures(locate_artifact, (root, &spec), located),
        spec.path@ == path@,
    ensures
        located is Ok <==> checked is Ok,
        located matches Ok(at) ==> at@ == joined(root@, path@),
        checked is Ok <==> {
            &&& path@.len() > 0
            &&& path@[0] != '/'
            &&& byte_count(path@) <= 160
            &&& forall|i: int|
                0 <= i < path@.len() ==> !is_whitespace(#[trigger] path@[i]) && path@[i] != ','
                    && path@[i] != ':' && path@[i] != '\0'
            &&& split(path@, '/')[0] != "."@
            &&& !split(path@, '/').contains(".."@)
        },
{
    let path = path@;
    if !has_reserved(path) {
        assert forall|i: int| 0 <= i < path.len() implies !is_reserved(#[trigger] path[i]) by {}
    }
}

/// An artifact is accepted exactly where it is the regular file of that very
/// name, of the manifest's size and digest, carries no capability, and has a
/// mode that suits it: nobody but its owner may write it, it sets no identity,
/// and it can be executed exactly where it is a program of the host, which must
/// then be a static one.
pub proof fn law_accepted_artifact_is_the_manifests(
    path: &str,
    spec: ArtifactSpec,
    role: ArtifactRole,
    file: FileObservation,
    checked: Result<(), ManifestError>,
)
    requires
        call_ensures(verify_artifact_at, (path, &spec, role, &file), checked),
    ensures
        checked is Ok <==> {
            &&& same_location(file.canonical@, path@)
            &&& file.regular
            &&& file.mode & 0o022u32 == 0
            &&& file.mode & 0o6000u32 == 0
            &&& (role is HostExecutable) == (file.mode & 0o111u32 != 0)
            &&& file.size == spec.size
            &&& !file.capability
            &&& sha256_of(file.bytes@) == spec.sha256@
            &&& role is HostExecutable ==> elf_fault(path@, file.bytes@) is None
        },
{
    let raw = file.mode;
    assert((raw & 0o7777u32) & 0o022u32 == raw & 0o022u32) by (bit_vector);
    assert((raw & 0o7777u32) & 0o111u32 == raw & 0o111u32) by (bit_vector);
    assert((raw & 0o7777u32) & 0o6000u32 == raw & 0o6000u32) by (bit_vector);
}

/// A bundle's directory is accepted exactly where it is a directory of that
/// very name which only its owner may write; a file is read only where it is
/// regular and within its bound.
pub proof fn law_accepted_directory_is_private(
    path: &str,
    canonical: &str,
    found: bool,
    mode: u32,
    size: u64,
    maximum: usize,
    private: Result<(), ManifestError>,
    bounded: Result<(), ManifestError>,
)
    requires
        call_ensures(validate_exact_directory, (path, canonical, found, mode), private),
        call_ensures(check_bounded_file, (path, found, size, maximum), bounded),
    ensures
        private is Ok <==> same_location(canonical@, path@)
            && found && mode & 0o022u32 == 0,
        bounded is Ok <==> found && size <= maximum,
{
}

} // verus!
