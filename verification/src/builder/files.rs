//! What a build requires of the files it creates, copies and removes.

use vstd::prelude::*;

use crate::builder::plan::BuildPaths;
use crate::builder::prepare::{evidence_fault, evidence_mismatch, mismatch_error};
use crate::digest::{digest_text, ArtifactDigest, FileDigest};
use crate::error::{build_fault, invalid_build, HostBuildError, HostBuildFault};
use crate::manifest::ArtifactSpec;
use crate::path::{child_of, is_child, join_path, joined, same_location, same_path};
use crate::text::{
    byte_count, byte_len, decimal, decimal_text, join, join3, same_text,
};

verus! {

/// Random bytes in the name of a build.
pub const BUILD_ID_BYTES: usize = 16;

/// Random bytes in the challenge of a validation.
pub const VALIDATION_CHALLENGE_BYTES: usize = 32;

/// How often a build directory's name is drawn before giving up.
pub const DIRECTORY_ATTEMPTS: u32 = 128;

/// What is known of a file.
#[derive(Debug, Clone, Copy, PartialEq, Eq, Structural)]
pub struct FileFacts {
    pub regular: bool,
    pub directory: bool,
    pub length: u64,
    pub mode: u32,
    pub owner: u32,
    pub device: u64,
    pub inode: u64,
}

/// The permission bits of a mode.
pub open spec fn permission_bits(mode: u32) -> u32 {
    mode & 0o7777u32
}

/// Whether a file is regular and its owner's alone.
pub open spec fn is_private_file(facts: FileFacts) -> bool {
    facts.regular && permission_bits(facts.mode) == 0o600
}

fn private_file(facts: &FileFacts) -> (private: bool)
    ensures
        private == is_private_file(*facts),
{
    facts.regular && (facts.mode & 0o7777u32) == 0o600
}

// ---------------------------------------------------------------------------
// Sparse files
// ---------------------------------------------------------------------------

pub open spec fn sparse_fault(
    role: Seq<char>,
    facts: FileFacts,
    size: u64,
    reason: Seq<char>,
) -> Option<HostBuildFault> {
    if !is_private_file(facts) || facts.length != size {
        Some(invalid_build(role, reason))
    } else {
        None
    }
}

/// Refuses a new scratch filesystem that is not exactly the file asked for.
pub fn check_sparse_file(role: &'static str, facts: &FileFacts, size: u64) -> (checked: Result<
    (),
    HostBuildError,
>)
    ensures
        build_fault(checked) == sparse_fault(
            role@,
            *facts,
            size,
            "new sparse ext4 is not an exact owner-only regular file"@,
        ),
{
    if !private_file(facts) || facts.length != size {
        return Err(
            HostBuildError::invalid(
                role,
                "new sparse ext4 is not an exact owner-only regular file",
            ),
        );
    }
    Ok(())
}

/// Refuses a new target filesystem that is not exactly the file asked for.
pub fn check_sparse_target(facts: &FileFacts, size: u64) -> (checked: Result<(), HostBuildError>)
    ensures
        build_fault(checked) == sparse_fault(
            "target"@,
            *facts,
            size,
            "new target ext4 is not an exact owner-only regular file"@,
        ),
{
    if !private_file(facts) || facts.length != size {
        return Err(
            HostBuildError::invalid(
                "target",
                "new target ext4 is not an exact owner-only regular file",
            ),
        );
    }
    Ok(())
}

pub open spec fn discard_fault(role: Seq<char>, facts: FileFacts) -> Option<HostBuildFault> {
    if !is_private_file(facts) {
        Some(invalid_build(role, "refusing to discard a substituted failed ext4 path"@))
    } else {
        None
    }
}

/// Refuses to discard anything but the private file of the failed attempt.
pub fn check_discard(role: &'static str, facts: &FileFacts) -> (checked: Result<(), HostBuildError>)
    ensures
        build_fault(checked) == discard_fault(role@, *facts),
{
    if !private_file(facts) {
        return Err(
            HostBuildError::invalid(role, "refusing to discard a substituted failed ext4 path"),
        );
    }
    Ok(())
}

/// A run of bytes that exist in a sparse file.
#[derive(Debug, Clone, Copy, PartialEq, Eq, Structural)]
pub struct DataRun {
    pub start: u64,
    pub end: u64,
}

/// The next run to copy of a sparse file, given where the next data begins and
/// where the hole after it begins, as far as there is one.
pub open spec fn next_run(length: u64, offset: u64, data: Option<u64>, hole: Option<u64>) -> Option<
    DataRun,
> {
    if offset >= length || data is None || data->Some_0 >= length {
        None
    } else {
        Some(
            DataRun {
                start: data->Some_0,
                end: if hole is Some && hole->Some_0 < length {
                    hole->Some_0
                } else {
                    length
                },
            },
        )
    }
}

/// Decides what to copy next of a sparse file. A base image is mostly hole, so
/// only what exists is copied; the rest of the copy stays a hole too.
pub fn next_data_run(length: u64, offset: u64, data: Option<u64>, hole: Option<u64>) -> (run:
    Option<DataRun>)
    ensures
        run == next_run(length, offset, data, hole),
{
    if offset >= length {
        return None;
    }
    match data {
        None => None,
        Some(start) => {
            if start >= length {
                return None;
            }
            let end: u64 = match hole {
                Some(hole) => if hole < length {
                    hole
                } else {
                    length
                },
                None => length,
            };
            Some(DataRun { start, end })
        },
    }
}

/// A copy of a sparse file comes to its end: when the file system answers with
/// data at or behind the offset and a hole behind the data, every run lies
/// within the file, behind the offset, and is not empty.
pub proof fn law_data_runs_advance(
    length: u64,
    offset: u64,
    data: Option<u64>,
    hole: Option<u64>,
)
    requires
        data matches Some(start) ==> offset <= start,
        hole matches Some(end) ==> data is Some && data->Some_0 < end,
        next_run(length, offset, data, hole) is Some,
    ensures
        offset <= next_run(length, offset, data, hole)->Some_0.start < next_run(
            length,
            offset,
            data,
            hole,
        )->Some_0.end <= length,
{
}

// ---------------------------------------------------------------------------
// The private cache of block identities
// ---------------------------------------------------------------------------

pub open spec fn blkid_fault(
    path: Seq<char>,
    canonical: Seq<char>,
    facts: FileFacts,
    effective_user: u32,
) -> Option<HostBuildFault> {
    if !same_location(canonical, path) || !is_private_file(facts) || facts.length != 0
        || facts.owner != effective_user {
        Some(
            invalid_build(
                "BLKID_FILE"@,
                "must be an exact, empty, owner-only regular file in the build operation"@,
            ),
        )
    } else {
        None
    }
}

/// Refuses a cache file that anything outside the build could have filled.
pub fn check_blkid_file(path: &str, canonical: &str, facts: &FileFacts, effective_user: u32) -> (checked:
    Result<(), HostBuildError>)
    ensures
        build_fault(checked) == blkid_fault(path@, canonical@, *facts, effective_user),
{
    if !same_path(canonical, path) || !private_file(facts) || facts.length != 0 || facts.owner
        != effective_user {
        return Err(
            HostBuildError::invalid(
                "BLKID_FILE",
                "must be an exact, empty, owner-only regular file in the build operation",
            ),
        );
    }
    Ok(())
}

// ---------------------------------------------------------------------------
// Private copies of a profile's guests
// ---------------------------------------------------------------------------

/// A digest and a size, as a mismatch spells them.
pub open spec fn digest_and_size(digest: Seq<u8>, size: u64) -> Seq<char> {
    digest_text(digest) + ":"@ + decimal(size as nat)
}

pub open spec fn initramfs_fault(
    role: Seq<char>,
    evidence: Seq<char>,
    expected: ArtifactSpec,
    digest: Seq<u8>,
    size: u64,
    mode: u32,
) -> Option<HostBuildFault> {
    if digest != expected.sha256@ || size != expected.size {
        Some(
            evidence_mismatch(
                evidence,
                digest_and_size(expected.sha256@, expected.size),
                digest_and_size(digest, size),
            ),
        )
    } else if permission_bits(mode) != 0o400 {
        Some(invalid_build(role, "private initramfs alias is not mode 0400"@))
    } else {
        None
    }
}

/// Refuses a private copy that is not byte for byte the profile's artifact.
pub fn check_initramfs_copy(
    role: &'static str,
    evidence: &'static str,
    expected: &ArtifactSpec,
    digest: ArtifactDigest,
    size: u64,
    mode: u32,
) -> (checked: Result<(), HostBuildError>)
    ensures
        build_fault(checked) == initramfs_fault(
            role@,
            evidence@,
            *expected,
            digest@,
            size,
            mode,
        ),
{
    if !digest.same(expected.sha256) || size != expected.size {
        return Err(
            mismatch_error(
                evidence,
                &join3(&expected.sha256.to_text(), ":", &decimal_text(expected.size)),
                &join3(&digest.to_text(), ":", &decimal_text(size)),
            ),
        );
    }
    if (mode & 0o7777u32) != 0o400 {
        return Err(HostBuildError::invalid(role, "private initramfs alias is not mode 0400"));
    }
    Ok(())
}

// ---------------------------------------------------------------------------
// Directories
// ---------------------------------------------------------------------------

pub open spec fn builder_root_fault(
    path: Seq<char>,
    canonical: Seq<char>,
    facts: FileFacts,
    effective_user: u32,
) -> Option<HostBuildFault> {
    if !same_location(canonical, path) || !facts.directory {
        Some(
            invalid_build("runtime_root"@, "must be an exact non-symlink directory path"@),
        )
    } else if facts.owner != effective_user || (facts.mode & 0o777u32) != 0o700 {
        Some(
            invalid_build(
                "runtime_root"@,
                "must be owned by the effective user with mode 0700"@,
            ),
        )
    } else {
        None
    }
}

/// Refuses a builder root that is not the caller's own private directory.
pub fn check_builder_root(
    path: &str,
    canonical: &str,
    facts: &FileFacts,
    effective_user: u32,
) -> (checked: Result<(), HostBuildError>)
    ensures
        build_fault(checked) == builder_root_fault(path@, canonical@, *facts, effective_user),
{
    if !same_path(canonical, path) || !facts.directory {
        return Err(
            HostBuildError::invalid("runtime_root", "must be an exact non-symlink directory path"),
        );
    }
    if facts.owner != effective_user || (facts.mode & 0o777u32) != 0o700 {
        return Err(
            HostBuildError::invalid(
                "runtime_root",
                "must be owned by the effective user with mode 0700",
            ),
        );
    }
    Ok(())
}

/// A directory that a build owns: where it is and which one it is.
#[derive(Debug)]
pub struct OwnedDirectory {
    pub root: String,
    pub name: String,
    pub device: u64,
    pub inode: u64,
}

pub open spec fn directory_path(directory: OwnedDirectory) -> Seq<char> {
    joined(directory.root@, directory.name@)
}

/// Whether a directory is still the one that was created.
pub open spec fn is_same_directory(directory: OwnedDirectory, facts: FileFacts) -> bool {
    facts.directory && facts.device == directory.device && facts.inode == directory.inode
}

pub open spec fn cleanup_fault(directory: OwnedDirectory, facts: FileFacts) -> Option<
    HostBuildFault,
> {
    if !is_child(directory_path(directory), directory.root@) {
        Some(invalid_build("cleanup"@, "owned build directory escaped its root"@))
    } else if !is_same_directory(directory, facts) {
        Some(invalid_build("cleanup"@, "build directory identity changed"@))
    } else {
        None
    }
}

impl OwnedDirectory {
    pub fn path(&self) -> (path: String)
        ensures
            path@ == directory_path(*self),
    {
        join_path(&self.root, &self.name)
    }

    /// Whether what is there now is the directory that was created.
    pub fn is_same(&self, facts: &FileFacts) -> (same: bool)
        ensures
            same == is_same_directory(*self, *facts),
    {
        facts.directory && facts.device == self.device && facts.inode == self.inode
    }

    /// Refuses to remove another directory than the one that was created.
    pub fn check_cleanup(&self, facts: &FileFacts) -> (checked: Result<(), HostBuildError>)
        ensures
            build_fault(checked) == cleanup_fault(*self, *facts),
    {
        if !child_of(&self.path(), &self.root) {
            return Err(
                HostBuildError::invalid("cleanup", "owned build directory escaped its root"),
            );
        }
        if !self.is_same(facts) {
            return Err(HostBuildError::invalid("cleanup", "build directory identity changed"));
        }
        Ok(())
    }
}

/// Whether paths are the private ones of a build directory.
pub open spec fn are_paths_of(paths: BuildPaths, path: Seq<char>, name: Seq<char>) -> bool {
    &&& paths.uml_dir@ == joined(path, "uml"@)
    &&& paths.tmp_dir@ == joined(path, "tmp"@)
    &&& paths.blkid_file@ == joined(joined(path, "tmp"@), "blkid.tab"@)
    &&& paths.payload@ == joined(path, "oci-payload.ext4"@)
    &&& paths.initramfs@ == joined(path, "builder-initramfs.cpio"@)
    &&& paths.validator_initramfs@ == joined(path, "validator-initramfs.cpio"@)
    &&& paths.umid@ == name
    &&& paths.validator_umid@ == name + "-v"@
}

pub open spec fn build_name_fault(name: Seq<char>, max_umid_bytes: u16) -> Option<HostBuildFault> {
    if byte_count(name + "-v"@) > max_umid_bytes {
        Some(
            invalid_build(
                "build_id"@,
                "generated name exceeds the profile UML identifier cap"@,
            ),
        )
    } else {
        None
    }
}

/// The private paths of a build, whose name must fit the profile's identifier
/// cap even with the validator's suffix.
pub fn build_paths(directory: &OwnedDirectory, max_umid_bytes: u16) -> (paths: Result<
    BuildPaths,
    HostBuildError,
>)
    ensures
        match paths {
            Ok(paths) => build_name_fault(directory.name@, max_umid_bytes) is None && are_paths_of(
                paths,
                directory_path(*directory),
                directory.name@,
            ),
            Err(error) => build_name_fault(directory.name@, max_umid_bytes) == Some(error@),
        },
{
    let path = directory.path();
    let validator_umid = join(&directory.name, "-v");
    if byte_len(&validator_umid) > max_umid_bytes as usize {
        return Err(
            HostBuildError::invalid(
                "build_id",
                "generated name exceeds the profile UML identifier cap",
            ),
        );
    }
    let tmp_dir = join_path(&path, "tmp");
    let blkid_file = join_path(&tmp_dir, "blkid.tab");
    Ok(
        BuildPaths {
            uml_dir: join_path(&path, "uml"),
            tmp_dir,
            blkid_file,
            payload: join_path(&path, "oci-payload.ext4"),
            initramfs: join_path(&path, "builder-initramfs.cpio"),
            validator_initramfs: join_path(&path, "validator-initramfs.cpio"),
            umid: directory.name.clone(),
            validator_umid,
        },
    )
}

// ---------------------------------------------------------------------------
// Account evidence and artifacts
// ---------------------------------------------------------------------------

pub open spec fn account_file_fault(facts: FileFacts, maximum: u64) -> Option<HostBuildFault> {
    if !facts.regular || facts.length > maximum {
        Some(
            invalid_build(
                "accounts.cbor"@,
                "account evidence is not a bounded regular file"@,
            ),
        )
    } else {
        None
    }
}

/// Refuses an account database that is not a bounded regular file.
pub fn check_account_file(facts: &FileFacts, maximum: u64) -> (checked: Result<(), HostBuildError>)
    ensures
        build_fault(checked) == account_file_fault(*facts, maximum),
{
    if !facts.regular || facts.length > maximum {
        return Err(
            HostBuildError::invalid(
                "accounts.cbor",
                "account evidence is not a bounded regular file",
            ),
        );
    }
    Ok(())
}

/// Why an account database of which `read` bytes were read is refused, if it
/// is.
pub open spec fn account_read_fault(facts: FileFacts, maximum: u64, read: u64) -> Option<
    HostBuildFault,
> {
    if read > maximum || read != facts.length {
        Some(
            invalid_build(
                "accounts.cbor"@,
                "account evidence changed or exceeds its hard cap"@,
            ),
        )
    } else {
        None
    }
}

/// Refuses an account database that changed while it was read, before anything
/// decodes it.
pub fn check_account_read(facts: &FileFacts, maximum: u64, read: u64) -> (checked: Result<
    (),
    HostBuildError,
>)
    ensures
        build_fault(checked) == account_read_fault(*facts, maximum, read),
{
    if read > maximum || read != facts.length {
        return Err(
            HostBuildError::invalid(
                "accounts.cbor",
                "account evidence changed or exceeds its hard cap",
            ),
        );
    }
    Ok(())
}

/// Refuses a decoded account database that is not the one the builder
/// reported.
pub fn check_account_digest(reported: &str, digest: &str) -> (checked: Result<(), HostBuildError>)
    ensures
        build_fault(checked) == evidence_fault("validator_account_db_sha256"@, reported@, digest@),
{
    if !same_text(reported, digest) {
        return Err(mismatch_error("validator_account_db_sha256", reported, digest));
    }
    Ok(())
}

pub open spec fn artifact_open_fault(
    path: Seq<char>,
    named: FileFacts,
    opened: FileFacts,
) -> Option<HostBuildFault> {
    if !named.regular {
        Some(invalid_build("artifact"@, path + " is not a regular file"@))
    } else if opened.device != named.device || opened.inode != named.inode {
        Some(invalid_build("artifact"@, path + " changed while opening"@))
    } else {
        None
    }
}

/// Refuses to hash a file that is not regular or not the one that was named.
pub fn check_artifact_open(path: &str, named: &FileFacts, opened: &FileFacts) -> (checked: Result<
    (),
    HostBuildError,
>)
    ensures
        build_fault(checked) == artifact_open_fault(path@, *named, *opened),
{
    if !named.regular {
        return Err(HostBuildError::invalid("artifact", &join(path, " is not a regular file")));
    }
    if opened.device != named.device || opened.inode != named.inode {
        return Err(HostBuildError::invalid("artifact", &join(path, " changed while opening")));
    }
    Ok(())
}

/// Why one more piece of an artifact is refused, if it is.
pub open spec fn artifact_chunk_fault(read: nat, more: nat) -> Option<HostBuildFault> {
    if read + more > u64::MAX {
        Some(invalid_build("artifact"@, "size overflow"@))
    } else {
        None
    }
}

/// Hashes and counts one more piece of an artifact.
pub fn hash_chunk(read: &mut FileDigest, chunk: &[u8]) -> (counted: Result<(), HostBuildError>)
    ensures
        build_fault(counted) == artifact_chunk_fault(old(read).bytes().len(), chunk@.len()),
        counted is Ok ==> final(read).bytes() == old(read).bytes() + chunk@,
        counted is Err ==> final(read).bytes() == old(read).bytes(),
{
    if !read.accept(chunk) {
        return Err(HostBuildError::invalid("artifact", "size overflow"));
    }
    Ok(())
}

/// Only a file that is regular and private to its owner is ever discarded, and
/// only the directory that a build created, one component below its root, is
/// ever removed.
pub proof fn law_only_owned_files_are_removed(
    role: Seq<char>,
    facts: FileFacts,
    directory: OwnedDirectory,
)
    ensures
        discard_fault(role, facts) is None ==> facts.regular && permission_bits(facts.mode)
            == 0o600,
        cleanup_fault(directory, facts) is None ==> is_child(
            directory_path(directory),
            directory.root@,
        ) && facts.directory && facts.device == directory.device && facts.inode == directory.inode,
{
}

/// A new image file is private and has its size to the byte.
pub proof fn law_new_image_is_exact(
    role: &'static str,
    facts: FileFacts,
    size: u64,
    checked: Result<(), HostBuildError>,
)
    requires
        call_ensures(check_sparse_file, (role, &facts, size), checked),
    ensures
        checked is Ok <==> facts.regular && facts.mode & 0xfffu32 == 0x180 && facts.length == size,
{
}

/// So is a new target.
pub proof fn law_new_target_is_exact(
    facts: FileFacts,
    size: u64,
    checked: Result<(), HostBuildError>,
)
    requires
        call_ensures(check_sparse_target, (&facts, size), checked),
    ensures
        checked is Ok <==> facts.regular && facts.mode & 0xfffu32 == 0x180 && facts.length == size,
{
}

/// Only a private file is discarded.
pub proof fn law_discarded_file_is_private(
    role: &'static str,
    facts: FileFacts,
    checked: Result<(), HostBuildError>,
)
    requires
        call_ensures(check_discard, (role, &facts), checked),
    ensures
        checked is Ok <==> facts.regular && facts.mode & 0xfffu32 == 0x180,
{
}

/// The device cache is an empty private file of the user, given by its own path.
pub proof fn law_device_cache_is_empty(
    path: &str,
    canonical: &str,
    facts: FileFacts,
    effective_user: u32,
    checked: Result<(), HostBuildError>,
)
    requires
        call_ensures(check_blkid_file, (path, canonical, &facts, effective_user), checked),
    ensures
        checked is Ok <==> same_location(canonical@, path@) && facts.regular && facts.mode & 0xfffu32 == 0x180
            && facts.length == 0 && facts.owner == effective_user,
{
}

/// A copied initial filesystem is the one of the profile, readable by its owner
/// alone.
pub proof fn law_copied_initramfs_is_the_profiles(
    role: &'static str,
    evidence: &'static str,
    expected: ArtifactSpec,
    digest: ArtifactDigest,
    size: u64,
    mode: u32,
    checked: Result<(), HostBuildError>,
)
    requires
        call_ensures(check_initramfs_copy, (role, evidence, &expected, digest, size, mode), checked),
    ensures
        checked is Ok <==> digest@ == expected.sha256@ && size == expected.size && mode & 0xfffu32 == 0x100,
{
}

/// The root of builds is a private directory of the user, given by its own path.
pub proof fn law_build_root_is_private(
    path: &str,
    canonical: &str,
    facts: FileFacts,
    effective_user: u32,
    checked: Result<(), HostBuildError>,
)
    requires
        call_ensures(check_builder_root, (path, canonical, &facts, effective_user), checked),
    ensures
        checked is Ok <==> same_location(canonical@, path@) && facts.directory && facts.owner == effective_user
            && facts.mode & 0x1ffu32 == 0x1c0,
{
}

/// A directory is removed exactly where it lies in its root and is the one that
/// was made.
pub proof fn law_cleanup_needs_the_same_directory(
    directory: OwnedDirectory,
    facts: FileFacts,
    checked: Result<(), HostBuildError>,
)
    requires
        call_ensures(OwnedDirectory::check_cleanup, (&directory, &facts), checked),
    ensures
        checked is Ok <==> is_child(joined(directory.root@, directory.name@), directory.root@)
            && facts.directory && facts.device == directory.device && facts.inode
            == directory.inode,
{
}

/// Accounts are read from a regular file within the limit.
pub proof fn law_account_file_is_bounded(
    facts: FileFacts,
    maximum: u64,
    checked: Result<(), HostBuildError>,
)
    requires
        call_ensures(check_account_file, (&facts, maximum), checked),
    ensures
        checked is Ok <==> facts.regular && facts.length <= maximum,
{
}

/// They are read whole.
pub proof fn law_accounts_are_read_whole(
    facts: FileFacts,
    maximum: u64,
    read: u64,
    checked: Result<(), HostBuildError>,
)
    requires
        call_ensures(check_account_read, (&facts, maximum, read), checked),
    ensures
        checked is Ok <==> read == facts.length && read <= maximum,
{
}

/// They are the reported ones.
pub proof fn law_accounts_are_the_reported_ones(
    reported: &str,
    digest: &str,
    checked: Result<(), HostBuildError>,
)
    requires
        call_ensures(check_account_digest, (reported, digest), checked),
    ensures
        checked is Ok <==> reported@ == digest@,
{
}

/// An artifact is a regular file and is still the same when it is open.
pub proof fn law_opened_artifact_is_the_named_one(
    path: &str,
    named: FileFacts,
    opened: FileFacts,
    checked: Result<(), HostBuildError>,
)
    requires
        call_ensures(check_artifact_open, (path, &named, &opened), checked),
    ensures
        checked is Ok <==> named.regular && opened.device == named.device && opened.inode == named.inode,
{
}

/// A run of data begins where data is found and ends at the next hole, or at the
/// end of the file; there is none at or behind the end.
pub proof fn law_data_run_ends_at_the_hole(
    length: u64,
    offset: u64,
    data: Option<u64>,
    hole: Option<u64>,
    run: Option<DataRun>,
)
    requires
        call_ensures(next_data_run, (length, offset, data, hole), run),
    ensures
        run is Some <==> offset < length && (data matches Some(start) && start < length),
        run matches Some(run) ==> {
            &&& data == Some(run.start)
            &&& hole is None ==> run.end == length
            &&& hole matches Some(end) ==> run.end == if end < length {
                end
            } else {
                length
            }
        },
{
}

/// Everything of a build lies in its own directory; the validator's machine has
/// the build's name with `-v` behind it, and both names fit the limit.
pub proof fn law_build_keeps_to_its_directory(
    directory: OwnedDirectory,
    max_umid_bytes: u16,
    paths: Result<BuildPaths, HostBuildError>,
)
    requires
        call_ensures(build_paths, (&directory, max_umid_bytes), paths),
    ensures
        paths is Ok <==> byte_count(directory.name@ + "-v"@) <= max_umid_bytes,
        paths matches Ok(paths) ==> {
            let home = joined(directory.root@, directory.name@);
            &&& paths.uml_dir@ == joined(home, "uml"@)
            &&& paths.tmp_dir@ == joined(home, "tmp"@)
            &&& paths.blkid_file@ == joined(joined(home, "tmp"@), "blkid.tab"@)
            &&& paths.payload@ == joined(home, "oci-payload.ext4"@)
            &&& paths.initramfs@ == joined(home, "builder-initramfs.cpio"@)
            &&& paths.validator_initramfs@ == joined(home, "validator-initramfs.cpio"@)
            &&& paths.umid@ == directory.name@
            &&& paths.validator_umid@ == directory.name@ + "-v"@
        },
{
}

/// A file is hashed as far as it was read.
pub proof fn law_file_is_hashed_as_it_is_read(
    read: &mut FileDigest,
    chunk: &[u8],
    counted: Result<(), HostBuildError>,
)
    requires
        call_ensures(hash_chunk, (read, chunk), counted),
    ensures
        counted is Ok <==> old(read).bytes().len() + chunk@.len() <= u64::MAX,
        counted is Ok ==> final(read).bytes() == old(read).bytes() + chunk@,
        counted is Err ==> final(read).bytes() == old(read).bytes(),
{
}

} // verus!
