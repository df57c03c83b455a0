//! The filesystem manifest that a builder streams, and the layout it must have.

use std::cmp::Ordering;

use vstd::prelude::*;
use vstd::utf8::*;

use crate::bytes::{be_u32, big_endian, copy_between};
use crate::digest::{hex_of, hex_text, same_bytes};
use crate::error::{build_fault, invalid_build, HostBuildError, HostBuildFault};
use crate::oci_export::{rootfs_prefix, ManifestEntry, KIND_DIRECTORY, KIND_FILE};
use crate::order::{bytes_before, is_bytes_before, law_byte_order_is_strict_and_total};
use crate::text::{decimal, decimal_text, join, join3};

verus! {

/// Most bytes of a path that a diagnostic shows.
pub const MAXIMUM_DIAGNOSTIC_BYTES: usize = 128;

/// `/` as a byte.
pub const SEPARATOR: u8 = 47;

// ---------------------------------------------------------------------------
// The order of a depth-first walk
// ---------------------------------------------------------------------------

/// The components of a path: the pieces between separators.
pub open spec fn path_parts(path: Seq<u8>) -> Seq<Seq<u8>>
    decreases path.len(),
{
    if path.contains(SEPARATOR) {
        proof {
            path.index_of_first_ensures(SEPARATOR);
        }
        let at = path.index_of_first(SEPARATOR).unwrap();
        seq![path.take(at)] + path_parts(path.skip(at + 1))
    } else {
        seq![path]
    }
}

/// Whether one list of components comes strictly before another: the first
/// difference decides bytewise, and a list precedes every longer one that it
/// starts.
pub open spec fn parts_before(left: Seq<Seq<u8>>, right: Seq<Seq<u8>>) -> bool
    decreases left.len(),
{
    if right.len() == 0 {
        false
    } else if left.len() == 0 {
        true
    } else if left[0] == right[0] {
        parts_before(left.skip(1), right.skip(1))
    } else {
        bytes_before(left[0], right[0])
    }
}

/// Whether one path comes strictly before another in a depth-first walk.
pub open spec fn walks_before(left: Seq<u8>, right: Seq<u8>) -> bool {
    parts_before(path_parts(left), path_parts(right))
}

pub open spec fn part_bytes(parts: Seq<Vec<u8>>) -> Seq<Seq<u8>> {
    Seq::new(parts.len(), |i: int| parts[i]@)
}

/// Splits a path at every separator.
fn split_path(path: &[u8]) -> (parts: Vec<Vec<u8>>)
    ensures
        part_bytes(parts@) == path_parts(path@),
{
    let mut parts: Vec<Vec<u8>> = Vec::new();
    let mut start: usize = 0;
    let ghost whole = path_parts(path@);
    assert(path@.skip(0) =~= path@);
    assert(part_bytes(parts@) + path_parts(path@.skip(0)) =~= whole);
    loop
        invariant
            start <= path@.len(),
            whole == path_parts(path@),
            part_bytes(parts@) + path_parts(path@.skip(start as int)) == whole,
        decreases path@.len() - start,
    {
        let ghost rest = path@.skip(start as int);
        let mut end: usize = start;
        while end < path.len() && path[end] != SEPARATOR
            invariant
                start <= end <= path@.len(),
                rest == path@.skip(start as int),
                forall|j: int| 0 <= j < end - start ==> rest[j] != SEPARATOR,
            decreases path@.len() - end,
        {
            assert(rest[end - start] == path@[end as int]);
            end += 1;
        }
        let ghost before = part_bytes(parts@);
        let part = copy_between(path, start, end);
        assert(part@ =~= rest.take(end - start));
        parts.push(part);
        assert(part_bytes(parts@) =~= before.push(rest.take(end - start)));
        if end == path.len() {
            assert(!rest.contains(SEPARATOR));
            assert(rest.take(end - start) =~= rest);
            assert(part_bytes(parts@) =~= whole);
            return parts;
        }
        proof {
            rest.index_of_first_ensures(SEPARATOR);
            assert(rest[end - start] == SEPARATOR);
            assert(rest.contains(SEPARATOR));
            assert(rest.index_of_first(SEPARATOR) == Some(end - start));
            assert(rest.skip(end - start + 1) =~= path@.skip(end + 1));
            assert(path_parts(rest) == seq![rest.take(end - start)] + path_parts(
                path@.skip(end + 1),
            ));
            assert(part_bytes(parts@) + path_parts(path@.skip(end + 1)) =~= whole);
        }
        start = end + 1;
    }
}

/// Whether one path comes strictly before another in a depth-first walk.
pub fn is_walked_before(left: &[u8], right: &[u8]) -> (before: bool)
    ensures
        before == walks_before(left@, right@),
{
    let a = split_path(left);
    let b = split_path(right);
    let ghost left_parts = part_bytes(a@);
    let ghost right_parts = part_bytes(b@);
    let mut i: usize = 0;
    assert(left_parts.skip(0) =~= left_parts);
    assert(right_parts.skip(0) =~= right_parts);
    while i < a.len() && i < b.len()
        invariant
            i <= a@.len(),
            i <= b@.len(),
            left_parts == part_bytes(a@),
            right_parts == part_bytes(b@),
            left_parts == path_parts(left@),
            right_parts == path_parts(right@),
            parts_before(left_parts, right_parts) == parts_before(
                left_parts.skip(i as int),
                right_parts.skip(i as int),
            ),
        decreases a@.len() - i,
    {
        proof {
            assert(left_parts.skip(i as int)[0] == a@[i as int]@);
            assert(right_parts.skip(i as int)[0] == b@[i as int]@);
            assert(left_parts.skip(i as int).skip(1) =~= left_parts.skip(i + 1));
            assert(right_parts.skip(i as int).skip(1) =~= right_parts.skip(i + 1));
        }
        if !same_bytes(&a[i], &b[i]) {
            return is_bytes_before(&a[i], &b[i]);
        }
        i += 1;
    }
    i < b.len()
}

/// Where a path stands to another in a depth-first walk.
pub open spec fn path_order(left: Seq<u8>, right: Seq<u8>) -> Ordering {
    if left == right {
        Ordering::Equal
    } else if walks_before(left, right) {
        Ordering::Less
    } else {
        Ordering::Greater
    }
}

/// Compare normalized relative paths in the canonical order emitted by the
/// bounded guest walker: components are bytewise lexicographic and a parent
/// precedes all of its descendants. Raw whole-path comparison is wrong for
/// this stream because `dir/child` may compare after a sibling such as
/// `dir.ext`, even though a depth-first walker must finish `dir/` first.
pub fn manifest_path_order(left: &[u8], right: &[u8]) -> (order: Ordering)
    ensures
        order == path_order(left@, right@),
{
    if same_bytes(left, right) {
        Ordering::Equal
    } else if is_walked_before(left, right) {
        Ordering::Less
    } else {
        Ordering::Greater
    }
}

// ---------------------------------------------------------------------------
// Diagnostics
// ---------------------------------------------------------------------------

/// A path as bounded hexadecimal.
pub open spec fn path_diagnostic(path: Seq<u8>) -> Seq<char> {
    if path.len() > MAXIMUM_DIAGNOSTIC_BYTES {
        "hex:"@ + hex_of(path.take(MAXIMUM_DIAGNOSTIC_BYTES as int)) + ("...(+"@ + decimal(
            (path.len() - MAXIMUM_DIAGNOSTIC_BYTES) as nat,
        ) + " bytes)"@)
    } else {
        "hex:"@ + hex_of(path) + ""@
    }
}

pub fn manifest_path_diagnostic(path: &[u8]) -> (text: String)
    ensures
        text@ == path_diagnostic(path@),
{
    if path.len() > MAXIMUM_DIAGNOSTIC_BYTES {
        let prefix = copy_between(path, 0, MAXIMUM_DIAGNOSTIC_BYTES);
        assert(prefix@ =~= path@.take(MAXIMUM_DIAGNOSTIC_BYTES as int));
        let more: usize = path.len() - MAXIMUM_DIAGNOSTIC_BYTES;
        let suffix = join3("...(+", &decimal_text(more as u64), " bytes)");
        join3("hex:", &hex_text(&prefix), &suffix)
    } else {
        join3("hex:", &hex_text(path), "")
    }
}

// ---------------------------------------------------------------------------
// The layout
// ---------------------------------------------------------------------------

/// `.pocket-generation.cbor`.
pub open spec fn marker_name() -> Seq<u8> {
    seq![
        46u8, 112u8, 111u8, 99u8, 107u8, 101u8, 116u8, 45u8, 103u8, 101u8, 110u8, 101u8, 114u8,
        97u8, 116u8, 105u8, 111u8, 110u8, 46u8, 99u8, 98u8, 111u8, 114u8,
    ]
}

/// `rootfs`.
pub open spec fn rootfs_name() -> Seq<u8> {
    seq![114u8, 111u8, 111u8, 116u8, 102u8, 115u8]
}

/// What the verifier knows of the entries so far.
pub struct TreeState {
    pub previous: Option<Seq<u8>>,
    pub saw_root: bool,
    pub saw_rootfs: bool,
    pub marker: Option<Seq<char>>,
}

pub open spec fn tree_refused(reason: Seq<char>) -> HostBuildFault {
    invalid_build("metadata.manifest"@, reason)
}

/// Whether a path lies below `rootfs/`.
pub open spec fn is_below_rootfs(path: Seq<u8>) -> bool {
    path.len() >= 7 && path.take(7) == rootfs_prefix()
}

/// The state after one more entry.
pub open spec fn tree_step(state: TreeState, entry: ManifestEntry) -> Result<
    TreeState,
    HostBuildFault,
> {
    let path = entry.path@;
    if state.previous is Some && !walks_before(state.previous->Some_0, path) {
        Err(
            tree_refused(
                "paths are not strictly increasing: "@ + path_diagnostic(state.previous->Some_0)
                    + " then "@ + path_diagnostic(path),
            ),
        )
    } else if path.len() == 0 {
        if state.saw_root || entry.kind != KIND_DIRECTORY {
            Err(tree_refused("root entry is duplicated or not a directory"@))
        } else {
            Ok(TreeState { saw_root: true, previous: Some(path), ..state })
        }
    } else if path == marker_name() {
        if entry.kind != KIND_FILE || state.marker is Some {
            Err(tree_refused("generation marker is duplicated or not a regular file"@))
        } else {
            Ok(
                TreeState {
                    marker: match entry.content_sha256 {
                        Some(digest) => Some(hex_of(digest@)),
                        None => None,
                    },
                    previous: Some(path),
                    ..state
                },
            )
        }
    } else if path == rootfs_name() {
        if state.saw_rootfs || entry.kind != KIND_DIRECTORY {
            Err(tree_refused("rootfs entry is duplicated or not a directory"@))
        } else {
            Ok(TreeState { saw_rootfs: true, previous: Some(path), ..state })
        }
    } else if !is_below_rootfs(path) {
        Err(tree_refused("entry escapes the rootfs plus marker layout"@))
    } else {
        Ok(TreeState { previous: Some(path), ..state })
    }
}

pub open spec fn start_state() -> TreeState {
    TreeState { previous: None, saw_root: false, saw_rootfs: false, marker: None }
}

/// Why a finished manifest is refused, if it is.
pub open spec fn tree_fault(state: TreeState) -> Option<HostBuildFault> {
    if !state.saw_root || !state.saw_rootfs || state.marker is None {
        Some(tree_refused("missing root, rootfs, or generation marker evidence"@))
    } else {
        None
    }
}

/// Checks a manifest entry by entry.
#[derive(Debug)]
pub struct ManifestStructuralVerifier {
    previous_path: Option<Vec<u8>>,
    saw_root: bool,
    saw_rootfs: bool,
    marker_digest: Option<String>,
}

impl View for ManifestStructuralVerifier {
    type V = TreeState;

    closed spec fn view(&self) -> TreeState {
        TreeState {
            previous: match self.previous_path {
                Some(path) => Some(path@),
                None => None,
            },
            saw_root: self.saw_root,
            saw_rootfs: self.saw_rootfs,
            marker: match self.marker_digest {
                Some(digest) => Some(digest@),
                None => None,
            },
        }
    }
}

impl Default for ManifestStructuralVerifier {
    fn default() -> (verifier: ManifestStructuralVerifier)
        ensures
            verifier@ == start_state(),
    {
        ManifestStructuralVerifier {
            previous_path: None,
            saw_root: false,
            saw_rootfs: false,
            marker_digest: None,
        }
    }
}

/// Where the next entry of a chunk lies.
pub open spec fn chunk_step(bytes: Seq<u8>, offset: int) -> Result<
    Option<(int, int)>,
    HostBuildFault,
> {
    let length = big_endian(bytes, offset, 4);
    if offset >= bytes.len() {
        Ok(None)
    } else if bytes.len() - offset < 4 {
        Err(tree_refused("truncated entry length"@))
    } else if bytes.len() - offset - 4 < length {
        Err(tree_refused("truncated entry"@))
    } else {
        Ok(Some((offset + 4, offset + 4 + length)))
    }
}

fn refused(reason: &str) -> (error: HostBuildError)
    ensures
        error@ == tree_refused(reason@),
{
    HostBuildError::invalid("metadata.manifest", reason)
}

/// Finds the next entry of a chunk: four bytes of big-endian length, then the
/// entry.
pub fn next_chunk_entry(bytes: &[u8], offset: usize) -> (range: Result<
    Option<(usize, usize)>,
    HostBuildError,
>)
    requires
        offset <= bytes@.len(),
    ensures
        match range {
            Ok(None) => chunk_step(bytes@, offset as int) == Ok::<_, HostBuildFault>(
                None::<(int, int)>,
            ),
            Ok(Some((start, end))) => chunk_step(bytes@, offset as int) == Ok::<_, HostBuildFault>(
                Some((start as int, end as int)),
            ) && offset < start <= end <= bytes@.len(),
            Err(error) => chunk_step(bytes@, offset as int) == Err::<Option<(int, int)>, _>(error@),
        },
{
    if offset >= bytes.len() {
        return Ok(None);
    }
    if bytes.len() - offset < 4 {
        return Err(refused("truncated entry length"));
    }
    let length: u32 = be_u32(bytes, offset);
    let start: usize = offset + 4;
    if bytes.len() - start < length as usize {
        return Err(refused("truncated entry"));
    }
    Ok(Some((start, start + length as usize)))
}

impl ManifestStructuralVerifier {
    /// Checks the next entry. A refused entry leaves the verifier as it was.
    pub fn accept_entry(&mut self, entry: &ManifestEntry) -> (accepted: Result<(), HostBuildError>)
        requires
            entry.content_sha256 matches Some(digest) ==> 2 * digest@.len() <= isize::MAX,
        ensures
            match accepted {
                Ok(()) => tree_step(old(self)@, *entry) == Ok::<_, HostBuildFault>(final(self)@),
                Err(error) => tree_step(old(self)@, *entry) == Err::<TreeState, _>(error@)
                    && final(self)@ == old(self)@,
            },
    {
        if let Some(previous) = &self.previous_path {
            if !is_walked_before(previous, &entry.path) {
                let first = join3(
                    "paths are not strictly increasing: ",
                    &manifest_path_diagnostic(previous),
                    " then ",
                );
                return Err(refused(&join(&first, &manifest_path_diagnostic(&entry.path))));
            }
        }
        let marker: Vec<u8> = vec![
            46u8, 112u8, 111u8, 99u8, 107u8, 101u8, 116u8, 45u8, 103u8, 101u8, 110u8, 101u8, 114u8,
            97u8, 116u8, 105u8, 111u8, 110u8, 46u8, 99u8, 98u8, 111u8, 114u8,
        ];
        let rootfs: Vec<u8> = vec![114u8, 111u8, 111u8, 116u8, 102u8, 115u8];
        assert(marker@ =~= marker_name());
        assert(rootfs@ =~= rootfs_name());
        if entry.path.len() == 0 {
            if self.saw_root || entry.kind != KIND_DIRECTORY {
                return Err(refused("root entry is duplicated or not a directory"));
            }
            self.saw_root = true;
        } else if same_bytes(&entry.path, &marker) {
            if entry.kind != KIND_FILE || self.marker_digest.is_some() {
                return Err(refused("generation marker is duplicated or not a regular file"));
            }
            self.marker_digest = match &entry.content_sha256 {
                Some(digest) => Some(hex_text(digest)),
                None => None,
            };
        } else if same_bytes(&entry.path, &rootfs) {
            if self.saw_rootfs || entry.kind != KIND_DIRECTORY {
                return Err(refused("rootfs entry is duplicated or not a directory"));
            }
            self.saw_rootfs = true;
        } else if !below_rootfs(&entry.path) {
            return Err(refused("entry escapes the rootfs plus marker layout"));
        }
        let copy = copy_between(&entry.path, 0, entry.path.len());
        assert(copy@ =~= entry.path@);
        self.previous_path = Some(copy);
        Ok(())
    }

    /// The digest of the generation marker.
    pub fn marker_sha256(&self) -> (digest: Result<String, HostBuildError>)
        ensures
            match digest {
                Ok(digest) => self@.marker == Some(digest@),
                Err(error) => self@.marker is None && error@ == tree_refused(
                    "missing generation marker digest"@,
                ),
            },
    {
        match &self.marker_digest {
            Some(digest) => Ok(digest.clone()),
            None => Err(refused("missing generation marker digest")),
        }
    }

    /// Refuses a manifest without a root, a `rootfs` or a generation marker.
    pub fn finish(&self) -> (finished: Result<(), HostBuildError>)
        ensures
            build_fault(finished) == tree_fault(self@),
    {
        if !self.saw_root || !self.saw_rootfs || self.marker_digest.is_none() {
            return Err(refused("missing root, rootfs, or generation marker evidence"));
        }
        Ok(())
    }
}

fn below_rootfs(path: &[u8]) -> (below: bool)
    ensures
        below == is_below_rootfs(path@),
{
    if path.len() < 7 {
        return false;
    }
    let head = copy_between(path, 0, 7);
    let prefix: Vec<u8> = vec![114u8, 111u8, 111u8, 116u8, 102u8, 115u8, 47u8];
    assert(head@ =~= path@.take(7));
    assert(prefix@ =~= rootfs_prefix());
    same_bytes(&head, &prefix)
}

// ---------------------------------------------------------------------------
// Laws
// ---------------------------------------------------------------------------

/// The path that components spell.
pub open spec fn spelled(parts: Seq<Seq<u8>>) -> Seq<u8>
    decreases parts.len(),
{
    if parts.len() == 0 {
        Seq::empty()
    } else if parts.len() == 1 {
        parts[0]
    } else {
        parts[0] + seq![SEPARATOR] + spelled(parts.skip(1))
    }
}

/// A path is what its components spell.
proof fn lemma_parts_spell_path(path: Seq<u8>)
    ensures
        path_parts(path).len() >= 1,
        spelled(path_parts(path)) == path,
    decreases path.len(),
{
    path.index_of_first_ensures(SEPARATOR);
    if path.contains(SEPARATOR) {
        let at = path.index_of_first(SEPARATOR).unwrap();
        let rest = path.skip(at + 1);
        lemma_parts_spell_path(rest);
        assert(path_parts(path).skip(1) =~= path_parts(rest));
        assert(path =~= path.take(at) + seq![SEPARATOR] + rest);
    }
}

proof fn lemma_parts_order(a: Seq<Seq<u8>>, b: Seq<Seq<u8>>, c: Seq<Seq<u8>>)
    ensures
        !parts_before(a, a),
        parts_before(a, b) && parts_before(b, c) ==> parts_before(a, c),
        a == b || parts_before(a, b) || parts_before(b, a),
        !(parts_before(a, b) && parts_before(b, a)),
    decreases a.len() + b.len() + c.len(),
{
    if a.len() > 0 {
        let b2 = if b.len() > 0 {
            b.skip(1)
        } else {
            b
        };
        let c2 = if c.len() > 0 {
            c.skip(1)
        } else {
            c
        };
        lemma_parts_order(a.skip(1), b2, c2);
        if b.len() > 0 {
            if c.len() > 0 {
                law_byte_order_is_strict_and_total(a[0], b[0], c[0]);
                law_byte_order_is_strict_and_total(b[0], c[0], a[0]);
            } else {
                law_byte_order_is_strict_and_total(a[0], b[0], b[0]);
            }
            if a[0] == b[0] && a.skip(1) == b.skip(1) {
                assert(a =~= seq![a[0]] + a.skip(1));
                assert(b =~= seq![b[0]] + b.skip(1));
            }
        }
    } else if b.len() == 0 {
        assert(a =~= b);
    }
}

/// The order of a walk is irreflexive, asymmetric and transitive, and any two
/// different paths are ordered one way.
pub proof fn law_walk_order_is_strict_and_total(a: Seq<u8>, b: Seq<u8>, c: Seq<u8>)
    ensures
        !walks_before(a, a),
        !(walks_before(a, b) && walks_before(b, a)),
        walks_before(a, b) && walks_before(b, c) ==> walks_before(a, c),
        a == b || walks_before(a, b) || walks_before(b, a),
{
    lemma_parts_order(path_parts(a), path_parts(b), path_parts(c));
    lemma_parts_spell_path(a);
    lemma_parts_spell_path(b);
}

/// A path below a directory has the directory's components first.
proof fn lemma_parts_below(directory: Seq<u8>, child: Seq<u8>)
    ensures
        path_parts(directory + seq![SEPARATOR] + child) == path_parts(directory) + path_parts(child),
    decreases directory.len(),
{
    let whole = directory + seq![SEPARATOR] + child;
    whole.index_of_first_ensures(SEPARATOR);
    directory.index_of_first_ensures(SEPARATOR);
    assert(whole[directory.len() as int] == SEPARATOR);
    assert(whole.contains(SEPARATOR));
    let at = whole.index_of_first(SEPARATOR).unwrap();
    if directory.contains(SEPARATOR) {
        let k = directory.index_of_first(SEPARATOR).unwrap();
        assert(whole[k] == SEPARATOR);
        assert(at <= k);
        assert(directory[at] == whole[at]);
        assert(at == k);
        assert(whole.take(at) =~= directory.take(at));
        assert(whole.skip(at + 1) =~= directory.skip(at + 1) + seq![SEPARATOR] + child);
        lemma_parts_below(directory.skip(at + 1), child);
        assert(path_parts(whole) =~= path_parts(directory) + path_parts(child));
    } else {
        if at < directory.len() {
            assert(directory[at] == SEPARATOR);
        }
        assert(at == directory.len());
        assert(whole.take(at) =~= directory);
        assert(whole.skip(at + 1) =~= child);
        assert(path_parts(whole) =~= path_parts(directory) + path_parts(child));
    }
}

proof fn lemma_prefix_before(front: Seq<Seq<u8>>, more: Seq<Seq<u8>>)
    requires
        more.len() > 0,
    ensures
        parts_before(front, front + more),
    decreases front.len(),
{
    if front.len() > 0 {
        assert((front + more).skip(1) =~= front.skip(1) + more);
        lemma_prefix_before(front.skip(1), more);
    }
}

proof fn lemma_extension_before(front: Seq<Seq<u8>>, more: Seq<Seq<u8>>, other: Seq<Seq<u8>>)
    requires
        parts_before(front, other),
        !(front.len() <= other.len() && other.take(front.len() as int) == front),
    ensures
        parts_before(front + more, other),
    decreases front.len(),
{
    if front.len() == 0 {
        assert(other.take(0) =~= front);
    } else {
        assert((front + more)[0] == front[0]);
        assert((front + more).skip(1) =~= front.skip(1) + more);
        if front[0] == other[0] {
            let rest = other.skip(1);
            if front.skip(1).len() <= rest.len() && rest.take(front.skip(1).len() as int)
                == front.skip(1) {
                assert(other.take(front.len() as int) =~= seq![other[0]] + rest.take(
                    front.skip(1).len() as int,
                ));
                assert(front =~= seq![front[0]] + front.skip(1));
            }
            lemma_extension_before(front.skip(1), more, rest);
        }
    }
}

/// Whether a path lies below a directory.
pub open spec fn is_below(path: Seq<u8>, directory: Seq<u8>) -> bool {
    exists|rest: Seq<u8>| path == #[trigger] below(directory, rest)
}

/// The path of something below a directory.
pub open spec fn below(directory: Seq<u8>, rest: Seq<u8>) -> Seq<u8> {
    directory + seq![SEPARATOR] + rest
}

/// A directory is walked before everything below it, and everything below it
/// before whatever else follows the directory.
pub proof fn law_walk_finishes_a_directory_first(
    directory: Seq<u8>,
    rest: Seq<u8>,
    other: Seq<u8>,
)
    ensures
        walks_before(directory, below(directory, rest)),
        walks_before(directory, other) && !is_below(other, directory) ==> walks_before(
            below(directory, rest),
            other,
        ),
{
    lemma_parts_below(directory, rest);
    lemma_parts_spell_path(rest);
    lemma_prefix_before(path_parts(directory), path_parts(rest));
    if walks_before(directory, other) && !is_below(other, directory) {
        let front = path_parts(directory);
        let all = path_parts(other);
        if front.len() <= all.len() && all.take(front.len() as int) == front {
            let tail = all.skip(front.len() as int);
            assert(all =~= front + tail);
            lemma_parts_spell_path(directory);
            lemma_parts_spell_path(other);
            if tail.len() == 0 {
                assert(all =~= front);
                lemma_parts_order(front, front, front);
            } else {
                lemma_spelled_concat(front, tail);
                assert(other == below(directory, spelled(tail)));
            }
            assert(false);
        }
        lemma_extension_before(front, path_parts(rest), all);
    }
}

proof fn lemma_spelled_concat(left: Seq<Seq<u8>>, right: Seq<Seq<u8>>)
    requires
        left.len() > 0,
        right.len() > 0,
    ensures
        spelled(left + right) == spelled(left) + seq![SEPARATOR] + spelled(right),
    decreases left.len(),
{
    let whole = left + right;
    assert(whole.skip(1) =~= left.skip(1) + right);
    if left.len() == 1 {
        assert(left.skip(1) + right =~= right);
    } else {
        lemma_spelled_concat(left.skip(1), right);
        assert(spelled(whole) =~= spelled(left) + seq![SEPARATOR] + spelled(right));
    }
}

/// The state after all entries, or the first refusal.
pub open spec fn tree_scan(entries: Seq<ManifestEntry>) -> Result<TreeState, HostBuildFault>
    decreases entries.len(),
{
    if entries.len() == 0 {
        Ok(start_state())
    } else {
        match tree_scan(entries.drop_last()) {
            Ok(state) => tree_step(state, entries.last()),
            Err(fault) => Err(fault),
        }
    }
}

/// Whether an entry has its place in the layout.
pub open spec fn has_a_place(entry: ManifestEntry) -> bool {
    let path = entry.path@;
    ||| path.len() == 0 && entry.kind == KIND_DIRECTORY
    ||| path == marker_name() && entry.kind == KIND_FILE
    ||| path == rootfs_name() && entry.kind == KIND_DIRECTORY
    ||| is_below_rootfs(path)
}

/// In an accepted manifest no path occurs twice, entries come in the order of
/// a depth-first walk, and each is the root, the marker, `rootfs` or something
/// below it.
pub proof fn law_accepted_manifest_is_ordered_and_confined(
    entries: Seq<ManifestEntry>,
    i: int,
    j: int,
)
    requires
        tree_scan(entries) is Ok,
        0 <= i < entries.len(),
        0 <= j < entries.len(),
    ensures
        i < j ==> walks_before(entries[i].path@, entries[j].path@),
        i != j ==> entries[i].path@ != entries[j].path@,
        has_a_place(entries[i]),
    decreases entries.len(),
{
    let shorter = entries.drop_last();
    let last = entries.len() - 1;
    let state = tree_scan(shorter)->Ok_0;
    lemma_previous_is_last(shorter);
    if i < last && j < last {
        law_accepted_manifest_is_ordered_and_confined(shorter, i, j);
        assert(shorter[i] == entries[i] && shorter[j] == entries[j]);
    } else {
        if i < last {
            law_accepted_manifest_is_ordered_and_confined(shorter, i, i);
            assert(shorter[i] == entries[i]);
        }
        let k = if i < last {
            i
        } else {
            j
        };
        if k < last {
            assert(shorter[k] == entries[k]);
            assert(state.previous == Some(shorter.last().path@));
            assert(walks_before(shorter.last().path@, entries[last].path@));
            if k < last - 1 {
                law_accepted_manifest_is_ordered_and_confined(shorter, k, last - 1);
            }
            law_walk_order_is_strict_and_total(
                entries[k].path@,
                shorter.last().path@,
                entries[last].path@,
            );
            law_walk_order_is_strict_and_total(
                entries[k].path@,
                entries[k].path@,
                entries[k].path@,
            );
        }
    }
}

proof fn lemma_previous_is_last(entries: Seq<ManifestEntry>)
    requires
        tree_scan(entries) is Ok,
    ensures
        match tree_scan(entries)->Ok_0.previous {
            Some(path) => entries.len() > 0 && path == entries.last().path@,
            None => entries.len() == 0,
        },
{
}

/// Where an entry of a manifest may stand: the root once, the marker
/// `.pocket-generation.cbor` once as a file, `rootfs` once as a directory, and
/// all else below `rootfs/`; each behind the one before it.
pub proof fn law_entry_has_one_place(state: TreeState, entry: ManifestEntry)
    ensures
        tree_step(state, entry) is Ok <==> {
            let path = entry.path@;
            &&& state.previous matches Some(previous) ==> walks_before(previous, path)
            &&& if path.len() == 0 {
                entry.kind == 2 && !state.saw_root
            } else if path == encode_utf8(".pocket-generation.cbor"@) {
                entry.kind == 1 && state.marker is None
            } else if path == encode_utf8("rootfs"@) {
                entry.kind == 2 && !state.saw_rootfs
            } else {
                path.len() >= 7 && path.take(7) == encode_utf8("rootfs/"@)
            }
        },
        tree_step(state, entry) matches Ok(next) ==> {
            let path = entry.path@;
            &&& next.previous == Some(path)
            &&& next.saw_root == (state.saw_root || path.len() == 0)
            &&& next.saw_rootfs == (state.saw_rootfs || path == encode_utf8("rootfs"@))
            &&& path == encode_utf8(".pocket-generation.cbor"@) ==> (
            entry.content_sha256 matches Some(digest) ==> next.marker == Some(hex_of(digest@)))
            &&& path != encode_utf8(".pocket-generation.cbor"@) ==> next.marker == state.marker
        },
{
    reveal_strlit(".pocket-generation.cbor");
    reveal_strlit("rootfs");
    reveal_strlit("rootfs/");
    is_ascii_chars_encode_utf8(".pocket-generation.cbor"@);
    is_ascii_chars_encode_utf8("rootfs"@);
    is_ascii_chars_encode_utf8("rootfs/"@);
    assert(marker_name() =~= encode_utf8(".pocket-generation.cbor"@));
    assert(rootfs_name() =~= encode_utf8("rootfs"@));
    assert(rootfs_prefix() =~= encode_utf8("rootfs/"@));
    assert(rootfs_name().len() == 6);
    assert(marker_name().len() == 23);
}

/// A manifest is complete exactly where it had the root, `rootfs` and the marker,
/// and its marker is then known.
pub proof fn law_complete_manifest_has_its_marker(
    verifier: ManifestStructuralVerifier,
    finished: Result<(), HostBuildError>,
    digest: Result<String, HostBuildError>,
)
    requires
        call_ensures(ManifestStructuralVerifier::finish, (&verifier,), finished),
        call_ensures(ManifestStructuralVerifier::marker_sha256, (&verifier,), digest),
    ensures
        finished is Ok <==> verifier@.saw_root && verifier@.saw_rootfs && verifier@.marker is Some,
        digest is Ok <==> verifier@.marker is Some,
        digest matches Ok(digest) ==> verifier@.marker == Some(digest@),
{
}

/// The order of a walk compares names: of two that have no slash, the smaller
/// one comes first, with all that is below it.
pub proof fn law_smaller_name_comes_first(
    left: Seq<u8>,
    right: Seq<u8>,
    inside: Seq<u8>,
    other: Seq<u8>,
)
    requires
        !left.contains(47u8),
        !right.contains(47u8),
        bytes_before(left, right),
    ensures
        walks_before(left, right),
        walks_before(left + seq![47u8] + inside, right),
        walks_before(left, right + seq![47u8] + other),
        walks_before(left + seq![47u8] + inside, right + seq![47u8] + other),
        walks_before(left, left + seq![47u8] + inside),
{
    law_byte_order_is_strict_and_total(left, right, left);
    lemma_first_part(left, inside);
    lemma_first_part(right, other);
    assert(path_parts(left) =~= seq![left]);
    assert(path_parts(right) =~= seq![right]);
    assert(seq![left].skip(1) =~= Seq::<Seq<u8>>::empty());
    let longer = seq![left] + path_parts(inside);
    assert(longer.skip(1) =~= path_parts(inside));
    lemma_some_part(inside);
    reveal_with_fuel(parts_before, 2);
}

proof fn lemma_some_part(path: Seq<u8>)
    ensures
        path_parts(path).len() > 0,
{
    reveal_with_fuel(path_parts, 2);
}

proof fn lemma_first_part(name: Seq<u8>, rest: Seq<u8>)
    requires
        !name.contains(47u8),
    ensures
        path_parts(name + seq![47u8] + rest) == seq![name] + path_parts(rest),
{
    let path = name + seq![47u8] + rest;
    path.index_of_first_ensures(47u8);
    assert(path[name.len() as int] == 47);
    let at = path.index_of_first(47u8).unwrap();
    if at < name.len() {
        assert(name[at] == path[at]);
        assert(name.contains(47u8));
    }
    assert(path.take(at) =~= name);
    assert(path.skip(at + 1) =~= rest);
}

/// An entry in a chunk is framed by its length in four bytes, the highest first.
pub proof fn law_chunk_entry_is_announced(bytes: Seq<u8>, offset: int, start: int, end: int)
    requires
        0 <= offset,
        chunk_step(bytes, offset) == Ok::<_, HostBuildFault>(Some((start, end))),
    ensures
        start == offset + 4,
        start <= end <= bytes.len(),
        end - start == 0x100_0000 * bytes[offset] + 0x1_0000 * bytes[offset + 1] + 0x100
            * bytes[offset + 2] + bytes[offset + 3],
{
    reveal_with_fuel(big_endian, 5);
}

/// A path is told in hexadecimal, at most 128 bytes of it.
pub proof fn law_path_is_told_in_hexadecimal(path: Seq<u8>)
    ensures
        path.len() <= 128 ==> path_diagnostic(path) == "hex:"@ + hex_of(path),
        path.len() > 128 ==> path_diagnostic(path) == "hex:"@ + hex_of(path.take(128)) + ("...(+"@
            + decimal((path.len() - 128) as nat) + " bytes)"@),
{
    reveal_strlit("");
    assert("hex:"@ + hex_of(path) + ""@ =~= "hex:"@ + hex_of(path));
}

/// The order of two paths is that of the walk.
pub proof fn law_path_order_is_the_walk(left: Seq<u8>, right: Seq<u8>)
    ensures
        path_order(left, right) is Equal <==> left == right,
        path_order(left, right) is Less <==> walks_before(left, right),
        path_order(left, right) is Greater <==> walks_before(right, left),
{
    law_walk_order_is_strict_and_total(left, right, left);
}

/// What the walk says of two paths, of an entry and of a path's name is what is
/// told of them.
pub proof fn law_paths_are_told_as_they_are(
    left: &[u8],
    right: &[u8],
    before: bool,
    order: Ordering,
    text: String,
    offset: usize,
    range: Result<Option<(usize, usize)>, HostBuildError>,
)
    requires
        offset <= left@.len(),
        call_ensures(is_walked_before, (left, right), before),
        call_ensures(manifest_path_order, (left, right), order),
        call_ensures(manifest_path_diagnostic, (left,), text),
        call_ensures(next_chunk_entry, (left, offset), range),
    ensures
        before == walks_before(left@, right@),
        order is Less <==> before,
        order is Equal <==> left@ == right@,
        text@ == path_diagnostic(left@),
        range is Err <==> {
            &&& offset < left@.len()
            &&& left@.len() - offset < 4 || left@.len() - offset - 4 < big_endian(
                left@,
                offset + 0,
                4,
            )
        },
        range matches Ok(Some((start, end))) ==> start == offset + 4 && end == start + big_endian(
            left@,
            offset + 0,
            4,
        ),
        range matches Ok(None) ==> offset == left@.len(),
{
    law_walk_order_is_strict_and_total(left@, right@, left@);
}

/// An entry is accepted where it has a place, and a refused one changes nothing.
pub proof fn law_refused_entry_changes_nothing(
    verifier: &mut ManifestStructuralVerifier,
    entry: ManifestEntry,
    accepted: Result<(), HostBuildError>,
    fresh: ManifestStructuralVerifier,
)
    requires
        entry.content_sha256 matches Some(digest) ==> 2 * digest@.len() <= isize::MAX,
        call_ensures(ManifestStructuralVerifier::accept_entry, (verifier, &entry), accepted),
        call_ensures(ManifestStructuralVerifier::default, (), fresh),
    ensures
        accepted is Ok <==> tree_step(old(verifier)@, entry) is Ok,
        accepted is Ok ==> final(verifier)@ == tree_step(old(verifier)@, entry)->Ok_0,
        accepted is Err ==> final(verifier)@ == old(verifier)@,
        fresh@.previous is None && !fresh@.saw_root && !fresh@.saw_rootfs && fresh@.marker is None,
{
}

} // verus!
