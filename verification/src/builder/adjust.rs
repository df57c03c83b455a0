//! Republishing an image's filesystem at a different size.

use vstd::prelude::*;

use crate::builder::prepare::AliasKey;
use crate::builder::sizing::{FilesystemSize, FilesystemSizing, EXT4_BLOCK_BYTES};
use crate::digest::ArtifactDigest;
use crate::error::{build_fault, build_outcome, invalid_build, HostBuildError, HostBuildFault};
use crate::manifest::ProfileManifest;
use crate::pocket_archive::GenerationSpec;
use crate::text::{
    chars_of, decimal, decimal_text, join, join3, lossy_spelling, lossy_text, parse_word,
    parsed_word, pieces, push_text, texts, words, words_of,
};

verus! {

/// Where the generation marker lies in a filesystem.
pub const GENERATION_MARKER_PATH: &'static str = "/.pocket-generation.cbor";

/// One request to republish an image's filesystem at a different size.
#[derive(Debug, Clone)]
pub struct AdjustRequest {
    /// The image to read. It is never modified.
    pub source: AliasKey,
    /// The reference the adjusted image is published under.
    pub reference: String,
    /// Requested filesystem size in bytes, a multiple of the block size.
    pub target_bytes: u64,
}

/// Whether an alias names an adjusted image: the reference is the new one, the
/// platform and the selection are those of the source.
pub open spec fn names_adjusted(
    alias: AliasKey,
    manifest: ProfileManifest,
    request: AdjustRequest,
    previous: GenerationSpec,
) -> bool {
    &&& alias.profile_id@ == manifest.profile_id@
    &&& alias.profile_revision@ == manifest.profile_revision@
    &&& alias.reference@ == request.reference@
    &&& alias.platform@ == previous.effective_platform@
    &&& alias.selector_policy@ == previous.selector_policy_id@
}

/// The alias of an adjusted image.
pub fn adjusted_alias(
    manifest: &ProfileManifest,
    request: &AdjustRequest,
    previous: &GenerationSpec,
) -> (alias: AliasKey)
    ensures
        names_adjusted(alias, *manifest, *request, *previous),
{
    AliasKey {
        profile_id: manifest.profile_id.clone(),
        profile_revision: ArtifactDigest::from_bytes(manifest.profile_revision.as_bytes()),
        reference: request.reference.clone(),
        platform: previous.effective_platform.copy(),
        selector_policy: previous.selector_policy_id.clone(),
    }
}

// ---------------------------------------------------------------------------
// Sizes
// ---------------------------------------------------------------------------

/// The bytes of so many blocks, or the refusal of a count that is too large.
pub open spec fn block_bytes_outcome(field: Seq<char>, blocks: u64, reason: Seq<char>) -> Result<
    u64,
    HostBuildFault,
> {
    if blocks * EXT4_BLOCK_BYTES > u64::MAX {
        Err(invalid_build(field, reason))
    } else {
        Ok((blocks * EXT4_BLOCK_BYTES) as u64)
    }
}

fn block_bytes(field: &'static str, blocks: u64, reason: &str) -> (bytes: Result<
    u64,
    HostBuildError,
>)
    ensures
        build_outcome(bytes) == block_bytes_outcome(field@, blocks, reason@),
{
    match blocks.checked_mul(EXT4_BLOCK_BYTES) {
        Some(bytes) => Ok(bytes),
        None => Err(HostBuildError::invalid(field, reason)),
    }
}

/// The size of the filesystem that is adjusted.
pub fn source_size(blocks: u64) -> (bytes: Result<u64, HostBuildError>)
    ensures
        build_outcome(bytes) == block_bytes_outcome("source"@, blocks, "source size overflows"@),
{
    block_bytes("source", blocks, "source size overflows")
}

/// The sizing that an adjusted image is identified by. It binds what was asked
/// for, not what the filesystem happens to report afterwards, so it is known
/// before any lock is taken and two identical requests converge on one
/// generation.
pub fn adjusted_sizing(target_bytes: u64, inodes: u64) -> (sizing: FilesystemSizing)
    ensures
        sizing == (FilesystemSizing {
            initial: FilesystemSize { bytes: target_bytes, inodes },
            retry: None,
        }),
{
    FilesystemSizing { initial: FilesystemSize { bytes: target_bytes, inodes }, retry: None }
}

/// Why a resized filesystem is refused, if it is.
pub open spec fn resized_fault(blocks: u64, target_bytes: u64) -> Option<HostBuildFault> {
    match block_bytes_outcome("target"@, blocks, "resized size overflows"@) {
        Err(fault) => Some(fault),
        Ok(observed) => if observed != target_bytes {
            Some(
                invalid_build(
                    "target_bytes"@,
                    "resize produced "@ + decimal(observed as nat) + " bytes, not the requested "@
                        + decimal(target_bytes as nat),
                ),
            )
        } else {
            None
        },
    }
}

/// The resized filesystem must declare exactly the size it was asked for;
/// anything else is a resize that silently did something different.
pub fn check_resized(blocks: u64, target_bytes: u64) -> (checked: Result<(), HostBuildError>)
    ensures
        build_fault(checked) == resized_fault(blocks, target_bytes),
{
    let observed: u64 = match block_bytes("target", blocks, "resized size overflows") {
        Ok(observed) => observed,
        Err(error) => {
            return Err(error);
        },
    };
    if observed != target_bytes {
        let produced = join3(
            "resize produced ",
            &decimal_text(observed),
            " bytes, not the requested ",
        );
        return Err(
            HostBuildError::invalid(
                "target_bytes",
                &join(&produced, &decimal_text(target_bytes)),
            ),
        );
    }
    Ok(())
}

// ---------------------------------------------------------------------------
// Resizing in place
// ---------------------------------------------------------------------------

/// One step of a resize.
#[derive(Debug, Clone, Copy, PartialEq, Eq, Structural)]
pub enum ResizeStep {
    /// A read-only structural check.
    Check,
    /// Give the image file this many bytes.
    SetLength { bytes: u64 },
    /// Give the filesystem this many blocks.
    Resize { blocks: u64 },
}

/// The steps of a resize. Growing past the file's end is not possible, so a
/// grow extends the file first and lets the tool fill it, and a shrink resizes
/// first and truncates the emptied tail afterwards.
pub open spec fn resize_plan(source_bytes: u64, target_bytes: u64) -> Seq<ResizeStep> {
    let checked = seq![ResizeStep::Check];
    let extended = if target_bytes > source_bytes {
        checked.push(ResizeStep::SetLength { bytes: target_bytes })
    } else {
        checked
    };
    let resized = extended.push(ResizeStep::Resize { blocks: target_bytes / EXT4_BLOCK_BYTES });
    if target_bytes < source_bytes {
        resized.push(ResizeStep::SetLength { bytes: target_bytes })
    } else {
        resized
    }
}

/// Plans a resize.
///
/// The check is read-only. A preening check would be the conventional choice
/// before a resize, but it repairs: on a base built from a layout it creates
/// the `/lost+found` the conversion never made, which would silently give the
/// adjusted image one more directory than the source.
pub fn resize_steps(source_bytes: u64, target_bytes: u64) -> (steps: Vec<ResizeStep>)
    ensures
        steps@ == resize_plan(source_bytes, target_bytes),
{
    let mut steps: Vec<ResizeStep> = Vec::new();
    steps.push(ResizeStep::Check);
    if target_bytes > source_bytes {
        steps.push(ResizeStep::SetLength { bytes: target_bytes });
    }
    steps.push(ResizeStep::Resize { blocks: target_bytes / EXT4_BLOCK_BYTES });
    if target_bytes < source_bytes {
        steps.push(ResizeStep::SetLength { bytes: target_bytes });
    }
    steps
}

/// The larger of the two sizes, by which a resize is budgeted.
pub fn resize_budget_bytes(source_bytes: u64, target_bytes: u64) -> (bytes: u64)
    ensures
        bytes == if source_bytes > target_bytes {
            source_bytes
        } else {
            target_bytes
        },
{
    if source_bytes > target_bytes {
        source_bytes
    } else {
        target_bytes
    }
}

/// An image file and the filesystem in it.
pub struct ImageState {
    pub file_bytes: nat,
    pub filesystem_bytes: nat,
}

pub open spec fn apply_step(state: ImageState, step: ResizeStep) -> ImageState {
    match step {
        ResizeStep::Check => state,
        ResizeStep::SetLength { bytes } => ImageState { file_bytes: bytes as nat, ..state },
        ResizeStep::Resize { blocks } => ImageState {
            filesystem_bytes: blocks as nat * (EXT4_BLOCK_BYTES as nat),
            ..state
        },
    }
}

/// The image after the first steps of a plan.
pub open spec fn apply_steps(state: ImageState, steps: Seq<ResizeStep>) -> ImageState
    decreases steps.len(),
{
    if steps.len() == 0 {
        state
    } else {
        apply_step(apply_steps(state, steps.drop_last()), steps.last())
    }
}

/// At every point of a resize the file covers the filesystem in it, and at the
/// end both have the requested size.
pub proof fn law_resize_never_cuts_the_filesystem(
    source_bytes: u64,
    target_bytes: u64,
    done: int,
)
    requires
        target_bytes % EXT4_BLOCK_BYTES == 0,
        0 <= done <= resize_plan(source_bytes, target_bytes).len(),
    ensures
        ({
            let start = ImageState {
                file_bytes: source_bytes as nat,
                filesystem_bytes: source_bytes as nat,
            };
            let plan = resize_plan(source_bytes, target_bytes);
            let now = apply_steps(start, plan.take(done));
            &&& now.filesystem_bytes <= now.file_bytes
            &&& done == plan.len() ==> now.file_bytes == target_bytes && now.filesystem_bytes
                == target_bytes
        }),
{
    let start = ImageState {
        file_bytes: source_bytes as nat,
        filesystem_bytes: source_bytes as nat,
    };
    let plan = resize_plan(source_bytes, target_bytes);
    assert(target_bytes / EXT4_BLOCK_BYTES * EXT4_BLOCK_BYTES == target_bytes);
    assert(plan.take(0) =~= Seq::<ResizeStep>::empty());
    assert(apply_steps(start, plan.take(0)) == start);
    if done >= 1 {
        assert(plan.take(1).drop_last() =~= plan.take(0));
        assert(apply_steps(start, plan.take(1)) == apply_step(start, plan[0]));
    }
    if done >= 2 {
        assert(plan.take(2).drop_last() =~= plan.take(1));
        assert(apply_steps(start, plan.take(2)) == apply_step(
            apply_steps(start, plan.take(1)),
            plan[1],
        ));
    }
    if done >= 3 {
        assert(plan.take(3).drop_last() =~= plan.take(2));
        assert(apply_steps(start, plan.take(3)) == apply_step(
            apply_steps(start, plan.take(2)),
            plan[2],
        ));
    }
}

// ---------------------------------------------------------------------------
// Helper arguments
// ---------------------------------------------------------------------------

/// The arguments of a read-only check.
pub fn check_arguments(image: &str) -> (arguments: Vec<String>)
    ensures
        texts(arguments@) == seq!["-f"@, "-n"@, image@],
{
    let mut arguments: Vec<String> = Vec::new();
    assert(texts(arguments@) =~= Seq::<Seq<char>>::empty());
    push_text(&mut arguments, "-f");
    push_text(&mut arguments, "-n");
    push_text(&mut arguments, image);
    arguments
}

/// The arguments that give a filesystem a number of blocks.
pub fn resize_arguments(image: &str, blocks: u64) -> (arguments: Vec<String>)
    ensures
        texts(arguments@) == seq![image@, decimal(blocks as nat)],
{
    let mut arguments: Vec<String> = Vec::new();
    assert(texts(arguments@) =~= Seq::<Seq<char>>::empty());
    push_text(&mut arguments, image);
    push_text(&mut arguments, &decimal_text(blocks));
    arguments
}

/// The arguments that ask where the generation marker's blocks are.
pub fn locate_marker_arguments(image: &str) -> (arguments: Vec<String>)
    ensures
        texts(arguments@) == seq!["-R"@, "blocks "@ + GENERATION_MARKER_PATH@, image@],
{
    let mut arguments: Vec<String> = Vec::new();
    assert(texts(arguments@) =~= Seq::<Seq<char>>::empty());
    push_text(&mut arguments, "-R");
    push_text(&mut arguments, &join("blocks ", GENERATION_MARKER_PATH));
    push_text(&mut arguments, image);
    arguments
}

/// The arguments that copy the generation marker out.
pub fn dump_marker_arguments(image: &str, target: &str) -> (arguments: Vec<String>)
    ensures
        texts(arguments@) == seq![
            "-R"@,
            "dump "@ + GENERATION_MARKER_PATH@ + (" "@ + target@),
            image@,
        ],
{
    let mut arguments: Vec<String> = Vec::new();
    assert(texts(arguments@) =~= Seq::<Seq<char>>::empty());
    push_text(&mut arguments, "-R");
    push_text(
        &mut arguments,
        &join3("dump ", GENERATION_MARKER_PATH, &join(" ", target)),
    );
    push_text(&mut arguments, image);
    arguments
}

// ---------------------------------------------------------------------------
// The generation marker
// ---------------------------------------------------------------------------

/// The numbers among the words.
pub open spec fn numbers(all: Seq<Seq<char>>) -> Seq<u64>
    decreases all.len(),
{
    if all.len() == 0 {
        Seq::empty()
    } else {
        let before = numbers(all.drop_last());
        match parsed_word(all.last()) {
            Some(value) => before.push(value),
            None => before,
        }
    }
}

/// The blocks that a listing names.
pub open spec fn listed_blocks(listing: Seq<u8>) -> Seq<u64> {
    numbers(words(lossy_spelling(listing), false))
}

/// Reads the block numbers out of a listing; words that are no numbers are
/// passed over.
pub fn parse_blocks(listing: &[u8]) -> (blocks: Vec<u64>)
    ensures
        blocks@ == listed_blocks(listing@),
{
    let parts = words_of(&chars_of(&lossy_text(listing)), false);
    let ghost all = pieces(parts@);
    let mut blocks: Vec<u64> = Vec::new();
    let mut i: usize = 0;
    assert(all.take(0) =~= Seq::<Seq<char>>::empty());
    while i < parts.len()
        invariant
            i <= parts@.len(),
            all == pieces(parts@),
            blocks@ == numbers(all.take(i as int)),
        decreases parts@.len() - i,
    {
        assert(all.take(i + 1).drop_last() =~= all.take(i as int));
        assert(all.take(i + 1).last() == parts@[i as int]@);
        if let Some(value) = parse_word(&parts[i]) {
            blocks.push(value);
        }
        i += 1;
    }
    assert(all.take(i as int) =~= all);
    blocks
}

/// One write of a marker: the bytes from `start` to `end` go to `offset`.
#[derive(Debug, Clone, Copy, PartialEq, Eq, Structural)]
pub struct MarkerWrite {
    pub offset: u64,
    pub start: usize,
    pub end: usize,
}

/// What rewriting a marker comes to: the writes to make in order, and what
/// stops them after those, if something does.
#[derive(Debug)]
pub struct MarkerPlan {
    pub writes: Vec<MarkerWrite>,
    pub fault: Option<HostBuildError>,
}

/// How many blocks so many bytes take.
pub open spec fn blocks_for(length: nat) -> nat {
    (length + (EXT4_BLOCK_BYTES - 1)) as nat / (EXT4_BLOCK_BYTES as nat)
}

/// The end of the block that starts at `start`, or of the marker.
pub open spec fn block_end(start: nat, length: nat) -> nat {
    if start + EXT4_BLOCK_BYTES < length {
        start + EXT4_BLOCK_BYTES as nat
    } else {
        length
    }
}

/// The write of the marker's block at a position.
pub open spec fn is_write_at(write: MarkerWrite, blocks: Seq<u64>, i: int, length: nat) -> bool {
    &&& write.offset == blocks[i] * EXT4_BLOCK_BYTES
    &&& write.start == i * EXT4_BLOCK_BYTES
    &&& write.end == block_end((i * EXT4_BLOCK_BYTES) as nat, length)
}

/// Why blocks cannot hold a marker, if they cannot.
pub open spec fn marker_room_fault(blocks: nat, length: nat) -> Option<HostBuildFault> {
    if blocks == 0 || blocks < blocks_for(length) {
        Some(
            invalid_build(
                "generation_marker"@,
                "marker occupies "@ + decimal(blocks) + " blocks, too few for "@ + decimal(length)
                    + " bytes"@,
            ),
        )
    } else {
        None
    }
}

/// What a block whose offset no file has is refused with.
pub open spec fn offset_fault() -> HostBuildFault {
    invalid_build("generation_marker"@, "block offset overflows"@)
}

/// Whether writes replace a marker of `length` bytes in its blocks. They stop
/// short only where the next block's offset overflows.
pub open spec fn is_marker_plan(
    blocks: Seq<u64>,
    length: nat,
    writes: Seq<MarkerWrite>,
    blocked: bool,
) -> bool {
    &&& forall|i: int|
        0 <= i < writes.len() ==> is_write_at(#[trigger] writes[i], blocks, i, length)
    &&& if blocked {
        writes.len() < blocks_for(length) && blocks[writes.len() as int] * EXT4_BLOCK_BYTES
            > u64::MAX
    } else {
        writes.len() == blocks_for(length)
    }
}

/// Plans the writes that replace a marker of `length` bytes in its own blocks.
///
/// The replacement is exactly as long as the original, so this overwrites the
/// file's own data blocks rather than unlinking and rewriting it. That leaves
/// every piece of filesystem metadata untouched: no allocation changes, no
/// directory changes, and nothing for a repair pass to find.
pub fn plan_marker_writes(blocks: &Vec<u64>, length: usize) -> (plan: Result<
    MarkerPlan,
    HostBuildError,
>)
    ensures
        match plan {
            Err(error) => marker_room_fault(blocks@.len(), length as nat) == Some(error@),
            Ok(plan) => {
                &&& marker_room_fault(blocks@.len(), length as nat) is None
                &&& is_marker_plan(blocks@, length as nat, plan.writes@, plan.fault is Some)
                &&& plan.fault matches Some(error) ==> error@ == offset_fault()
            },
        },
{
    let step: usize = EXT4_BLOCK_BYTES as usize;
    let needed: usize = if length % step == 0 {
        length / step
    } else {
        length / step + 1
    };
    assert(needed == blocks_for(length as nat));
    if blocks.len() == 0 || blocks.len() < needed {
        let count = join3(
            "marker occupies ",
            &decimal_text(blocks.len() as u64),
            " blocks, too few for ",
        );
        return Err(
            HostBuildError::invalid(
                "generation_marker",
                &join3(&count, &decimal_text(length as u64), " bytes"),
            ),
        );
    }
    let mut writes: Vec<MarkerWrite> = Vec::new();
    let mut written: usize = 0;
    let mut i: usize = 0;
    while i < needed
        invariant
            i <= needed <= blocks@.len(),
            step == EXT4_BLOCK_BYTES,
            needed == blocks_for(length as nat),
            blocks@.len() > 0,
            written == if i * step < length {
                i * step
            } else {
                length as int
            },
            writes@.len() == i,
            forall|j: int|
                0 <= j < i ==> is_write_at(#[trigger] writes@[j], blocks@, j, length as nat),
        decreases needed - i,
    {
        assert(i * step < length);
        let offset: u64 = match blocks[i].checked_mul(EXT4_BLOCK_BYTES) {
            Some(offset) => offset,
            None => {
                return Ok(
                    MarkerPlan {
                        writes,
                        fault: Some(
                            HostBuildError::invalid("generation_marker", "block offset overflows"),
                        ),
                    },
                );
            },
        };
        let end: usize = if step < length - written {
            written + step
        } else {
            length
        };
        writes.push(MarkerWrite { offset, start: written, end });
        written = end;
        i += 1;
    }
    Ok(MarkerPlan { writes, fault: None })
}

/// A complete plan writes every byte of the marker once, in order, and each
/// write stays inside one of the marker's own blocks.
pub proof fn law_marker_writes_cover_the_marker(
    writes: Seq<MarkerWrite>,
    blocks: Seq<u64>,
    length: nat,
    i: int,
)
    requires
        length > 0,
        is_marker_plan(blocks, length, writes, false),
        0 <= i < writes.len(),
    ensures
        writes[0].start == 0,
        writes[writes.len() - 1].end == length,
        i + 1 < writes.len() ==> writes[i].end == writes[i + 1].start,
        writes[i].start < writes[i].end <= writes[i].start + EXT4_BLOCK_BYTES,
        writes[i].offset % EXT4_BLOCK_BYTES == 0,
        writes[i].offset / EXT4_BLOCK_BYTES == blocks[i],
{
    assert(is_write_at(writes[0], blocks, 0, length));
    assert(is_write_at(writes[i], blocks, i, length));
    assert(is_write_at(writes[writes.len() - 1], blocks, writes.len() - 1, length));
    if i + 1 < writes.len() {
        assert(is_write_at(writes[i + 1], blocks, i + 1, length));
    }
}

/// Why a copied marker is refused, if it is.
pub open spec fn marker_fault(length: nat) -> Option<HostBuildFault> {
    if length == 0 {
        Some(invalid_build("generation_marker"@, "image carries no generation marker"@))
    } else {
        None
    }
}

/// Refuses an image without a generation marker.
pub fn check_marker(bytes: &[u8]) -> (checked: Result<(), HostBuildError>)
    ensures
        build_fault(checked) == marker_fault(bytes@.len()),
{
    if bytes.len() == 0 {
        return Err(
            HostBuildError::invalid("generation_marker", "image carries no generation marker"),
        );
    }
    Ok(())
}

/// Why a replacement marker is refused, if it is.
pub open spec fn replacement_fault(updated: nat, original: nat) -> Option<HostBuildFault> {
    if updated != original {
        Some(
            invalid_build(
                "generation_marker"@,
                "replacement is "@ + decimal(updated) + " bytes against the original "@ + decimal(
                    original,
                ),
            ),
        )
    } else {
        None
    }
}

/// The in-place rewrite depends on this: a derivation key is fixed-width
/// hexadecimal, so the replacement is the same length and no allocation
/// changes.
pub fn check_replacement(updated: &[u8], original: &[u8]) -> (checked: Result<(), HostBuildError>)
    ensures
        build_fault(checked) == replacement_fault(updated@.len(), original@.len()),
{
    if updated.len() != original.len() {
        let size = join3(
            "replacement is ",
            &decimal_text(updated.len() as u64),
            " bytes against the original ",
        );
        return Err(
            HostBuildError::invalid(
                "generation_marker",
                &join(&size, &decimal_text(original.len() as u64)),
            ),
        );
    }
    Ok(())
}

/// An adjusted image is published under the reference that was asked for, with
/// the profile that adjusts it and the platform and policy that it had.
pub proof fn law_adjusted_image_has_its_own_reference(
    manifest: ProfileManifest,
    request: AdjustRequest,
    previous: GenerationSpec,
    alias: AliasKey,
)
    requires
        call_ensures(adjusted_alias, (&manifest, &request, &previous), alias),
    ensures
        alias.reference@ == request.reference@,
        alias.profile_id@ == manifest.profile_id@,
        alias.profile_revision@ == manifest.profile_revision@,
        alias.platform@ == previous.effective_platform@,
        alias.selector_policy@ == previous.selector_policy_id@,
{
}

/// A filesystem is as long as its blocks of 4096 bytes, is adjusted to one size
/// without a second attempt, and is accepted where it then has that size.
pub proof fn law_adjusted_size_is_exact(
    blocks: u64,
    bytes: Result<u64, HostBuildError>,
    target_bytes: u64,
    inodes: u64,
    sizing: FilesystemSizing,
    checked: Result<(), HostBuildError>,
)
    requires
        call_ensures(source_size, (blocks,), bytes),
        call_ensures(adjusted_sizing, (target_bytes, inodes), sizing),
        call_ensures(check_resized, (blocks, target_bytes), checked),
    ensures
        bytes is Ok <==> 4096 * blocks <= u64::MAX,
        bytes matches Ok(bytes) ==> bytes == 4096 * blocks,
        sizing.initial.bytes == target_bytes && sizing.initial.inodes == inodes,
        sizing.retry is None,
        checked is Ok <==> 4096 * blocks == target_bytes,
{
}

/// A resize has time for the larger of the two sizes.
pub proof fn law_resize_has_time_for_the_larger(source_bytes: u64, target_bytes: u64, bytes: u64)
    requires
        call_ensures(resize_budget_bytes, (source_bytes, target_bytes), bytes),
    ensures
        bytes >= source_bytes && bytes >= target_bytes,
        bytes == source_bytes || bytes == target_bytes,
{
}

/// How the helpers are called: the check reads only, the resize names its
/// blocks, and the marker is found by its path.
pub proof fn law_adjusting_helpers_are_told_what_to_do(
    image: &str,
    blocks: u64,
    target: &str,
    check: Vec<String>,
    resize: Vec<String>,
    locate: Vec<String>,
    dump: Vec<String>,
)
    requires
        call_ensures(check_arguments, (image,), check),
        call_ensures(resize_arguments, (image, blocks), resize),
        call_ensures(locate_marker_arguments, (image,), locate),
        call_ensures(dump_marker_arguments, (image, target), dump),
    ensures
        texts(check@) == seq!["-f"@, "-n"@, image@],
        texts(resize@) == seq![image@, decimal(blocks as nat)],
        texts(locate@) == seq!["-R"@, "blocks "@ + "/.pocket-generation.cbor"@, image@],
        texts(dump@) == seq![
            "-R"@,
            "dump "@ + "/.pocket-generation.cbor"@ + (" "@ + target@),
            image@,
        ],
{
}

/// A marker is not empty, and is replaced by one of its own length.
pub proof fn law_marker_is_replaced_in_place(
    original: &[u8],
    updated: &[u8],
    found: Result<(), HostBuildError>,
    replaced: Result<(), HostBuildError>,
)
    requires
        call_ensures(check_marker, (original,), found),
        call_ensures(check_replacement, (updated, original), replaced),
    ensures
        found is Ok <==> original@.len() > 0,
        replaced is Ok <==> updated@.len() == original@.len(),
{
}

/// The marker's blocks are enough exactly where there are some and they hold it
/// in pieces of 4096 bytes.
pub proof fn law_marker_fits_its_blocks(
    blocks: Vec<u64>,
    length: usize,
    plan: Result<MarkerPlan, HostBuildError>,
)
    requires
        call_ensures(plan_marker_writes, (&blocks, length), plan),
    ensures
        plan is Ok <==> blocks@.len() > 0 && length <= 4096 * blocks@.len(),
        plan matches Ok(plan) ==> forall|i: int|
            0 <= i < plan.writes@.len() ==> {
                let write = #[trigger] plan.writes@[i];
                &&& write.offset == 4096 * blocks@[i]
                &&& write.start == 4096 * i
                &&& write.end == length || write.end == write.start + 4096
                &&& write.end <= length
            },
{
    let needed = blocks_for(length as nat);
    assert(needed == (length + 4095) / 4096);
    if plan is Ok {
        let writes = plan->Ok_0.writes@;
        assert forall|i: int| 0 <= i < writes.len() implies {
            let write = #[trigger] writes[i];
            &&& write.offset == 4096 * blocks@[i]
            &&& write.start == 4096 * i
            &&& write.end == length || write.end == write.start + 4096
            &&& write.end <= length
        } by {
            assert(is_write_at(writes[i], blocks@, i, length as nat));
        }
    }
}

/// A listing names a block by every word of it that is a number, in their order.
pub proof fn law_listing_names_its_blocks(listing: &[u8], blocks: Vec<u64>)
    requires
        call_ensures(parse_blocks, (listing,), blocks),
    ensures
        blocks@ == numbers(words(lossy_spelling(listing@), false)),
        forall|all: Seq<Seq<char>>, word: Seq<char>|
            #![trigger numbers(all.push(word))]
            numbers(all.push(word)) == match parsed_word(word) {
                Some(value) => numbers(all).push(value),
                None => numbers(all),
            },
        numbers(Seq::<Seq<char>>::empty()) == Seq::<u64>::empty(),
{
    assert forall|all: Seq<Seq<char>>, word: Seq<char>|
        #![trigger numbers(all.push(word))]
        numbers(all.push(word)) == match parsed_word(word) {
            Some(value) => numbers(all).push(value),
            None => numbers(all),
        } by {
        assert(all.push(word).drop_last() =~= all);
    }
}

} // verus!
