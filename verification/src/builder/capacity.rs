//! Which failures of a build are worth one larger attempt.

use vstd::prelude::*;

use crate::builder::identity::{FORMAT_PAYLOAD_STAGE, FORMAT_TARGET_STAGE};
use crate::builder::sizing::{FilesystemSize, FilesystemSizing};
use crate::error::HostBuildError;
use crate::text::{chars_are, chars_between, chars_of, has_prefix, same_text};

verus! {

/// `ENOSPC` of Linux.
pub const ENOSPC: i32 = 28;

#[derive(Debug, Clone, Copy, PartialEq, Eq, Structural)]
pub enum CapacityResource {
    Blocks,
    Inodes,
    BlocksAndInodes,
    BlockOrInode,
}

/// How a resource is called in a build record.
pub open spec fn resource_name(resource: CapacityResource) -> Seq<char> {
    match resource {
        CapacityResource::Blocks => "blocks"@,
        CapacityResource::Inodes => "inodes"@,
        CapacityResource::BlocksAndInodes => "blocks-and-inodes"@,
        CapacityResource::BlockOrInode => "block-or-inode"@,
    }
}

impl CapacityResource {
    pub fn as_str(self) -> (name: &'static str)
        ensures
            name@ == resource_name(self),
    {
        match self {
            CapacityResource::Blocks => "blocks",
            CapacityResource::Inodes => "inodes",
            CapacityResource::BlocksAndInodes => "blocks-and-inodes",
            CapacityResource::BlockOrInode => "block-or-inode",
        }
    }
}

/// The error inside any number of control-protocol wrappers.
pub open spec fn innermost(error: HostBuildError) -> HostBuildError
    decreases error,
{
    match error {
        HostBuildError::GuestProtocol { stage, reason, source, diagnostic } => innermost(*source),
        other => other,
    }
}

/// A control-protocol failure wraps the typed error it carries so the guest
/// console travels with it. Every classifier must look through that wrapper,
/// or attaching the console silently turns a retryable failure into a fatal
/// one.
pub fn innermost_build_error(error: &HostBuildError) -> (inner: &HostBuildError)
    ensures
        *inner == innermost(*error),
    decreases *error,
{
    match error {
        HostBuildError::GuestProtocol { stage: _, reason: _, source, diagnostic: _ } => {
            innermost_build_error(source)
        },
        other => other,
    }
}

// ---------------------------------------------------------------------------
// Finding text in text
// ---------------------------------------------------------------------------

/// Whether `needle` occurs in `text` at `at`.
pub open spec fn occurs_at(text: Seq<char>, needle: Seq<char>, at: int) -> bool {
    0 <= at && at + needle.len() <= text.len() && text.subrange(at, at + needle.len()) == needle
}

/// Whether `needle` occurs in `text`.
pub open spec fn occurs(text: Seq<char>, needle: Seq<char>) -> bool {
    exists|at: int| occurs_at(text, needle, at)
}

/// Whether `at` is where `needle` first occurs.
pub open spec fn first_occurs_at(text: Seq<char>, needle: Seq<char>, at: int) -> bool {
    occurs_at(text, needle, at) && forall|k: int|
        0 <= k < at ==> !#[trigger] occurs_at(text, needle, k)
}

/// Where `needle` first occurs.
pub fn find(text: &[char], needle: &[char]) -> (found: Option<usize>)
    ensures
        match found {
            Some(at) => first_occurs_at(text@, needle@, at as int),
            None => !occurs(text@, needle@),
        },
{
    if needle.len() > text.len() {
        return None;
    }
    let last: usize = text.len() - needle.len();
    let mut at: usize = 0;
    loop
        invariant
            needle@.len() <= text@.len(),
            last == text@.len() - needle@.len(),
            at <= last,
            forall|k: int| 0 <= k < at ==> !#[trigger] occurs_at(text@, needle@, k),
        decreases last - at,
    {
        let rest = chars_between(text, at, text.len());
        assert(rest@.take(needle@.len() as int) =~= text@.subrange(
            at as int,
            at + needle@.len(),
        ));
        if has_prefix(&rest, needle) {
            return Some(at);
        }
        assert(!occurs_at(text@, needle@, at as int));
        if at == last {
            return None;
        }
        at += 1;
    }
}

/// What follows the first occurrence of `needle`, if it occurs.
pub open spec fn text_after(text: Seq<char>, needle: Seq<char>) -> Option<Seq<char>> {
    if occurs(text, needle) {
        let at = choose|at: int| first_occurs_at(text, needle, at);
        Some(text.skip(at + needle.len()))
    } else {
        None
    }
}

/// What stands in front of the first occurrence of `needle`, if it occurs.
pub open spec fn text_before(text: Seq<char>, needle: Seq<char>) -> Option<Seq<char>> {
    if occurs(text, needle) {
        let at = choose|at: int| first_occurs_at(text, needle, at);
        Some(text.take(at))
    } else {
        None
    }
}

/// There is one first occurrence.
proof fn lemma_first_is_unique(text: Seq<char>, needle: Seq<char>, at: int)
    requires
        first_occurs_at(text, needle, at),
    ensures
        occurs(text, needle),
        (choose|k: int| first_occurs_at(text, needle, k)) == at,
{
    let k = choose|k: int| first_occurs_at(text, needle, k);
    assert(first_occurs_at(text, needle, k));
    if k < at {
        assert(!occurs_at(text, needle, k));
    } else if at < k {
        assert(!occurs_at(text, needle, at));
    }
}

/// Splits off what follows the first occurrence.
fn split_after(text: &[char], needle: &[char]) -> (rest: Option<Vec<char>>)
    ensures
        match rest {
            Some(rest) => text_after(text@, needle@) == Some(rest@),
            None => text_after(text@, needle@) is None,
        },
{
    match find(text, needle) {
        Some(at) => {
            proof {
                lemma_first_is_unique(text@, needle@, at as int);
                assert(text.len() == text@.len());
            }
            let rest = chars_between(text, at + needle.len(), text.len());
            assert(rest@ =~= text@.skip(at + needle@.len()));
            Some(rest)
        },
        None => None,
    }
}

/// Splits off what stands in front of the first occurrence.
fn split_before(text: &[char], needle: &[char]) -> (front: Option<Vec<char>>)
    ensures
        match front {
            Some(front) => text_before(text@, needle@) == Some(front@),
            None => text_before(text@, needle@) is None,
        },
{
    match find(text, needle) {
        Some(at) => {
            proof {
                lemma_first_is_unique(text@, needle@, at as int);
            }
            let front = chars_between(text, 0, at);
            assert(front@ =~= text@.take(at as int));
            Some(front)
        },
        None => None,
    }
}

/// Whether a string contains another.
pub fn contains_text(text: &str, needle: &str) -> (found: bool)
    ensures
        found == occurs(text@, needle@),
{
    match find(&chars_of(text), &chars_of(needle)) {
        Some(at) => {
            assert(occurs_at(text@, needle@, at as int));
            true
        },
        None => false,
    }
}

// ---------------------------------------------------------------------------
// Classification
// ---------------------------------------------------------------------------

/// The resource that a formatting helper ran out of, if it did.
pub open spec fn helper_resource(error: HostBuildError) -> Option<CapacityResource> {
    match innermost(error) {
        HostBuildError::GuardStatus { stage, status, diagnostic } => {
            let blocks = occurs(diagnostic@, "Could not allocate block in ext2 filesystem"@);
            let inodes = occurs(diagnostic@, "Could not allocate inode in ext2 filesystem"@);
            if stage@ != FORMAT_PAYLOAD_STAGE@ && stage@ != FORMAT_TARGET_STAGE@ {
                None
            } else if blocks && inodes {
                Some(CapacityResource::BlocksAndInodes)
            } else if blocks {
                Some(CapacityResource::Blocks)
            } else if inodes {
                Some(CapacityResource::Inodes)
            } else {
                None
            }
        },
        _ => None,
    }
}

pub fn helper_capacity_resource(error: &HostBuildError) -> (resource: Option<CapacityResource>)
    ensures
        resource == helper_resource(*error),
{
    match innermost_build_error(error) {
        HostBuildError::GuardStatus { stage, status: _, diagnostic } => {
            if !same_text(stage, FORMAT_PAYLOAD_STAGE) && !same_text(
                stage,
                FORMAT_TARGET_STAGE,
            ) {
                return None;
            }
            let blocks = contains_text(
                diagnostic,
                "Could not allocate block in ext2 filesystem",
            );
            let inodes = contains_text(
                diagnostic,
                "Could not allocate inode in ext2 filesystem",
            );
            if blocks && inodes {
                Some(CapacityResource::BlocksAndInodes)
            } else if blocks {
                Some(CapacityResource::Blocks)
            } else if inodes {
                Some(CapacityResource::Inodes)
            } else {
                None
            }
        },
        _ => None,
    }
}

/// The token that a guest names a resource with: it stands between the first
/// `target ` and the first ` capacity exhausted` after it.
pub open spec fn resource_token(diagnostic: Seq<char>) -> Option<Seq<char>> {
    match text_after(diagnostic, "target "@) {
        Some(rest) => text_before(rest, " capacity exhausted"@),
        None => None,
    }
}

/// The resource that a token names.
pub open spec fn named_resource(token: Option<Seq<char>>) -> CapacityResource {
    match token {
        Some(token) => if token == "block-and-inode"@ {
            CapacityResource::BlocksAndInodes
        } else if token == "block"@ {
            CapacityResource::Blocks
        } else if token == "inode"@ {
            CapacityResource::Inodes
        } else {
            CapacityResource::BlockOrInode
        },
        None => CapacityResource::BlockOrInode,
    }
}

/// The resource that a guest ran out of, if it did.
pub open spec fn guest_resource(error: HostBuildError) -> Option<CapacityResource> {
    match innermost(error) {
        HostBuildError::Guest { stage, message } => if message.errno == Some(ENOSPC) {
            Some(named_resource(resource_token(message.diagnostic@)))
        } else {
            None
        },
        _ => None,
    }
}

/// The guest names the exhausted resource exactly, as one token between
/// `target ` and ` capacity exhausted`. Substring tests are not good enough:
/// `block-and-inode` contains `inode`, so a loose match reads a build that ran
/// out of both as inode-only and retries with the same block budget that just
/// failed.
pub fn guest_capacity_resource(error: &HostBuildError) -> (resource: Option<CapacityResource>)
    ensures
        resource == guest_resource(*error),
{
    match innermost_build_error(error) {
        HostBuildError::Guest { stage: _, message } => {
            match message.errno {
                Some(errno) => {
                    if errno != ENOSPC {
                        return None;
                    }
                },
                None => {
                    return None;
                },
            }
            let rest = split_after(&chars_of(&message.diagnostic), &chars_of("target "));
            let token = match rest {
                Some(rest) => split_before(&rest, &chars_of(" capacity exhausted")),
                None => None,
            };
            match token {
                Some(token) => if chars_are(&token, "block-and-inode") {
                    Some(CapacityResource::BlocksAndInodes)
                } else if chars_are(&token, "block") {
                    Some(CapacityResource::Blocks)
                } else if chars_are(&token, "inode") {
                    Some(CapacityResource::Inodes)
                } else {
                    Some(CapacityResource::BlockOrInode)
                },
                None => Some(CapacityResource::BlockOrInode),
            }
        },
        _ => None,
    }
}

/// The size of a further attempt: only the first may be followed by one.
pub open spec fn next_attempt(attempt: nat, sizing: FilesystemSizing) -> Option<FilesystemSize> {
    if attempt == 1 {
        sizing.retry
    } else {
        None
    }
}

pub fn capacity_retry(attempt: u8, sizing: FilesystemSizing) -> (retry: Option<FilesystemSize>)
    ensures
        retry == next_attempt(attempt as nat, sizing),
{
    if attempt == 1 {
        sizing.retry
    } else {
        None
    }
}

/// Attaching the guest console to a failure does not change how it is
/// classified.
pub proof fn law_wrapping_keeps_the_classification(error: HostBuildError, wrapped: HostBuildError)
    requires
        wrapped is GuestProtocol,
        *wrapped->GuestProtocol_source == error,
    ensures
        helper_resource(wrapped) == helper_resource(error),
        guest_resource(wrapped) == guest_resource(error),
{
}

/// Only a full filesystem inside a formatting helper or a guest that reports
/// exhausted space earns a further attempt; every other failure is final.
pub proof fn law_only_typed_failures_are_retried(error: HostBuildError)
    ensures
        helper_resource(error) is Some ==> {
            &&& innermost(error) is GuardStatus
            &&& innermost(error)->GuardStatus_stage@ == FORMAT_PAYLOAD_STAGE@
                || innermost(error)->GuardStatus_stage@ == FORMAT_TARGET_STAGE@
            &&& occurs(
                innermost(error)->GuardStatus_diagnostic@,
                "Could not allocate block in ext2 filesystem"@,
            ) || occurs(
                innermost(error)->GuardStatus_diagnostic@,
                "Could not allocate inode in ext2 filesystem"@,
            )
        },
        guest_resource(error) is Some <==> innermost(error) is Guest
            && innermost(error)->Guest_message.errno == Some(ENOSPC),
        !(helper_resource(error) is Some && guest_resource(error) is Some),
{
}

/// What a helper ran out of: blocks, inodes or both, as its own words say, and
/// only where it was formatting.
pub proof fn law_helper_says_what_ran_out(error: HostBuildError, resource: Option<CapacityResource>)
    requires
        call_ensures(helper_capacity_resource, (&error,), resource),
        !(error is GuestProtocol),
    ensures
        resource is Some <==> {
            &&& error is GuardStatus
            &&& error->GuardStatus_stage@ == "format-payload"@ || error->GuardStatus_stage@
                == "format-target"@
            &&& occurs(
                error->GuardStatus_diagnostic@,
                "Could not allocate block in ext2 filesystem"@,
            ) || occurs(
                error->GuardStatus_diagnostic@,
                "Could not allocate inode in ext2 filesystem"@,
            )
        },
        resource == Some(CapacityResource::Blocks) ==> !occurs(
            error->GuardStatus_diagnostic@,
            "Could not allocate inode in ext2 filesystem"@,
        ),
        resource == Some(CapacityResource::Inodes) ==> !occurs(
            error->GuardStatus_diagnostic@,
            "Could not allocate block in ext2 filesystem"@,
        ),
        resource == Some(CapacityResource::BlocksAndInodes) ==> occurs(
            error->GuardStatus_diagnostic@,
            "Could not allocate block in ext2 filesystem"@,
        ) && occurs(
            error->GuardStatus_diagnostic@,
            "Could not allocate inode in ext2 filesystem"@,
        ),
        resource != Some(CapacityResource::BlockOrInode),
{
}

/// What a guest ran out of is the word in `target ... capacity exhausted`, and
/// only where it found no space left.
pub proof fn law_guest_says_what_ran_out(error: HostBuildError, resource: Option<CapacityResource>)
    requires
        call_ensures(guest_capacity_resource, (&error,), resource),
        !(error is GuestProtocol),
    ensures
        resource is Some <==> error is Guest && error->Guest_message.errno == Some(28i32),
        resource is Some ==> ({
            let token = match text_after(error->Guest_message.diagnostic@, "target "@) {
                Some(rest) => text_before(rest, " capacity exhausted"@),
                None => None,
            };
            &&& resource == Some(CapacityResource::Blocks) <==> (token matches Some(word) && word
                == "block"@)
            &&& resource == Some(CapacityResource::Inodes) <==> (token matches Some(word) && word
                == "inode"@)
            &&& resource == Some(CapacityResource::BlocksAndInodes) <==> (token matches Some(word)
                && word == "block-and-inode"@)
        }),
{
    reveal_strlit("block");
    reveal_strlit("inode");
    reveal_strlit("block-and-inode");
    assert("block"@[0] == 'b' && "inode"@[0] == 'i');
    assert("block"@.len() == 5 && "inode"@.len() == 5 && "block-and-inode"@.len() == 15);
}

/// Text is cut at the first place where the needle stands.
pub proof fn law_text_is_cut_at_the_needle(text: Seq<char>, needle: Seq<char>)
    requires
        occurs(text, needle),
    ensures
        text_before(text, needle) is Some,
        text_after(text, needle) is Some,
        text == text_before(text, needle)->Some_0 + needle + text_after(text, needle)->Some_0,
        forall|k: int|
            0 <= k < text_before(text, needle)->Some_0.len() ==> !#[trigger] occurs_at(
                text,
                needle,
                k,
            ),
{
    let some = choose|at: int| occurs_at(text, needle, at);
    lemma_first_occurrence(text, needle, some);
    let at = choose|at: int| first_occurs_at(text, needle, at);
    assert(text =~= text.take(at) + needle + text.skip(at + needle.len()));
}

proof fn lemma_first_occurrence(text: Seq<char>, needle: Seq<char>, at: int)
    requires
        occurs_at(text, needle, at),
    ensures
        exists|first: int| first_occurs_at(text, needle, first),
    decreases at,
{
    if exists|k: int| 0 <= k < at && #[trigger] occurs_at(text, needle, k) {
        let k = choose|k: int| 0 <= k < at && #[trigger] occurs_at(text, needle, k);
        lemma_first_occurrence(text, needle, k);
    } else {
        assert(first_occurs_at(text, needle, at));
    }
}

/// A build is tried again once, with the next size.
pub proof fn law_build_is_retried_once(
    attempt: u8,
    sizing: FilesystemSizing,
    retry: Option<FilesystemSize>,
)
    requires
        call_ensures(capacity_retry, (attempt, sizing), retry),
    ensures
        attempt == 1 ==> retry == sizing.retry,
        attempt != 1 ==> retry is None,
{
}

/// Each resource has its name.
pub proof fn law_resources_have_their_names(resource: CapacityResource, name: &'static str)
    requires
        call_ensures(CapacityResource::as_str, (resource,), name),
    ensures
        resource is Blocks ==> name@ == "blocks"@,
        resource is Inodes ==> name@ == "inodes"@,
        resource is BlocksAndInodes ==> name@ == "blocks-and-inodes"@,
        resource is BlockOrInode ==> name@ == "block-or-inode"@,
{
}

} // verus!
