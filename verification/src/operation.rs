//! Reclamation of operation directories whose owner is gone.
//!
//! A run or build directory lives under the runtime root for exactly one
//! operation and is removed when that operation ends. A process killed by a
//! signal never gets there. Without a sweep the runtime root gains one
//! abandoned directory per killed invocation and never loses it.
//!
//! Ownership is an exclusive lock on the directory's `owner.lock`, held for the
//! operation's whole life. A sweeper that can take that lock knows the owner is
//! gone, because the kernel releases the lock when the owning process dies
//! however it dies. Creation holds a shared lock on the root's sweep file and
//! the sweep takes it exclusively, so a sweep can never observe a half-built
//! directory.

use vstd::prelude::*;
use vstd::utf8::encode_utf8;

use crate::digest::{hex_of, hex_text};
use crate::path::{join_path, joined};
use crate::text::{chars_of, has_prefix, join, parse_word, parsed_word, starts_with};

verus! {

pub const SWEEP_LOCK: &'static str = ".sweep.lock";

pub const OWNER_LOCK: &'static str = "owner.lock";

/// The lock that creations share and a sweep takes alone.
pub fn sweep_lock_path(root: &str) -> (path: String)
    ensures
        path@ == joined(root@, SWEEP_LOCK@),
{
    join_path(root, SWEEP_LOCK)
}

/// The lock that the owner of an operation holds.
pub fn owner_lock_path(directory: &str) -> (path: String)
    ensures
        path@ == joined(directory@, OWNER_LOCK@),
{
    join_path(directory, OWNER_LOCK)
}

/// The name of an operation's directory: its kind's prefix and its opaque
/// identifier.
pub fn operation_name(prefix: &str, identifier: &[u8]) -> (name: String)
    requires
        2 * identifier@.len() <= isize::MAX,
    ensures
        name@ == prefix@ + hex_of(identifier@),
{
    join(prefix, &hex_text(identifier))
}

// ---------------------------------------------------------------------------
// The sweep
// ---------------------------------------------------------------------------

/// What is known of the directory behind an entry's name.
#[derive(Debug, Clone, Copy, PartialEq, Eq, Structural)]
pub enum EntryFact {
    Unknown,
    /// Raced with another reclaimer or with a normal cleanup.
    Missing,
    Failed,
    Found { directory: bool, device: u64 },
}

/// What is known of an entry's owner lock.
#[derive(Debug, Clone, Copy, PartialEq, Eq, Structural)]
pub enum OwnerFact {
    Unknown,
    /// There is no owner lock. The sweep never creates one: that would hand it
    /// an uncontended lock on exactly the directories it must leave alone.
    Absent,
    Failed,
    /// Somebody holds the lock.
    Held,
    /// The sweep has taken the lock, so no live process owns the directory.
    Taken,
}

/// One entry of the runtime root, as far as it is known. The name is absent
/// when it is not text.
#[derive(Debug)]
pub struct SweepEntry {
    pub name: Option<String>,
    pub entry: EntryFact,
    pub owner: OwnerFact,
}

/// What a sweep does next with an entry.
#[derive(Debug, Clone, Copy, PartialEq, Eq, Structural)]
pub enum SweepStep {
    /// Leave it exactly as it is.
    Skip,
    /// Find out what the entry is.
    Inspect,
    /// Open the entry's owner lock, if it has one, and try to take it.
    TakeOwner,
    /// Kill what still names the directory, and remove it.
    Remove,
    /// The sweep ends with the failure.
    Fail,
}

/// Whether the entry bears a name of the swept kind.
pub open spec fn is_swept_name(name: Option<String>, prefix: Seq<char>) -> bool {
    match name {
        Some(name) => starts_with(name@, prefix),
        None => false,
    }
}

/// What a sweep does next with an entry. `alone` says that the sweep holds the
/// root's lock alone.
pub open spec fn swept(alone: bool, prefix: Seq<char>, device: u64, entry: SweepEntry) -> SweepStep {
    if !alone || !is_swept_name(entry.name, prefix) {
        SweepStep::Skip
    } else {
        match entry.entry {
            EntryFact::Unknown => SweepStep::Inspect,
            EntryFact::Missing => SweepStep::Skip,
            EntryFact::Failed => SweepStep::Fail,
            EntryFact::Found { directory, device: own } => if !directory || own != device {
                SweepStep::Skip
            } else {
                match entry.owner {
                    OwnerFact::Unknown => SweepStep::TakeOwner,
                    OwnerFact::Absent => SweepStep::Skip,
                    OwnerFact::Held => SweepStep::Skip,
                    OwnerFact::Failed => SweepStep::Fail,
                    OwnerFact::Taken => SweepStep::Remove,
                }
            },
        }
    }
}

/// Decides what a sweep does next with an entry of the root.
///
/// A directory that is still owned, that has no owner lock at all, or that is
/// not a plain directory on the root's own device is left exactly as it is:
/// this reclaims abandoned work, it does not clean up anything it does not
/// fully recognize.
pub fn sweep_step(alone: bool, prefix: &str, device: u64, entry: &SweepEntry) -> (step: SweepStep)
    ensures
        step == swept(alone, prefix@, device, *entry),
{
    if !alone {
        return SweepStep::Skip;
    }
    match &entry.name {
        None => {
            return SweepStep::Skip;
        },
        Some(name) => {
            if !has_prefix(&chars_of(name), &chars_of(prefix)) {
                return SweepStep::Skip;
            }
        },
    }
    match entry.entry {
        EntryFact::Unknown => SweepStep::Inspect,
        EntryFact::Missing => SweepStep::Skip,
        EntryFact::Failed => SweepStep::Fail,
        EntryFact::Found { directory, device: own } => {
            if !directory || own != device {
                return SweepStep::Skip;
            }
            match entry.owner {
                OwnerFact::Unknown => SweepStep::TakeOwner,
                OwnerFact::Absent => SweepStep::Skip,
                OwnerFact::Held => SweepStep::Skip,
                OwnerFact::Failed => SweepStep::Fail,
                OwnerFact::Taken => SweepStep::Remove,
            }
        },
    }
}

/// Only a fully recognized, abandoned operation is removed: a directory of the
/// swept kind on the root's own device, whose owner lock the sweep has taken
/// while it held the root alone.
pub proof fn law_only_abandoned_operations_are_removed(
    alone: bool,
    prefix: Seq<char>,
    device: u64,
    entry: SweepEntry,
)
    ensures
        swept(alone, prefix, device, entry) is Remove <==> {
            &&& alone
            &&& is_swept_name(entry.name, prefix)
            &&& entry.entry == (EntryFact::Found { directory: true, device })
            &&& entry.owner is Taken
        },
{
}

/// A sweep that does not hold the root alone, because another sweeper or a
/// creation holds it, touches no entry.
pub proof fn law_blocked_sweep_touches_nothing(prefix: Seq<char>, device: u64, entry: SweepEntry)
    ensures
        swept(false, prefix, device, entry) is Skip,
{
}

// ---------------------------------------------------------------------------
// What a dead owner left running
// ---------------------------------------------------------------------------

/// Whether the process behind an entry of the process table may be signalled:
/// the entry's name is a process identifier, and not that of this process.
pub open spec fn target_process(name: Seq<char>, own: u32) -> Option<u32> {
    match parsed_word(name) {
        Some(process) => if process <= u32::MAX && process != own {
            Some(process as u32)
        } else {
            None
        },
        None => None,
    }
}

/// The process that an entry of the process table stands for, unless it is
/// this one.
pub fn signal_target(name: &str, own: u32) -> (process: Option<u32>)
    ensures
        process == target_process(name@, own),
{
    match parse_word(&chars_of(name)) {
        Some(process) => {
            if process <= u32::MAX as u64 && process != own as u64 {
                Some(process as u32)
            } else {
                None
            }
        },
        None => None,
    }
}

/// Whether `needle` stands at `at` inside one argument of a command line whose
/// arguments are separated by zero bytes.
pub open spec fn stands_at(command: Seq<u8>, needle: Seq<u8>, at: int) -> bool {
    &&& 0 <= at
    &&& at + needle.len() <= command.len()
    &&& forall|k: int|
        0 <= k < needle.len() ==> #[trigger] needle[k] != 0 && command[at + k] == needle[k]
}

/// Whether one argument of a command line names `needle`.
pub open spec fn is_named_by(command: Seq<u8>, needle: Seq<u8>) -> bool {
    exists|at: int| stands_at(command, needle, at)
}

/// Whether a command line names a path in any single argument. Matching on the
/// command line is safe because the directory's name carries a random
/// identifier: no unrelated process can name it, and it is never reused.
pub fn names_path(command: &[u8], path: &str) -> (named: bool)
    requires
        path@.len() > 0,
    ensures
        named == is_named_by(command@, encode_utf8(path@)),
{
    let needle = path.as_bytes();
    let ghost wanted = encode_utf8(path@);
    assert(needle@ == wanted);
    let width: usize = needle.len();
    if width > command.len() {
        assert(forall|at: int| !stands_at(command@, wanted, at));
        return false;
    }
    let mut at: usize = 0;
    while at <= command.len() - width
        invariant
            at <= command@.len() - width + 1,
            width == needle@.len(),
            width <= command@.len(),
            needle@ == wanted,
            wanted == encode_utf8(path@),
            forall|earlier: int| 0 <= earlier < at ==> !stands_at(command@, wanted, earlier),
        decreases command@.len() - at + 1,
    {
        let mut matched: usize = 0;
        while matched < width && needle[matched] != 0 && command[at + matched] == needle[matched]
            invariant
                matched <= width,
                width == needle@.len(),
                at + width <= command.len(),
                needle@ == wanted,
                forall|k: int|
                    0 <= k < matched ==> #[trigger] wanted[k] != 0 && command@[at + k] == wanted[k],
            decreases width - matched,
        {
            matched += 1;
        }
        if matched == width {
            assert(stands_at(command@, wanted, at as int));
            return true;
        }
        assert(!stands_at(command@, wanted, at as int)) by {
            let k = matched as int;
            assert(wanted[k] == 0 || command@[at + k] != wanted[k]);
        }
        if at == command.len() - width {
            assert(forall|later: int| later > at ==> !stands_at(command@, wanted, later));
            return false;
        }
        at += 1;
    }
    false
}

/// The locks and the names of operations.
pub proof fn law_locks_have_their_names(
    directory: &str,
    sweep: String,
    owner: String,
    prefix: &str,
    identifier: &[u8],
    name: String,
)
    requires
        2 * identifier@.len() <= isize::MAX,
        call_ensures(sweep_lock_path, (directory,), sweep),
        call_ensures(owner_lock_path, (directory,), owner),
        call_ensures(operation_name, (prefix, identifier), name),
    ensures
        sweep@ == joined(directory@, ".sweep.lock"@),
        owner@ == joined(directory@, "owner.lock"@),
        name@ == prefix@ + hex_of(identifier@),
{
}

/// A sweep looks at what it does not know, takes the lock of a directory of its
/// own device, removes what nobody owns, fails where it cannot tell, and leaves
/// everything else.
pub proof fn law_sweep_goes_step_by_step(
    alone: bool,
    prefix: &str,
    device: u64,
    entry: SweepEntry,
    step: SweepStep,
)
    requires
        call_ensures(sweep_step, (alone, prefix, device, &entry), step),
    ensures
        ({
            let own = alone && (entry.name matches Some(name) && starts_with(name@, prefix@));
            let found = entry.entry == (EntryFact::Found { directory: true, device });
            &&& step is Inspect <==> own && entry.entry is Unknown
            &&& step is TakeOwner <==> own && found && entry.owner is Unknown
            &&& step is Remove <==> own && found && entry.owner is Taken
            &&& step is Fail <==> own && (entry.entry is Failed || (found && entry.owner is Failed))
        }),
{
}

/// A process is signalled by its number, which is not one's own.
pub proof fn law_own_process_is_never_signalled(name: &str, own: u32, process: Option<u32>)
    requires
        call_ensures(signal_target, (name, own), process),
    ensures
        process matches Some(process) ==> process != own && parsed_word(name@) == Some(
            process as u64,
        ),
        process is None ==> parsed_word(name@) is None || parsed_word(name@)->Some_0 > 0xffff_ffff
            || parsed_word(name@)->Some_0 == own,
{
}

/// A command names a path where the path's bytes stand in it, wherever that is.
pub proof fn law_command_names_a_path_it_holds(before: Seq<u8>, path: Seq<u8>, after: Seq<u8>)
    requires
        forall|i: int| 0 <= i < path.len() ==> #[trigger] path[i] != 0,
    ensures
        is_named_by(before + path + after, path),
        forall|command: Seq<u8>| #[trigger]
            is_named_by(command, path) ==> exists|front: Seq<u8>, back: Seq<u8>|
                command == #[trigger] (front + path + back),
{
    assert(stands_at(before + path + after, path, before.len() as int));
    assert forall|command: Seq<u8>| #[trigger] is_named_by(command, path) implies exists|
        front: Seq<u8>,
        back: Seq<u8>,
    | command == #[trigger] (front + path + back) by {
        let at = choose|at: int| stands_at(command, path, at);
        assert(command =~= command.take(at) + path + command.skip(at + path.len()));
    }
}

} // verus!
