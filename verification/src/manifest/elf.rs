//! Static x86_64 ELF executables.

use vstd::prelude::*;

use crate::bytes::{law_stored_numbers_weigh_their_bytes, le_u16, le_u32, le_u64, little_endian};
use crate::error::{first_of, manifest_fault, ManifestError, ManifestFault};
use crate::manifest::EM_X86_64;
use crate::text::{decimal, decimal_text, join, join3};

verus! {

/// Bytes of an ELF64 header.
pub const HEADER_BYTES: usize = 64;

/// Bytes of an ELF64 program header.
pub const PROGRAM_HEADER_BYTES: u64 = 56;

/// Bytes of an ELF64 dynamic-table entry.
pub const DYNAMIC_ENTRY_BYTES: u64 = 16;

pub const PT_LOAD: u32 = 1;

pub const PT_DYNAMIC: u32 = 2;

pub const PT_INTERP: u32 = 3;

pub const DT_NULL: u64 = 0;

pub const DT_NEEDED: u64 = 1;

pub open spec fn elf_refused(path: Seq<char>, reason: Seq<char>) -> ManifestFault {
    ManifestFault::Elf { path, reason }
}

/// The tag of the dynamic entry number `i` of the table at `offset`.
pub open spec fn dynamic_tag(bytes: Seq<u8>, offset: int, i: int) -> nat {
    little_endian(bytes, offset + i * DYNAMIC_ENTRY_BYTES, 8)
}

/// What is wrong with a dynamic table from its entry number `i` on: it must
/// reach its terminator before it names a needed library.
pub open spec fn dynamic_entries_fault(
    path: Seq<char>,
    bytes: Seq<u8>,
    offset: int,
    i: int,
    count: int,
) -> Option<ManifestFault>
    decreases count - i,
{
    if i >= count {
        Some(elf_refused(path, "PT_DYNAMIC table has no DT_NULL terminator"@))
    } else if dynamic_tag(bytes, offset, i) == DT_NEEDED {
        Some(
            elf_refused(
                path,
                "profile declares static linkage but ELF contains DT_NEEDED"@,
            ),
        )
    } else if dynamic_tag(bytes, offset, i) == DT_NULL {
        None
    } else {
        dynamic_entries_fault(path, bytes, offset, i + 1, count)
    }
}

/// What is wrong with the dynamic table that the program header at `at`
/// describes.
pub open spec fn dynamic_fault(path: Seq<char>, bytes: Seq<u8>, at: int) -> Option<
    ManifestFault,
> {
    let offset = little_endian(bytes, at + 8, 8);
    let file_size = little_endian(bytes, at + 32, 8);
    if offset + file_size > u64::MAX {
        Some(elf_refused(path, "PT_DYNAMIC range overflow"@))
    } else if file_size == 0 || file_size % (DYNAMIC_ENTRY_BYTES as nat) != 0 || offset + file_size
        > bytes.len() {
        Some(elf_refused(path, "PT_DYNAMIC table is outside the file or malformed"@))
    } else {
        dynamic_entries_fault(
            path,
            bytes,
            offset as int,
            0,
            (file_size / (DYNAMIC_ENTRY_BYTES as nat)) as int,
        )
    }
}

pub open spec fn segment_type(bytes: Seq<u8>, table: int, i: int) -> nat {
    little_endian(bytes, table + i * PROGRAM_HEADER_BYTES, 4)
}

/// What is wrong with the program header number `i`.
pub open spec fn segment_fault(path: Seq<char>, bytes: Seq<u8>, table: int, i: int) -> Option<
    ManifestFault,
> {
    if segment_type(bytes, table, i) == PT_DYNAMIC {
        dynamic_fault(path, bytes, table + i * PROGRAM_HEADER_BYTES)
    } else if segment_type(bytes, table, i) == PT_INTERP {
        Some(
            elf_refused(
                path,
                "profile declares static linkage but ELF contains PT_INTERP"@,
            ),
        )
    } else {
        None
    }
}

/// What is wrong with the first `count` program headers.
pub open spec fn segments_fault(path: Seq<char>, bytes: Seq<u8>, table: int, count: nat) -> Option<
    ManifestFault,
>
    decreases count,
{
    if count == 0 {
        None
    } else {
        first_of(
            segments_fault(path, bytes, table, (count - 1) as nat),
            segment_fault(path, bytes, table, count - 1),
        )
    }
}

pub open spec fn has_load_segment(bytes: Seq<u8>, table: int, count: nat) -> bool {
    exists|i: int| 0 <= i < count && #[trigger] segment_type(bytes, table, i) == PT_LOAD
}

/// Why the bytes are no static x86_64 executable, if they are none.
pub open spec fn elf_fault(path: Seq<char>, bytes: Seq<u8>) -> Option<ManifestFault> {
    let machine = little_endian(bytes, 18, 2);
    let table = little_endian(bytes, 32, 8);
    let count = little_endian(bytes, 56, 2);
    if bytes.len() < HEADER_BYTES {
        Some(ManifestFault::Truncated { operation: "read ELF header"@, path })
    } else if bytes.take(4) != seq![0x7fu8, 0x45u8, 0x4cu8, 0x46u8] {
        Some(elf_refused(path, "missing ELF magic"@))
    } else if bytes[4] != 2 || bytes[5] != 1 || bytes[6] != 1 {
        Some(elf_refused(path, "requires ELF64 little-endian version 1"@))
    } else if little_endian(bytes, 16, 2) != 2 && little_endian(bytes, 16, 2) != 3 {
        Some(elf_refused(path, "requires ET_EXEC or ET_DYN"@))
    } else if machine != EM_X86_64 {
        Some(
            elf_refused(
                path,
                "expected e_machine "@ + decimal(EM_X86_64 as nat) + ", observed "@ + decimal(
                    machine,
                ),
            ),
        )
    } else if little_endian(bytes, 52, 2) != 64 {
        Some(elf_refused(path, "unexpected ELF header size"@))
    } else if count == 0 || count > 1024 || little_endian(bytes, 54, 2) != PROGRAM_HEADER_BYTES {
        Some(elf_refused(path, "invalid program-header table shape"@))
    } else if table + count * PROGRAM_HEADER_BYTES > u64::MAX {
        Some(elf_refused(path, "program-header table overflow"@))
    } else if table + count * PROGRAM_HEADER_BYTES > bytes.len() {
        Some(elf_refused(path, "program-header table is outside the file"@))
    } else {
        first_of(
            segments_fault(path, bytes, table as int, count),
            if has_load_segment(bytes, table as int, count) {
                None
            } else {
                Some(elf_refused(path, "ELF has no PT_LOAD segment"@))
            },
        )
    }
}

fn elf(path: &str, reason: &str) -> (error: ManifestError)
    ensures
        error@ == elf_refused(path@, reason@),
{
    ManifestError::Elf { path: path.to_owned(), reason: reason.to_owned() }
}

/// A refusal among the first headers is the refusal of the whole table.
proof fn lemma_segments_prefix(path: Seq<char>, bytes: Seq<u8>, table: int, n: nat, count: nat)
    requires
        n <= count,
        segments_fault(path, bytes, table, n) is Some,
    ensures
        segments_fault(path, bytes, table, count) == segments_fault(path, bytes, table, n),
    decreases count - n,
{
    if n < count {
        lemma_segments_prefix(path, bytes, table, n, (count - 1) as nat);
    }
}

/// Refuses bytes that are not a static x86_64 ELF executable.
pub fn verify_static_x86_64_elf(path: &str, bytes: &[u8]) -> (checked: Result<(), ManifestError>)
    ensures
        manifest_fault(checked) == elf_fault(path@, bytes@),
{
    if bytes.len() < HEADER_BYTES {
        return Err(
            ManifestError::Truncated { operation: "read ELF header", path: path.to_owned() },
        );
    }
    if bytes[0] != 0x7f || bytes[1] != 0x45 || bytes[2] != 0x4c || bytes[3] != 0x46 {
        proof {
            let magic = seq![0x7fu8, 0x45u8, 0x4cu8, 0x46u8];
            let head = bytes@.take(4);
            assert(head[0] != magic[0] || head[1] != magic[1] || head[2] != magic[2] || head[3]
                != magic[3]);
        }
        return Err(elf(path, "missing ELF magic"));
    }
    assert(bytes@.take(4) =~= seq![0x7fu8, 0x45u8, 0x4cu8, 0x46u8]);
    if bytes[4] != 2 || bytes[5] != 1 || bytes[6] != 1 {
        return Err(elf(path, "requires ELF64 little-endian version 1"));
    }
    let elf_type: u16 = le_u16(bytes, 16);
    if elf_type != 2 && elf_type != 3 {
        return Err(elf(path, "requires ET_EXEC or ET_DYN"));
    }
    let machine: u16 = le_u16(bytes, 18);
    if machine != EM_X86_64 {
        let expected = join3("expected e_machine ", &decimal_text(EM_X86_64 as u64), ", observed ");
        return Err(elf(path, &join(&expected, &decimal_text(machine as u64))));
    }
    if le_u16(bytes, 52) != 64 {
        return Err(elf(path, "unexpected ELF header size"));
    }
    let table: u64 = le_u64(bytes, 32);
    let entry_bytes: u16 = le_u16(bytes, 54);
    let count: u16 = le_u16(bytes, 56);
    if count == 0 || count > 1024 || entry_bytes as u64 != PROGRAM_HEADER_BYTES {
        return Err(elf(path, "invalid program-header table shape"));
    }
    let end: u64 = match table.checked_add(count as u64 * PROGRAM_HEADER_BYTES) {
        Some(end) => end,
        None => {
            return Err(elf(path, "program-header table overflow"));
        },
    };
    if end > bytes.len() as u64 {
        return Err(elf(path, "program-header table is outside the file"));
    }
    let mut has_load = false;
    let mut i: u16 = 0;
    while i < count
        invariant
            i <= count <= 1024,
            table + count * PROGRAM_HEADER_BYTES <= bytes@.len(),
            bytes@.len() <= usize::MAX,
            segments_fault(path@, bytes@, table as int, i as nat) is None,
            has_load == has_load_segment(bytes@, table as int, i as nat),
            elf_fault(path@, bytes@) == first_of(
                segments_fault(path@, bytes@, table as int, count as nat),
                if has_load_segment(bytes@, table as int, count as nat) {
                    None
                } else {
                    Some(elf_refused(path@, "ELF has no PT_LOAD segment"@))
                },
            ),
        decreases count - i,
    {
        let at: usize = (table + i as u64 * PROGRAM_HEADER_BYTES) as usize;
        let kind: u32 = le_u32(bytes, at);
        assert(kind == segment_type(bytes@, table as int, i as int));
        if kind == PT_DYNAMIC {
            if let Err(error) = verify_dynamic_table_has_no_needed(path, bytes, at) {
                proof {
                    lemma_segments_prefix(
                        path@,
                        bytes@,
                        table as int,
                        (i + 1) as nat,
                        count as nat,
                    );
                }
                return Err(error);
            }
        } else if kind == PT_INTERP {
            proof {
                lemma_segments_prefix(path@, bytes@, table as int, (i + 1) as nat, count as nat);
            }
            return Err(elf(path, "profile declares static linkage but ELF contains PT_INTERP"));
        }
        proof {
            if kind != PT_LOAD && has_load_segment(bytes@, table as int, (i + 1) as nat) {
                let k = choose|k: int|
                    0 <= k < i + 1 && #[trigger] segment_type(bytes@, table as int, k) == PT_LOAD;
                assert(k < i);
            }
            if has_load {
                let k = choose|k: int|
                    0 <= k < i && #[trigger] segment_type(bytes@, table as int, k) == PT_LOAD;
                assert(0 <= k < i + 1);
            }
        }
        if kind == PT_LOAD {
            has_load = true;
        }
        i += 1;
    }
    if !has_load {
        return Err(elf(path, "ELF has no PT_LOAD segment"));
    }
    Ok(())
}

/// Refuses a dynamic table that is malformed or names a needed library.
pub fn verify_dynamic_table_has_no_needed(path: &str, bytes: &[u8], at: usize) -> (checked: Result<
    (),
    ManifestError,
>)
    requires
        at + PROGRAM_HEADER_BYTES <= bytes@.len(),
    ensures
        manifest_fault(checked) == dynamic_fault(path@, bytes@, at as int),
{
    assert(bytes.len() == bytes@.len());
    let offset: u64 = le_u64(bytes, at + 8);
    let file_size: u64 = le_u64(bytes, at + 32);
    let end: u64 = match offset.checked_add(file_size) {
        Some(end) => end,
        None => {
            return Err(elf(path, "PT_DYNAMIC range overflow"));
        },
    };
    if file_size == 0 || file_size % DYNAMIC_ENTRY_BYTES != 0 || end > bytes.len() as u64 {
        return Err(elf(path, "PT_DYNAMIC table is outside the file or malformed"));
    }
    let count: u64 = file_size / DYNAMIC_ENTRY_BYTES;
    let mut i: u64 = 0;
    while i < count
        invariant
            i <= count,
            count * DYNAMIC_ENTRY_BYTES == file_size,
            offset + file_size <= bytes@.len() <= usize::MAX,
            dynamic_fault(path@, bytes@, at as int) == dynamic_entries_fault(
                path@,
                bytes@,
                offset as int,
                i as int,
                count as int,
            ),
        decreases count - i,
    {
        let entry: usize = (offset + i * DYNAMIC_ENTRY_BYTES) as usize;
        let tag: u64 = le_u64(bytes, entry);
        assert(tag == dynamic_tag(bytes@, offset as int, i as int));
        if tag == DT_NEEDED {
            return Err(elf(path, "profile declares static linkage but ELF contains DT_NEEDED"));
        }
        if tag == DT_NULL {
            return Ok(());
        }
        i += 1;
    }
    Err(elf(path, "PT_DYNAMIC table has no DT_NULL terminator"))
}

/// An accepted executable names no interpreter, and loads at least one
/// segment.
pub proof fn law_accepted_elf_is_static(path: Seq<char>, bytes: Seq<u8>, i: int)
    requires
        elf_fault(path, bytes) is None,
        0 <= i < little_endian(bytes, 56, 2),
    ensures
        segment_type(bytes, little_endian(bytes, 32, 8) as int, i) != PT_INTERP,
        segment_type(bytes, little_endian(bytes, 32, 8) as int, i) == PT_DYNAMIC ==> dynamic_fault(
            path,
            bytes,
            little_endian(bytes, 32, 8) + i * PROGRAM_HEADER_BYTES,
        ) is None,
        has_load_segment(bytes, little_endian(bytes, 32, 8) as int, little_endian(bytes, 56, 2)),
{
    lemma_each_segment(
        path,
        bytes,
        little_endian(bytes, 32, 8) as int,
        little_endian(bytes, 56, 2),
        i,
    );
}

proof fn lemma_each_segment(path: Seq<char>, bytes: Seq<u8>, table: int, count: nat, i: int)
    requires
        segments_fault(path, bytes, table, count) is None,
        0 <= i < count,
    ensures
        segment_fault(path, bytes, table, i) is None,
    decreases count,
{
    if i < count - 1 {
        lemma_each_segment(path, bytes, table, (count - 1) as nat, i);
    }
}

/// An accepted program is a 64-bit little-endian x86 executable or
/// position-independent executable whose program headers lie inside the file;
/// it loads something, asks for no interpreter, and each table of dynamic
/// entries lies inside the file and ends before it names a library.
pub proof fn law_accepted_elf_is_for_this_machine(
    path: &str,
    bytes: &[u8],
)
    requires
        call_ensures(verify_static_x86_64_elf, (path, bytes), Ok(())),
    ensures
        bytes@.len() >= 64,
        bytes@[0] == 0x7f && bytes@[1] == 0x45 && bytes@[2] == 0x4c && bytes@[3] == 0x46,
        bytes@[4] == 2 && bytes@[5] == 1 && bytes@[6] == 1,
        bytes@[17] == 0 && (bytes@[16] == 2 || bytes@[16] == 3),
        bytes@[18] == 62 && bytes@[19] == 0,
        little_endian(bytes@, 52, 2) == 64,
        little_endian(bytes@, 54, 2) == 56,
        0 < little_endian(bytes@, 56, 2) <= 1024,
        little_endian(bytes@, 32, 8) + 56 * little_endian(bytes@, 56, 2) <= bytes@.len(),
        exists|i: int|
            0 <= i < little_endian(bytes@, 56, 2) && #[trigger] header_type(bytes@, i) == 1,
        forall|i: int|
            0 <= i < little_endian(bytes@, 56, 2) ==> #[trigger] header_type(bytes@, i) != 3,
        forall|i: int|
            0 <= i < little_endian(bytes@, 56, 2) && #[trigger] header_type(bytes@, i) == 2 ==> {
                let at = little_endian(bytes@, 32, 8) + 56 * i;
                let start = little_endian(bytes@, at + 8, 8);
                let length = little_endian(bytes@, at + 32, 8);
                &&& 0 < length
                &&& length % 16 == 0
                &&& start + length <= bytes@.len()
                &&& needs_nothing(bytes@, start as int, (length / 16) as int)
            },
{
    let path = path@;
    let bytes = bytes@;
    assert(bytes.take(4)[0] == 0x7f && bytes.take(4)[1] == 0x45 && bytes.take(4)[2] == 0x4c
        && bytes.take(4)[3] == 0x46);
    law_stored_numbers_weigh_their_bytes(bytes, 16);
    law_stored_numbers_weigh_their_bytes(bytes, 18);
    let table = little_endian(bytes, 32, 8) as int;
    let count = little_endian(bytes, 56, 2);
    assert(has_load_segment(bytes, table, count));
    let load = choose|i: int| 0 <= i < count && #[trigger] segment_type(bytes, table, i) == PT_LOAD;
    assert(header_type(bytes, load) == 1);
    assert forall|i: int| 0 <= i < count implies #[trigger] header_type(bytes, i) != 3 by {
        law_accepted_elf_is_static(path, bytes, i);
    }
    assert forall|i: int| 0 <= i < count && #[trigger] header_type(bytes, i) == 2 implies {
        let at = little_endian(bytes, 32, 8) + 56 * i;
        let start = little_endian(bytes, at + 8, 8);
        let length = little_endian(bytes, at + 32, 8);
        &&& 0 < length
        &&& length % 16 == 0
        &&& start + length <= bytes.len()
        &&& needs_nothing(bytes, start as int, (length / 16) as int)
    } by {
        law_accepted_elf_is_static(path, bytes, i);
        let at = little_endian(bytes, 32, 8) + 56 * i;
        let start = little_endian(bytes, at + 8, 8);
        let length = little_endian(bytes, at + 32, 8);
        lemma_entries_need_nothing(path, bytes, start as int, 0, (length / 16) as int);
    }
}

/// The type of a program header.
pub open spec fn header_type(bytes: Seq<u8>, i: int) -> nat {
    little_endian(bytes, little_endian(bytes, 32, 8) + 56 * i, 4)
}

/// Whether dynamic entries come to their end before one of them names a
/// library.
pub open spec fn needs_nothing(bytes: Seq<u8>, start: int, count: int) -> bool {
    exists|end: int|
        {
            &&& 0 <= end < count
            &&& #[trigger] little_endian(bytes, start + 16 * end, 8) == 0
            &&& forall|i: int|
                0 <= i < end ==> #[trigger] little_endian(bytes, start + 16 * i, 8) != 1
        }
}

proof fn lemma_entries_need_nothing(
    path: Seq<char>,
    bytes: Seq<u8>,
    start: int,
    from: int,
    count: int,
)
    requires
        0 <= from,
        dynamic_entries_fault(path, bytes, start, from, count) is None,
        forall|i: int| 0 <= i < from ==> #[trigger] little_endian(bytes, start + 16 * i, 8) != 1,
    ensures
        needs_nothing(bytes, start, count),
    decreases count - from,
{
    if from < count {
        assert(dynamic_tag(bytes, start, from) == little_endian(bytes, start + 16 * from, 8));
        if dynamic_tag(bytes, start, from) != DT_NULL {
            lemma_entries_need_nothing(path, bytes, start, from + 1, count);
        }
    }
}

/// A program is accepted exactly where its header is one of this machine, its
/// program headers lie inside the file, one of them is loaded, and none is
/// refused.
pub proof fn law_static_elf_is_accepted(path: &str, bytes: &[u8], checked: Result<(), ManifestError>)
    requires
        call_ensures(verify_static_x86_64_elf, (path, bytes), checked),
        bytes@.len() >= 64,
        bytes@.take(4) == seq![0x7fu8, 0x45u8, 0x4cu8, 0x46u8],
        bytes@[4] == 2 && bytes@[5] == 1 && bytes@[6] == 1,
        little_endian(bytes@, 16, 2) == 2 || little_endian(bytes@, 16, 2) == 3,
        little_endian(bytes@, 18, 2) == 62,
        little_endian(bytes@, 52, 2) == 64,
        little_endian(bytes@, 54, 2) == 56,
        0 < little_endian(bytes@, 56, 2) <= 1024,
        little_endian(bytes@, 32, 8) + 56 * little_endian(bytes@, 56, 2) <= bytes@.len(),
        bytes@.len() <= u64::MAX,
        exists|i: int|
            0 <= i < little_endian(bytes@, 56, 2) && #[trigger] header_type(bytes@, i) == 1,
        forall|i: int|
            0 <= i < little_endian(bytes@, 56, 2) ==> #[trigger] header_type(bytes@, i) != 3
                && header_type(bytes@, i) != 2,
    ensures
        checked is Ok,
{
    let table = little_endian(bytes@, 32, 8) as int;
    let count = little_endian(bytes@, 56, 2);
    let load = choose|i: int| 0 <= i < count && #[trigger] header_type(bytes@, i) == 1;
    assert(segment_type(bytes@, table, load) == PT_LOAD);
    lemma_no_refused_segment(path@, bytes@, table, count);
}

proof fn lemma_no_refused_segment(path: Seq<char>, bytes: Seq<u8>, table: int, count: nat)
    requires
        table == little_endian(bytes, 32, 8),
        forall|i: int|
            0 <= i < count ==> #[trigger] header_type(bytes, i) != 3 && header_type(bytes, i) != 2,
    ensures
        segments_fault(path, bytes, table, count) is None,
    decreases count,
{
    if count > 0 {
        lemma_no_refused_segment(path, bytes, table, (count - 1) as nat);
        assert(header_type(bytes, count - 1) == segment_type(bytes, table, count - 1));
    }
}

} // verus!
