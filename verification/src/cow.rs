//! The header of a fresh UML copy-on-write overlay, format version 3.

use vstd::arithmetic::power2::*;
use vstd::prelude::*;
use vstd::string::*;
use vstd::utf8::*;

use crate::bytes::{be_u32, be_u64, big_endian, copy_between, le_u32, little_endian};
use crate::digest::same_bytes;
use crate::error::{first_of, run_fault, RuntimeError, RuntimeFault};
use crate::numeral::{hex_number, hex_number_text};
use crate::text::{decimal, decimal_text, join, join3};

verus! {

pub const COW_V3_HEADER_BYTES: usize = 4128;

pub const COW_MAGIC: u32 = 0x4f4f4f4d;

pub const COW_VERSION: u32 = 3;

pub open spec fn cow_refused(path: Seq<char>, reason: Seq<char>) -> RuntimeFault {
    RuntimeFault::Cow { path, reason }
}

fn cow_error(path: &str, reason: &str) -> (error: RuntimeError)
    ensures
        error@ == cow_refused(path@, reason@),
{
    RuntimeError::Cow { path: path.to_owned(), reason: reason.to_owned() }
}

/// What was observed of the overlay file.
#[derive(Debug, Clone, Copy, PartialEq, Eq, Structural)]
pub struct CowMetadata {
    pub regular: bool,
    pub links: u64,
    pub mode: u32,
    pub length: u64,
}

/// Why an overlay file is refused before it is read, if it is.
pub open spec fn cow_file_fault(path: Seq<char>, metadata: CowMetadata) -> Option<RuntimeFault> {
    if !metadata.regular {
        Some(cow_refused(path, "not a regular file"@))
    } else if metadata.links != 1 {
        Some(cow_refused(path, "fresh COW has more than one hard link"@))
    } else if metadata.mode & 0o077u32 != 0 {
        Some(cow_refused(path, "fresh COW is accessible outside its owner"@))
    } else if metadata.length < COW_V3_HEADER_BYTES {
        Some(cow_refused(path, "truncated v3 header"@))
    } else {
        None
    }
}

/// Refuses an overlay that is not a private regular file of its own.
pub fn check_cow_file(path: &str, metadata: &CowMetadata) -> (checked: Result<(), RuntimeError>)
    ensures
        run_fault(checked) == cow_file_fault(path@, *metadata),
{
    if !metadata.regular {
        return Err(cow_error(path, "not a regular file"));
    }
    if metadata.links != 1 {
        return Err(cow_error(path, "fresh COW has more than one hard link"));
    }
    if metadata.mode & 0o077u32 != 0 {
        return Err(cow_error(path, "fresh COW is accessible outside its owner"));
    }
    if metadata.length < COW_V3_HEADER_BYTES as u64 {
        return Err(cow_error(path, "truncated v3 header"));
    }
    Ok(())
}

pub open spec fn cow_magic_fault(path: Seq<char>, header: Seq<u8>) -> Option<RuntimeFault> {
    if big_endian(header, 0, 4) != COW_MAGIC || big_endian(header, 4, 4) != COW_VERSION {
        Some(
            cow_refused(
                path,
                "expected COW v3 magic/version, observed "@ + hex_number(big_endian(header, 0, 4))
                    + "/"@ + decimal(big_endian(header, 4, 4)),
            ),
        )
    } else {
        None
    }
}

/// Refuses a header that is not one of format version 3.
pub fn check_cow_magic(path: &str, header: &[u8; 4128]) -> (checked: Result<(), RuntimeError>)
    ensures
        run_fault(checked) == cow_magic_fault(path@, header@),
{
    let magic: u32 = be_u32(header, 0);
    let version: u32 = be_u32(header, 4);
    if magic != COW_MAGIC || version != COW_VERSION {
        let observed = join(
            "expected COW v3 magic/version, observed ",
            &hex_number_text(magic as u64),
        );
        return Err(
            cow_error(path, &join3(&observed, "/", &decimal_text(version as u64))),
        );
    }
    Ok(())
}

pub open spec fn is_alignment(value: nat) -> bool {
    value == 512 || value == 1024 || value == 2048 || value == 4096 || value == 8192 || value
        == 16384 || value == 32768 || value == 65536
}

/// The bytes of the backing path field up to its terminator.
pub open spec fn backing_path(header: Seq<u8>) -> Option<Seq<u8>> {
    let field = header.skip(32);
    match field.index_of_first(0u8) {
        Some(end) => Some(field.take(end)),
        None => None,
    }
}

/// Why an overlay is not bound to its backing image, if it is not.
pub open spec fn cow_binding_fault(
    path: Seq<char>,
    header: Seq<u8>,
    base: Seq<char>,
    base_mtime: i64,
    base_length: u64,
) -> Option<RuntimeFault> {
    if base_mtime < 0 || base_mtime > u32::MAX {
        Some(cow_refused(path, "backing mtime does not fit the COW v3 field"@))
    } else if big_endian(header, 8, 4) != base_mtime {
        Some(cow_refused(path, "backing mtime binding mismatch"@))
    } else if big_endian(header, 12, 8) != base_length {
        Some(cow_refused(path, "backing size binding mismatch"@))
    } else if big_endian(header, 20, 4) != 512 {
        Some(
            cow_refused(
                path,
                "unsupported sector size "@ + decimal(big_endian(header, 20, 4)),
            ),
        )
    } else if !is_alignment(big_endian(header, 24, 4)) {
        Some(
            cow_refused(path, "invalid COW alignment "@ + decimal(big_endian(header, 24, 4))),
        )
    } else if little_endian(header, 28, 4) != 0 {
        Some(
            cow_refused(
                path,
                "unsupported COW bitmap format "@ + decimal(little_endian(header, 28, 4)),
            ),
        )
    } else {
        match backing_path(header) {
            None => Some(cow_refused(path, "backing pathname is not NUL-terminated"@)),
            Some(bytes) => if bytes != encode_utf8(base) {
                Some(cow_refused(path, "backing pathname binding mismatch"@))
            } else {
                None
            },
        }
    }
}

/// Refuses a header whose magic, version or binding is not that of a fresh
/// overlay of the backing image.
pub fn validate_fresh_cow(
    path: &str,
    header: &[u8; 4128],
    base: &str,
    base_mtime: i64,
    base_length: u64,
) -> (checked: Result<(), RuntimeError>)
    ensures
        run_fault(checked) == first_of(
            cow_magic_fault(path@, header@),
            cow_binding_fault(path@, header@, base@, base_mtime, base_length),
        ),
{
    if let Err(error) = check_cow_magic(path, header) {
        return Err(error);
    }
    if base_mtime < 0 || base_mtime > 0xffff_ffff {
        return Err(cow_error(path, "backing mtime does not fit the COW v3 field"));
    }
    if be_u32(header, 8) as i64 != base_mtime {
        return Err(cow_error(path, "backing mtime binding mismatch"));
    }
    if be_u64(header, 12) != base_length {
        return Err(cow_error(path, "backing size binding mismatch"));
    }
    let sector: u32 = be_u32(header, 20);
    if sector != 512 {
        return Err(
            cow_error(path, &join("unsupported sector size ", &decimal_text(sector as u64))),
        );
    }
    let alignment: u32 = be_u32(header, 24);
    let aligned = alignment == 512 || alignment == 1024 || alignment == 2048 || alignment == 4096
        || alignment == 8192 || alignment == 16384 || alignment == 32768 || alignment == 65536;
    if !aligned {
        return Err(
            cow_error(path, &join("invalid COW alignment ", &decimal_text(alignment as u64))),
        );
    }
    let format: u32 = le_u32(header, 28);
    if format != 0 {
        return Err(
            cow_error(
                path,
                &join("unsupported COW bitmap format ", &decimal_text(format as u64)),
            ),
        );
    }
    let ghost field = header@.skip(32);
    proof {
        field.index_of_first_ensures(0u8);
    }
    let mut end: usize = 32;
    while end < COW_V3_HEADER_BYTES && header[end] != 0
        invariant
            32 <= end <= COW_V3_HEADER_BYTES,
            field == header@.skip(32),
            forall|j: int| 0 <= j < end - 32 ==> field[j] != 0,
        decreases COW_V3_HEADER_BYTES - end,
    {
        assert(field[end - 32] == header@[end as int]);
        end += 1;
    }
    if end == COW_V3_HEADER_BYTES {
        assert(!field.contains(0u8));
        return Err(cow_error(path, "backing pathname is not NUL-terminated"));
    }
    proof {
        assert(field[end - 32] == 0);
        assert(field.contains(0u8));
        field.index_of_first_ensures(0u8);
        assert(field.index_of_first(0u8) == Some(end - 32));
    }
    let name = copy_between(header, 32, end);
    assert(name@ =~= field.take(end - 32));
    if !same_bytes(&name, base.as_bytes()) {
        return Err(cow_error(path, "backing pathname binding mismatch"));
    }
    Ok(())
}

/// An accepted overlay names exactly its backing image: no overlay is accepted
/// for two images of different name, size or modification time.
pub proof fn law_overlay_is_bound_to_one_image(
    path: Seq<char>,
    header: Seq<u8>,
    left: (Seq<char>, i64, u64),
    right: (Seq<char>, i64, u64),
)
    requires
        cow_binding_fault(path, header, left.0, left.1, left.2) is None,
        cow_binding_fault(path, header, right.0, right.1, right.2) is None,
    ensures
        left == right,
{
    encode_utf8_decode_utf8(left.0);
    encode_utf8_decode_utf8(right.0);
}

/// A file can be a fresh overlay exactly where it is regular, has one name, is
/// closed to others and holds a header of 4128 bytes.
pub proof fn law_overlay_file_is_private(
    path: &str,
    metadata: CowMetadata,
    checked: Result<(), RuntimeError>,
)
    requires
        call_ensures(check_cow_file, (path, &metadata), checked),
    ensures
        checked is Ok <==> metadata.regular && metadata.links == 1 && metadata.mode & 0x3fu32 == 0
            && metadata.length >= 4128,
{
}

/// An overlay is accepted exactly where its header has the magic number, version
/// 3, the time, length and path of the backing image, sectors of 512 bytes, an
/// alignment between 512 and 65536 bytes, and no bitmap format.
pub proof fn law_accepted_overlay_names_its_base(
    path: &str,
    header: &[u8; 4128],
    base: &str,
    base_mtime: i64,
    base_length: u64,
    checked: Result<(), RuntimeError>,
)
    requires
        call_ensures(validate_fresh_cow, (path, header, base, base_mtime, base_length), checked),
    ensures
        checked is Ok <==> {
            &&& big_endian(header@, 0, 4) == 0x4f4f_4f4d
            &&& big_endian(header@, 4, 4) == 3
            &&& 0 <= base_mtime <= 0xffff_ffff
            &&& big_endian(header@, 8, 4) == base_mtime
            &&& big_endian(header@, 12, 8) == base_length
            &&& big_endian(header@, 20, 4) == 512
            &&& exists|doublings: nat|
                doublings <= 7 && big_endian(header@, 24, 4) == 512 * #[trigger] pow2(doublings)
            &&& little_endian(header@, 28, 4) == 0
            &&& exists|end: int|
                32 <= end < 4128 && #[trigger] header@[end] == 0 && (forall|i: int|
                    32 <= i < end ==> #[trigger] header@[i] != 0) && header@.subrange(32, end)
                    == encode_utf8(base@)
        },
{
    let alignment = big_endian(header@, 24, 4);
    lemma2_to64();
    assert(pow2(0) == 1 && pow2(1) == 2 && pow2(2) == 4 && pow2(3) == 8 && pow2(4) == 16 && pow2(5)
        == 32 && pow2(6) == 64 && pow2(7) == 128);
    if exists|doublings: nat| doublings <= 7 && alignment == 512 * #[trigger] pow2(doublings) {
        let d = choose|doublings: nat| doublings <= 7 && alignment == 512 * #[trigger] pow2(
            doublings,
        );
        assert(d == 0 || d == 1 || d == 2 || d == 3 || d == 4 || d == 5 || d == 6 || d == 7);
    }
    if is_alignment(alignment) {
        assert(exists|doublings: nat| doublings <= 7 && alignment == 512 * #[trigger] pow2(
            doublings,
        ));
    }
    let field = header@.skip(32);
    field.index_of_first_ensures(0u8);
    if field.contains(0u8) {
        let at = field.index_of_first(0u8)->Some_0;
        assert(header@[at + 32] == 0);
        assert forall|i: int| 32 <= i < at + 32 implies #[trigger] header@[i] != 0 by {
            assert(field[i - 32] == header@[i]);
        }
        assert(header@.subrange(32, at + 32) =~= field.take(at));
    }
    if exists|end: int|
        32 <= end < 4128 && #[trigger] header@[end] == 0 && (forall|i: int|
            32 <= i < end ==> #[trigger] header@[i] != 0) && header@.subrange(32, end)
            == encode_utf8(base@) {
        let end = choose|end: int|
            32 <= end < 4128 && #[trigger] header@[end] == 0 && (forall|i: int|
                32 <= i < end ==> #[trigger] header@[i] != 0) && header@.subrange(32, end)
                == encode_utf8(base@);
        assert(field[end - 32] == 0);
        let at = field.index_of_first(0u8)->Some_0;
        assert(field[at] == header@[at + 32]);
        assert(at == end - 32);
        assert(header@.subrange(32, end) =~= field.take(at));
    }
}

/// An overlay of another format is told by its numbers.
pub proof fn law_other_format_is_refused(
    path: &str,
    header: &[u8; 4128],
    checked: Result<(), RuntimeError>,
)
    requires
        call_ensures(check_cow_magic, (path, header), checked),
    ensures
        checked is Ok <==> big_endian(header@, 0, 4) == 0x4f4f_4f4d && big_endian(header@, 4, 4)
            == 3,
        checked matches Err(error) ==> error@ == (RuntimeFault::Cow {
            path: path@,
            reason: "expected COW v3 magic/version, observed "@ + hex_number(
                big_endian(header@, 0, 4),
            ) + "/"@ + decimal(big_endian(header@, 4, 4)),
        }),
{
}

/// A refused overlay is told the first thing that is wrong with it, with what was
/// found there.
pub proof fn law_refused_overlay_is_told_why(
    path: &str,
    metadata: CowMetadata,
    header: [u8; 4128],
    base: &str,
    base_mtime: i64,
    base_length: u64,
    file: Result<(), RuntimeError>,
    checked: Result<(), RuntimeError>,
)
    requires
        call_ensures(check_cow_file, (path, &metadata), file),
        call_ensures(validate_fresh_cow, (path, &header, base, base_mtime, base_length), checked),
    ensures
        run_fault(file) == (if !metadata.regular {
            Some(RuntimeFault::Cow { path: path@, reason: "not a regular file"@ })
        } else if metadata.links != 1 {
            Some(RuntimeFault::Cow { path: path@, reason: "fresh COW has more than one hard link"@ })
        } else if metadata.mode & 0x3fu32 != 0 {
            Some(RuntimeFault::Cow { path: path@, reason: "fresh COW is accessible outside its owner"@ })
        } else if metadata.length < 4128 {
            Some(RuntimeFault::Cow { path: path@, reason: "truncated v3 header"@ })
        } else {
            None
        }),
        run_fault(checked) == (if big_endian(header@, 0, 4) != 0x4f4f_4f4d || big_endian(header@, 4, 4) != 3 {
            Some(RuntimeFault::Cow { path: path@, reason: "expected COW v3 magic/version, observed "@ + hex_number(
                    big_endian(header@, 0, 4),
                ) + "/"@ + decimal(big_endian(header@, 4, 4)) })
        } else if !(0 <= base_mtime <= 0xffff_ffff) {
            Some(RuntimeFault::Cow { path: path@, reason: "backing mtime does not fit the COW v3 field"@ })
        } else if big_endian(header@, 8, 4) != base_mtime {
            Some(RuntimeFault::Cow { path: path@, reason: "backing mtime binding mismatch"@ })
        } else if big_endian(header@, 12, 8) != base_length {
            Some(RuntimeFault::Cow { path: path@, reason: "backing size binding mismatch"@ })
        } else if big_endian(header@, 20, 4) != 512 {
            Some(RuntimeFault::Cow { path: path@, reason: "unsupported sector size "@ + decimal(big_endian(header@, 20, 4)) })
        } else if !is_alignment(big_endian(header@, 24, 4)) {
            Some(RuntimeFault::Cow { path: path@, reason: "invalid COW alignment "@ + decimal(big_endian(header@, 24, 4)) })
        } else if little_endian(header@, 28, 4) != 0 {
            Some(RuntimeFault::Cow { path: path@, reason: "unsupported COW bitmap format "@ + decimal(
                    little_endian(header@, 28, 4),
                ) })
        } else if backing_path(header@) is None {
            Some(RuntimeFault::Cow { path: path@, reason: "backing pathname is not NUL-terminated"@ })
        } else if backing_path(header@) != Some(encode_utf8(base@)) {
            Some(RuntimeFault::Cow { path: path@, reason: "backing pathname binding mismatch"@ })
        } else {
            None
        }),
{
}

/// An overlay that is accepted is aligned to a power of two from a sector to 64
/// KiB, and one that is refused over its alignment is not.
pub proof fn law_alignment_is_a_power_of_two(
    path: &str,
    header: [u8; 4128],
    base: &str,
    base_mtime: i64,
    base_length: u64,
    checked: Result<(), RuntimeError>,
)
    requires
        call_ensures(validate_fresh_cow, (path, &header, base, base_mtime, base_length), checked),
    ensures
        ({
            let alignment = big_endian(header@, 24, 4);
            let power = alignment == 0x200 || alignment == 0x400 || alignment == 0x800 || alignment
                == 0x1000 || alignment == 0x2000 || alignment == 0x4000 || alignment == 0x8000
                || alignment == 0x1_0000;
            &&& checked is Ok ==> power
            &&& is_alignment(alignment) <==> power
        }),
{
}

} // verus!
