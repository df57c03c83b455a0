//! The ext4 base image that a generation is bound to.

use vstd::prelude::*;

use crate::bytes::little_endian;
use crate::error::{invalid_run, run_fault, run_outcome, RuntimeError, RuntimeFault};
use crate::numeral::{hex_word, hex_word_text};
use crate::text::{decimal, decimal_text, join, join3};

verus! {

pub const EXT_SUPERBLOCK_OFFSET: u64 = 1024;

pub const EXT_SUPERBLOCK_BYTES: usize = 1024;

pub const EXT_SUPER_MAGIC: u16 = 0xef53;

pub const EXT4_VALID_FS: u16 = 0x0001;

pub const EXT4_ERROR_FS: u16 = 0x0002;

pub const EXT4_FEATURE_INCOMPAT_RECOVER: u32 = 0x0004;

pub const EXT4_FEATURE_INCOMPAT_64BIT: u32 = 0x0080;

/// The only supported block size.
pub const EXT4_BLOCK_BYTES: u64 = 4096;

pub open spec fn base_refused(path: Seq<char>, reason: Seq<char>) -> RuntimeFault {
    invalid_run("ext4_base"@, path + ": "@ + reason)
}

fn invalid(path: &str, reason: &str) -> (error: RuntimeError)
    ensures
        error@ == base_refused(path@, reason@),
{
    RuntimeError::invalid("ext4_base", &join3(path, ": ", reason))
}

/// The 16-bit field at an offset, refused when the bytes end before it.
pub fn le_u16(bytes: &[u8], offset: usize, path: &str) -> (value: Result<u16, RuntimeError>)
    requires
        offset + 2 <= usize::MAX,
    ensures
        run_outcome(value) == if offset + 2 <= bytes@.len() {
            Ok(little_endian(bytes@, offset as int, 2) as u16)
        } else {
            Err(base_refused(path@, "truncated u16 superblock field"@))
        },
{
    if offset + 2 > bytes.len() {
        return Err(invalid(path, "truncated u16 superblock field"));
    }
    Ok(crate::bytes::le_u16(bytes, offset))
}

/// The 32-bit field at an offset, refused when the bytes end before it.
pub fn le_u32(bytes: &[u8], offset: usize, path: &str) -> (value: Result<u32, RuntimeError>)
    requires
        offset + 4 <= usize::MAX,
    ensures
        run_outcome(value) == if offset + 4 <= bytes@.len() {
            Ok(little_endian(bytes@, offset as int, 4) as u32)
        } else {
            Err(base_refused(path@, "truncated u32 superblock field"@))
        },
{
    if offset + 4 > bytes.len() {
        return Err(invalid(path, "truncated u32 superblock field"));
    }
    Ok(crate::bytes::le_u32(bytes, offset))
}

pub open spec fn magic(superblock: Seq<u8>) -> u16 {
    little_endian(superblock, 0x38, 2) as u16
}

pub open spec fn log_block_size(superblock: Seq<u8>) -> u32 {
    little_endian(superblock, 0x18, 4) as u32
}

pub open spec fn state(superblock: Seq<u8>) -> u16 {
    little_endian(superblock, 0x3a, 2) as u16
}

pub open spec fn incompat(superblock: Seq<u8>) -> u32 {
    little_endian(superblock, 0x60, 4) as u32
}

/// The number of blocks that the superblock declares.
pub open spec fn block_count(superblock: Seq<u8>) -> nat {
    little_endian(superblock, 0x04, 4) + if incompat(superblock) & EXT4_FEATURE_INCOMPAT_64BIT
        != 0 {
        0x1_0000_0000 * little_endian(superblock, 0x150, 4)
    } else {
        0
    }
}

/// Whether the filesystem carries no identity.
pub open spec fn is_uuid_zero(superblock: Seq<u8>) -> bool {
    forall|i: int| 0x68 <= i < 0x78 ==> #[trigger] superblock[i] == 0
}

/// Why a superblock is refused for a base file of `length` bytes, if it is.
pub open spec fn superblock_fault(path: Seq<char>, superblock: Seq<u8>, length: u64) -> Option<
    RuntimeFault,
> {
    if magic(superblock) != EXT_SUPER_MAGIC {
        Some(
            base_refused(
                path,
                "expected ext magic "@ + hex_word(EXT_SUPER_MAGIC as nat) + ", observed "@
                    + hex_word(magic(superblock) as nat),
            ),
        )
    } else if log_block_size(superblock) >= 64 {
        Some(base_refused(path, "block-size shift overflows"@))
    } else if (1024u64 << (log_block_size(superblock) as u64)) != EXT4_BLOCK_BYTES {
        Some(
            base_refused(
                path,
                "filesystem contract requires 4096-byte blocks, observed "@ + decimal(
                    (1024u64 << (log_block_size(superblock) as u64)) as nat,
                ),
            ),
        )
    } else if state(superblock) & EXT4_VALID_FS == 0 || state(superblock) & EXT4_ERROR_FS != 0 {
        Some(
            base_refused(
                path,
                "filesystem state is not clean ("@ + hex_word(state(superblock) as nat) + ")"@,
            ),
        )
    } else if incompat(superblock) & EXT4_FEATURE_INCOMPAT_RECOVER != 0 {
        Some(base_refused(path, "filesystem requires journal recovery"@))
    } else if block_count(superblock) == 0 {
        Some(base_refused(path, "filesystem declares zero blocks"@))
    } else if block_count(superblock) * EXT4_BLOCK_BYTES > u64::MAX {
        Some(base_refused(path, "filesystem logical size overflows"@))
    } else if block_count(superblock) * EXT4_BLOCK_BYTES > length {
        Some(
            base_refused(
                path,
                "filesystem declares "@ + decimal(
                    (block_count(superblock) * EXT4_BLOCK_BYTES) as nat,
                ) + " bytes but base file has "@ + decimal(length as nat),
            ),
        )
    } else if is_uuid_zero(superblock) {
        Some(base_refused(path, "filesystem UUID is all zero"@))
    } else {
        None
    }
}

/// Why a base file cannot hold a superblock, if it cannot.
pub open spec fn base_file_fault(path: Seq<char>, regular: bool, length: u64) -> Option<
    RuntimeFault,
> {
    if !regular {
        Some(base_refused(path, "base is not a regular file"@))
    } else if length < EXT_SUPERBLOCK_OFFSET + EXT_SUPERBLOCK_BYTES {
        Some(base_refused(path, "base is too small for an ext superblock"@))
    } else {
        None
    }
}

/// Refuses a base that is no regular file, or too small, before it is read.
pub fn check_base_file(path: &str, regular: bool, length: u64) -> (checked: Result<
    (),
    RuntimeError,
>)
    ensures
        run_fault(checked) == base_file_fault(path@, regular, length),
{
    if !regular {
        return Err(invalid(path, "base is not a regular file"));
    }
    if length < EXT_SUPERBLOCK_OFFSET + EXT_SUPERBLOCK_BYTES as u64 {
        return Err(invalid(path, "base is too small for an ext superblock"));
    }
    Ok(())
}

/// The block count of a superblock.
fn count_blocks(superblock: &[u8; 1024]) -> (blocks: u64)
    ensures
        blocks == block_count(superblock@),
{
    let low: u32 = crate::bytes::le_u32(superblock, 0x04);
    let features: u32 = crate::bytes::le_u32(superblock, 0x60);
    if features & EXT4_FEATURE_INCOMPAT_64BIT != 0 {
        let high: u32 = crate::bytes::le_u32(superblock, 0x150);
        low as u64 + 0x1_0000_0000 * high as u64
    } else {
        low as u64
    }
}

/// Refuses a base whose superblock breaks the filesystem contract.
pub fn validate_ext4_base(path: &str, superblock: &[u8; 1024], length: u64) -> (checked: Result<
    (),
    RuntimeError,
>)
    ensures
        run_fault(checked) == superblock_fault(path@, superblock@, length),
{
    let observed: u16 = crate::bytes::le_u16(superblock, 0x38);
    if observed != EXT_SUPER_MAGIC {
        let expected = join3(
            "expected ext magic ",
            &hex_word_text(EXT_SUPER_MAGIC as u64),
            ", observed ",
        );
        return Err(invalid(path, &join(&expected, &hex_word_text(observed as u64))));
    }
    let shift: u32 = crate::bytes::le_u32(superblock, 0x18);
    if shift >= 64 {
        return Err(invalid(path, "block-size shift overflows"));
    }
    let block_size: u64 = 1024u64 << (shift as u64);
    if block_size != EXT4_BLOCK_BYTES {
        return Err(
            invalid(
                path,
                &join(
                    "filesystem contract requires 4096-byte blocks, observed ",
                    &decimal_text(block_size),
                ),
            ),
        );
    }
    let flags: u16 = crate::bytes::le_u16(superblock, 0x3a);
    if flags & EXT4_VALID_FS == 0 || flags & EXT4_ERROR_FS != 0 {
        return Err(
            invalid(
                path,
                &join3("filesystem state is not clean (", &hex_word_text(flags as u64), ")"),
            ),
        );
    }
    let features: u32 = crate::bytes::le_u32(superblock, 0x60);
    if features & EXT4_FEATURE_INCOMPAT_RECOVER != 0 {
        return Err(invalid(path, "filesystem requires journal recovery"));
    }
    let blocks: u64 = count_blocks(superblock);
    if blocks == 0 {
        return Err(invalid(path, "filesystem declares zero blocks"));
    }
    let logical: u64 = match blocks.checked_mul(EXT4_BLOCK_BYTES) {
        Some(logical) => logical,
        None => {
            return Err(invalid(path, "filesystem logical size overflows"));
        },
    };
    if logical > length {
        let declares = join3(
            "filesystem declares ",
            &decimal_text(logical),
            " bytes but base file has ",
        );
        return Err(invalid(path, &join(&declares, &decimal_text(length))));
    }
    let mut i: usize = 0x68;
    while i < 0x78
        invariant
            0x68 <= i <= 0x78,
            forall|j: int| 0x68 <= j < i ==> #[trigger] superblock@[j] == 0,
            superblock_fault(path@, superblock@, length) == if is_uuid_zero(superblock@) {
                Some(base_refused(path@, "filesystem UUID is all zero"@))
            } else {
                None
            },
        decreases 0x78 - i,
    {
        if superblock[i] != 0 {
            assert(superblock@[i as int] != 0);
            return Ok(());
        }
        i += 1;
    }
    Err(invalid(path, "filesystem UUID is all zero"))
}

/// The inode and block counts of a filesystem.
pub fn ext4_geometry(superblock: &[u8; 1024]) -> (geometry: (u64, u64))
    ensures
        geometry.0 == little_endian(superblock@, 0, 4),
        geometry.1 == block_count(superblock@),
{
    let inodes: u32 = crate::bytes::le_u32(superblock, 0);
    (inodes as u64, count_blocks(superblock))
}

/// An accepted base has 4096-byte blocks, all of which lie inside the file.
pub proof fn law_accepted_base_fits_its_file(path: Seq<char>, superblock: Seq<u8>, length: u64)
    requires
        superblock_fault(path, superblock, length) is None,
    ensures
        log_block_size(superblock) == 2,
        0 < block_count(superblock) * EXT4_BLOCK_BYTES <= length,
        magic(superblock) == EXT_SUPER_MAGIC,
{
    let shift = log_block_size(superblock) as u64;
    assert(shift < 64 && (1024u64 << shift) == 4096 ==> shift == 2) by (bit_vector);
}

/// A superblock is accepted exactly where it has the magic number, blocks of
/// 4096 bytes, a clean state, no journal to replay, a name, and blocks that the
/// file holds.
pub proof fn law_accepted_base_is_a_clean_filesystem(
    path: &str,
    superblock: &[u8; 1024],
    length: u64,
    checked: Result<(), RuntimeError>,
    geometry: (u64, u64),
)
    requires
        call_ensures(validate_ext4_base, (path, superblock, length), checked),
        call_ensures(ext4_geometry, (superblock,), geometry),
    ensures
        checked is Ok <==> {
            &&& little_endian(superblock@, 0x38, 2) as u16 == 0xef53
            &&& little_endian(superblock@, 0x18, 4) as u32 == 2
            &&& (little_endian(superblock@, 0x3a, 2) as u16) & 3u16 == 1
            &&& (little_endian(superblock@, 0x60, 4) as u32) & 4u32 == 0
            &&& 0 < geometry.1
            &&& 4096 * geometry.1 <= length
            &&& exists|i: int| 0x68 <= i < 0x78 && #[trigger] superblock@[i] != 0
        },
        geometry.0 == little_endian(superblock@, 0, 4),
        (little_endian(superblock@, 0x60, 4) as u32) & 0x80u32 == 0 ==> geometry.1
            == little_endian(superblock@, 4, 4),
        (little_endian(superblock@, 0x60, 4) as u32) & 0x80u32 != 0 ==> geometry.1
            == little_endian(superblock@, 4, 4) + 0x1_0000_0000 * little_endian(
            superblock@,
            0x150,
            4,
        ),
{
    let shift = log_block_size(superblock@);
    let state = state(superblock@);
    assert(state & 3u16 == 1 <==> (state & 1u16 != 0 && state & 2u16 == 0)) by (bit_vector);
    if shift < 64 {
        let s = shift as u64;
        assert(s < 64 ==> ((1024u64 << s) == 4096 <==> s == 2)) by (bit_vector);
    }
    assert(geometry.1 == block_count(superblock@));
    assert(is_uuid_zero(superblock@) <==> !(exists|i: int|
        0x68 <= i < 0x78 && #[trigger] superblock@[i] != 0));
}

/// A file can hold a filesystem where it is regular and has the first two
/// kibibytes.
pub proof fn law_base_file_holds_a_superblock(
    path: &str,
    regular: bool,
    length: u64,
    checked: Result<(), RuntimeError>,
)
    requires
        call_ensures(check_base_file, (path, regular, length), checked),
    ensures
        checked is Ok <==> regular && length >= 2048,
{
}

/// A refused base is told the first thing that is wrong with it, with what was
/// found there.
pub proof fn law_refused_base_is_told_why(
    path: &str,
    regular: bool,
    superblock: [u8; 1024],
    length: u64,
    file: Result<(), RuntimeError>,
    checked: Result<(), RuntimeError>,
)
    requires
        call_ensures(check_base_file, (path, regular, length), file),
        call_ensures(validate_ext4_base, (path, &superblock, length), checked),
    ensures
        run_fault(file) == (if !regular {
            Some(
                RuntimeFault::InvalidConfiguration {
                    field: "ext4_base"@,
                    reason: path@ + ": "@ + ("base is not a regular file"@),
                },
            )
        } else if length < 2048 {
            Some(
                RuntimeFault::InvalidConfiguration {
                    field: "ext4_base"@,
                    reason: path@ + ": "@ + ("base is too small for an ext superblock"@),
                },
            )
        } else {
            None
        }),
        run_fault(checked) == (if magic(superblock@) != 0xef53 {
            Some(
                RuntimeFault::InvalidConfiguration {
                    field: "ext4_base"@,
                    reason: path@ + ": "@ + ("expected ext magic "@ + hex_word(0xef53) + ", observed "@ + hex_word(
                        magic(superblock@) as nat,
                    )),
                },
            )
        } else if log_block_size(superblock@) >= 64 {
            Some(
                RuntimeFault::InvalidConfiguration {
                    field: "ext4_base"@,
                    reason: path@ + ": "@ + ("block-size shift overflows"@),
                },
            )
        } else if (1024u64 << (log_block_size(superblock@) as u64)) != 4096 {
            Some(
                RuntimeFault::InvalidConfiguration {
                    field: "ext4_base"@,
                    reason: path@ + ": "@ + ("filesystem contract requires 4096-byte blocks, observed "@ + decimal(
                        (1024u64 << (log_block_size(superblock@) as u64)) as nat,
                    )),
                },
            )
        } else if state(superblock@) & 1u16 == 0 || state(superblock@) & 2u16 != 0 {
            Some(
                RuntimeFault::InvalidConfiguration {
                    field: "ext4_base"@,
                    reason: path@ + ": "@ + ("filesystem state is not clean ("@ + hex_word(state(superblock@) as nat)
                        + ")"@),
                },
            )
        } else if incompat(superblock@) & 4u32 != 0 {
            Some(
                RuntimeFault::InvalidConfiguration {
                    field: "ext4_base"@,
                    reason: path@ + ": "@ + ("filesystem requires journal recovery"@),
                },
            )
        } else if block_count(superblock@) == 0 {
            Some(
                RuntimeFault::InvalidConfiguration {
                    field: "ext4_base"@,
                    reason: path@ + ": "@ + ("filesystem declares zero blocks"@),
                },
            )
        } else if block_count(superblock@) * 4096 > u64::MAX {
            Some(
                RuntimeFault::InvalidConfiguration {
                    field: "ext4_base"@,
                    reason: path@ + ": "@ + ("filesystem logical size overflows"@),
                },
            )
        } else if block_count(superblock@) * 4096 > length {
            Some(
                RuntimeFault::InvalidConfiguration {
                    field: "ext4_base"@,
                    reason: path@ + ": "@ + ("filesystem declares "@ + decimal(block_count(superblock@) * 4096)
                        + " bytes but base file has "@ + decimal(length as nat)),
                },
            )
        } else if is_uuid_zero(superblock@) {
            Some(
                RuntimeFault::InvalidConfiguration {
                    field: "ext4_base"@,
                    reason: path@ + ": "@ + ("filesystem UUID is all zero"@),
                },
            )
        } else {
            None
        }),
{
}

} // verus!
