//! How large the scratch and target filesystems of a build are made.

use vstd::prelude::*;

use crate::error::{build_outcome, invalid_build, HostBuildError, HostBuildFault};
use crate::text::{decimal, decimal_text, join, join3};

verus! {

pub const MAX_LAYOUT_ENTRIES: usize = 16_384;

pub const PAYLOAD_MINIMUM_BYTES: u64 = 134_217_728;

/// Floor for a converted image's filesystem.
///
/// An image's own contents rarely need this much, but the filesystem is also
/// the workload's writable space for the life of a run: everything outside a
/// volume lands in the copy-on-write overlay on top of it, `/tmp` included.
/// The floor buys that room once, at image-conversion time, rather than
/// leaving every run a few hundred megabytes from exhaustion.
///
/// It is cheap because the file is sparse, and not free, because publication
/// hashes the complete logical file.
pub const TARGET_MINIMUM_BYTES: u64 = 8_589_934_592;

pub const SIZE_CLASS_BYTES: u64 = 67_108_864;

pub const MAX_PAYLOAD_BYTES: u64 = 274_877_906_944;

pub const MAX_TARGET_BYTES: u64 = 549_755_813_888;

pub const EXT4_BLOCK_BYTES: u64 = 4096;

pub const EXT4_INODE_BYTES: u64 = 256;

pub const TAR_RECORD_BYTES: u64 = 512;

pub const PAYLOAD_INODE_CLASS: u64 = 4096;

pub const TARGET_INODE_CLASS: u64 = 65_536;

pub const PAYLOAD_INODE_HEADROOM: u64 = 1024;

pub const TARGET_INTERNAL_INODES: u64 = 16;

/// Fixed room in the scratch filesystem.
pub const PAYLOAD_SLACK_BYTES: u64 = 67_108_864;

/// Fixed room in the target filesystem.
pub const TARGET_SLACK_BYTES: u64 = 536_870_912;

#[derive(Debug, Clone, Copy, PartialEq, Eq, Structural)]
pub struct FilesystemSize {
    pub bytes: u64,
    pub inodes: u64,
}

/// The size of a first attempt, and of the one further attempt if there is
/// room for a larger one.
#[derive(Debug, Clone, Copy, PartialEq, Eq, Structural)]
pub struct FilesystemSizing {
    pub initial: FilesystemSize,
    pub retry: Option<FilesystemSize>,
}

// ---------------------------------------------------------------------------
// A requested size
// ---------------------------------------------------------------------------

/// What a requested filesystem size comes to.
pub open spec fn target_size_outcome(bytes: u64) -> Result<u64, HostBuildFault> {
    if bytes % EXT4_BLOCK_BYTES != 0 {
        Err(
            invalid_build("target_bytes"@, "must be a multiple of the 4096-byte block size"@),
        )
    } else if bytes < PAYLOAD_MINIMUM_BYTES {
        Err(invalid_build("target_bytes"@, "must be at least 134217728 bytes"@))
    } else if bytes > MAX_TARGET_BYTES {
        Err(invalid_build("target_bytes"@, "exceeds the 549755813888-byte maximum"@))
    } else {
        Ok(bytes)
    }
}

/// Bound and align one requested filesystem size.
///
/// The floor is the smallest filesystem the conversion contract will build, so
/// an adjusted image stays inside the range a fresh one can occupy.
pub fn validate_target_size(bytes: u64) -> (size: Result<u64, HostBuildError>)
    ensures
        build_outcome(size) == target_size_outcome(bytes),
{
    if bytes % EXT4_BLOCK_BYTES != 0 {
        return Err(
            HostBuildError::invalid(
                "target_bytes",
                "must be a multiple of the 4096-byte block size",
            ),
        );
    }
    if bytes < PAYLOAD_MINIMUM_BYTES {
        return Err(HostBuildError::invalid("target_bytes", "must be at least 134217728 bytes"));
    }
    if bytes > MAX_TARGET_BYTES {
        return Err(
            HostBuildError::invalid("target_bytes", "exceeds the 549755813888-byte maximum"),
        );
    }
    Ok(bytes)
}

// ---------------------------------------------------------------------------
// Size classes
// ---------------------------------------------------------------------------

/// The least multiple of `class` that is no smaller than `value`.
pub open spec fn rounded_up(value: nat, class: nat) -> nat {
    (value + class - 1) as nat / class * class
}

pub open spec fn inode_class_outcome(value: nat, class: nat, field: Seq<char>) -> Result<
    u64,
    HostBuildFault,
> {
    if value + class - 1 > u64::MAX {
        Err(invalid_build(field, "inode-class rounding overflow"@))
    } else {
        Ok(rounded_up(value, class) as u64)
    }
}

pub open spec fn size_class_outcome(value: nat, maximum: nat, field: Seq<char>) -> Result<
    u64,
    HostBuildFault,
> {
    let rounded = rounded_up(value, SIZE_CLASS_BYTES as nat);
    if value + SIZE_CLASS_BYTES - 1 > u64::MAX {
        Err(invalid_build(field, "size-class rounding overflow"@))
    } else if rounded > maximum {
        Err(
            invalid_build(
                field,
                "requires "@ + decimal(rounded) + " bytes, maximum is "@ + decimal(maximum),
            ),
        )
    } else {
        Ok(rounded as u64)
    }
}

proof fn lemma_rounded_up(value: nat, class: nat)
    requires
        class > 0,
    ensures
        value <= rounded_up(value, class) <= value + class - 1,
        rounded_up(value, class) % class == 0,
{
    let total = (value + class - 1) as int;
    let step = class as int;
    vstd::arithmetic::div_mod::lemma_fundamental_div_mod(total, step);
    vstd::arithmetic::div_mod::lemma_mod_bound(total, step);
    vstd::arithmetic::mul::lemma_mul_is_commutative(step, total / step);
    vstd::arithmetic::div_mod::lemma_mod_multiples_basic(total / step, step);
}

pub fn sized_inode_class(value: u64, class: u64, field: &'static str) -> (inodes: Result<
    u64,
    HostBuildError,
>)
    requires
        class > 0,
    ensures
        build_outcome(inodes) == inode_class_outcome(value as nat, class as nat, field@),
{
    match value.checked_add(class - 1) {
        Some(total) => {
            proof {
                lemma_rounded_up(value as nat, class as nat);
            }
            Ok(total / class * class)
        },
        None => Err(HostBuildError::invalid(field, "inode-class rounding overflow")),
    }
}

pub fn sized_class(value: u64, maximum: u64, field: &'static str) -> (bytes: Result<
    u64,
    HostBuildError,
>)
    ensures
        build_outcome(bytes) == size_class_outcome(value as nat, maximum as nat, field@),
{
    let rounded: u64 = match value.checked_add(SIZE_CLASS_BYTES - 1) {
        Some(total) => total / SIZE_CLASS_BYTES * SIZE_CLASS_BYTES,
        None => {
            return Err(HostBuildError::invalid(field, "size-class rounding overflow"));
        },
    };
    if rounded > maximum {
        let need = join3("requires ", &decimal_text(rounded), " bytes, maximum is ");
        return Err(HostBuildError::invalid(field, &join(&need, &decimal_text(maximum))));
    }
    Ok(rounded)
}

// ---------------------------------------------------------------------------
// Sizing of a filesystem
// ---------------------------------------------------------------------------

/// The initial size and the one after it.
pub open spec fn sizing_outcome(
    desired: nat,
    inodes: u64,
    maximum: u64,
    inode_class: u64,
    field: Seq<char>,
) -> Result<FilesystemSizing, HostBuildFault> {
    match size_class_outcome(desired, maximum as nat, field) {
        Err(fault) => Err(fault),
        Ok(bytes) => {
            let initial = FilesystemSize { bytes, inodes };
            if bytes + SIZE_CLASS_BYTES > maximum {
                Ok(FilesystemSizing { initial, retry: None })
            } else if inodes + inode_class > u64::MAX {
                Err(invalid_build(field, "retry inode-count arithmetic overflow"@))
            } else {
                Ok(
                    FilesystemSizing {
                        initial,
                        retry: Some(
                            FilesystemSize {
                                bytes: (bytes + SIZE_CLASS_BYTES) as u64,
                                inodes: (inodes + inode_class) as u64,
                            },
                        ),
                    },
                )
            }
        },
    }
}

pub fn filesystem_sizing(
    desired_bytes: u64,
    inodes: u64,
    maximum_bytes: u64,
    inode_class: u64,
    field: &'static str,
) -> (sizing: Result<FilesystemSizing, HostBuildError>)
    ensures
        build_outcome(sizing) == sizing_outcome(
            desired_bytes as nat,
            inodes,
            maximum_bytes,
            inode_class,
            field@,
        ),
{
    let bytes: u64 = match sized_class(desired_bytes, maximum_bytes, field) {
        Ok(bytes) => bytes,
        Err(error) => {
            return Err(error);
        },
    };
    let initial = FilesystemSize { bytes, inodes };
    if maximum_bytes < SIZE_CLASS_BYTES || bytes > maximum_bytes - SIZE_CLASS_BYTES {
        return Ok(FilesystemSizing { initial, retry: None });
    }
    match inodes.checked_add(inode_class) {
        Some(more) => Ok(
            FilesystemSizing {
                initial,
                retry: Some(FilesystemSize { bytes: bytes + SIZE_CLASS_BYTES, inodes: more }),
            },
        ),
        None => Err(HostBuildError::invalid(field, "retry inode-count arithmetic overflow")),
    }
}

// ---------------------------------------------------------------------------
// The scratch filesystem
// ---------------------------------------------------------------------------

/// What a walk over an OCI layout has met so far.
#[derive(Debug, Clone, Copy, PartialEq, Eq, Structural)]
pub struct LayoutTotals {
    pub entries: usize,
    pub bytes: u64,
}

/// One entry of an OCI layout, as a walk finds it.
#[derive(Debug, Clone, Copy, PartialEq, Eq, Structural)]
pub enum LayoutEntry {
    Directory,
    File { length: u64 },
    Other,
}

/// The totals after one more entry.
pub open spec fn layout_step(totals: LayoutTotals, entry: LayoutEntry, path: Seq<char>) -> Result<
    LayoutTotals,
    HostBuildFault,
> {
    if totals.entries >= usize::MAX {
        Err(invalid_build("oci_layout"@, "entry count overflow"@))
    } else if totals.entries + 1 > MAX_LAYOUT_ENTRIES {
        Err(invalid_build("oci_layout"@, "contains more than 16384 entries"@))
    } else {
        let entries = (totals.entries + 1) as usize;
        match entry {
            LayoutEntry::Directory => Ok(LayoutTotals { entries, bytes: totals.bytes }),
            LayoutEntry::File { length } => if totals.bytes + length > u64::MAX {
                Err(invalid_build("oci_layout"@, "logical byte count overflow"@))
            } else {
                Ok(LayoutTotals { entries, bytes: (totals.bytes + length) as u64 })
            },
            LayoutEntry::Other => Err(
                invalid_build("oci_layout"@, path + " is not a plain file or directory"@),
            ),
        }
    }
}

impl LayoutTotals {
    pub fn new() -> (totals: LayoutTotals)
        ensures
            totals == (LayoutTotals { entries: 0, bytes: 0 }),
    {
        LayoutTotals { entries: 0, bytes: 0 }
    }

    /// Counts one more entry, found at `path`.
    pub fn count(self, entry: LayoutEntry, path: &str) -> (totals: Result<
        LayoutTotals,
        HostBuildError,
    >)
        ensures
            build_outcome(totals) == layout_step(self, entry, path@),
    {
        let entries: usize = match self.entries.checked_add(1) {
            Some(entries) => entries,
            None => {
                return Err(HostBuildError::invalid("oci_layout", "entry count overflow"));
            },
        };
        if entries > MAX_LAYOUT_ENTRIES {
            return Err(
                HostBuildError::invalid("oci_layout", "contains more than 16384 entries"),
            );
        }
        match entry {
            LayoutEntry::Directory => Ok(LayoutTotals { entries, bytes: self.bytes }),
            LayoutEntry::File { length } => match self.bytes.checked_add(length) {
                Some(bytes) => Ok(LayoutTotals { entries, bytes }),
                None => Err(HostBuildError::invalid("oci_layout", "logical byte count overflow")),
            },
            LayoutEntry::Other => Err(
                HostBuildError::invalid(
                    "oci_layout",
                    &join(path, " is not a plain file or directory"),
                ),
            ),
        }
    }
}

/// Inodes that the scratch filesystem is given.
pub open spec fn payload_inodes(entries: nat) -> nat {
    rounded_up(
        entries + entries / 4 + PAYLOAD_INODE_HEADROOM as nat,
        PAYLOAD_INODE_CLASS as nat,
    )
}

/// Bytes that the scratch filesystem should have.
pub open spec fn payload_bytes(entries: nat, bytes: nat) -> nat {
    bytes + bytes / 4 + PAYLOAD_SLACK_BYTES as nat + payload_inodes(entries) * (
    EXT4_INODE_BYTES as nat) + entries * (EXT4_BLOCK_BYTES as nat)
}

pub open spec fn at_least(value: nat, floor: nat) -> nat {
    if value < floor {
        floor
    } else {
        value
    }
}

/// The sizing of the scratch filesystem for a layout of so many entries and
/// bytes.
pub open spec fn payload_outcome(entries: nat, bytes: nat) -> Result<
    FilesystemSizing,
    HostBuildFault,
> {
    if payload_bytes(entries, bytes) > u64::MAX {
        Err(invalid_build("oci_layout"@, "payload sizing arithmetic overflow"@))
    } else {
        sizing_outcome(
            at_least(payload_bytes(entries, bytes), PAYLOAD_MINIMUM_BYTES as nat),
            payload_inodes(entries) as u64,
            MAX_PAYLOAD_BYTES,
            PAYLOAD_INODE_CLASS,
            "payload"@,
        )
    }
}

/// The sum of five numbers, where it fits.
fn sum_of_five(a: u64, b: u64, c: u64, d: u64, e: u64) -> (sum: Option<u64>)
    ensures
        match sum {
            Some(sum) => sum == a + b + c + d + e,
            None => a + b + c + d + e > u64::MAX,
        },
{
    let total: u128 = a as u128 + b as u128 + c as u128 + d as u128 + e as u128;
    if total <= u64::MAX as u128 {
        Some(total as u64)
    } else {
        None
    }
}

/// Sizes the scratch filesystem that a layout is copied into.
pub fn payload_sizing(totals: LayoutTotals) -> (sizing: Result<FilesystemSizing, HostBuildError>)
    requires
        totals.entries <= MAX_LAYOUT_ENTRIES,
    ensures
        build_outcome(sizing) == payload_outcome(totals.entries as nat, totals.bytes as nat),
{
    let entries: u64 = totals.entries as u64;
    let requirement: u64 = entries + entries / 4 + PAYLOAD_INODE_HEADROOM;
    proof {
        lemma_rounded_up(requirement as nat, PAYLOAD_INODE_CLASS as nat);
    }
    let inodes: u64 = match sized_inode_class(requirement, PAYLOAD_INODE_CLASS, "payload") {
        Ok(inodes) => inodes,
        Err(error) => {
            return Err(error);
        },
    };
    let desired: u64 = match sum_of_five(
        totals.bytes,
        totals.bytes / 4,
        PAYLOAD_SLACK_BYTES,
        inodes * EXT4_INODE_BYTES,
        entries * EXT4_BLOCK_BYTES,
    ) {
        Some(desired) => desired,
        None => {
            return Err(
                HostBuildError::invalid("oci_layout", "payload sizing arithmetic overflow"),
            );
        },
    };
    let bytes: u64 = if desired < PAYLOAD_MINIMUM_BYTES {
        PAYLOAD_MINIMUM_BYTES
    } else {
        desired
    };
    filesystem_sizing(bytes, inodes, MAX_PAYLOAD_BYTES, PAYLOAD_INODE_CLASS, "payload")
}

// ---------------------------------------------------------------------------
// The target filesystem
// ---------------------------------------------------------------------------

/// All uncompressed bytes of the layers.
pub open spec fn total(sizes: Seq<u64>) -> nat
    decreases sizes.len(),
{
    if sizes.len() == 0 {
        0
    } else {
        total(sizes.drop_last()) + sizes.last() as nat
    }
}

/// Every filesystem object in a tar stream takes at least one header record.
/// This upper bound also covers objects created and later removed by a
/// subsequent layer.
pub open spec fn entry_bound(logical: nat, maximum_entries: nat) -> nat {
    let records = at_least(logical / (TAR_RECORD_BYTES as nat), 1);
    if records < maximum_entries {
        records
    } else {
        maximum_entries
    }
}

pub open spec fn target_inodes(logical: nat, maximum_entries: nat) -> nat {
    rounded_up(
        entry_bound(logical, maximum_entries) + TARGET_INTERNAL_INODES as nat,
        TARGET_INODE_CLASS as nat,
    )
}

/// The sizing of the target filesystem for layers of so many uncompressed
/// bytes, or the first step of the arithmetic that overflows.
pub open spec fn target_outcome(logical: nat, maximum_entries: nat) -> Result<
    FilesystemSizing,
    HostBuildFault,
> {
    let entries = entry_bound(logical, maximum_entries);
    let inodes = target_inodes(logical, maximum_entries);
    let content = at_least(2 * logical, entries * (EXT4_BLOCK_BYTES as nat));
    let desired = content + inodes * (EXT4_INODE_BYTES as nat) + TARGET_SLACK_BYTES as nat;
    if logical > u64::MAX {
        Err(invalid_build("layers"@, "uncompressed byte count overflow"@))
    } else if entries * (EXT4_BLOCK_BYTES as nat) > u64::MAX {
        Err(invalid_build("layers"@, "entry sizing arithmetic overflow"@))
    } else if 2 * logical > u64::MAX {
        Err(invalid_build("layers"@, "content sizing arithmetic overflow"@))
    } else if desired > u64::MAX {
        Err(invalid_build("layers"@, "target sizing arithmetic overflow"@))
    } else {
        sizing_outcome(
            at_least(desired, TARGET_MINIMUM_BYTES as nat),
            inodes as u64,
            MAX_TARGET_BYTES,
            TARGET_INODE_CLASS,
            "target"@,
        )
    }
}

proof fn lemma_total_prefix(sizes: Seq<u64>, n: int)
    requires
        0 <= n <= sizes.len(),
    ensures
        total(sizes.take(n)) <= total(sizes),
    decreases sizes.len(),
{
    if n == sizes.len() {
        assert(sizes.take(n) =~= sizes);
    } else {
        lemma_total_prefix(sizes.drop_last(), n);
        assert(sizes.drop_last().take(n) =~= sizes.take(n));
    }
}

/// Adds up the sizes, where the sum fits.
fn sum_sizes(sizes: &Vec<u64>) -> (sum: Option<u64>)
    ensures
        match sum {
            Some(sum) => sum == total(sizes@),
            None => total(sizes@) > u64::MAX,
        },
{
    let mut sum: u64 = 0;
    let mut i: usize = 0;
    assert(sizes@.take(0) =~= Seq::<u64>::empty());
    while i < sizes.len()
        invariant
            i <= sizes@.len(),
            sum == total(sizes@.take(i as int)),
        decreases sizes@.len() - i,
    {
        proof {
            assert(sizes@.take(i + 1).drop_last() =~= sizes@.take(i as int));
            lemma_total_prefix(sizes@, i + 1);
        }
        match sum.checked_add(sizes[i]) {
            Some(next) => {
                sum = next;
            },
            None => {
                return None;
            },
        }
        i += 1;
    }
    assert(sizes@.take(i as int) =~= sizes@);
    Some(sum)
}

/// Sizes the target filesystem from the uncompressed sizes of the layers.
pub fn target_sizing(uncompressed: &Vec<u64>, maximum_manifest_entries: u64) -> (sizing: Result<
    FilesystemSizing,
    HostBuildError,
>)
    ensures
        build_outcome(sizing) == target_outcome(
            total(uncompressed@),
            maximum_manifest_entries as nat,
        ),
{
    let logical: u64 = match sum_sizes(uncompressed) {
        Some(logical) => logical,
        None => {
            return Err(HostBuildError::invalid("layers", "uncompressed byte count overflow"));
        },
    };
    let records: u64 = if logical / TAR_RECORD_BYTES < 1 {
        1
    } else {
        logical / TAR_RECORD_BYTES
    };
    let entries: u64 = if records < maximum_manifest_entries {
        records
    } else {
        maximum_manifest_entries
    };
    assert(entries == entry_bound(logical as nat, maximum_manifest_entries as nat));
    assert(entries <= 0x80_0000_0000_0000);
    let requirement: u64 = entries + TARGET_INTERNAL_INODES;
    proof {
        lemma_rounded_up(requirement as nat, TARGET_INODE_CLASS as nat);
    }
    let inodes: u64 = match sized_inode_class(requirement, TARGET_INODE_CLASS, "target") {
        Ok(inodes) => inodes,
        Err(error) => {
            return Err(error);
        },
    };
    assert(inodes == target_inodes(logical as nat, maximum_manifest_entries as nat));
    let floor: u64 = match entries.checked_mul(EXT4_BLOCK_BYTES) {
        Some(floor) => floor,
        None => {
            return Err(HostBuildError::invalid("layers", "entry sizing arithmetic overflow"));
        },
    };
    let content: u64 = match logical.checked_mul(2) {
        Some(content) => content,
        None => {
            return Err(HostBuildError::invalid("layers", "content sizing arithmetic overflow"));
        },
    };
    let room: u64 = if content < floor {
        floor
    } else {
        content
    };
    let desired: u128 = room as u128 + inodes as u128 * EXT4_INODE_BYTES as u128
        + TARGET_SLACK_BYTES as u128;
    if desired > u64::MAX as u128 {
        return Err(HostBuildError::invalid("layers", "target sizing arithmetic overflow"));
    }
    let bytes: u64 = if (desired as u64) < TARGET_MINIMUM_BYTES {
        TARGET_MINIMUM_BYTES
    } else {
        desired as u64
    };
    filesystem_sizing(bytes, inodes, MAX_TARGET_BYTES, TARGET_INODE_CLASS, "target")
}

// ---------------------------------------------------------------------------
// Laws
// ---------------------------------------------------------------------------

/// A sizing holds what was asked for in whole size classes, and its one
/// further attempt is exactly one class larger in bytes and in inodes.
pub proof fn law_retry_is_one_class_larger(
    desired: nat,
    inodes: u64,
    maximum: u64,
    inode_class: u64,
    field: Seq<char>,
)
    ensures
        match sizing_outcome(desired, inodes, maximum, inode_class, field) {
            Ok(sizing) => {
                &&& desired <= sizing.initial.bytes <= maximum
                &&& sizing.initial.bytes < desired + SIZE_CLASS_BYTES
                &&& sizing.initial.bytes % SIZE_CLASS_BYTES == 0
                &&& sizing.initial.inodes == inodes
                &&& match sizing.retry {
                    Some(retry) => retry.bytes == sizing.initial.bytes + SIZE_CLASS_BYTES
                        && retry.inodes == inodes + inode_class && retry.bytes <= maximum,
                    None => sizing.initial.bytes + SIZE_CLASS_BYTES > maximum,
                }
            },
            Err(_) => true,
        },
{
    lemma_rounded_up(desired, SIZE_CLASS_BYTES as nat);
}

/// A larger image is never given a smaller filesystem, and what can be sized
/// for an image can be sized for every smaller one.
pub proof fn law_target_size_grows_with_its_layers(small: nat, large: nat, maximum_entries: nat)
    requires
        small <= large,
    ensures
        target_outcome(large, maximum_entries) matches Ok(right) ==> target_outcome(
            small,
            maximum_entries,
        ) matches Ok(left) && left.initial.bytes <= right.initial.bytes && left.initial.inodes
            <= right.initial.inodes,
{
    let few = entry_bound(small, maximum_entries);
    let many = entry_bound(large, maximum_entries);
    assert(small / (TAR_RECORD_BYTES as nat) <= large / (TAR_RECORD_BYTES as nat));
    assert(few <= many);
    lemma_rounding_grows(
        few + TARGET_INTERNAL_INODES as nat,
        many + TARGET_INTERNAL_INODES as nat,
        TARGET_INODE_CLASS as nat,
    );
    let left = at_least(2 * small, few * (EXT4_BLOCK_BYTES as nat)) + target_inodes(
        small,
        maximum_entries,
    ) * (EXT4_INODE_BYTES as nat) + TARGET_SLACK_BYTES as nat;
    let right = at_least(2 * large, many * (EXT4_BLOCK_BYTES as nat)) + target_inodes(
        large,
        maximum_entries,
    ) * (EXT4_INODE_BYTES as nat) + TARGET_SLACK_BYTES as nat;
    lemma_rounding_grows(
        at_least(left, TARGET_MINIMUM_BYTES as nat),
        at_least(right, TARGET_MINIMUM_BYTES as nat),
        SIZE_CLASS_BYTES as nat,
    );
}

proof fn lemma_rounding_grows(small: nat, large: nat, class: nat)
    requires
        class > 0,
        small <= large,
    ensures
        rounded_up(small, class) <= rounded_up(large, class),
{
    let low = (small + class - 1) as int;
    let high = (large + class - 1) as int;
    vstd::arithmetic::div_mod::lemma_div_is_ordered(low, high, class as int);
    vstd::arithmetic::mul::lemma_mul_inequality(low / (class as int), high / (class as int), class as int);
}

/// The scratch filesystem holds its layout: a quarter more than the layout's
/// bytes, 64 MiB, the inode table and a block for each entry all fit, in whole
/// 64 MiB classes of at least two and with less than one class to spare. Each
/// entry has an inode, with a quarter and 1024 to spare, in whole classes of
/// 4096. A further attempt adds one class of each; only what would not fit
/// 256 GiB is refused.
pub proof fn law_scratch_holds_its_layout(
    totals: LayoutTotals,
    sizing: Result<FilesystemSizing, HostBuildError>,
)
    requires
        totals.entries <= 16_384,
        call_ensures(payload_sizing, (totals,), sizing),
    ensures
        match sizing {
            Ok(sizing) => {
                let size = sizing.initial;
                let need = totals.bytes + totals.bytes / 4 + 67_108_864 + size.inodes * 256 + totals.entries * 4096;
                &&& size.bytes >= need
                &&& size.bytes > totals.bytes
                &&& size.bytes >= 134_217_728
                &&& size.bytes < need + 67_108_864 || size.bytes == 134_217_728
                &&& size.bytes % 67_108_864 == 0
                &&& size.bytes <= 274_877_906_944
                &&& size.inodes > totals.entries
                &&& size.inodes >= totals.entries + totals.entries / 4 + 1024
                &&& size.inodes < totals.entries + totals.entries / 4 + 1024 + 4096
                &&& size.inodes % 4096 == 0
                &&& match sizing.retry {
                    Some(retry) => {
                        &&& retry.bytes == size.bytes + 67_108_864
                        &&& retry.bytes <= 274_877_906_944
                        &&& retry.inodes == size.inodes + 4096
                    },
                    None => size.bytes + 67_108_864 > 274_877_906_944,
                }
            },
            Err(_) => totals.bytes + totals.bytes / 4 + 67_108_864 + (totals.entries + totals.entries / 4 + 5119) * 256 + totals.entries
                * 4096 > 274_877_906_944,
        },
{
    let entries = totals.entries as nat;
    let bytes = totals.bytes as nat;
    let inodes = payload_inodes(entries);
    lemma_rounded_up((entries + entries / 4 + 1024) as nat, 4096);
    let desired = at_least(payload_bytes(entries, bytes), 134_217_728);
    lemma_rounded_up(desired, 67_108_864);
    assert(inodes <= entries + entries / 4 + 5119);
    assert(274_877_906_944nat == 4096 * 67_108_864nat);
    if desired <= 274_877_906_944 {
        lemma_class_below(desired, 67_108_864, 4096);
    }
}

/// The target filesystem holds its layers: twice their uncompressed bytes or a
/// block for each entry they may have, the inode table and 512 MiB all fit, in
/// whole 64 MiB classes of at least 8 GiB and with less than one class to
/// spare. A tar record of 512 bytes is the least that an entry takes, so each
/// entry has an inode, with 16 to spare, in whole classes of 65536. A further
/// attempt adds one class of each, up to 512 GiB.
pub proof fn law_target_holds_its_layers(
    uncompressed: Vec<u64>,
    maximum_manifest_entries: u64,
    sizing: Result<FilesystemSizing, HostBuildError>,
)
    requires
        call_ensures(target_sizing, (&uncompressed, maximum_manifest_entries), sizing),
    ensures
        ({
            let logical = total(uncompressed@);
            let records = if logical < 512 {
                1
            } else {
                logical / 512
            };
            let entries = if records < maximum_manifest_entries {
                records
            } else {
                maximum_manifest_entries as nat
            };
            let room = if 2 * logical < entries * 4096 {
                entries * 4096
            } else {
                2 * logical
            };
            match sizing {
                Ok(sizing) => {
                    let size = sizing.initial;
                    let need = room + size.inodes * 256 + 536_870_912;
                    &&& size.bytes >= need
                    &&& size.bytes >= 8_589_934_592
                    &&& size.bytes < need + 67_108_864 || size.bytes == 8_589_934_592
                    &&& size.bytes % 67_108_864 == 0
                    &&& size.bytes <= 549_755_813_888
                    &&& size.inodes >= entries + 16
                    &&& size.inodes < entries + 16 + 65_536
                    &&& size.inodes % 65_536 == 0
                    &&& match sizing.retry {
                        Some(retry) => {
                            &&& retry.bytes == size.bytes + 67_108_864
                            &&& retry.bytes <= 549_755_813_888
                            &&& retry.inodes == size.inodes + 65_536
                        },
                        None => size.bytes + 67_108_864 > 549_755_813_888,
                    }
                },
                Err(_) => room + (entries + 65_551) * 256 + 536_870_912 > 549_755_813_888,
            }
        }),
{
    let logical = total(uncompressed@);
    let maximum_entries = maximum_manifest_entries as nat;
    let entries = entry_bound(logical, maximum_entries);
    let inodes = target_inodes(logical, maximum_entries);
    let content = at_least(2 * logical, entries * 4096);
    let desired = content + inodes * 256 + 536_870_912;
    lemma_rounded_up((entries + 16) as nat, 65_536);
    lemma_rounded_up(at_least(desired, 8_589_934_592), 67_108_864);
    assert(entries <= maximum_entries);
    assert(inodes <= entries + 16 + 65_535);
    if at_least(desired, 8_589_934_592) <= 549_755_813_888 {
        lemma_class_below(at_least(desired, 8_589_934_592), 67_108_864, 8192);
    }
}

/// A layout is counted entry by entry: each counts one, a file its length as
/// well and a directory nothing more; anything else, and every entry after the
/// 16384th, is refused.
pub proof fn law_layout_is_counted_whole(
    totals: LayoutTotals,
    entry: LayoutEntry,
    path: &str,
    counted: Result<LayoutTotals, HostBuildError>,
)
    requires
        call_ensures(LayoutTotals::count, (totals, entry, path), counted),
    ensures
        match counted {
            Ok(next) => {
                &&& next.entries == totals.entries + 1
                &&& next.entries <= 16_384
                &&& entry is Other ==> false
                &&& entry is Directory ==> next.bytes == totals.bytes
                &&& entry matches LayoutEntry::File { length } ==> next.bytes == totals.bytes
                    + length
            },
            Err(_) => totals.entries >= 16_384 || entry is Other || (entry matches LayoutEntry::File {
                length,
            } && totals.bytes + length > u64::MAX),
        },
{
}

/// The layers' bytes are the sum of the bytes of each.
pub proof fn law_layer_bytes_add_up(left: Seq<u64>, right: Seq<u64>, size: u64)
    ensures
        total(left + right) == total(left) + total(right),
        total(seq![size]) == size,
    decreases right.len(),
{
    reveal_with_fuel(total, 2);
    assert(seq![size].drop_last() =~= Seq::<u64>::empty());
    if right.len() == 0 {
        assert(left + right =~= left);
    } else {
        law_layer_bytes_add_up(left, right.drop_last(), size);
        assert((left + right).drop_last() =~= left + right.drop_last());
    }
}

/// A requested size is taken as it is where it is whole 4096-byte blocks
/// between 128 MiB and 512 GiB, and refused otherwise.
pub proof fn law_requested_size_is_bounded(
    bytes: u64,
    size: Result<u64, HostBuildError>,
)
    requires
        call_ensures(validate_target_size, (bytes,), size),
    ensures
        match size {
            Ok(size) => size == bytes && bytes % 4096 == 0 && 134_217_728 <= bytes
                <= 549_755_813_888,
            Err(_) => bytes % 4096 != 0 || bytes < 134_217_728 || bytes > 549_755_813_888,
        },
{
}

/// A value below a whole number of classes stays below it when rounded.
proof fn lemma_class_below(value: nat, class: nat, count: nat)
    requires
        class > 0,
        value <= count * class,
    ensures
        rounded_up(value, class) <= count * class,
{
    lemma_rounding_grows(value, count * class, class);
    let whole = (count * class + class - 1) as int;
    assert(whole / (class as int) == count) by (nonlinear_arith)
        requires
            whole == count * class + class - 1,
            class > 0,
    ;
}

/// Inodes are counted in whole classes, the fewest that hold the wanted number.
pub proof fn law_inodes_come_in_classes(
    value: u64,
    class: u64,
    field: &'static str,
    inodes: Result<u64, HostBuildError>,
)
    requires
        class > 0,
        call_ensures(sized_inode_class, (value, class, field), inodes),
    ensures
        inodes is Ok <==> value + class <= 0x1_0000_0000_0000_0000,
        inodes matches Ok(inodes) ==> inodes % class == 0 && value <= inodes < value + class,
{
    lemma_rounded_up(value as nat, class as nat);
}

/// A refused size is told which of its bounds it breaks, and a refused layout
/// what is too many, too large or of another kind.
pub proof fn law_refused_size_is_told_why(
    bytes: u64,
    size: Result<u64, HostBuildError>,
    before: LayoutTotals,
    entry: LayoutEntry,
    path: &str,
    totals: Result<LayoutTotals, HostBuildError>,
)
    requires
        call_ensures(validate_target_size, (bytes,), size),
        call_ensures(LayoutTotals::count, (before, entry, path), totals),
        before.entries < usize::MAX,
    ensures
        bytes % 4096 != 0 ==> build_outcome(size) == Err::<u64, _>(
            invalid_build("target_bytes"@, "must be a multiple of the 4096-byte block size"@),
        ),
        bytes % 4096 == 0 && bytes < 134_217_728 ==> build_outcome(size) == Err::<u64, _>(
            invalid_build("target_bytes"@, "must be at least 134217728 bytes"@),
        ),
        bytes % 4096 == 0 && bytes > 549_755_813_888 ==> build_outcome(size) == Err::<u64, _>(
            invalid_build("target_bytes"@, "exceeds the 549755813888-byte maximum"@),
        ),
        before.entries >= 16_384 ==> build_outcome(totals) == Err::<LayoutTotals, _>(
            invalid_build("oci_layout"@, "contains more than 16384 entries"@),
        ),
        before.entries < 16_384 && entry is Other ==> build_outcome(totals) == Err::<
            LayoutTotals,
            _,
        >(invalid_build("oci_layout"@, path@ + " is not a plain file or directory"@)),
        before.entries < 16_384 ==> (entry matches LayoutEntry::File { length } ==> before.bytes
            + length > u64::MAX ==> build_outcome(totals) == Err::<LayoutTotals, _>(
            invalid_build("oci_layout"@, "logical byte count overflow"@),
        )),
{
}

} // verus!
