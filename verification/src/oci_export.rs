//! Rebuild a distributable OCI image from a published generation.
//!
//! A generation holds an ext4 filesystem rather than the layers it was built
//! from, so exporting one is not a copy: the layer has to be reconstructed.
//! The tar is written from the manifest the builder recorded and the validator
//! checked, and every regular file is verified against the digest the manifest
//! recorded for it.

pub mod extraction;
pub mod readback;

pub use self::extraction::{dump_script, staged_name};

use vstd::prelude::*;
use vstd::string::*;
use vstd::utf8::*;

use crate::bytes::{be_u32, big_endian, copy_between, extend};
use crate::digest::{
    absorbed, digest_text, hex_of, hex_text, same_bytes, sha256, sha256_of, StreamDigest,
};
use crate::numeral::{
    lemma_decimal_digits, lemma_decimal_grows, lemma_decimal_is_short, lemma_decimal_word,
    lemma_padding_keeps_the_value, seconds_text, spell_seconds, zero_padded, NANOS_PER_SECOND,
};
use crate::order::{bytes_before, is_bytes_before, law_byte_order_is_strict_and_total};
use crate::text::{decimal, decimal_text, join, join3};

verus! {

/// A tar member's type, as the manifest records it.
pub const KIND_FILE: u8 = 1;

pub const KIND_DIRECTORY: u8 = 2;

pub const KIND_SYMLINK: u8 = 3;

pub const KIND_CHAR_DEVICE: u8 = 4;

pub const KIND_BLOCK_DEVICE: u8 = 5;

pub const KIND_FIFO: u8 = 6;

pub const KIND_SOCKET: u8 = 7;

/// Bytes of a tar block.
pub const BLOCK: usize = 512;

/// Bytes of a header's name field.
pub const NAME_FIELD: usize = 100;

/// Bytes of a header's link field.
pub const LINK_FIELD: usize = 100;

/// The numbers below this fit a field of seven octal digits.
pub const ID_FIELD_SPAN: u64 = 0o10_000_000;

/// The numbers below this fit a field of eleven octal digits.
pub const LONG_FIELD_SPAN: u64 = 0o100_000_000_000;

/// One extended attribute of a manifest entry.
#[derive(Debug, Clone, PartialEq, Eq)]
pub struct ManifestXattr {
    pub name: Vec<u8>,
    pub value: Vec<u8>,
}

/// One filesystem object of a generation, as the builder recorded it.
#[derive(Debug, Clone, PartialEq, Eq)]
pub struct ManifestEntry {
    pub path: Vec<u8>,
    pub kind: u8,
    pub mode: u32,
    pub uid: u32,
    pub gid: u32,
    pub size: u64,
    pub rdev: u64,
    pub mtime_seconds: i64,
    pub mtime_nanoseconds: u32,
    pub symlink_target: Option<Vec<u8>>,
    pub content_sha256: Option<Vec<u8>>,
    pub hardlink_target: Option<Vec<u8>>,
    pub xattrs: Vec<ManifestXattr>,
}

// ---------------------------------------------------------------------------
// The stored manifest's framing
// ---------------------------------------------------------------------------

/// The payloads from `offset` on: each follows its four-byte big-endian
/// length.
pub open spec fn manifest_outcome(bytes: Seq<u8>, offset: int) -> Result<
    Seq<Seq<u8>>,
    Seq<char>,
>
    decreases bytes.len() - offset,
{
    match frame_at(bytes, offset) {
        Err(reason) => Err(reason),
        Ok(None) => Ok(Seq::empty()),
        Ok(Some((start, end))) => match manifest_outcome(bytes, end) {
            Ok(rest) => Ok(seq![bytes.subrange(start, end)] + rest),
            Err(reason) => Err(reason),
        },
    }
}

/// The contents of each list of bytes.
pub open spec fn payloads(parts: Seq<Vec<u8>>) -> Seq<Seq<u8>> {
    Seq::new(parts.len(), |i: int| parts[i]@)
}

/// Payloads already read, followed by the outcome of reading the others.
pub open spec fn after(done: Seq<Seq<u8>>, rest: Result<Seq<Seq<u8>>, Seq<char>>) -> Result<
    Seq<Seq<u8>>,
    Seq<char>,
> {
    match rest {
        Ok(rest) => Ok(done + rest),
        Err(reason) => Err(reason),
    }
}

/// Where the payload behind `offset` lies, if there is one.
pub open spec fn frame_at(bytes: Seq<u8>, offset: int) -> Result<Option<(int, int)>, Seq<char>> {
    let length = big_endian(bytes, offset, 4);
    if offset >= bytes.len() {
        Ok(None)
    } else if bytes.len() - offset < 4 {
        Err("manifest ends inside a length prefix at "@ + decimal(offset as nat))
    } else if length == 0 || length > bytes.len() - offset - 4 {
        Err(
            "manifest entry at "@ + decimal((offset + 4) as nat) + " claims "@ + decimal(length)
                + " bytes"@,
        )
    } else {
        Ok(Some((offset + 4, offset + 4 + length)))
    }
}

/// Where the next payload lies, if there is one.
pub fn next_entry(bytes: &[u8], offset: usize) -> (range: Result<Option<(usize, usize)>, String>)
    ensures
        match range {
            Ok(None) => frame_at(bytes@, offset as int) == Ok::<Option<(int, int)>, Seq<char>>(
                None,
            ),
            Ok(Some((start, end))) => frame_at(bytes@, offset as int) == Ok::<_, Seq<char>>(
                Some((start as int, end as int)),
            ),
            Err(reason) => frame_at(bytes@, offset as int) == Err::<Option<(int, int)>, _>(
                reason@,
            ),
        },
{
    if offset >= bytes.len() {
        return Ok(None);
    }
    if bytes.len() - offset < 4 {
        return Err(
            join("manifest ends inside a length prefix at ", &decimal_text(offset as u64)),
        );
    }
    let length: u32 = be_u32(bytes, offset);
    let start: usize = offset + 4;
    if length == 0 || length as usize > bytes.len() - start {
        let claim = join3("manifest entry at ", &decimal_text(start as u64), " claims ");
        return Err(join3(&claim, &decimal_text(length as u64), " bytes"));
    }
    Ok(Some((start, start + length as usize)))
}

/// Split the stored `metadata.manifest` into its payloads.
///
/// The builder streams it as a four-byte big-endian length before each
/// canonical CBOR entry, and the host appends those bytes verbatim, so the
/// file on disk is that framing end to end.
pub fn decode_manifest(bytes: &[u8]) -> (entries: Result<Vec<Vec<u8>>, String>)
    ensures
        match entries {
            Ok(entries) => manifest_outcome(bytes@, 0) == Ok::<_, Seq<char>>(payloads(entries@)),
            Err(reason) => manifest_outcome(bytes@, 0) == Err::<Seq<Seq<u8>>, _>(reason@),
        },
{
    let mut entries: Vec<Vec<u8>> = Vec::new();
    let mut offset: usize = 0;
    let ghost whole = manifest_outcome(bytes@, 0);
    proof {
        assert(payloads(entries@) =~= Seq::<Seq<u8>>::empty());
        match whole {
            Ok(rest) => {
                assert(payloads(entries@) + rest =~= rest);
            },
            Err(_) => {},
        }
    }
    loop
        invariant
            offset <= bytes@.len(),
            whole == manifest_outcome(bytes@, 0),
            whole == after(payloads(entries@), manifest_outcome(bytes@, offset as int)),
        decreases bytes@.len() - offset,
    {
        match next_entry(bytes, offset) {
            Err(reason) => {
                return Err(reason);
            },
            Ok(None) => {
                assert(payloads(entries@) + Seq::<Seq<u8>>::empty() =~= payloads(entries@));
                return Ok(entries);
            },
            Ok(Some((start, end))) => {
                let ghost done = payloads(entries@);
                let ghost rest = manifest_outcome(bytes@, end as int);
                let payload = copy_between(bytes, start, end);
                let ghost bytes_of = payload@;
                entries.push(payload);
                proof {
                    assert(payloads(entries@) =~= done.push(bytes_of));
                    match rest {
                        Ok(rest) => {
                            assert(done + (seq![bytes_of] + rest) =~= done.push(bytes_of) + rest);
                        },
                        Err(_) => {},
                    }
                }
                offset = end;
            },
        }
    }
}

/// A length as four bytes, the most significant first.
pub open spec fn length_prefix(length: nat) -> Seq<u8> {
    seq![
        (length / 0x100_0000) as u8,
        (length / 0x1_0000 % 256) as u8,
        (length / 256 % 256) as u8,
        (length % 256) as u8,
    ]
}

/// The payloads, each behind its length.
pub open spec fn framed(parts: Seq<Seq<u8>>) -> Seq<u8>
    decreases parts.len(),
{
    if parts.len() == 0 {
        Seq::empty()
    } else {
        length_prefix(parts[0].len()) + parts[0] + framed(parts.skip(1))
    }
}

/// A manifest round-trips through its framing: payloads that are not empty and
/// whose length fits four bytes are read back as they were written.
pub proof fn law_framing_round_trips(parts: Seq<Seq<u8>>)
    requires
        forall|i: int| 0 <= i < parts.len() ==> 0 < (#[trigger] parts[i]).len() < 0x1_0000_0000,
    ensures
        manifest_outcome(framed(parts), 0) == Ok::<_, Seq<char>>(parts),
{
    assert(Seq::<u8>::empty() + framed(parts) =~= framed(parts));
    lemma_framing_from(Seq::empty(), parts);
}

/// A length prefix spells its length.
proof fn lemma_prefix_value(bytes: Seq<u8>, offset: int, length: nat)
    requires
        0 <= offset,
        offset + 4 <= bytes.len(),
        length < 0x1_0000_0000,
        bytes.subrange(offset, offset + 4) == length_prefix(length),
    ensures
        big_endian(bytes, offset, 4) == length,
{
    let prefix = bytes.subrange(offset, offset + 4);
    assert(bytes[offset] == prefix[0]);
    assert(bytes[offset + 1] == prefix[1]);
    assert(bytes[offset + 2] == prefix[2]);
    assert(bytes[offset + 3] == prefix[3]);
    reveal_with_fuel(big_endian, 5);
}

/// Reading one payload and then the others.
proof fn lemma_frame_step(bytes: Seq<u8>, offset: int, length: nat, rest: Seq<Seq<u8>>)
    requires
        0 <= offset,
        0 < length,
        offset + 4 + length <= bytes.len(),
        big_endian(bytes, offset, 4) == length,
        manifest_outcome(bytes, offset + 4 + length) == Ok::<_, Seq<char>>(rest),
    ensures
        manifest_outcome(bytes, offset) == Ok::<_, Seq<char>>(
            seq![bytes.subrange(offset + 4, offset + 4 + length)] + rest,
        ),
{
}

proof fn lemma_framing_from(front: Seq<u8>, parts: Seq<Seq<u8>>)
    requires
        forall|i: int| 0 <= i < parts.len() ==> 0 < (#[trigger] parts[i]).len() < 0x1_0000_0000,
    ensures
        manifest_outcome(front + framed(parts), front.len() as int) == Ok::<_, Seq<char>>(parts),
    decreases parts.len(),
{
    let bytes = front + framed(parts);
    let offset = front.len() as int;
    if parts.len() == 0 {
        assert(parts =~= Seq::<Seq<u8>>::empty());
    } else {
        let part = parts[0];
        let rest = parts.skip(1);
        let prefix = length_prefix(part.len());
        let tail = framed(rest);
        let next = front + prefix + part;
        assert(framed(parts) == prefix + part + tail);
        assert(prefix.len() == 4);
        assert(bytes =~= next + tail);
        assert(bytes.subrange(offset, offset + 4) =~= prefix);
        assert(bytes.subrange(offset + 4, offset + 4 + part.len()) =~= part);
        assert(seq![part] + rest =~= parts);
        assert forall|i: int| 0 <= i < rest.len() implies 0 < (#[trigger] rest[i]).len()
            < 0x1_0000_0000 by {
            assert(rest[i] == parts[i + 1]);
        }
        lemma_framing_from(next, rest);
        lemma_prefix_value(bytes, offset, part.len());
        lemma_frame_step(bytes, offset, part.len(), rest);
    }
}

/// A manifest that is cut between two payloads reads as the payloads before
/// the cut; one that is cut inside a payload or its length is refused.
pub proof fn law_cut_manifest_is_refused(parts: Seq<Seq<u8>>, n: int, cut: int)
    requires
        forall|i: int| 0 <= i < parts.len() ==> 0 < (#[trigger] parts[i]).len() < 0x1_0000_0000,
        0 <= n < parts.len(),
        framed(parts.take(n)).len() <= cut < framed(parts.take(n + 1)).len(),
    ensures
        framed(parts.take(n + 1)).len() <= framed(parts).len(),
        cut == framed(parts.take(n)).len() ==> manifest_outcome(framed(parts).take(cut), 0)
            == Ok::<_, Seq<char>>(parts.take(n)),
        cut > framed(parts.take(n)).len() ==> manifest_outcome(framed(parts).take(cut), 0) is Err,
{
    let whole = framed(parts);
    let front = framed(parts.take(n));
    let rest = parts.skip(n);
    lemma_framed_parts(parts, n);
    lemma_framed_parts(parts, n + 1);
    lemma_framed_parts(parts.take(n + 1), n);
    assert(parts.take(n + 1).take(n) =~= parts.take(n));
    let last = parts.take(n + 1).skip(n);
    assert(last =~= seq![parts[n]]);
    assert(last.skip(1) =~= Seq::<Seq<u8>>::empty());
    let frame = length_prefix(parts[n].len()) + parts[n];
    assert(framed(last.skip(1)) =~= Seq::<u8>::empty());
    assert(framed(last) =~= frame);
    assert(rest[0] == parts[n]);
    assert(framed(rest) =~= frame + framed(rest.skip(1)));
    let tail = frame.take(cut - front.len());
    let bytes = whole.take(cut);
    assert(bytes =~= front + tail);
    assert forall|i: int| 0 <= i < parts.take(n).len() implies 0 < (#[trigger] parts.take(
        n,
    )[i]).len() < 0x1_0000_0000 by {
        assert(parts.take(n)[i] == parts[i]);
    }
    if cut == front.len() {
        assert(bytes =~= front);
        law_framing_round_trips(parts.take(n));
    } else {
        let offset = front.len() as int;
        if tail.len() >= 4 {
            assert(bytes.subrange(offset, offset + 4) =~= length_prefix(parts[n].len()));
            lemma_prefix_value(bytes, offset, parts[n].len());
        }
        assert(frame_at(bytes, offset) is Err);
        assert(Seq::<u8>::empty() + front + tail =~= bytes);
        lemma_refused_behind(Seq::empty(), parts.take(n), tail);
    }
}

/// A manifest that holds an empty payload is refused.
pub proof fn law_empty_payload_is_refused(parts: Seq<Seq<u8>>, n: int)
    requires
        forall|i: int| 0 <= i < n ==> 0 < (#[trigger] parts[i]).len() < 0x1_0000_0000,
        0 <= n < parts.len(),
        parts[n].len() == 0,
    ensures
        manifest_outcome(framed(parts), 0) is Err,
{
    let front = framed(parts.take(n));
    let tail = framed(parts.skip(n));
    let bytes = framed(parts);
    let offset = front.len() as int;
    lemma_framed_parts(parts, n);
    assert(parts.skip(n)[0] == parts[n]);
    assert(tail.take(4) =~= length_prefix(0));
    assert(bytes.subrange(offset, offset + 4) =~= tail.take(4));
    lemma_prefix_value(bytes, offset, 0);
    assert(frame_at(bytes, offset) is Err);
    assert(Seq::<u8>::empty() + front + tail =~= bytes);
    assert forall|i: int| 0 <= i < parts.take(n).len() implies 0 < (#[trigger] parts.take(
        n,
    )[i]).len() < 0x1_0000_0000 by {
        assert(parts.take(n)[i] == parts[i]);
    }
    lemma_refused_behind(Seq::empty(), parts.take(n), tail);
}

proof fn lemma_framed_parts(parts: Seq<Seq<u8>>, n: int)
    requires
        0 <= n <= parts.len(),
    ensures
        framed(parts) == framed(parts.take(n)) + framed(parts.skip(n)),
    decreases parts.len(),
{
    if n == 0 {
        assert(parts.skip(0) =~= parts);
        assert(parts.take(0) =~= Seq::<Seq<u8>>::empty());
        assert(framed(parts.take(0)) =~= Seq::<u8>::empty());
        assert(framed(parts) =~= framed(parts.take(n)) + framed(parts.skip(n)));
    } else {
        let rest = parts.skip(1);
        lemma_framed_parts(rest, n - 1);
        assert(rest.skip(n - 1) =~= parts.skip(n));
        assert(parts.take(n).skip(1) =~= rest.take(n - 1));
        assert(parts.take(n)[0] == parts[0]);
        assert(framed(parts) =~= framed(parts.take(n)) + framed(parts.skip(n)));
    }
}

/// What is refused behind whole payloads is refused with them.
proof fn lemma_refused_behind(front: Seq<u8>, parts: Seq<Seq<u8>>, tail: Seq<u8>)
    requires
        forall|i: int| 0 <= i < parts.len() ==> 0 < (#[trigger] parts[i]).len() < 0x1_0000_0000,
        frame_at(front + framed(parts) + tail, (front + framed(parts)).len() as int) is Err,
    ensures
        manifest_outcome(front + framed(parts) + tail, front.len() as int) is Err,
    decreases parts.len(),
{
    let bytes = front + framed(parts) + tail;
    let offset = front.len() as int;
    if parts.len() > 0 {
        let part = parts[0];
        let rest = parts.skip(1);
        let prefix = length_prefix(part.len());
        let next = front + prefix + part;
        assert(bytes =~= next + framed(rest) + tail);
        assert((front + framed(parts)).len() == (next + framed(rest)).len());
        assert(bytes.subrange(offset, offset + 4) =~= prefix);
        assert forall|i: int| 0 <= i < rest.len() implies 0 < (#[trigger] rest[i]).len()
            < 0x1_0000_0000 by {
            assert(rest[i] == parts[i + 1]);
        }
        lemma_refused_behind(next, rest, tail);
        lemma_prefix_value(bytes, offset, part.len());
    } else {
        assert(front + framed(parts) =~= front);
    }
}

// ---------------------------------------------------------------------------
// Tar fields
// ---------------------------------------------------------------------------

pub open spec fn zeros(count: nat) -> Seq<u8> {
    Seq::new(count, |i: int| 0u8)
}

/// A text field: as much of the value as leaves room for a terminator.
pub open spec fn text_field(value: Seq<u8>, width: nat) -> Seq<u8> {
    if value.len() < width {
        value + zeros((width - value.len()) as nat)
    } else {
        value.take(width - 1) + zeros(1)
    }
}

/// The last `count` octal digits of a number.
pub open spec fn octal_digits(value: nat, count: nat) -> Seq<u8>
    decreases count,
{
    if count == 0 {
        Seq::empty()
    } else {
        octal_digits(value / 8, (count - 1) as nat).push((48 + value % 8) as u8)
    }
}

/// A number field: octal digits and a terminator.
pub open spec fn octal_field(value: nat, width: nat) -> Seq<u8> {
    octal_digits(value, (width - 1) as nat).push(0u8)
}

/// The sum of all bytes.
pub open spec fn byte_sum(bytes: Seq<u8>) -> nat
    decreases bytes.len(),
{
    if bytes.len() == 0 {
        0
    } else {
        byte_sum(bytes.drop_last()) + bytes.last() as nat
    }
}

/// Eight spaces.
pub open spec fn blank_checksum() -> Seq<u8> {
    Seq::new(8, |i: int| 32u8)
}

/// The checksum field of a header whose bytes sum to the given number.
pub open spec fn checksum_field(sum: nat) -> Seq<u8> {
    octal_digits(sum, 6) + seq![0u8, 32u8]
}

/// A header around its checksum, which is computed with its own field read as
/// spaces.
pub open spec fn finished_header(front: Seq<u8>, back: Seq<u8>) -> Seq<u8> {
    front + checksum_field(byte_sum(front + blank_checksum() + back)) + back
}

/// The fields in front of the checksum.
pub open spec fn header_front(
    name: Seq<u8>,
    mode: nat,
    uid: nat,
    gid: nat,
    size: nat,
    mtime: nat,
) -> Seq<u8> {
    text_field(name, 100) + octal_field(mode, 8) + octal_field(uid, 8) + octal_field(gid, 8)
        + octal_field(size, 12) + octal_field(mtime, 12)
}

/// `ustar` with its terminator, and the version `00`.
pub open spec fn ustar() -> Seq<u8> {
    seq![117u8, 115u8, 116u8, 97u8, 114u8, 0u8, 48u8, 48u8]
}

/// The fields behind the checksum.
pub open spec fn header_back(kind: u8, link: Seq<u8>, devices: Seq<u8>) -> Seq<u8> {
    seq![kind] + text_field(link, 100) + ustar() + zeros(64) + devices + zeros(167)
}

/// Appends `count` zero bytes.
fn append_zeros(bytes: &mut Vec<u8>, count: usize)
    ensures
        final(bytes)@ == old(bytes)@ + zeros(count as nat),
{
    let ghost before = bytes@;
    let mut i: usize = 0;
    assert(before + zeros(0) =~= before);
    while i < count
        invariant
            i <= count,
            bytes@ == before + zeros(i as nat),
        decreases count - i,
    {
        bytes.push(0u8);
        i += 1;
        assert(bytes@ =~= before + zeros(i as nat));
    }
}

/// Appends a text field.
pub fn write_field(header: &mut Vec<u8>, width: usize, value: &[u8])
    requires
        width > 0,
    ensures
        final(header)@ == old(header)@ + text_field(value@, width as nat),
{
    let ghost before = header@;
    if value.len() < width {
        extend(header, value);
        append_zeros(header, width - value.len());
        assert(header@ =~= before + text_field(value@, width as nat));
    } else {
        let kept = copy_between(value, 0, width - 1);
        assert(kept@ =~= value@.take(width - 1));
        extend(header, &kept);
        append_zeros(header, 1);
        assert(header@ =~= before + text_field(value@, width as nat));
    }
}

/// Appends the last `count` octal digits of a number.
fn append_octal(bytes: &mut Vec<u8>, value: u64, count: usize)
    ensures
        final(bytes)@ == old(bytes)@ + octal_digits(value as nat, count as nat),
    decreases count,
{
    let ghost before = bytes@;
    if count > 0 {
        append_octal(bytes, value / 8, count - 1);
        bytes.push(48u8 + (value % 8) as u8);
    }
    assert(bytes@ =~= before + octal_digits(value as nat, count as nat));
}

/// Appends a number field.
pub fn write_octal(header: &mut Vec<u8>, width: usize, value: u64)
    requires
        width > 0,
    ensures
        final(header)@ == old(header)@ + octal_field(value as nat, width as nat),
{
    let ghost before = header@;
    append_octal(header, value, width - 1);
    header.push(0u8);
    assert(header@ =~= before + octal_field(value as nat, width as nat));
}

proof fn lemma_sum_concat(left: Seq<u8>, right: Seq<u8>)
    ensures
        byte_sum(left + right) == byte_sum(left) + byte_sum(right),
    decreases right.len(),
{
    if right.len() == 0 {
        assert(left + right =~= left);
    } else {
        assert((left + right).drop_last() =~= left + right.drop_last());
        lemma_sum_concat(left, right.drop_last());
    }
}

proof fn lemma_blank_sum()
    ensures
        byte_sum(blank_checksum()) == 256,
{
    let blank = blank_checksum();
    reveal_with_fuel(byte_sum, 9);
    assert(blank.drop_last().drop_last().drop_last().drop_last().drop_last().drop_last().drop_last().drop_last().len()
        == 0);
}

/// The sum of the bytes of a header part.
fn sum_bytes(bytes: &[u8]) -> (sum: u64)
    requires
        bytes@.len() <= 512,
    ensures
        sum == byte_sum(bytes@),
        sum <= 255 * bytes@.len(),
{
    let mut sum: u64 = 0;
    let mut i: usize = 0;
    assert(bytes@.take(0) =~= Seq::<u8>::empty());
    while i < bytes.len()
        invariant
            i <= bytes@.len() <= 512,
            sum == byte_sum(bytes@.take(i as int)),
            sum <= 255 * i,
        decreases bytes@.len() - i,
    {
        assert(bytes@.take(i + 1).drop_last() =~= bytes@.take(i as int));
        sum += bytes[i] as u64;
        i += 1;
    }
    assert(bytes@.take(i as int) =~= bytes@);
    sum
}

/// Puts the checksum between the two parts of a header.
pub fn finish_header(front: &[u8], back: &[u8]) -> (header: Vec<u8>)
    requires
        front@.len() + 8 + back@.len() == BLOCK,
    ensures
        header@ == finished_header(front@, back@),
        header@.len() == BLOCK,
{
    let sum: u64 = sum_bytes(front) + 256 + sum_bytes(back);
    proof {
        lemma_blank_sum();
        lemma_sum_concat(front@, blank_checksum());
        lemma_sum_concat(front@ + blank_checksum(), back@);
    }
    let mut header: Vec<u8> = Vec::new();
    extend(&mut header, front);
    append_octal(&mut header, sum, 6);
    header.push(0u8);
    header.push(32u8);
    extend(&mut header, back);
    proof {
        lemma_octal_len(sum as nat, 6);
        assert(header@ =~= finished_header(front@, back@));
    }
    header
}

pub(crate) proof fn lemma_octal_len(value: nat, count: nat)
    ensures
        octal_digits(value, count).len() == count,
    decreases count,
{
    if count > 0 {
        lemma_octal_len(value / 8, (count - 1) as nat);
    }
}

// ---------------------------------------------------------------------------
// PAX records
// ---------------------------------------------------------------------------

/// One record of a PAX header.
#[derive(Debug)]
pub struct PaxRecord {
    pub key: Vec<u8>,
    pub value: Vec<u8>,
}

pub open spec fn record_pairs(records: Seq<PaxRecord>) -> Seq<(Seq<u8>, Seq<u8>)> {
    Seq::new(records.len(), |i: int| (records[i].key@, records[i].value@))
}

/// The records with one more, kept in key order; a key occurs once and its
/// last value counts.
pub open spec fn with_record(
    records: Seq<(Seq<u8>, Seq<u8>)>,
    key: Seq<u8>,
    value: Seq<u8>,
) -> Seq<(Seq<u8>, Seq<u8>)>
    decreases records.len(),
{
    if records.len() == 0 {
        seq![(key, value)]
    } else if records[0].0 == key {
        records.update(0, (key, value))
    } else if bytes_before(key, records[0].0) {
        seq![(key, value)] + records
    } else {
        seq![records[0]] + with_record(records.skip(1), key, value)
    }
}

/// Adds a record in key order, or replaces the value of its key.
pub fn insert_record(records: &mut Vec<PaxRecord>, key: Vec<u8>, value: Vec<u8>)
    ensures
        record_pairs(final(records)@) == with_record(record_pairs(old(records)@), key@, value@),
{
    let ghost before = record_pairs(records@);
    let mut i: usize = 0;
    assert(before.take(0) + with_record(before.skip(0), key@, value@) =~= with_record(
        before,
        key@,
        value@,
    )) by {
        assert(before.skip(0) =~= before);
    }
    while i < records.len()
        invariant
            i <= records@.len(),
            before == record_pairs(records@),
            before == record_pairs(old(records)@),
            with_record(before, key@, value@) == before.take(i as int) + with_record(
                before.skip(i as int),
                key@,
                value@,
            ),
        decreases records@.len() - i,
    {
        let ghost rest = before.skip(i as int);
        assert(rest[0] == (records@[i as int].key@, records@[i as int].value@));
        if same_bytes(&records[i].key, &key) {
            records[i] = PaxRecord { key, value };
            assert(record_pairs(records@) =~= before.take(i as int) + rest.update(
                0,
                (key@, value@),
            ));
            return ;
        }
        if is_bytes_before(&key, &records[i].key) {
            records.insert(i, PaxRecord { key, value });
            assert(record_pairs(records@) =~= before.take(i as int) + (seq![(key@, value@)] + rest));
            return ;
        }
        proof {
            assert(rest.skip(1) =~= before.skip(i + 1));
            assert(before.take(i + 1) =~= before.take(i as int).push(rest[0]));
            assert(before.take(i as int) + (seq![rest[0]] + with_record(
                rest.skip(1),
                key@,
                value@,
            )) =~= before.take(i + 1) + with_record(before.skip(i + 1), key@, value@));
        }
        i += 1;
    }
    assert(before.skip(i as int) =~= Seq::<(Seq<u8>, Seq<u8>)>::empty());
    records.push(PaxRecord { key, value });
    assert(record_pairs(records@) =~= before.take(i as int) + seq![(key@, value@)]);
}

/// Keys in strictly increasing order.
pub open spec fn sorted_records(records: Seq<(Seq<u8>, Seq<u8>)>) -> bool {
    forall|i: int, j: int|
        0 <= i < j < records.len() ==> bytes_before(
            (#[trigger] records[i]).0,
            (#[trigger] records[j]).0,
        )
}

/// Adding a record keeps the records in key order, with each key once.
pub proof fn law_records_stay_sorted(
    records: Seq<(Seq<u8>, Seq<u8>)>,
    key: Seq<u8>,
    value: Seq<u8>,
)
    requires
        sorted_records(records),
    ensures
        sorted_records(with_record(records, key, value)),
        with_record(records, key, value).contains((key, value)),
{
    lemma_with_record(records, key, value);
}

proof fn lemma_with_record(records: Seq<(Seq<u8>, Seq<u8>)>, key: Seq<u8>, value: Seq<u8>)
    requires
        sorted_records(records),
    ensures
        sorted_records(with_record(records, key, value)),
        with_record(records, key, value).contains((key, value)),
        forall|i: int|
            #![trigger with_record(records, key, value)[i]]
            0 <= i < with_record(records, key, value).len() ==> with_record(
                records,
                key,
                value,
            )[i].0 == key || exists|j: int|
                0 <= j < records.len() && with_record(records, key, value)[i].0
                    == (#[trigger] records[j]).0,
    decreases records.len(),
{
    let result = with_record(records, key, value);
    if records.len() == 0 {
        assert(result[0] == (key, value));
    } else if records[0].0 == key {
        assert(result[0] == (key, value));
        assert forall|i: int| #![trigger result[i]] 0 <= i < result.len() implies result[i].0 == key
            || exists|j: int| 0 <= j < records.len() && result[i].0 == (#[trigger] records[j]).0 by {
            if i > 0 {
                assert(result[i] == records[i]);
            }
        }
        assert forall|i: int, j: int| 0 <= i < j < result.len() implies bytes_before(
            (#[trigger] result[i]).0,
            (#[trigger] result[j]).0,
        ) by {
            assert(bytes_before(records[i].0, records[j].0));
        }
    } else if bytes_before(key, records[0].0) {
        assert(result[0] == (key, value));
        assert forall|i: int| #![trigger result[i]] 0 <= i < result.len() implies result[i].0 == key
            || exists|j: int| 0 <= j < records.len() && result[i].0 == (#[trigger] records[j]).0 by {
            if i > 0 {
                assert(result[i] == records[i - 1]);
            }
        }
        assert forall|i: int, j: int| 0 <= i < j < result.len() implies bytes_before(
            (#[trigger] result[i]).0,
            (#[trigger] result[j]).0,
        ) by {
            assert(result[j] == records[j - 1]);
            if i == 0 {
                if j > 1 {
                    assert(bytes_before(records[0].0, records[j - 1].0));
                    law_byte_order_is_strict_and_total(key, records[0].0, records[j - 1].0);
                }
            } else {
                assert(result[i] == records[i - 1]);
            }
        }
    } else {
        let rest = records.skip(1);
        assert forall|i: int, j: int| 0 <= i < j < rest.len() implies bytes_before(
            (#[trigger] rest[i]).0,
            (#[trigger] rest[j]).0,
        ) by {
            assert(rest[i] == records[i + 1] && rest[j] == records[j + 1]);
        }
        lemma_with_record(rest, key, value);
        let tail = with_record(rest, key, value);
        assert(result =~= seq![records[0]] + tail);
        let k = choose|k: int| 0 <= k < tail.len() && tail[k] == (key, value);
        assert(result[k + 1] == (key, value));
        law_byte_order_is_strict_and_total(key, records[0].0, key);
        assert(bytes_before(records[0].0, key));
        assert forall|i: int| #![trigger result[i]] 0 <= i < result.len() implies result[i].0 == key
            || exists|j: int| 0 <= j < records.len() && result[i].0 == (#[trigger] records[j]).0 by {
            if i > 0 {
                assert(result[i] == tail[i - 1]);
                if tail[i - 1].0 != key {
                    let j = choose|j: int|
                        0 <= j < rest.len() && tail[i - 1].0 == (#[trigger] rest[j]).0;
                    assert(rest[j] == records[j + 1]);
                }
            } else {
                assert(result[0] == records[0]);
            }
        }
        assert forall|i: int, j: int| 0 <= i < j < result.len() implies bytes_before(
            (#[trigger] result[i]).0,
            (#[trigger] result[j]).0,
        ) by {
            assert(result[j] == tail[j - 1]);
            if i == 0 {
                assert(result[0] == records[0]);
                if tail[j - 1].0 != key {
                    let m = choose|m: int|
                        0 <= m < rest.len() && tail[j - 1].0 == (#[trigger] rest[m]).0;
                    assert(rest[m] == records[m + 1]);
                    assert(bytes_before(records[0].0, records[m + 1].0));
                }
            } else {
                assert(result[i] == tail[i - 1]);
            }
        }
    }
}

/// The width of a record's length, found by letting it grow until it holds.
pub open spec fn length_width(body: nat, width: nat) -> nat
    decreases body + 1 - width,
{
    if width > body || decimal(body + width).len() <= width {
        width
    } else {
        length_width(body, width + 1)
    }
}

/// The length of a record whose other characters number `body`: it counts
/// itself.
pub open spec fn record_length(body: nat) -> nat {
    body + length_width(body, 1)
}

/// `%d %s=%s\n`, where the length counts itself.
pub open spec fn pax_record(key: Seq<u8>, value: Seq<u8>) -> Seq<u8> {
    let length = record_length(key.len() + value.len() + 3);
    encode_utf8(decimal(length)) + seq![32u8] + key + seq![61u8] + value + seq![10u8]
}

pub open spec fn pax_payload(records: Seq<(Seq<u8>, Seq<u8>)>) -> Seq<u8>
    decreases records.len(),
{
    if records.len() == 0 {
        Seq::empty()
    } else {
        pax_payload(records.drop_last()) + pax_record(records.last().0, records.last().1)
    }
}

proof fn lemma_length_width(body: nat, width: nat)
    requires
        body >= 1,
        1 <= width <= body + 1,
        width == 1 || decimal((body + width - 1) as nat).len() > width - 1,
    ensures
        decimal(body + length_width(body, width)).len() == length_width(body, width),
        width <= length_width(body, width) <= body + 1,
    decreases body + 1 - width,
{
    lemma_decimal_grows(0, body + width);
    if width > body {
        lemma_decimal_is_short((2 * body + 1) as nat);
        assert(body + width == 2 * body + 1);
        lemma_decimal_grows((body + width - 1) as nat, body + width);
    } else if decimal(body + width).len() <= width {
        if width > 1 {
            lemma_decimal_grows((body + width - 1) as nat, body + width);
        }
    } else {
        lemma_length_width(body, width + 1);
    }
}

/// A PAX record's length counts itself: a record is as long as it says.
pub proof fn law_pax_length_counts_itself(key: Seq<u8>, value: Seq<u8>)
    ensures
        pax_record(key, value).len() == record_length(key.len() + value.len() + 3),
{
    let body = (key.len() + value.len() + 3) as nat;
    lemma_length_width(body, 1);
    lemma_decimal_bytes(record_length(body));
}

/// A decimal spelling takes one byte for each digit.
proof fn lemma_decimal_bytes(value: nat)
    ensures
        encode_utf8(decimal(value)).len() == decimal(value).len(),
{
    lemma_decimal_digits(value);
    assert(is_ascii_chars(decimal(value))) by {
        assert forall|i: int| 0 <= i < decimal(value).len() implies '\0' <= #[trigger] decimal(
            value,
        )[i] <= '\u{7f}' by {
            assert(crate::text::is_digit(decimal(value)[i]));
        }
    }
    is_ascii_chars_encode_utf8(decimal(value));
}

/// The length of a record.
fn solve_length(body: u64) -> (length: u64)
    requires
        1 <= body <= u64::MAX - 64,
    ensures
        length == record_length(body as nat),
{
    let mut width: u64 = 1;
    loop
        invariant
            1 <= body <= u64::MAX - 64,
            1 <= width <= 21,
            width <= body + 1,
            width == 1 || decimal((body + width - 1) as nat).len() > width - 1,
            length_width(body as nat, 1) == length_width(body as nat, width as nat),
        decreases 21 - width,
    {
        let text = decimal_text(body + width);
        let digits: usize = text.as_str().as_bytes().len();
        proof {
            lemma_decimal_word((body + width) as u64);
            lemma_decimal_bytes((body + width) as nat);
            lemma_length_width(body as nat, width as nat);
        }
        if digits as u64 <= width {
            assert(length_width(body as nat, width as nat) == width);
            return body + width;
        }
        width += 1;
    }
}

/// Encodes records in the order given.
pub fn encode_pax(records: &Vec<PaxRecord>) -> (payload: Vec<u8>)
    requires
        forall|i: int|
            0 <= i < records@.len() ==> (#[trigger] records@[i]).key@.len()
                + records@[i].value@.len() <= record_limit(),
    ensures
        payload@ == pax_payload(record_pairs(records@)),
{
    let ghost pairs = record_pairs(records@);
    let mut payload: Vec<u8> = Vec::new();
    let mut i: usize = 0;
    assert(pairs.take(0) =~= Seq::<(Seq<u8>, Seq<u8>)>::empty());
    while i < records.len()
        invariant
            i <= records@.len(),
            pairs == record_pairs(records@),
            payload@ == pax_payload(pairs.take(i as int)),
            forall|j: int|
                0 <= j < records@.len() ==> (#[trigger] records@[j]).key@.len()
                    + records@[j].value@.len() <= record_limit(),
        decreases records@.len() - i,
    {
        let ghost before = payload@;
        let record = &records[i];
        assert(record.key@.len() + record.value@.len() <= record_limit());
        let body: u64 = record.key.len() as u64 + record.value.len() as u64 + 3;
        let length: u64 = solve_length(body);
        extend(&mut payload, decimal_text(length).as_str().as_bytes());
        payload.push(32u8);
        extend(&mut payload, &record.key);
        payload.push(61u8);
        extend(&mut payload, &record.value);
        payload.push(10u8);
        proof {
            assert(pairs.take(i + 1).drop_last() =~= pairs.take(i as int));
            assert(pairs.take(i + 1).last() == (record.key@, record.value@));
            assert(payload@ =~= before + pax_record(record.key@, record.value@));
        }
        i += 1;
    }
    assert(pairs.take(i as int) =~= pairs);
    payload
}

// ---------------------------------------------------------------------------
// Tar members
// ---------------------------------------------------------------------------

/// The member's name: a directory's ends with a separator.
pub open spec fn member_name(entry: ManifestEntry) -> Seq<u8> {
    if entry.kind == KIND_DIRECTORY && !(entry.path@.len() > 0 && entry.path@.last() == 47) {
        entry.path@.push(47u8)
    } else {
        entry.path@
    }
}

/// The member's link target, of either sort.
pub open spec fn member_link(entry: ManifestEntry) -> Seq<u8> {
    match entry.hardlink_target {
        Some(target) => target@,
        None => match entry.symlink_target {
            Some(target) => target@,
            None => Seq::empty(),
        },
    }
}

/// The modification time in nanoseconds since the epoch.
pub open spec fn mtime_value(entry: ManifestEntry) -> int {
    entry.mtime_seconds * NANOS_PER_SECOND + entry.mtime_nanoseconds
}

/// Whether a modification time is whole seconds that fit their field.
pub open spec fn mtime_fits(entry: ManifestEntry) -> bool {
    entry.mtime_nanoseconds == 0 && 0 <= entry.mtime_seconds < LONG_FIELD_SPAN
}

/// A record, where it is needed.
pub open spec fn where_needed(needed: bool, key: Seq<char>, value: Seq<u8>) -> Seq<
    (Seq<u8>, Seq<u8>),
> {
    if needed {
        seq![(encode_utf8(key), value)]
    } else {
        Seq::empty()
    }
}

/// A PAX header carries whatever will not fit, or is not expressible, in the
/// historical fixed-width fields.
pub open spec fn field_records(entry: ManifestEntry, contents: Seq<u8>) -> Seq<
    (Seq<u8>, Seq<u8>),
> {
    let size = member_body(entry, contents).len();
    where_needed(member_name(entry).len() >= NAME_FIELD, "path"@, member_name(entry))
        + where_needed(member_link(entry).len() >= LINK_FIELD, "linkpath"@, member_link(entry))
        + where_needed(
        entry.uid >= ID_FIELD_SPAN,
        "uid"@,
        encode_utf8(decimal(entry.uid as nat)),
    ) + where_needed(
        entry.gid >= ID_FIELD_SPAN,
        "gid"@,
        encode_utf8(decimal(entry.gid as nat)),
    ) + where_needed(size >= LONG_FIELD_SPAN, "size"@, encode_utf8(decimal(size))) + where_needed(
        !mtime_fits(entry),
        "mtime"@,
        encode_utf8(seconds_text(mtime_value(entry))),
    )
}

/// The key of an attribute's record.
pub open spec fn attribute_key(name: Seq<u8>) -> Seq<u8> {
    encode_utf8("SCHILY.xattr."@) + name
}

/// A record for each attribute.
pub open spec fn attribute_records(xattrs: Seq<ManifestXattr>) -> Seq<(Seq<u8>, Seq<u8>)> {
    Seq::new(xattrs.len(), |i: int| (attribute_key(xattrs[i].name@), xattrs[i].value@))
}

/// The records of a list in key order, each key once with its last value.
pub open spec fn collected(list: Seq<(Seq<u8>, Seq<u8>)>) -> Seq<(Seq<u8>, Seq<u8>)>
    decreases list.len(),
{
    if list.len() == 0 {
        Seq::empty()
    } else {
        with_record(collected(list.drop_last()), list.last().0, list.last().1)
    }
}

/// The records of a member.
pub open spec fn member_records(entry: ManifestEntry, contents: Seq<u8>) -> Seq<
    (Seq<u8>, Seq<u8>),
> {
    collected(field_records(entry, contents) + attribute_records(entry.xattrs@))
}

/// The bytes, filled up to a whole number of blocks.
pub open spec fn padded(bytes: Seq<u8>) -> Seq<u8> {
    bytes + zeros(((BLOCK - bytes.len() % (BLOCK as nat)) % (BLOCK as int)) as nat)
}

pub open spec fn clamped_mtime(entry: ManifestEntry) -> nat {
    if entry.mtime_seconds < 0 {
        0
    } else {
        entry.mtime_seconds as nat
    }
}

/// The PAX header and payload in front of a member, when it needs one.
pub open spec fn pax_part(entry: ManifestEntry, contents: Seq<u8>) -> Seq<u8> {
    let payload = pax_payload(member_records(entry, contents));
    if member_records(entry, contents).len() == 0 {
        Seq::empty()
    } else {
        finished_header(
            header_front(
                encode_utf8("PaxHeaders/0"@),
                0o644,
                0,
                0,
                payload.len(),
                clamped_mtime(entry),
            ),
            seq![120u8] + zeros(355),
        ) + padded(payload)
    }
}

/// The type flag of a member, for the kinds that tar knows.
pub open spec fn type_flag(entry: ManifestEntry) -> Option<u8> {
    if entry.kind == KIND_FILE {
        if entry.hardlink_target is Some {
            Some(49u8)
        } else {
            Some(48u8)
        }
    } else if entry.kind == KIND_SYMLINK {
        Some(50u8)
    } else if entry.kind == KIND_CHAR_DEVICE {
        Some(51u8)
    } else if entry.kind == KIND_BLOCK_DEVICE {
        Some(52u8)
    } else if entry.kind == KIND_DIRECTORY {
        Some(53u8)
    } else if entry.kind == KIND_FIFO {
        Some(54u8)
    } else {
        None
    }
}

/// Only a regular file that is no hard link has a body.
pub open spec fn member_body(entry: ManifestEntry, contents: Seq<u8>) -> Seq<u8> {
    if entry.kind == KIND_FILE && entry.hardlink_target is None {
        contents
    } else {
        Seq::empty()
    }
}

/// The device fields: major and minor for a device, else nothing.
pub open spec fn device_fields(entry: ManifestEntry) -> Seq<u8> {
    if entry.kind == KIND_CHAR_DEVICE || entry.kind == KIND_BLOCK_DEVICE {
        octal_field(((entry.rdev >> 8u64) & 0xfffu64) as nat, 8) + octal_field(
            ((entry.rdev & 0xffu64) | ((entry.rdev >> 12u64) & 0xfff00u64)) as nat,
            8,
        )
    } else {
        zeros(16)
    }
}

/// The member's own header.
pub open spec fn member_header(entry: ManifestEntry, contents: Seq<u8>, flag: u8) -> Seq<u8> {
    finished_header(
        header_front(
            member_name(entry),
            (entry.mode & 0o7777u32) as nat,
            entry.uid as nat,
            entry.gid as nat,
            member_body(entry, contents).len(),
            clamped_mtime(entry),
        ),
        header_back(flag, member_link(entry), device_fields(entry)),
    )
}

/// All that a member adds to an archive.
pub open spec fn member_bytes(entry: ManifestEntry, contents: Seq<u8>, flag: u8) -> Seq<u8> {
    pax_part(entry, contents) + member_header(entry, contents, flag) + padded(
        member_body(entry, contents),
    )
}

/// The longest key and value together of a record whose length is a machine
/// word.
pub open spec fn record_limit() -> int {
    usize::MAX - 100
}

/// Whether the lengths of the records that an entry may need are machine words.
pub open spec fn is_encodable(entry: ManifestEntry) -> bool {
    &&& entry.path@.len() + 20 <= record_limit()
    &&& entry.symlink_target matches Some(target) ==> target@.len() + 20 <= record_limit()
    &&& entry.hardlink_target matches Some(target) ==> target@.len() + 20 <= record_limit()
    &&& forall|i: int|
        0 <= i < entry.xattrs@.len() ==> (#[trigger] entry.xattrs@[i]).name@.len()
            + entry.xattrs@[i].value@.len() + 20 <= record_limit()
}

/// Whether a length leaves room for a record of a field.
fn leaves_room(length: usize) -> (room: bool)
    ensures
        room == (length + 20 <= record_limit()),
{
    length <= usize::MAX - 120
}

/// Whether an archive can hold a member of that name: the length of its record
/// is a machine word.
pub fn is_name_encodable(name: &str) -> (encodable: bool)
    ensures
        encodable == (encode_utf8(name@).len() + 20 <= record_limit()),
{
    leaves_room(name.as_bytes().len())
}

/// Whether an archive can hold a member of that entry: the lengths of the
/// records that it may need are machine words.
pub fn is_entry_encodable(entry: &ManifestEntry) -> (encodable: bool)
    ensures
        encodable == is_encodable(*entry),
{
    if !leaves_room(entry.path.len()) {
        return false;
    }
    if let Some(target) = &entry.symlink_target {
        if !leaves_room(target.len()) {
            return false;
        }
    }
    if let Some(target) = &entry.hardlink_target {
        if !leaves_room(target.len()) {
            return false;
        }
    }
    let mut i: usize = 0;
    while i < entry.xattrs.len()
        invariant
            i <= entry.xattrs@.len(),
            forall|j: int|
                0 <= j < i ==> (#[trigger] entry.xattrs@[j]).name@.len()
                    + entry.xattrs@[j].value@.len() + 20 <= record_limit(),
        decreases entry.xattrs@.len() - i,
    {
        let name: usize = entry.xattrs[i].name.len();
        let value: usize = entry.xattrs[i].value.len();
        let room = leaves_room(name) && value <= usize::MAX - 120 - name;
        if !room {
            assert(entry.xattrs@[i as int].name@.len() == name);
            return false;
        }
        i += 1;
    }
    true
}

/// One tar archive, hashed as it goes. What is written can be taken away piece
/// by piece; the digest is that of all of it.
pub struct TarBuilder {
    stream: StreamDigest,
    pending: Vec<u8>,
    handed: Ghost<Seq<u8>>,
}

impl TarBuilder {
    /// All that was written to the archive so far.
    pub closed spec fn written(self) -> Seq<u8> {
        absorbed(self.stream)
    }

    /// What of it was taken away.
    pub closed spec fn handed(self) -> Seq<u8> {
        self.handed@
    }

    /// What of it is still to be taken away.
    pub closed spec fn pending(self) -> Seq<u8> {
        self.pending@
    }

    /// An archive holds whole blocks between members, and of what was written
    /// nothing is lost.
    pub open spec fn is_sound(self) -> bool {
        &&& self.written().len() % (BLOCK as nat) == 0
        &&& self.written() == self.handed() + self.pending()
    }

    pub fn new() -> (builder: TarBuilder)
        ensures
            builder.written().len() == 0,
            builder.handed().len() == 0,
            builder.is_sound(),
    {
        let builder = TarBuilder {
            stream: StreamDigest::new(),
            pending: Vec::new(),
            handed: Ghost(Seq::empty()),
        };
        assert(builder.written() =~= builder.handed() + builder.pending());
        builder
    }

    /// Takes what was written since it was last taken.
    pub fn take(&mut self) -> (bytes: Vec<u8>)
        requires
            old(self).is_sound(),
        ensures
            final(self).is_sound(),
            bytes@ == old(self).pending(),
            final(self).pending().len() == 0,
            final(self).written() == old(self).written(),
            final(self).handed() == old(self).handed() + bytes@,
    {
        let mut bytes: Vec<u8> = Vec::new();
        std::mem::swap(&mut bytes, &mut self.pending);
        self.handed = Ghost(self.handed@ + bytes@);
        assert(self.written() =~= self.handed() + self.pending());
        bytes
    }

    fn emit(&mut self, bytes: &[u8])
        requires
            old(self).is_sound(),
            bytes@.len() % (BLOCK as nat) == 0,
        ensures
            final(self).is_sound(),
            final(self).written() == old(self).written() + bytes@,
            final(self).handed() == old(self).handed(),
            final(self).pending() == old(self).pending() + bytes@,
    {
        proof {
            lemma_aligned_sum(self.written(), bytes@);
        }
        self.stream.update(bytes);
        extend(&mut self.pending, bytes);
        assert(self.written() =~= self.handed() + self.pending());
    }

    /// Finish the archive: two zero blocks, then the digest of everything. What
    /// is returned with it is what was not taken yet.
    pub fn finish(self) -> (archive: (Vec<u8>, [u8; 32]))
        requires
            self.is_sound(),
        ensures
            archive.0@ == self.pending() + zeros(1024),
            self.handed() + archive.0@ == self.written() + zeros(1024),
            archive.1@ == sha256_of(self.written() + zeros(1024)),
    {
        let mut builder = self;
        let mut end: Vec<u8> = Vec::new();
        append_zeros(&mut end, 1024);
        assert(end@ =~= zeros(1024));
        builder.emit(&end);
        proof {
            assert(self.handed() + (self.pending() + zeros(1024)) =~= self.written() + zeros(1024));
        }
        (builder.pending, builder.stream.finalize())
    }

    /// Append one manifest entry, with `contents` for a regular file.
    ///
    /// A socket has no tar representation and is skipped, which is what every
    /// other image tool does with one.
    #[verifier::rlimit(40)]
    pub fn append(&mut self, entry: &ManifestEntry, contents: &[u8]) -> (appended: Result<
        bool,
        String,
    >)
        requires
            old(self).is_sound(),
            is_encodable(*entry),
        ensures
            final(self).is_sound(),
            final(self).handed() == old(self).handed(),
            match appended {
                Ok(false) => entry.kind == KIND_SOCKET && final(self).written() == old(self).written(),
                Ok(true) => entry.kind != KIND_SOCKET && type_flag(*entry) is Some && final(self).written() == old(self).written() + member_bytes(
                    *entry,
                    contents@,
                    type_flag(*entry)->Some_0,
                ),
                Err(reason) => entry.kind != KIND_SOCKET && type_flag(*entry) is None && reason@
                    == "unknown entry kind "@ + decimal(entry.kind as nat) && final(self).written()
                    == old(self).written() + pax_part(*entry, contents@),
            },
    {
        if entry.kind == KIND_SOCKET {
            return Ok(false);
        }
        let name = name_of(entry);
        let link = link_of(entry);
        let has_body = entry.kind == KIND_FILE && entry.hardlink_target.is_none();
        let body_length: u64 = if has_body {
            contents.len() as u64
        } else {
            0
        };
        let ghost body = member_body(*entry, contents@);
        assert(body_length == body.len());
        let records = records_of(entry, &name, &link, body_length, Ghost(contents@));
        let mtime: u64 = if entry.mtime_seconds < 0 {
            0
        } else {
            entry.mtime_seconds as u64
        };
        let prefix = pax_prefix(entry, &records, mtime, Ghost(contents@));
        self.emit(&prefix);
        let flag: u8 = match flag_of(entry) {
            Some(flag) => flag,
            None => {
                return Err(join("unknown entry kind ", &decimal_text(entry.kind as u64)));
            },
        };
        let mut front: Vec<u8> = Vec::new();
        write_field(&mut front, 100, &name);
        write_octal(&mut front, 8, (entry.mode & 0o7777u32) as u64);
        write_octal(&mut front, 8, entry.uid as u64);
        write_octal(&mut front, 8, entry.gid as u64);
        write_octal(&mut front, 12, body_length);
        write_octal(&mut front, 12, mtime);
        let mut back: Vec<u8> = Vec::new();
        back.push(flag);
        write_field(&mut back, 100, &link);
        append_ustar(&mut back);
        append_zeros(&mut back, 64);
        if entry.kind == KIND_CHAR_DEVICE || entry.kind == KIND_BLOCK_DEVICE {
            write_octal(&mut back, 8, (entry.rdev >> 8u64) & 0xfffu64);
            write_octal(
                &mut back,
                8,
                (entry.rdev & 0xffu64) | ((entry.rdev >> 12u64) & 0xfff00u64),
            );
        } else {
            append_zeros(&mut back, 16);
        }
        append_zeros(&mut back, 167);
        proof {
            lemma_front_len(
                name@,
                (entry.mode & 0o7777u32) as nat,
                entry.uid as nat,
                entry.gid as nat,
                body_length as nat,
                mtime as nat,
            );
            lemma_device_len(*entry);
            assert(front@ =~= header_front(
                name@,
                (entry.mode & 0o7777u32) as nat,
                entry.uid as nat,
                entry.gid as nat,
                body_length as nat,
                mtime as nat,
            ));
            assert(back@ =~= header_back(flag, link@, device_fields(*entry)));
            assert(back@.len() == 356);
        }
        let mut member = finish_header(&front, &back);
        let ghost header = member@;
        if has_body {
            extend(&mut member, contents);
            let remainder: usize = contents.len() % BLOCK;
            if remainder != 0 {
                append_zeros(&mut member, BLOCK - remainder);
            } else {
                append_zeros(&mut member, 0);
            }
        } else {
            append_zeros(&mut member, 0);
        }
        proof {
            lemma_padded_len(body);
            assert(member@ =~= header + padded(body));
            lemma_aligned_sum(header, padded(body));
        }
        self.emit(&member);
        proof {
            assert(self.written() =~= old(self).written() + member_bytes(*entry, contents@, flag));
        }
        Ok(true)
    }

    /// Append a directory, so a reader does not invent one and then try to
    /// give it an owner the caller cannot set.
    pub fn append_dir(&mut self, name: &str, uid: u32, gid: u32)
        requires
            old(self).is_sound(),
            encode_utf8(name@).len() + 20 <= record_limit(),
        ensures
            final(self).is_sound(),
            final(self).handed() == old(self).handed(),
            exists|entry: ManifestEntry|
                #[trigger] is_plain(entry, name@, KIND_DIRECTORY, 0o755, uid, gid) && entry.size
                    == 0 && final(self).written() == old(self).written() + member_bytes(
                    entry,
                    Seq::empty(),
                    53u8,
                ),
    {
        let entry = plain_entry(name, KIND_DIRECTORY, 0o755, uid, gid, 0);
        let none: Vec<u8> = Vec::new();
        let appended = self.append(&entry, &none);
        assert(is_plain(entry, name@, KIND_DIRECTORY, 0o755, uid, gid));
        assert(none@ =~= Seq::<u8>::empty());
    }

    /// Append a plain regular file, for the archive that carries an OCI layout.
    ///
    /// These members are transport rather than image content, so they carry
    /// the caller's own ids. Recording root would make an unprivileged reader
    /// fail on the `chown` it attempts while unpacking, which is how skopeo
    /// refuses an archive it otherwise understands.
    pub fn append_raw(&mut self, name: &str, contents: &[u8], mode: u32, uid: u32, gid: u32)
        requires
            old(self).is_sound(),
            encode_utf8(name@).len() + 20 <= record_limit(),
        ensures
            final(self).is_sound(),
            final(self).handed() == old(self).handed(),
            exists|entry: ManifestEntry|
                #[trigger] is_plain(entry, name@, KIND_FILE, mode, uid, gid) && entry.size
                    == contents@.len() && final(self).written() == old(self).written()
                    + member_bytes(entry, contents@, 48u8),
    {
        let entry = plain_entry(name, KIND_FILE, mode, uid, gid, contents.len() as u64);
        let appended = self.append(&entry, contents);
        assert(is_plain(entry, name@, KIND_FILE, mode, uid, gid));
    }
}

/// An entry with a name, a kind, a mode and owners, and nothing else.
pub open spec fn is_plain(
    entry: ManifestEntry,
    name: Seq<char>,
    kind: u8,
    mode: u32,
    uid: u32,
    gid: u32,
) -> bool {
    &&& entry.path@ == encode_utf8(name)
    &&& entry.kind == kind
    &&& entry.mode == mode
    &&& entry.uid == uid
    &&& entry.gid == gid
    &&& entry.rdev == 0
    &&& entry.mtime_seconds == 0
    &&& entry.mtime_nanoseconds == 0
    &&& entry.symlink_target is None
    &&& entry.content_sha256 is None
    &&& entry.hardlink_target is None
    &&& entry.xattrs@.len() == 0
}

fn plain_entry(name: &str, kind: u8, mode: u32, uid: u32, gid: u32, size: u64) -> (entry:
    ManifestEntry)
    ensures
        is_plain(entry, name@, kind, mode, uid, gid),
        entry.size == size,
{
    let mut path: Vec<u8> = Vec::new();
    extend(&mut path, name.as_bytes());
    assert(path@ =~= encode_utf8(name@));
    ManifestEntry {
        path,
        kind,
        mode,
        uid,
        gid,
        size,
        rdev: 0,
        mtime_seconds: 0,
        mtime_nanoseconds: 0,
        symlink_target: None,
        content_sha256: None,
        hardlink_target: None,
        xattrs: Vec::new(),
    }
}

fn name_of(entry: &ManifestEntry) -> (name: Vec<u8>)
    ensures
        name@ == member_name(*entry),
{
    let length: usize = entry.path.len();
    let mut name: Vec<u8> = Vec::new();
    extend(&mut name, &entry.path);
    assert(name@ =~= entry.path@);
    if entry.kind == KIND_DIRECTORY && !(length > 0 && entry.path[length - 1] == 47) {
        name.push(47u8);
    }
    name
}

fn link_of(entry: &ManifestEntry) -> (link: Vec<u8>)
    ensures
        link@ == member_link(*entry),
{
    let mut link: Vec<u8> = Vec::new();
    match &entry.hardlink_target {
        Some(target) => {
            extend(&mut link, target);
            assert(link@ =~= target@);
        },
        None => match &entry.symlink_target {
            Some(target) => {
                extend(&mut link, target);
                assert(link@ =~= target@);
            },
            None => {},
        },
    }
    assert(link@ =~= member_link(*entry));
    link
}

fn flag_of(entry: &ManifestEntry) -> (flag: Option<u8>)
    ensures
        flag == type_flag(*entry),
{
    if entry.kind == KIND_FILE {
        if entry.hardlink_target.is_some() {
            Some(49u8)
        } else {
            Some(48u8)
        }
    } else if entry.kind == KIND_SYMLINK {
        Some(50u8)
    } else if entry.kind == KIND_CHAR_DEVICE {
        Some(51u8)
    } else if entry.kind == KIND_BLOCK_DEVICE {
        Some(52u8)
    } else if entry.kind == KIND_DIRECTORY {
        Some(53u8)
    } else if entry.kind == KIND_FIFO {
        Some(54u8)
    } else {
        None
    }
}

fn append_ustar(bytes: &mut Vec<u8>)
    ensures
        final(bytes)@ == old(bytes)@ + ustar(),
{
    let ghost before = bytes@;
    bytes.push(117u8);
    bytes.push(115u8);
    bytes.push(116u8);
    bytes.push(97u8);
    bytes.push(114u8);
    bytes.push(0u8);
    bytes.push(48u8);
    bytes.push(48u8);
    assert(bytes@ =~= before + ustar());
}

/// Every record is short enough to state its own length.
pub open spec fn short_records(records: Seq<(Seq<u8>, Seq<u8>)>) -> bool {
    forall|i: int|
        0 <= i < records.len() ==> (#[trigger] records[i]).0.len() + records[i].1.len()
            <= record_limit()
}

proof fn lemma_with_record_short(
    records: Seq<(Seq<u8>, Seq<u8>)>,
    key: Seq<u8>,
    value: Seq<u8>,
)
    requires
        short_records(records),
        key.len() + value.len() <= record_limit(),
    ensures
        short_records(with_record(records, key, value)),
        with_record(records, key, value).len() > 0,
    decreases records.len(),
{
    if records.len() > 0 && records[0].0 != key && !bytes_before(key, records[0].0) {
        let rest = records.skip(1);
        assert forall|i: int| 0 <= i < rest.len() implies (#[trigger] rest[i]).0.len()
            + rest[i].1.len() <= record_limit() by {
            assert(rest[i] == records[i + 1]);
        }
        lemma_with_record_short(rest, key, value);
        let tail = with_record(rest, key, value);
        let result = with_record(records, key, value);
        assert forall|i: int| 0 <= i < result.len() implies (#[trigger] result[i]).0.len()
            + result[i].1.len() <= record_limit() by {
            if i == 0 {
                assert(result[0] == records[0]);
            } else {
                assert(result[i] == tail[i - 1]);
            }
        }
    } else if records.len() > 0 && records[0].0 != key {
        let result = with_record(records, key, value);
        assert forall|i: int| 0 <= i < result.len() implies (#[trigger] result[i]).0.len()
            + result[i].1.len() <= record_limit() by {
            if i > 0 {
                assert(result[i] == records[i - 1]);
            }
        }
    }
}

/// The bytes of a string.
fn bytes_of(text: &str) -> (bytes: Vec<u8>)
    ensures
        bytes@ == encode_utf8(text@),
{
    let mut bytes: Vec<u8> = Vec::new();
    extend(&mut bytes, text.as_bytes());
    assert(bytes@ =~= encode_utf8(text@));
    bytes
}

proof fn lemma_literal_lengths()
    ensures
        encode_utf8("path"@).len() == 4,
        encode_utf8("linkpath"@).len() == 8,
        encode_utf8("uid"@).len() == 3,
        encode_utf8("gid"@).len() == 3,
        encode_utf8("size"@).len() == 4,
        encode_utf8("mtime"@).len() == 5,
        encode_utf8("SCHILY.xattr."@).len() == 13,
{
    reveal_strlit("path");
    reveal_strlit("linkpath");
    reveal_strlit("uid");
    reveal_strlit("gid");
    reveal_strlit("size");
    reveal_strlit("mtime");
    reveal_strlit("SCHILY.xattr.");
    is_ascii_chars_encode_utf8("path"@);
    is_ascii_chars_encode_utf8("linkpath"@);
    is_ascii_chars_encode_utf8("uid"@);
    is_ascii_chars_encode_utf8("gid"@);
    is_ascii_chars_encode_utf8("size"@);
    is_ascii_chars_encode_utf8("mtime"@);
    is_ascii_chars_encode_utf8("SCHILY.xattr."@);
}

/// A modification time takes at most fifty bytes.
proof fn lemma_mtime_is_short(entry: ManifestEntry)
    ensures
        encode_utf8(seconds_text(mtime_value(entry))).len() <= 50,
{
    reveal_strlit("-");
    reveal_strlit(".");
    let value = mtime_value(entry);
    let magnitude = if value < 0 {
        (-value) as nat
    } else {
        value as nat
    };
    let whole = magnitude / (NANOS_PER_SECOND as nat);
    let rest = magnitude % (NANOS_PER_SECOND as nat);
    assert(whole <= 0xffff_ffff_ffff_ffff);
    lemma_decimal_word(whole as u64);
    lemma_decimal_word(rest as u64);
    lemma_decimal_digits(whole);
    lemma_decimal_digits(rest);
    lemma_padding_keeps_the_value(decimal(rest), 9);
    let text = decimal(whole) + "."@ + zero_padded(decimal(rest), 9);
    let signed = seconds_text(value);
    assert forall|i: int| 0 <= i < text.len() implies '\0' <= #[trigger] text[i] <= '\u{7f}' by {
        if i < decimal(whole).len() {
            assert(crate::text::is_digit(decimal(whole)[i]));
        } else if i > decimal(whole).len() {
            let k = i - decimal(whole).len() - 1;
            assert(text[i] == zero_padded(decimal(rest), 9)[k]);
            assert(crate::text::is_digit(zero_padded(decimal(rest), 9)[k]));
        }
    }
    assert(is_ascii_chars(signed)) by {
        assert forall|i: int| 0 <= i < signed.len() implies '\0' <= #[trigger] signed[i]
            <= '\u{7f}' by {
            if value < 0 {
                if i > 0 {
                    assert(signed[i] == text[i - 1]);
                }
            } else {
                assert(signed[i] == text[i]);
            }
        }
    }
    is_ascii_chars_encode_utf8(signed);
}

proof fn lemma_collected_push(list: Seq<(Seq<u8>, Seq<u8>)>, key: Seq<u8>, value: Seq<u8>)
    ensures
        collected(list.push((key, value))) == with_record(collected(list), key, value),
{
    assert(list.push((key, value)).drop_last() =~= list);
}

/// Adds a record where it is needed.
fn add_where_needed(
    records: &mut Vec<PaxRecord>,
    needed: bool,
    key: &str,
    value: Vec<u8>,
    Ghost(list): Ghost<Seq<(Seq<u8>, Seq<u8>)>>,
)
    requires
        record_pairs(old(records)@) == collected(list),
        short_records(record_pairs(old(records)@)),
        needed ==> encode_utf8(key@).len() + value@.len() <= record_limit(),
    ensures
        record_pairs(final(records)@) == collected(list + where_needed(needed, key@, value@)),
        short_records(record_pairs(final(records)@)),
{
    proof {
        let more = where_needed(needed, key@, value@);
        if needed {
            lemma_with_record_short(record_pairs(records@), encode_utf8(key@), value@);
            lemma_collected_push(list, encode_utf8(key@), value@);
            assert(list + more =~= list.push((encode_utf8(key@), value@)));
        } else {
            assert(list + more =~= list);
        }
    }
    if needed {
        insert_record(records, bytes_of(key), value);
    }
}

/// Collects the records that a member needs.
fn records_of(
    entry: &ManifestEntry,
    name: &Vec<u8>,
    link: &Vec<u8>,
    size: u64,
    Ghost(contents): Ghost<Seq<u8>>,
) -> (records: Vec<PaxRecord>)
    requires
        name@ == member_name(*entry),
        link@ == member_link(*entry),
        size == member_body(*entry, contents).len(),
        is_encodable(*entry),
    ensures
        record_pairs(records@) == member_records(*entry, contents),
        short_records(record_pairs(records@)),
{
    let mut records: Vec<PaxRecord> = Vec::new();
    let ghost mut list: Seq<(Seq<u8>, Seq<u8>)> = Seq::empty();
    assert(record_pairs(records@) =~= Seq::<(Seq<u8>, Seq<u8>)>::empty());
    proof {
        lemma_literal_lengths();
        lemma_decimal_word(entry.uid as u64);
        lemma_decimal_word(entry.gid as u64);
        lemma_decimal_word(size);
        lemma_decimal_bytes(entry.uid as nat);
        lemma_decimal_bytes(entry.gid as nat);
        lemma_decimal_bytes(size as nat);
        lemma_mtime_is_short(*entry);
    }
    let long_name = name.len() >= NAME_FIELD;
    let copy = copy_between(name, 0, name.len());
    assert(copy@ =~= name@);
    add_where_needed(&mut records, long_name, "path", copy, Ghost(list));
    proof {
        list = list + where_needed(long_name, "path"@, name@);
    }
    let long_link = link.len() >= LINK_FIELD;
    let copy = copy_between(link, 0, link.len());
    assert(copy@ =~= link@);
    add_where_needed(&mut records, long_link, "linkpath", copy, Ghost(list));
    proof {
        list = list + where_needed(long_link, "linkpath"@, link@);
    }
    let uid = bytes_of(&decimal_text(entry.uid as u64));
    add_where_needed(&mut records, entry.uid as u64 >= ID_FIELD_SPAN, "uid", uid, Ghost(list));
    proof {
        list = list + where_needed(entry.uid >= ID_FIELD_SPAN, "uid"@, uid@);
    }
    let gid = bytes_of(&decimal_text(entry.gid as u64));
    add_where_needed(&mut records, entry.gid as u64 >= ID_FIELD_SPAN, "gid", gid, Ghost(list));
    proof {
        list = list + where_needed(entry.gid >= ID_FIELD_SPAN, "gid"@, gid@);
    }
    let length = bytes_of(&decimal_text(size));
    add_where_needed(&mut records, size >= LONG_FIELD_SPAN, "size", length, Ghost(list));
    proof {
        list = list + where_needed(size >= LONG_FIELD_SPAN, "size"@, length@);
    }
    let fits = entry.mtime_nanoseconds == 0 && entry.mtime_seconds >= 0
        && (entry.mtime_seconds as u64) < LONG_FIELD_SPAN;
    let time: i128 = entry.mtime_seconds as i128 * 1_000_000_000
        + entry.mtime_nanoseconds as i128;
    let mtime = bytes_of(&spell_seconds(time));
    add_where_needed(&mut records, !fits, "mtime", mtime, Ghost(list));
    proof {
        list = list + where_needed(!fits, "mtime"@, mtime@);
        let none = Seq::<(Seq<u8>, Seq<u8>)>::empty();
        let named = where_needed(long_name, "path"@, name@);
        assert(none + named =~= named);
        assert(list == field_records(*entry, contents));
    }
    let ghost attributes = attribute_records(entry.xattrs@);
    let mut i: usize = 0;
    assert(list + attributes.take(0) =~= list);
    while i < entry.xattrs.len()
        invariant
            i <= entry.xattrs@.len(),
            is_encodable(*entry),
            encode_utf8("SCHILY.xattr."@).len() == 13,
            attributes == attribute_records(entry.xattrs@),
            record_pairs(records@) == collected(list + attributes.take(i as int)),
            short_records(record_pairs(records@)),
        decreases entry.xattrs@.len() - i,
    {
        let xattr = &entry.xattrs[i];
        let mut key = bytes_of("SCHILY.xattr.");
        extend(&mut key, &xattr.name);
        let value = copy_between(&xattr.value, 0, xattr.value.len());
        proof {
            assert(value@ =~= xattr.value@);
            assert(attributes[i as int] == (key@, value@));
            let before = list + attributes.take(i as int);
            assert(list + attributes.take(i + 1) =~= before.push((key@, value@)));
            lemma_collected_push(before, key@, value@);
            lemma_with_record_short(record_pairs(records@), key@, value@);
        }
        insert_record(&mut records, key, value);
        i += 1;
    }
    assert(attributes.take(i as int) =~= attributes);
    records
}

/// The PAX header and payload in front of a member, when it needs one.
fn pax_prefix(
    entry: &ManifestEntry,
    records: &Vec<PaxRecord>,
    mtime: u64,
    Ghost(contents): Ghost<Seq<u8>>,
) -> (prefix: Vec<u8>)
    requires
        record_pairs(records@) == member_records(*entry, contents),
        short_records(record_pairs(records@)),
        mtime == clamped_mtime(*entry),
    ensures
        prefix@ == pax_part(*entry, contents),
        prefix@.len() % (BLOCK as nat) == 0,
{
    let mut prefix: Vec<u8> = Vec::new();
    if records.len() == 0 {
        assert(prefix@ =~= pax_part(*entry, contents));
        return prefix;
    }
    assert forall|i: int| 0 <= i < records@.len() implies (#[trigger] records@[i]).key@.len()
        + records@[i].value@.len() <= record_limit() by {
        assert(record_pairs(records@)[i] == (records@[i].key@, records@[i].value@));
    }
    let payload = encode_pax(records);
    let mut front: Vec<u8> = Vec::new();
    write_field(&mut front, 100, "PaxHeaders/0".as_bytes());
    write_octal(&mut front, 8, 0o644);
    write_octal(&mut front, 8, 0);
    write_octal(&mut front, 8, 0);
    write_octal(&mut front, 12, payload.len() as u64);
    write_octal(&mut front, 12, mtime);
    let mut back: Vec<u8> = Vec::new();
    back.push(120u8);
    append_zeros(&mut back, 355);
    proof {
        lemma_front_len(
            encode_utf8("PaxHeaders/0"@),
            0o644,
            0,
            0,
            payload@.len(),
            mtime as nat,
        );
        assert(front@ =~= header_front(
            encode_utf8("PaxHeaders/0"@),
            0o644,
            0,
            0,
            payload@.len(),
            mtime as nat,
        ));
        assert(back@ =~= seq![120u8] + zeros(355));
    }
    let header = finish_header(&front, &back);
    extend(&mut prefix, &header);
    extend(&mut prefix, &payload);
    let remainder: usize = payload.len() % BLOCK;
    if remainder != 0 {
        append_zeros(&mut prefix, BLOCK - remainder);
    } else {
        append_zeros(&mut prefix, 0);
    }
    proof {
        lemma_padded_len(payload@);
        assert(prefix@ =~= header@ + padded(payload@));
        lemma_aligned_sum(header@, padded(payload@));
    }
    prefix
}

pub(crate) proof fn lemma_front_len(name: Seq<u8>, mode: nat, uid: nat, gid: nat, size: nat, mtime: nat)
    ensures
        header_front(name, mode, uid, gid, size, mtime).len() == 148,
{
    lemma_octal_len(mode, 7);
    lemma_octal_len(uid, 7);
    lemma_octal_len(gid, 7);
    lemma_octal_len(size, 11);
    lemma_octal_len(mtime, 11);
}

pub(crate) proof fn lemma_device_len(entry: ManifestEntry)
    ensures
        device_fields(entry).len() == 16,
{
    lemma_octal_len(((entry.rdev >> 8u64) & 0xfffu64) as nat, 7);
    lemma_octal_len(
        ((entry.rdev & 0xffu64) | ((entry.rdev >> 12u64) & 0xfff00u64)) as nat,
        7,
    );
}

proof fn lemma_padded_len(bytes: Seq<u8>)
    ensures
        padded(bytes).len() % (BLOCK as nat) == 0,
        padded(bytes) == if bytes.len() % (BLOCK as nat) == 0 {
            bytes + zeros(0)
        } else {
            bytes + zeros((BLOCK - bytes.len() % (BLOCK as nat)) as nat)
        },
{
}

proof fn lemma_aligned_sum(left: Seq<u8>, right: Seq<u8>)
    requires
        left.len() % (BLOCK as nat) == 0,
        right.len() % (BLOCK as nat) == 0,
    ensures
        (left + right).len() % (BLOCK as nat) == 0,
{
}

/// A header's checksum is the sum of its bytes with its own field blanked, and
/// six octal digits are enough to state it.
pub proof fn law_checksum_is_the_blanked_sum(front: Seq<u8>, back: Seq<u8>)
    requires
        front.len() == 148,
        back.len() == 356,
    ensures
        finished_header(front, back).subrange(148, 156) == checksum_field(
            byte_sum(front + blank_checksum() + back),
        ),
        byte_sum(front + blank_checksum() + back) < 0o1000000,
{
    let blanked = front + blank_checksum() + back;
    lemma_sum_bound(blanked);
    lemma_octal_len(byte_sum(blanked), 6);
    assert(finished_header(front, back).subrange(148, 156) =~= checksum_field(byte_sum(blanked)));
}

proof fn lemma_sum_bound(bytes: Seq<u8>)
    ensures
        byte_sum(bytes) <= 255 * bytes.len(),
    decreases bytes.len(),
{
    if bytes.len() > 0 {
        lemma_sum_bound(bytes.drop_last());
    }
}

// ---------------------------------------------------------------------------
// Digests and paths
// ---------------------------------------------------------------------------

/// The digest of one blob, formatted the way an OCI descriptor wants it.
pub fn descriptor_digest(bytes: &[u8]) -> (text: String)
    ensures
        text@ == digest_text(sha256_of(bytes@)),
{
    join("sha256:", &hex_text(&sha256(bytes)))
}

/// Verify one extracted file against the digest the manifest recorded.
pub fn content_matches(entry: &ManifestEntry, contents: &[u8]) -> (matching: bool)
    ensures
        matching == match entry.content_sha256 {
            Some(expected) => sha256_of(contents@) == expected@,
            None => true,
        },
{
    match &entry.content_sha256 {
        Some(expected) => same_bytes(&sha256(contents), expected),
        None => true,
    }
}

/// `rootfs/`.
pub open spec fn rootfs_prefix() -> Seq<u8> {
    seq![114u8, 111u8, 111u8, 116u8, 102u8, 115u8, 47u8]
}

/// The path of an entry inside the exported layer, if it belongs there.
pub open spec fn exported_path(path: Seq<u8>) -> Option<Seq<u8>> {
    if path.len() > 7 && path.take(7) == rootfs_prefix() {
        Some(path.skip(7))
    } else {
        None
    }
}

/// The path this entry takes inside the exported layer, if it belongs there.
///
/// A generation's filesystem is the image under `rootfs/` beside pocket's own
/// `.pocket-generation.cbor` marker, so the marker, the ext4 root and the
/// `rootfs` directory itself are pocket's bookkeeping rather than image
/// content, and only what lies under `rootfs/` is exported.
pub fn layer_path(entry: &ManifestEntry) -> (path: Option<Vec<u8>>)
    ensures
        match path {
            Some(path) => exported_path(entry.path@) == Some(path@),
            None => exported_path(entry.path@) is None,
        },
{
    if entry.path.len() <= 7 {
        return None;
    }
    let head = copy_between(&entry.path, 0, 7);
    assert(head@ =~= entry.path@.take(7));
    let prefix: Vec<u8> = vec![114u8, 111u8, 111u8, 116u8, 102u8, 115u8, 47u8];
    assert(prefix@ =~= rootfs_prefix());
    if !same_bytes(&head, &prefix) {
        return None;
    }
    let rest = copy_between(&entry.path, 7, entry.path.len());
    assert(rest@ =~= entry.path@.skip(7));
    Some(rest)
}

/// Only what lies under `rootfs/` reaches the layer: what is exported is the
/// path without that prefix, and it is never empty.
pub proof fn law_only_rootfs_is_exported(path: Seq<u8>)
    ensures
        exported_path(path) matches Some(rest) ==> path == rootfs_prefix() + rest && rest.len()
            > 0,
        path.len() > 7 && path.take(7) == rootfs_prefix() ==> exported_path(path) is Some,
{
    if let Some(rest) = exported_path(path) {
        assert(path =~= rootfs_prefix() + rest);
    }
}

/// Each kind of entry has its type in the archive: `0` for a file, `1` for
/// another name of one, then symbolic links, character and block devices,
/// directories and pipes; nothing else has one.
pub proof fn law_each_kind_has_its_type(entry: ManifestEntry)
    ensures
        entry.kind == 1 && entry.hardlink_target is None ==> type_flag(entry) == Some(48u8),
        entry.kind == 1 && entry.hardlink_target is Some ==> type_flag(entry) == Some(49u8),
        entry.kind == 2 ==> type_flag(entry) == Some(53u8),
        entry.kind == 3 ==> type_flag(entry) == Some(50u8),
        entry.kind == 4 ==> type_flag(entry) == Some(51u8),
        entry.kind == 5 ==> type_flag(entry) == Some(52u8),
        entry.kind == 6 ==> type_flag(entry) == Some(54u8),
        entry.kind == 0 || entry.kind > 6 ==> type_flag(entry) is None,
        KIND_SOCKET == 7,
{
}

/// A directory's name ends in one more slash than its path, every other name is
/// the path; a link says what it links to, the other name of a file before all;
/// contents follow a file alone, and under one name.
pub proof fn law_member_says_what_it_is(entry: ManifestEntry, contents: Seq<u8>)
    ensures
        entry.kind != 2 ==> member_name(entry) == entry.path@,
        entry.kind == 2 ==> member_name(entry).len() > 0 && member_name(entry).last() == 47 && (
        member_name(entry) == entry.path@ || member_name(entry) == entry.path@ + seq![47u8]),
        entry.hardlink_target matches Some(target) ==> member_link(entry) == target@,
        entry.hardlink_target is None ==> (entry.symlink_target matches Some(target)
            ==> member_link(entry) == target@),
        entry.hardlink_target is None && entry.symlink_target is None ==> member_link(entry)
            == Seq::<u8>::empty(),
        entry.kind == 1 && entry.hardlink_target is None ==> member_body(entry, contents)
            == contents,
        entry.kind != 1 || entry.hardlink_target is Some ==> member_body(entry, contents)
            == Seq::<u8>::empty(),
        mtime_value(entry) == entry.mtime_seconds * 1_000_000_000 + entry.mtime_nanoseconds,
{
    assert(entry.path@.push(47u8) =~= entry.path@ + seq![47u8]);
}

/// A record is its own length, a space, the key, an equals sign, the value and a
/// line feed.
pub proof fn law_pax_record_is_spelled_out(key: Seq<u8>, value: Seq<u8>)
    ensures
        exists|length: nat|
            #![trigger decimal(length)]
            pax_record(key, value) == encode_utf8(decimal(length)) + seq![32u8] + key + seq![61u8]
                + value + seq![10u8] && length == pax_record(key, value).len(),
{
    law_pax_length_counts_itself(key, value);
    let length = record_length(key.len() + value.len() + 3);
    assert(pax_record(key, value) == encode_utf8(decimal(length)) + seq![32u8] + key + seq![61u8]
        + value + seq![10u8]);
}

/// The sum of a header is that of its bytes, each counted once.
pub proof fn law_sum_counts_every_byte(left: Seq<u8>, byte: u8, right: Seq<u8>)
    ensures
        byte_sum(left + seq![byte] + right) == byte_sum(left) + byte as nat + byte_sum(right),
        byte_sum(Seq::<u8>::empty()) == 0,
    decreases right.len(),
{
    let whole = left + seq![byte] + right;
    if right.len() == 0 {
        assert(whole.drop_last() =~= left);
    } else {
        law_sum_counts_every_byte(left, byte, right.drop_last());
        assert(whole.drop_last() =~= left + seq![byte] + right.drop_last());
    }
}

/// Only what lies in `rootfs/` is exported, by the path below it.
pub proof fn law_exported_path_is_below_the_root(path: Seq<u8>)
    ensures
        path.len() > 0 ==> exported_path(
            seq![114u8, 111u8, 111u8, 116u8, 102u8, 115u8, 47u8] + path,
        ) == Some(path),
        exported_path(path) matches Some(rest) ==> path == seq![
            114u8,
            111u8,
            111u8,
            116u8,
            102u8,
            115u8,
            47u8,
        ] + rest,
{
    let prefix = seq![114u8, 111u8, 111u8, 116u8, 102u8, 115u8, 47u8];
    assert((prefix + path).take(7) =~= prefix);
    assert((prefix + path).skip(7) =~= path);
    if exported_path(path) is Some {
        assert(path =~= path.take(7) + path.skip(7));
    }
}

/// Contents match exactly where the manifest has no digest for them or has
/// theirs.
pub proof fn law_contents_are_the_recorded_ones(
    entry: ManifestEntry,
    contents: &[u8],
    matching: bool,
)
    requires
        call_ensures(content_matches, (&entry, contents), matching),
    ensures
        matching <==> (entry.content_sha256 is None || entry.content_sha256->Some_0@ == sha256_of(
            contents@,
        )),
{
}

/// A descriptor names its blob by the SHA-256 of the bytes.
pub proof fn law_descriptor_names_its_blob(bytes: &[u8], text: String)
    requires
        call_ensures(descriptor_digest, (bytes,), text),
    ensures
        text@ == "sha256:"@ + hex_of(sha256_of(bytes@)),
{
}

/// A payload is framed by its length in four bytes, the highest first; nothing
/// is left between two payloads, and none is empty.
pub proof fn law_frame_is_announced(bytes: Seq<u8>, offset: int, start: int, end: int)
    requires
        0 <= offset,
        frame_at(bytes, offset) == Ok::<_, Seq<char>>(Some((start, end))),
    ensures
        start == offset + 4,
        start < end <= bytes.len(),
        end - start == 0x100_0000 * bytes[offset] + 0x1_0000 * bytes[offset + 1] + 0x100
            * bytes[offset + 2] + bytes[offset + 3],
{
    reveal_with_fuel(big_endian, 5);
}

/// An archive is padded to blocks of 512 bytes with zeros alone.
pub proof fn law_padding_fills_the_block(bytes: Seq<u8>)
    ensures
        padded(bytes).len() % 512 == 0,
        bytes.len() <= padded(bytes).len() < bytes.len() + 512,
        padded(bytes).take(bytes.len() as int) == bytes,
        forall|i: int| bytes.len() <= i < padded(bytes).len() ==> #[trigger] padded(bytes)[i] == 0,
{
    assert(padded(bytes).take(bytes.len() as int) =~= bytes);
}

/// A text field holds its text, cut where it is too long, and zeros behind it.
pub proof fn law_text_field_ends_in_zeros(value: Seq<u8>, width: nat)
    requires
        width > 0,
    ensures
        text_field(value, width).len() == width,
        text_field(value, width).last() == 0,
        forall|i: int|
            0 <= i < width && i < value.len() && i < width - 1 ==> #[trigger] text_field(
                value,
                width,
            )[i] == value[i],
        forall|i: int|
            value.len() <= i < width ==> #[trigger] text_field(value, width)[i] == 0,
{
}

/// A name or an entry can be encoded where each of its texts leaves 120 bytes of
/// an address space for its record.
pub proof fn law_encodable_texts_leave_room(
    name: &str,
    named: bool,
    entry: ManifestEntry,
    encodable: bool,
)
    requires
        call_ensures(is_name_encodable, (name,), named),
        call_ensures(is_entry_encodable, (&entry,), encodable),
    ensures
        named <==> encode_utf8(name@).len() + 120 <= usize::MAX,
        encodable <==> {
            &&& entry.path@.len() + 120 <= usize::MAX
            &&& entry.symlink_target matches Some(target) ==> target@.len() + 120 <= usize::MAX
            &&& entry.hardlink_target matches Some(target) ==> target@.len() + 120 <= usize::MAX
            &&& forall|i: int|
                0 <= i < entry.xattrs@.len() ==> (#[trigger] entry.xattrs@[i]).name@.len()
                    + entry.xattrs@[i].value@.len() + 120 <= usize::MAX
        },
{
}

/// A manifest is read as the payloads that were framed, an entry is exported by
/// its path below the root, records are encoded in their order, and a header is
/// finished with its sum.
pub proof fn law_archive_parts_are_as_stated(
    bytes: &[u8],
    parts: Seq<Seq<u8>>,
    entries: Result<Vec<Vec<u8>>, String>,
    entry: ManifestEntry,
    path: Option<Vec<u8>>,
    front: &[u8],
    back: &[u8],
    header: Vec<u8>,
    records: Vec<PaxRecord>,
    payload: Vec<u8>,
)
    requires
        bytes@ == framed(parts),
        forall|i: int| 0 <= i < parts.len() ==> 0 < (#[trigger] parts[i]).len() < 0x1_0000_0000,
        call_ensures(decode_manifest, (bytes,), entries),
        call_ensures(layer_path, (&entry,), path),
        front@.len() == 148,
        back@.len() == 356,
        call_ensures(finish_header, (front, back), header),
        call_ensures(encode_pax, (&records,), payload),
    ensures
        entries matches Ok(entries) && payloads(entries@) == parts,
        path is Some <==> entry.path@.len() > 7 && entry.path@.take(7) == seq![
            114u8,
            111u8,
            111u8,
            116u8,
            102u8,
            115u8,
            47u8,
        ],
        path matches Some(path) ==> path@ == entry.path@.skip(7),
        header@.take(148) == front@,
        header@.skip(156) == back@,
        header@.len() == 512,
        payload@ == pax_payload(record_pairs(records@)),
{
    law_framing_round_trips(parts);
    lemma_octal_len(byte_sum(front@ + blank_checksum() + back@), 6);
    assert(header@.take(148) =~= front@);
    assert(header@.skip(156) =~= back@);
}

/// What each call adds to an archive: a member for every entry but a socket; a
/// directory of mode 755; a file of its mode and contents; and 1024 zeros at the
/// end, under the digest of the whole.
pub proof fn law_archive_grows_by_its_members(
    builder: &mut TarBuilder,
    entry: ManifestEntry,
    contents: &[u8],
    appended: Result<bool, String>,
)
    requires
        old(builder).is_sound(),
        is_encodable(entry),
        call_ensures(TarBuilder::append, (builder, &entry, contents), appended),
    ensures
        appended == Ok::<bool, String>(false) <==> entry.kind == 7,
        appended == Ok::<bool, String>(true) <==> 1 <= entry.kind <= 6,
        entry.kind == 7 ==> final(builder).written() == old(builder).written(),
        1 <= entry.kind <= 6 ==> final(builder).written() == old(builder).written() + member_bytes(
            entry,
            contents@,
            type_flag(entry)->Some_0,
        ),
        final(builder).handed() == old(builder).handed(),
{
    law_each_kind_has_its_type(entry);
}

/// A directory is added with mode 755 and no contents.
pub proof fn law_archive_grows_by_a_directory(builder: &mut TarBuilder, name: &str, uid: u32, gid: u32)
    requires
        old(builder).is_sound(),
        encode_utf8(name@).len() + 20 <= record_limit(),
        call_ensures(TarBuilder::append_dir, (builder, name, uid, gid), ()),
    ensures
        exists|entry: ManifestEntry| #[trigger]
            is_plain(entry, name@, 2, 0x1ed, uid, gid) && entry.size == 0
                && final(builder).written() == old(builder).written() + member_bytes(
                entry,
                Seq::empty(),
                53u8,
            ),
{
}

/// A file is added with the mode, the owner and the contents that it is given.
pub proof fn law_archive_grows_by_a_file(
    builder: &mut TarBuilder,
    name: &str,
    contents: &[u8],
    mode: u32,
    uid: u32,
    gid: u32,
)
    requires
        old(builder).is_sound(),
        encode_utf8(name@).len() + 20 <= record_limit(),
        call_ensures(TarBuilder::append_raw, (builder, name, contents, mode, uid, gid), ()),
    ensures
        exists|entry: ManifestEntry| #[trigger]
            is_plain(entry, name@, 1, mode, uid, gid) && entry.size == contents@.len()
                && final(builder).written() == old(builder).written() + member_bytes(
                entry,
                contents@,
                48u8,
            ),
{
}

/// What a plain entry is: its name, kind, mode and owner, and nothing more.
pub proof fn law_plain_entry_has_nothing_more(
    entry: ManifestEntry,
    name: Seq<char>,
    kind: u8,
    mode: u32,
    uid: u32,
    gid: u32,
)
    requires
        is_plain(entry, name, kind, mode, uid, gid),
    ensures
        entry.path@ == encode_utf8(name),
        entry.kind == kind && entry.mode == mode && entry.uid == uid && entry.gid == gid,
        entry.rdev == 0 && entry.mtime_seconds == 0 && entry.mtime_nanoseconds == 0,
        entry.symlink_target is None && entry.hardlink_target is None,
        entry.xattrs@.len() == 0,
{
}

/// Handing out what is there loses nothing, and the end is 1024 zeros.
pub proof fn law_archive_is_handed_out_whole(
    builder: &mut TarBuilder,
    bytes: Vec<u8>,
    last: TarBuilder,
    archive: (Vec<u8>, [u8; 32]),
)
    requires
        old(builder).is_sound(),
        call_ensures(TarBuilder::take, (builder,), bytes),
        last.is_sound(),
        call_ensures(TarBuilder::finish, (last,), archive),
    ensures
        final(builder).written() == old(builder).written(),
        final(builder).handed() == old(builder).handed() + bytes@,
        final(builder).pending().len() == 0,
        last.handed() + archive.0@ == last.written() + Seq::new(1024, |i: int| 0u8),
        archive.1@ == sha256_of(last.written() + Seq::new(1024, |i: int| 0u8)),
{
    assert(zeros(1024) =~= Seq::new(1024, |i: int| 0u8));
}

/// A record is put in its place, and replaces one of the same key.
pub proof fn law_record_is_put_in_its_place(records: &mut Vec<PaxRecord>, key: Vec<u8>, value: Vec<u8>)
    requires
        sorted_records(record_pairs(old(records)@)),
        call_ensures(insert_record, (records, key, value), ()),
    ensures
        sorted_records(record_pairs(final(records)@)),
        record_pairs(final(records)@).contains((key@, value@)),
{
    law_records_stay_sorted(record_pairs(old(records)@), key@, value@);
}

/// A member whose fields all fit needs no header of its own: a name and a link
/// of fewer than 100 bytes, ids below 2097152, fewer than 8 GiB, whole seconds
/// that are neither negative nor above the field, and no attribute.
pub proof fn law_short_member_needs_no_records(entry: ManifestEntry, contents: Seq<u8>)
    requires
        member_name(entry).len() < 100,
        member_link(entry).len() < 100,
        entry.uid < 2_097_152,
        entry.gid < 2_097_152,
        member_body(entry, contents).len() < 8_589_934_592,
        entry.mtime_nanoseconds == 0,
        0 <= entry.mtime_seconds < 8_589_934_592,
        entry.xattrs@.len() == 0,
    ensures
        pax_part(entry, contents).len() == 0,
{
    assert(field_records(entry, contents) =~= Seq::<(Seq<u8>, Seq<u8>)>::empty());
    assert(attribute_records(entry.xattrs@) =~= Seq::<(Seq<u8>, Seq<u8>)>::empty());
    assert(field_records(entry, contents) + attribute_records(entry.xattrs@) =~= Seq::<
        (Seq<u8>, Seq<u8>),
    >::empty());
}

/// The records of a member stand behind a header of their own, named
/// `PaxHeaders/0`, of type `x` and mode 644, which says how long they are.
pub proof fn law_records_have_their_own_header(entry: ManifestEntry, contents: Seq<u8>)
    requires
        member_records(entry, contents).len() > 0,
    ensures
        ({
            let part = pax_part(entry, contents);
            let payload = pax_payload(member_records(entry, contents));
            &&& part.take(100) == text_field(encode_utf8("PaxHeaders/0"@), 100)
            &&& part.subrange(100, 108) == octal_field(0x1a4, 8)
            &&& part.subrange(108, 116) == octal_field(0, 8)
            &&& part.subrange(116, 124) == octal_field(0, 8)
            &&& part.subrange(124, 136) == octal_field(payload.len(), 12)
            &&& part[156] == 120
            &&& part.skip(512) == padded(payload)
        }),
{
    let part = pax_part(entry, contents);
    let payload = pax_payload(member_records(entry, contents));
    let name = encode_utf8("PaxHeaders/0"@);
    let front = header_front(name, 0o644, 0, 0, payload.len(), clamped_mtime(entry));
    let back = seq![120u8] + zeros(355);
    lemma_front_len(name, 0o644, 0, 0, payload.len(), clamped_mtime(entry));
    lemma_octal_len(0o644, 7);
    lemma_octal_len(0, 7);
    lemma_octal_len(payload.len(), 11);
    lemma_octal_len(clamped_mtime(entry), 11);
    lemma_octal_len(byte_sum(front + blank_checksum() + back), 6);
    reveal_strlit("PaxHeaders/0");
    vstd::utf8::is_ascii_chars_encode_utf8("PaxHeaders/0"@);
    assert(text_field(name, 100).len() == 100);
    assert(part.take(100) =~= text_field(name, 100));
    assert(part.subrange(100, 108) =~= octal_field(0o644, 8));
    assert(part.subrange(108, 116) =~= octal_field(0, 8));
    assert(part.subrange(116, 124) =~= octal_field(0, 8));
    assert(part.subrange(124, 136) =~= octal_field(payload.len(), 12));
    assert(part.skip(512) =~= padded(payload));
}

/// The record of an attribute is kept under its name behind `SCHILY.xattr.`.
pub proof fn law_attribute_is_kept_under_its_name(name: Seq<u8>, other: Seq<u8>)
    ensures
        attribute_key(name).take(13) == encode_utf8("SCHILY.xattr."@),
        attribute_key(name).skip(13) == name,
        attribute_key(name) == attribute_key(other) <==> name == other,
{
    reveal_strlit("SCHILY.xattr.");
    vstd::utf8::is_ascii_chars_encode_utf8("SCHILY.xattr."@);
    assert(attribute_key(name).take(13) =~= encode_utf8("SCHILY.xattr."@));
    assert(attribute_key(name).skip(13) =~= name);
    assert(attribute_key(other).skip(13) =~= other);
}

} // verus!
