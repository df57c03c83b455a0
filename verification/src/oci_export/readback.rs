//! What a reader of an exported archive finds in it.

use vstd::prelude::*;
use vstd::utf8::encode_utf8;

use super::{
    attribute_key, attribute_records, blank_checksum, byte_sum, clamped_mtime, collected, device_fields, field_records,
    finished_header, header_back, header_front, lemma_device_len, lemma_front_len,
    lemma_octal_len, member_body, member_bytes, member_header, member_link, member_name,
    member_records, mtime_fits, mtime_value, octal_digits, octal_field, padded, pax_part,
    text_field, ustar, where_needed, with_record, zeros, ManifestEntry, ManifestXattr, BLOCK,
    ID_FIELD_SPAN, LINK_FIELD, LONG_FIELD_SPAN, NAME_FIELD,
};
use crate::numeral::{
    law_decimal_reads_back, lemma_decimal_digits, lemma_decimal_grows, lemma_decimal_value, lemma_padding_keeps_the_value, seconds_text,
    zero_padded, NANOS_PER_SECOND,
};
use crate::text::{decimal, digits_value, is_digit};

verus! {

/// The number that octal digits spell.
pub open spec fn octal_value(digits: Seq<u8>) -> int
    decreases digits.len(),
{
    if digits.len() == 0 {
        0
    } else {
        octal_value(digits.drop_last()) * 8 + (digits.last() - 48)
    }
}

/// How many numbers the given count of octal digits spells.
pub open spec fn octal_span(count: nat) -> nat
    decreases count,
{
    if count == 0 {
        1
    } else {
        8 * octal_span((count - 1) as nat)
    }
}

/// A number that fits its field fills it to the terminator and reads back from
/// it.
pub proof fn law_number_field_reads_back(value: nat, width: nat)
    requires
        width > 0,
        value < octal_span((width - 1) as nat),
    ensures
        octal_field(value, width).len() == width,
        octal_field(value, width).last() == 0,
        octal_value(octal_field(value, width).drop_last()) == value,
{
    let digits = octal_digits(value, (width - 1) as nat);
    lemma_octal_len(value, (width - 1) as nat);
    lemma_octal_value(value, (width - 1) as nat);
    assert(octal_field(value, width).drop_last() =~= digits);
}

proof fn lemma_octal_value(value: nat, count: nat)
    requires
        value < octal_span(count),
    ensures
        octal_value(octal_digits(value, count)) == value,
    decreases count,
{
    if count > 0 {
        lemma_octal_value(value / 8, (count - 1) as nat);
        let front = octal_digits(value / 8, (count - 1) as nat);
        assert(octal_digits(value, count).drop_last() =~= front);
    }
}

/// A text that leaves room for a terminator stands in its field as it is.
pub open spec fn holds_text(bytes: Seq<u8>, at: int, text: Seq<u8>) -> bool {
    bytes.subrange(at, at + text.len()) == text && bytes[at + text.len()] == 0
}

/// What a member's own header and body say.
proof fn lemma_member_fields(entry: ManifestEntry, contents: Seq<u8>, flag: u8)
    ensures
        ({
            let bytes = member_bytes(entry, contents, flag);
            let at = pax_part(entry, contents).len() as int;
            let body = member_body(entry, contents);
            &&& bytes.len() == at + BLOCK + padded(body).len()
            &&& padded(body).len() % (BLOCK as nat) == 0
            &&& bytes[at + 156] == flag
            &&& bytes.subrange(at + BLOCK, at + BLOCK + body.len()) == body
            &&& member_name(entry).len() < 100 ==> holds_text(bytes, at, member_name(entry))
            &&& member_link(entry).len() < 100 ==> holds_text(bytes, at + 157, member_link(entry))
            &&& octal_value(bytes.subrange(at + 100, at + 107)) == (entry.mode & 0o7777u32)
            &&& entry.uid < octal_span(7) ==> octal_value(bytes.subrange(at + 108, at + 115))
                == entry.uid
            &&& entry.gid < octal_span(7) ==> octal_value(bytes.subrange(at + 116, at + 123))
                == entry.gid
            &&& body.len() < octal_span(11) ==> octal_value(bytes.subrange(at + 124, at + 135))
                == body.len()
            &&& 0 <= entry.mtime_seconds < octal_span(11) ==> octal_value(
                bytes.subrange(at + 136, at + 147),
            ) == entry.mtime_seconds
        }),
{
    let bytes = member_bytes(entry, contents, flag);
    let at = pax_part(entry, contents).len() as int;
    let body = member_body(entry, contents);
    let header = member_header(entry, contents, flag);
    let name = member_name(entry);
    let link = member_link(entry);
    lemma_header(entry, contents, flag);
    lemma_member_parts(entry, contents, flag);
    lemma_within(bytes, header, at, 156, 157);
    assert(bytes[at + 156] == bytes.subrange(at + 156, at + 157)[0]);
    assert(header[156] == header.subrange(156, 157)[0]);
    if name.len() < 100 {
        lemma_text_within(bytes, header, at, 0, name);
    }
    if link.len() < 100 {
        lemma_text_within(bytes, header, at, 157, link);
    }
    lemma_within(bytes, header, at, 100, 107);
    lemma_within(bytes, header, at, 108, 115);
    lemma_within(bytes, header, at, 116, 123);
    lemma_within(bytes, header, at, 124, 135);
    lemma_within(bytes, header, at, 136, 147);
    lemma_numbers(entry, contents);
}

/// What the header's digits spell.
proof fn lemma_numbers(entry: ManifestEntry, contents: Seq<u8>)
    ensures
        octal_value(octal_digits((entry.mode & 0o7777u32) as nat, 7)) == (entry.mode & 0o7777u32),
        entry.uid < octal_span(7) ==> octal_value(octal_digits(entry.uid as nat, 7)) == entry.uid,
        entry.gid < octal_span(7) ==> octal_value(octal_digits(entry.gid as nat, 7)) == entry.gid,
        member_body(entry, contents).len() < octal_span(11) ==> octal_value(
            octal_digits(member_body(entry, contents).len(), 11),
        ) == member_body(entry, contents).len(),
        0 <= entry.mtime_seconds < octal_span(11) ==> octal_value(
            octal_digits(clamped_mtime(entry), 11),
        ) == entry.mtime_seconds,
{
    lemma_spans();
    let mode = entry.mode;
    assert(mode & 0o7777u32 < 4096u32) by (bit_vector);
    lemma_octal_value((entry.mode & 0o7777u32) as nat, 7);
    if entry.uid < octal_span(7) {
        lemma_octal_value(entry.uid as nat, 7);
    }
    if entry.gid < octal_span(7) {
        lemma_octal_value(entry.gid as nat, 7);
    }
    if member_body(entry, contents).len() < octal_span(11) {
        lemma_octal_value(member_body(entry, contents).len(), 11);
    }
    if 0 <= entry.mtime_seconds < octal_span(11) {
        lemma_octal_value(clamped_mtime(entry), 11);
    }
}

/// A member is its records, its header and its body.
proof fn lemma_member_parts(entry: ManifestEntry, contents: Seq<u8>, flag: u8)
    requires
        member_header(entry, contents, flag).len() == BLOCK,
    ensures
        ({
            let bytes = member_bytes(entry, contents, flag);
            let at = pax_part(entry, contents).len() as int;
            let body = member_body(entry, contents);
            &&& bytes.len() == at + BLOCK + padded(body).len()
            &&& padded(body).len() % (BLOCK as nat) == 0
            &&& bytes.subrange(at, at + BLOCK) == member_header(entry, contents, flag)
            &&& bytes.subrange(at + BLOCK, at + BLOCK + body.len()) == body
        }),
{
    lemma_three_parts(
        pax_part(entry, contents),
        member_header(entry, contents, flag),
        member_body(entry, contents),
    );
}

proof fn lemma_three_parts(records: Seq<u8>, header: Seq<u8>, body: Seq<u8>)
    requires
        header.len() == BLOCK,
    ensures
        ({
            let bytes = records + header + padded(body);
            let at = records.len() as int;
            &&& bytes.len() == at + BLOCK + padded(body).len()
            &&& padded(body).len() % (BLOCK as nat) == 0
            &&& bytes.subrange(at, at + BLOCK) == header
            &&& bytes.subrange(at + BLOCK, at + BLOCK + body.len()) == body
        }),
{
    let bytes = records + header + padded(body);
    let at = records.len() as int;
    assert(bytes.subrange(at, at + BLOCK) =~= header);
    assert(bytes.subrange(at + BLOCK, at + BLOCK + body.len()) =~= body);
}

/// A part of a header is found at its place in what holds the header.
proof fn lemma_within(bytes: Seq<u8>, header: Seq<u8>, at: int, from: int, to: int)
    requires
        0 <= at,
        at + BLOCK <= bytes.len(),
        bytes.subrange(at, at + BLOCK) == header,
        0 <= from <= to <= BLOCK,
    ensures
        bytes.subrange(at + from, at + to) == header.subrange(from, to),
{
    assert(bytes.subrange(at + from, at + to) =~= bytes.subrange(at, at + BLOCK).subrange(
        from,
        to,
    ));
}

proof fn lemma_text_within(bytes: Seq<u8>, header: Seq<u8>, at: int, from: int, text: Seq<u8>)
    requires
        0 <= at,
        at + BLOCK <= bytes.len(),
        bytes.subrange(at, at + BLOCK) == header,
        0 <= from,
        from + text.len() < BLOCK,
        holds_text(header, from, text),
    ensures
        holds_text(bytes, at + from, text),
{
    lemma_within(bytes, header, at, from, from + text.len());
    assert(at + (from + text.len()) == at + from + text.len());
    assert(bytes.subrange(at, at + BLOCK)[from + text.len()] == bytes[at + from + text.len()]);
}

proof fn lemma_spans()
    ensures
        octal_span(7) == ID_FIELD_SPAN,
        octal_span(11) == LONG_FIELD_SPAN,
{
    reveal_with_fuel(octal_span, 12);
}

/// Where the fields of a member's header stand.
proof fn lemma_header(entry: ManifestEntry, contents: Seq<u8>, flag: u8)
    ensures
        ({
            let header = member_header(entry, contents, flag);
            let name = member_name(entry);
            let link = member_link(entry);
            &&& header.len() == BLOCK
            &&& header[156] == flag
            &&& name.len() < 100 ==> holds_text(header, 0, name)
            &&& link.len() < 100 ==> holds_text(header, 157, link)
            &&& header.subrange(100, 107) == octal_digits((entry.mode & 0o7777u32) as nat, 7)
            &&& header.subrange(108, 115) == octal_digits(entry.uid as nat, 7)
            &&& header.subrange(116, 123) == octal_digits(entry.gid as nat, 7)
            &&& header.subrange(124, 135) == octal_digits(
                member_body(entry, contents).len(),
                11,
            )
            &&& header.subrange(136, 147) == octal_digits(clamped_mtime(entry), 11)
        }),
{
    let header = member_header(entry, contents, flag);
    let name = member_name(entry);
    let link = member_link(entry);
    let mode = (entry.mode & 0o7777u32) as nat;
    let uid = entry.uid as nat;
    let gid = entry.gid as nat;
    let size = member_body(entry, contents).len();
    let mtime = clamped_mtime(entry);
    let front = header_front(name, mode, uid, gid, size, mtime);
    let back = header_back(flag, link, device_fields(entry));
    lemma_front_len(name, mode, uid, gid, size, mtime);
    lemma_device_len(entry);
    lemma_octal_len(mode, 7);
    lemma_octal_len(uid, 7);
    lemma_octal_len(gid, 7);
    lemma_octal_len(size, 11);
    lemma_octal_len(mtime, 11);
    let sum = super::byte_sum(front + super::blank_checksum() + back);
    lemma_octal_len(sum, 6);
    assert(back.len() == 356);
    assert(header == finished_header(front, back));
    assert(header.len() == BLOCK);
    assert(header[156] == back[0]);
    assert(front.subrange(100, 107) =~= octal_digits(mode, 7));
    assert(front.subrange(108, 115) =~= octal_digits(uid, 7));
    assert(front.subrange(116, 123) =~= octal_digits(gid, 7));
    assert(front.subrange(124, 135) =~= octal_digits(size, 11));
    assert(front.subrange(136, 147) =~= octal_digits(mtime, 11));
    assert(header.subrange(100, 107) =~= front.subrange(100, 107));
    assert(header.subrange(108, 115) =~= front.subrange(108, 115));
    assert(header.subrange(116, 123) =~= front.subrange(116, 123));
    assert(header.subrange(124, 135) =~= front.subrange(124, 135));
    assert(header.subrange(136, 147) =~= front.subrange(136, 147));
    if name.len() < 100 {
        assert(text_field(name, 100) == name + zeros((100 - name.len()) as nat));
        assert(header.subrange(0, name.len() as int) =~= name);
        assert(header[name.len() as int] == text_field(name, 100)[name.len() as int]);
    }
    if link.len() < 100 {
        assert(text_field(link, 100) == link + zeros((100 - link.len()) as nat));
        assert(header.subrange(157, 157 + link.len() as int) =~= link);
        assert(header[157 + link.len() as int] == text_field(link, 100)[link.len() as int]);
    }
}

// ---------------------------------------------------------------------------
// Records
// ---------------------------------------------------------------------------

/// What the records say for a key.
pub open spec fn record_value(records: Seq<(Seq<u8>, Seq<u8>)>, key: Seq<u8>) -> Option<Seq<u8>>
    decreases records.len(),
{
    if records.len() == 0 {
        None
    } else if records[0].0 == key {
        Some(records[0].1)
    } else {
        record_value(records.skip(1), key)
    }
}

/// What a list says for a key: the last value it gives.
pub open spec fn last_value(list: Seq<(Seq<u8>, Seq<u8>)>, key: Seq<u8>) -> Option<Seq<u8>>
    decreases list.len(),
{
    if list.len() == 0 {
        None
    } else if list.last().0 == key {
        Some(list.last().1)
    } else {
        last_value(list.drop_last(), key)
    }
}

/// The last value of the attribute of a name.
pub open spec fn last_attribute(xattrs: Seq<ManifestXattr>, name: Seq<u8>) -> Option<Seq<u8>>
    decreases xattrs.len(),
{
    if xattrs.len() == 0 {
        None
    } else if xattrs.last().name@ == name {
        Some(xattrs.last().value@)
    } else {
        last_attribute(xattrs.drop_last(), name)
    }
}

proof fn lemma_with_record_value(
    records: Seq<(Seq<u8>, Seq<u8>)>,
    key: Seq<u8>,
    value: Seq<u8>,
    wanted: Seq<u8>,
)
    ensures
        record_value(with_record(records, key, value), wanted) == if wanted == key {
            Some(value)
        } else {
            record_value(records, wanted)
        },
    decreases records.len(),
{
    let result = with_record(records, key, value);
    if records.len() == 0 {
        assert(result.skip(1) =~= records);
    } else if records[0].0 == key {
        assert(result.skip(1) =~= records.skip(1));
    } else if crate::order::bytes_before(key, records[0].0) {
        assert(result.skip(1) =~= records);
    } else {
        lemma_with_record_value(records.skip(1), key, value, wanted);
        assert(result.skip(1) =~= with_record(records.skip(1), key, value));
        assert(result[0] == records[0]);
    }
}

proof fn lemma_collected_value(list: Seq<(Seq<u8>, Seq<u8>)>, key: Seq<u8>)
    ensures
        record_value(collected(list), key) == last_value(list, key),
    decreases list.len(),
{
    if list.len() > 0 {
        lemma_collected_value(list.drop_last(), key);
        lemma_with_record_value(
            collected(list.drop_last()),
            list.last().0,
            list.last().1,
            key,
        );
    }
}

proof fn lemma_last_of_two(
    left: Seq<(Seq<u8>, Seq<u8>)>,
    right: Seq<(Seq<u8>, Seq<u8>)>,
    key: Seq<u8>,
)
    ensures
        last_value(left + right, key) == match last_value(right, key) {
            Some(value) => Some(value),
            None => last_value(left, key),
        },
    decreases right.len(),
{
    if right.len() == 0 {
        assert(left + right =~= left);
    } else {
        assert((left + right).drop_last() =~= left + right.drop_last());
        lemma_last_of_two(left, right.drop_last(), key);
    }
}

/// No attribute has the key of a field.
proof fn lemma_no_attribute(xattrs: Seq<ManifestXattr>, key: Seq<u8>)
    requires
        key.len() > 0,
        key[0] != 83,
    ensures
        last_value(attribute_records(xattrs), key) is None,
    decreases xattrs.len(),
{
    if xattrs.len() > 0 {
        lemma_keys();
        lemma_no_attribute(xattrs.drop_last(), key);
        assert(attribute_records(xattrs).drop_last() =~= attribute_records(xattrs.drop_last()));
        assert(attribute_key(xattrs.last().name@)[0] == 83);
    }
}

proof fn lemma_attribute(xattrs: Seq<ManifestXattr>, name: Seq<u8>)
    ensures
        last_value(attribute_records(xattrs), attribute_key(name)) == last_attribute(xattrs, name),
    decreases xattrs.len(),
{
    if xattrs.len() > 0 {
        lemma_attribute(xattrs.drop_last(), name);
        assert(attribute_records(xattrs).drop_last() =~= attribute_records(xattrs.drop_last()));
        let prefix = encode_utf8("SCHILY.xattr."@);
        let last = xattrs.last().name@;
        if attribute_key(last) == attribute_key(name) {
            assert(attribute_key(last).skip(prefix.len() as int) =~= last);
            assert(attribute_key(name).skip(prefix.len() as int) =~= name);
        }
    }
}

/// The keys of the records differ, and none is an attribute's.
proof fn lemma_keys()
    ensures
        encode_utf8("path"@).len() > 0 && encode_utf8("path"@)[0] == 112,
        encode_utf8("linkpath"@).len() > 0 && encode_utf8("linkpath"@)[0] == 108,
        encode_utf8("uid"@).len() > 0 && encode_utf8("uid"@)[0] == 117,
        encode_utf8("gid"@).len() > 0 && encode_utf8("gid"@)[0] == 103,
        encode_utf8("size"@).len() > 0 && encode_utf8("size"@)[0] == 115,
        encode_utf8("mtime"@).len() > 0 && encode_utf8("mtime"@)[0] == 109,
        encode_utf8("SCHILY.xattr."@).len() > 0 && encode_utf8("SCHILY.xattr."@)[0] == 83,
{
    reveal_strlit("path");
    reveal_strlit("linkpath");
    reveal_strlit("uid");
    reveal_strlit("gid");
    reveal_strlit("size");
    reveal_strlit("mtime");
    reveal_strlit("SCHILY.xattr.");
    vstd::utf8::is_ascii_chars_encode_utf8("path"@);
    vstd::utf8::is_ascii_chars_encode_utf8("linkpath"@);
    vstd::utf8::is_ascii_chars_encode_utf8("uid"@);
    vstd::utf8::is_ascii_chars_encode_utf8("gid"@);
    vstd::utf8::is_ascii_chars_encode_utf8("size"@);
    vstd::utf8::is_ascii_chars_encode_utf8("mtime"@);
    vstd::utf8::is_ascii_chars_encode_utf8("SCHILY.xattr."@);
}

proof fn lemma_one(needed: bool, key: Seq<char>, value: Seq<u8>, wanted: Seq<u8>)
    ensures
        last_value(where_needed(needed, key, value), wanted) == if needed && encode_utf8(key)
            == wanted {
            Some(value)
        } else {
            None
        },
{
    let list = where_needed(needed, key, value);
    if needed {
        assert(list.drop_last() =~= Seq::<(Seq<u8>, Seq<u8>)>::empty());
        assert(last_value(list.drop_last(), wanted) is None);
    }
}

/// What the fields' records say for a key.
proof fn lemma_field_value(entry: ManifestEntry, contents: Seq<u8>, wanted: Seq<u8>)
    ensures
        ({
            let found = last_value(field_records(entry, contents), wanted);
            let size = member_body(entry, contents).len();
            &&& wanted == encode_utf8("path"@) ==> found == if member_name(entry).len()
                >= NAME_FIELD {
                Some(member_name(entry))
            } else {
                None
            }
            &&& wanted == encode_utf8("linkpath"@) ==> found == if member_link(entry).len()
                >= LINK_FIELD {
                Some(member_link(entry))
            } else {
                None
            }
            &&& wanted == encode_utf8("uid"@) ==> found == if entry.uid >= ID_FIELD_SPAN {
                Some(encode_utf8(decimal(entry.uid as nat)))
            } else {
                None
            }
            &&& wanted == encode_utf8("gid"@) ==> found == if entry.gid >= ID_FIELD_SPAN {
                Some(encode_utf8(decimal(entry.gid as nat)))
            } else {
                None
            }
            &&& wanted == encode_utf8("size"@) ==> found == if size >= LONG_FIELD_SPAN {
                Some(encode_utf8(decimal(size)))
            } else {
                None
            }
            &&& wanted == encode_utf8("mtime"@) ==> found == if !mtime_fits(entry) {
                Some(encode_utf8(seconds_text(mtime_value(entry))))
            } else {
                None
            }
            &&& wanted.len() > 0 && wanted[0] == 83 ==> found is None
        }),
{
    lemma_keys();
    let size = member_body(entry, contents).len();
    let uid = encode_utf8(decimal(entry.uid as nat));
    let gid = encode_utf8(decimal(entry.gid as nat));
    let length = encode_utf8(decimal(size));
    let time = encode_utf8(seconds_text(mtime_value(entry)));
    let long_name = member_name(entry).len() >= NAME_FIELD;
    let long_link = member_link(entry).len() >= LINK_FIELD;
    let a = where_needed(long_name, "path"@, member_name(entry));
    let b = where_needed(long_link, "linkpath"@, member_link(entry));
    let c = where_needed(entry.uid >= ID_FIELD_SPAN, "uid"@, uid);
    let d = where_needed(entry.gid >= ID_FIELD_SPAN, "gid"@, gid);
    let e = where_needed(size >= LONG_FIELD_SPAN, "size"@, length);
    let f = where_needed(!mtime_fits(entry), "mtime"@, time);
    lemma_one(long_name, "path"@, member_name(entry), wanted);
    lemma_one(long_link, "linkpath"@, member_link(entry), wanted);
    lemma_one(entry.uid >= ID_FIELD_SPAN, "uid"@, uid, wanted);
    lemma_one(entry.gid >= ID_FIELD_SPAN, "gid"@, gid, wanted);
    lemma_one(size >= LONG_FIELD_SPAN, "size"@, length, wanted);
    lemma_one(!mtime_fits(entry), "mtime"@, time, wanted);
    lemma_last_of_two(a, b, wanted);
    lemma_last_of_two(a + b, c, wanted);
    lemma_last_of_two(a + b + c, d, wanted);
    lemma_last_of_two(a + b + c + d, e, wanted);
    lemma_last_of_two(a + b + c + d + e, f, wanted);
    assert(field_records(entry, contents) == a + b + c + d + e + f);
}

/// What a member's records say for the key of a field.
proof fn lemma_member_value(entry: ManifestEntry, contents: Seq<u8>, wanted: Seq<u8>)
    requires
        wanted.len() > 0,
        wanted[0] != 83,
    ensures
        record_value(member_records(entry, contents), wanted) == last_value(
            field_records(entry, contents),
            wanted,
        ),
{
    let fields = field_records(entry, contents);
    let attributes = attribute_records(entry.xattrs@);
    lemma_collected_value(fields + attributes, wanted);
    lemma_last_of_two(fields, attributes, wanted);
    lemma_no_attribute(entry.xattrs@, wanted);
}

/// Whether a member gives a text: its record does, or else its field holds it.
pub open spec fn gives_text(
    records: Seq<(Seq<u8>, Seq<u8>)>,
    key: Seq<char>,
    bytes: Seq<u8>,
    at: int,
    text: Seq<u8>,
) -> bool {
    match record_value(records, encode_utf8(key)) {
        Some(value) => value == text,
        None => holds_text(bytes, at, text),
    }
}

/// Whether a member gives a number: its record does, or else the digits of its
/// field spell it.
pub open spec fn gives_number(
    records: Seq<(Seq<u8>, Seq<u8>)>,
    key: Seq<char>,
    digits: Seq<u8>,
    value: nat,
) -> bool {
    match record_value(records, encode_utf8(key)) {
        Some(text) => text == encode_utf8(decimal(value)),
        None => octal_value(digits) == value,
    }
}

/// Whether a member gives a time: its record does, or else the digits of its
/// field spell its seconds.
pub open spec fn gives_time(
    records: Seq<(Seq<u8>, Seq<u8>)>,
    digits: Seq<u8>,
    nanoseconds: int,
) -> bool {
    match record_value(records, encode_utf8("mtime"@)) {
        Some(text) => text == encode_utf8(seconds_text(nanoseconds)),
        None => octal_value(digits) * NANOS_PER_SECOND == nanoseconds,
    }
}

/// A member gives back all that it was made of: its name, link, owner, group,
/// size and time each stand whole in a record or in their field, its type,
/// mode and contents stand where they belong, and it fills whole blocks.
pub proof fn law_member_reads_back(entry: ManifestEntry, contents: Seq<u8>, flag: u8)
    ensures
        ({
            let bytes = member_bytes(entry, contents, flag);
            let records = member_records(entry, contents);
            let at = pax_part(entry, contents).len() as int;
            let body = member_body(entry, contents);
            &&& bytes.len() == at + BLOCK + padded(body).len()
            &&& padded(body).len() % (BLOCK as nat) == 0
            &&& bytes[at + 156] == flag
            &&& bytes.subrange(at + BLOCK, at + BLOCK + body.len()) == body
            &&& octal_value(bytes.subrange(at + 100, at + 107)) == (entry.mode & 0o7777u32)
            &&& gives_text(records, "path"@, bytes, at, member_name(entry))
            &&& gives_text(records, "linkpath"@, bytes, at + 157, member_link(entry))
            &&& gives_number(
                records,
                "uid"@,
                bytes.subrange(at + 108, at + 115),
                entry.uid as nat,
            )
            &&& gives_number(
                records,
                "gid"@,
                bytes.subrange(at + 116, at + 123),
                entry.gid as nat,
            )
            &&& gives_number(records, "size"@, bytes.subrange(at + 124, at + 135), body.len())
            &&& gives_time(records, bytes.subrange(at + 136, at + 147), mtime_value(entry))
        }),
{
    lemma_spans();
    lemma_keys();
    lemma_member_fields(entry, contents, flag);
    lemma_member_value(entry, contents, encode_utf8("path"@));
    lemma_member_value(entry, contents, encode_utf8("linkpath"@));
    lemma_member_value(entry, contents, encode_utf8("uid"@));
    lemma_member_value(entry, contents, encode_utf8("gid"@));
    lemma_member_value(entry, contents, encode_utf8("size"@));
    lemma_member_value(entry, contents, encode_utf8("mtime"@));
    lemma_field_value(entry, contents, encode_utf8("path"@));
    lemma_field_value(entry, contents, encode_utf8("linkpath"@));
    lemma_field_value(entry, contents, encode_utf8("uid"@));
    lemma_field_value(entry, contents, encode_utf8("gid"@));
    lemma_field_value(entry, contents, encode_utf8("size"@));
    lemma_field_value(entry, contents, encode_utf8("mtime"@));
}

/// Every attribute has its record, which gives its last value; a name that is
/// no attribute's has none.
pub proof fn law_attributes_read_back(entry: ManifestEntry, contents: Seq<u8>, name: Seq<u8>)
    ensures
        record_value(member_records(entry, contents), attribute_key(name)) == last_attribute(
            entry.xattrs@,
            name,
        ),
{
    let fields = field_records(entry, contents);
    let attributes = attribute_records(entry.xattrs@);
    let key = attribute_key(name);
    lemma_keys();
    assert(key[0] == 83);
    lemma_collected_value(fields + attributes, key);
    lemma_last_of_two(fields, attributes, key);
    lemma_attribute(entry.xattrs@, name);
    lemma_field_value(entry, contents, key);
}

/// The number of nanoseconds that digits with a decimal point spell.
pub open spec fn unsigned_seconds(text: Seq<char>) -> nat {
    match text.index_of_first('.') {
        Some(at) => digits_value(text.take(at)) * (NANOS_PER_SECOND as nat) + digits_value(
            text.skip(at + 1),
        ),
        None => digits_value(text) * (NANOS_PER_SECOND as nat),
    }
}

/// The number of nanoseconds that seconds with nine decimal places spell.
pub open spec fn read_seconds(text: Seq<char>) -> int {
    if text.len() > 0 && text[0] == '-' {
        -unsigned_seconds(text.skip(1))
    } else {
        unsigned_seconds(text) as int
    }
}

/// A time reads back from its spelling, before the epoch as after it.
pub proof fn law_seconds_read_back(nanoseconds: int)
    ensures
        read_seconds(seconds_text(nanoseconds)) == nanoseconds,
{
    reveal_strlit("-");
    reveal_strlit(".");
    let magnitude = if nanoseconds < 0 {
        (-nanoseconds) as nat
    } else {
        nanoseconds as nat
    };
    let whole = decimal(magnitude / (NANOS_PER_SECOND as nat));
    let rest = decimal(magnitude % (NANOS_PER_SECOND as nat));
    let places = zero_padded(rest, 9);
    let text = whole + "."@ + places;
    lemma_decimal_digits(magnitude / (NANOS_PER_SECOND as nat));
    lemma_decimal_digits(magnitude % (NANOS_PER_SECOND as nat));
    lemma_decimal_value(magnitude / (NANOS_PER_SECOND as nat));
    lemma_decimal_value(magnitude % (NANOS_PER_SECOND as nat));
    lemma_padding_keeps_the_value(rest, 9);
    let at = whole.len() as int;
    assert(text[at] == '.');
    assert forall|i: int| 0 <= i < at implies text[i] != '.' by {
        assert(text[i] == whole[i] && is_digit(whole[i]));
    }
    text.index_of_first_ensures('.');
    assert(text.contains('.'));
    assert(text.index_of_first('.') == Some(at));
    assert(text.take(at) =~= whole);
    assert(text.skip(at + 1) =~= places);
    assert(unsigned_seconds(text) == magnitude) by {
        vstd::arithmetic::div_mod::lemma_fundamental_div_mod(
            magnitude as int,
            NANOS_PER_SECOND as int,
        );
    }
    if nanoseconds < 0 {
        assert(seconds_text(nanoseconds).skip(1) =~= text);
        assert(seconds_text(nanoseconds)[0] == '-');
    } else {
        assert(text[0] == whole[0] && is_digit(whole[0]));
    }
}

/// A header says that it is one, by `ustar` and its version; the devices of a
/// device are read back from it as the kernel numbers them; everything else has
/// none.
pub proof fn law_devices_read_back(entry: ManifestEntry, contents: Seq<u8>, flag: u8)
    ensures
        ({
            let bytes = member_bytes(entry, contents, flag);
            let at = pax_part(entry, contents).len() as int;
            &&& bytes.subrange(at + 257, at + 265) == seq![
                117u8,
                115u8,
                116u8,
                97u8,
                114u8,
                0u8,
                48u8,
                48u8,
            ]
            &&& entry.kind == 4 || entry.kind == 5 ==> octal_value(
                bytes.subrange(at + 329, at + 336),
            ) == (entry.rdev / 0x100) % 0x1000
            &&& entry.kind == 4 || entry.kind == 5 ==> octal_value(
                bytes.subrange(at + 337, at + 344),
            ) == entry.rdev % 0x100 + 0x100 * ((entry.rdev / 0x10_0000) % 0x1000)
            &&& entry.kind != 4 && entry.kind != 5 ==> bytes.subrange(at + 329, at + 345) == zeros(
                16,
            )
        }),
{
    let bytes = member_bytes(entry, contents, flag);
    let at = pax_part(entry, contents).len() as int;
    let header = member_header(entry, contents, flag);
    let devices = device_fields(entry);
    lemma_device_len(entry);
    let front = header_front(
        member_name(entry),
        (entry.mode & 0o7777u32) as nat,
        entry.uid as nat,
        entry.gid as nat,
        member_body(entry, contents).len(),
        clamped_mtime(entry),
    );
    lemma_front_len(
        member_name(entry),
        (entry.mode & 0o7777u32) as nat,
        entry.uid as nat,
        entry.gid as nat,
        member_body(entry, contents).len(),
        clamped_mtime(entry),
    );
    let back = header_back(flag, member_link(entry), devices);
    let sum = byte_sum(front + blank_checksum() + back);
    lemma_octal_len(sum, 6);
    assert(text_field(member_link(entry), 100).len() == 100);
    assert(header.len() == 512);
    lemma_member_parts(entry, contents, flag);
    assert(header.subrange(257, 265) =~= ustar());
    assert(header.subrange(329, 345) =~= devices);
    lemma_within(bytes, header, at, 257, 265);
    lemma_within(bytes, header, at, 329, 345);
    lemma_within(bytes, header, at, 329, 336);
    lemma_within(bytes, header, at, 337, 344);
    if entry.kind == 4 || entry.kind == 5 {
        let rdev = entry.rdev;
        let major = (rdev >> 8u64) & 0xfffu64;
        let minor = (rdev & 0xffu64) | ((rdev >> 12u64) & 0xfff00u64);
        assert(((rdev >> 8u64) & 0xfffu64) == (rdev / 0x100) % 0x1000) by (bit_vector);
        assert(((rdev & 0xffu64) | ((rdev >> 12u64) & 0xfff00u64)) == rdev % 0x100 + 0x100 * ((rdev
            / 0x10_0000) % 0x1000)) by (bit_vector);
        reveal_with_fuel(octal_span, 8);
        law_number_field_reads_back(major as nat, 8);
        law_number_field_reads_back(minor as nat, 8);
        assert(header.subrange(329, 336) =~= octal_field(major as nat, 8).drop_last());
        assert(header.subrange(337, 344) =~= octal_field(minor as nat, 8).drop_last());
    }
}

/// A time is spelled with nine decimal places.
pub proof fn law_seconds_have_nine_places(nanoseconds: int)
    ensures
        seconds_text(nanoseconds).len() >= 11,
        seconds_text(nanoseconds)[seconds_text(nanoseconds).len() - 10] == '.',
        NANOS_PER_SECOND == 1_000_000_000,
        seconds_text(nanoseconds)[0] == '-' <==> nanoseconds < 0,
{
    reveal_strlit("-");
    reveal_strlit(".");
    let magnitude = if nanoseconds < 0 {
        (-nanoseconds) as nat
    } else {
        nanoseconds as nat
    };
    let whole = magnitude / 1_000_000_000;
    let rest = magnitude % 1_000_000_000;
    law_decimal_reads_back(whole);
    law_decimal_reads_back(rest);
    lemma_padding_keeps_the_value(decimal(rest), 9);
    assert(decimal(rest).len() <= 9) by {
        lemma_decimal_grows(rest, 999_999_999);
        reveal_with_fuel(decimal, 10);
    }
    assert(is_digit(decimal(whole)[0]));
}

} // verus!
