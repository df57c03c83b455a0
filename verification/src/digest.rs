//! SHA-256 digests and their hexadecimal spellings.

use sha2::Digest as _;
use vstd::prelude::*;
use vstd::string::*;
use vstd::utf8::*;

use crate::error::{ManifestError, ManifestFault};
use crate::text::{chars_between, chars_of, has_prefix, join, starts_with, string_of};

verus! {

/// The SHA-256 digest of the bytes.
pub uninterp spec fn sha256_of(bytes: Seq<u8>) -> Seq<u8>;

/// Calls `Sha256::digest` of the `sha2` crate. The digest is a function of the
/// bytes alone, here called `sha256_of`, and takes 32 bytes.
#[verifier::external_body]
pub(crate) fn sha256(bytes: &[u8]) -> (digest: [u8; 32])
    ensures
        digest@ == sha256_of(bytes@),
{
    sha2::Sha256::digest(bytes).into()
}

/// A SHA-256 digest in the making: the hasher of the `sha2` crate.
#[verifier::external_body]
pub struct StreamDigest {
    inner: sha2::Sha256,
}

/// The bytes that a digest in the making has taken, in their order.
pub uninterp spec fn absorbed(stream: StreamDigest) -> Seq<u8>;

impl StreamDigest {
    /// Calls `Sha256::new`, which has taken no bytes.
    #[verifier::external_body]
    pub(crate) fn new() -> (stream: StreamDigest)
        ensures
            absorbed(stream) == Seq::<u8>::empty(),
    {
        StreamDigest { inner: sha2::Sha256::new() }
    }

    /// Calls `Sha256::update`, which takes the bytes behind those it has.
    #[verifier::external_body]
    pub(crate) fn update(&mut self, chunk: &[u8])
        ensures
            absorbed(*final(self)) == absorbed(*old(self)) + chunk@,
    {
        self.inner.update(chunk);
    }

    /// Calls `Sha256::finalize`: the digest of all bytes that were taken is the
    /// one that they have when they are hashed at once.
    #[verifier::external_body]
    pub(crate) fn finalize(self) -> (digest: [u8; 32])
        ensures
            digest@ == sha256_of(absorbed(self)),
    {
        self.inner.finalize().into()
    }
}

/// The digest and the size of a file that is read piece by piece.
pub struct FileDigest {
    stream: StreamDigest,
    size: u64,
}

impl FileDigest {
    #[verifier::type_invariant]
    closed spec fn counted(self) -> bool {
        self.size == absorbed(self.stream).len()
    }

    /// What has been read so far.
    pub closed spec fn bytes(self) -> Seq<u8> {
        absorbed(self.stream)
    }

    pub fn new() -> (file: FileDigest)
        ensures
            file.bytes() == Seq::<u8>::empty(),
    {
        FileDigest { stream: StreamDigest::new(), size: 0 }
    }

    /// Takes the next piece, unless the size would no longer fit: `false` says
    /// that it was not taken.
    pub fn accept(&mut self, chunk: &[u8]) -> (counted: bool)
        ensures
            counted == (old(self).bytes().len() + chunk@.len() <= u64::MAX),
            final(self).bytes() == if counted {
                old(self).bytes() + chunk@
            } else {
                old(self).bytes()
            },
    {
        proof {
            use_type_invariant(&*self);
        }
        let size: u64 = match self.size.checked_add(chunk.len() as u64) {
            Some(size) => size,
            None => {
                return false;
            },
        };
        let mut taken = FileDigest::new();
        std::mem::swap(&mut taken, self);
        let mut stream = taken.stream;
        stream.update(chunk);
        *self = FileDigest { stream, size };
        true
    }

    /// The digest and the size of all that was read.
    pub fn finish(self) -> (found: (ArtifactDigest, u64))
        ensures
            found.0@ == sha256_of(self.bytes()),
            found.1 == self.bytes().len(),
    {
        proof {
            use_type_invariant(&self);
        }
        (ArtifactDigest(self.stream.finalize()), self.size)
    }
}

/// The lower-case hexadecimal digit of a value below 16.
pub open spec fn hex_digit(value: u8) -> char {
    if value < 10 {
        ('0' as u8 + value) as char
    } else {
        ('a' as u8 + (value - 10)) as char
    }
}

/// Two lower-case hexadecimal digits for each byte, the high one first.
pub open spec fn hex_of(bytes: Seq<u8>) -> Seq<char> {
    Seq::new(
        2 * bytes.len(),
        |i: int|
            if i % 2 == 0 {
                hex_digit(bytes[i / 2] / 16)
            } else {
                hex_digit(bytes[i / 2] % 16)
            },
    )
}

/// Calls `hex::encode`, which spells each byte as two lower-case digits.
#[verifier::external_body]
pub(crate) fn hex_text(bytes: &[u8]) -> (text: String)
    requires
        2 * bytes@.len() <= isize::MAX,
    ensures
        text@ == hex_of(bytes@),
{
    hex::encode(bytes)
}

/// The value of a hexadecimal digit in either case.
pub open spec fn hex_value(c: u8) -> Option<u8> {
    if '0' as u8 <= c <= '9' as u8 {
        Some((c - '0' as u8) as u8)
    } else if 'a' as u8 <= c <= 'f' as u8 {
        Some((c - 'a' as u8 + 10) as u8)
    } else if 'A' as u8 <= c <= 'F' as u8 {
        Some((c - 'A' as u8 + 10) as u8)
    } else {
        None
    }
}

/// Whether the bytes are an even number of hexadecimal digits.
pub open spec fn is_hex(digits: Seq<u8>) -> bool {
    digits.len() % 2 == 0 && forall|i: int|
        0 <= i < digits.len() ==> hex_value(#[trigger] digits[i]) is Some
}

/// The bytes that pairs of hexadecimal digits spell.
pub open spec fn unhex(digits: Seq<u8>) -> Seq<u8> {
    Seq::new(
        digits.len() / 2,
        |i: int|
            (hex_value(digits[2 * i]).unwrap() * 16 + hex_value(digits[2 * i + 1]).unwrap()) as u8,
    )
}

/// What `hex::decode` reports of text that spells no bytes.
#[verifier::external_type_specification]
#[verifier::external_body]
pub struct ExFromHexError(hex::FromHexError);

/// Calls `hex::decode`, which reads pairs of digits in either case and refuses
/// an odd count or any other character. Which refusal it gives is not stated.
#[verifier::external_body]
pub(crate) fn hex_bytes(text: &str) -> (bytes: Result<Vec<u8>, hex::FromHexError>)
    ensures
        match bytes {
            Ok(bytes) => is_hex(encode_utf8(text@)) && bytes@ == unhex(encode_utf8(text@)),
            Err(_) => !is_hex(encode_utf8(text@)),
        },
{
    hex::decode(text)
}

/// The text of a digest: `sha256:` and 64 lower-case digits.
pub open spec fn digest_text(bytes: Seq<u8>) -> Seq<char> {
    "sha256:"@ + hex_of(bytes)
}

pub open spec fn is_lower_hex_char(c: char) -> bool {
    '0' <= c <= '9' || 'a' <= c <= 'f'
}

pub open spec fn is_lower_hex(text: Seq<char>) -> bool {
    forall|i: int| 0 <= i < text.len() ==> is_lower_hex_char(#[trigger] text[i])
}

/// Whether the text spells a digest.
pub open spec fn is_digest_text(text: Seq<char>) -> bool {
    starts_with(text, "sha256:"@) && text.len() == "sha256:"@.len() + 64 && is_lower_hex(
        text.skip("sha256:"@.len() as int),
    )
}

/// Whether every character is a lower-case hexadecimal digit.
pub fn all_lower_hex(chars: &[char]) -> (all: bool)
    ensures
        all == is_lower_hex(chars@),
{
    let mut i: usize = 0;
    while i < chars.len()
        invariant
            i <= chars@.len(),
            forall|j: int| 0 <= j < i ==> is_lower_hex_char(#[trigger] chars@[j]),
        decreases chars@.len() - i,
    {
        let c: char = chars[i];
        if !(('0' <= c && c <= '9') || ('a' <= c && c <= 'f')) {
            assert(!is_lower_hex_char(chars@[i as int]));
            return false;
        }
        i += 1;
    }
    true
}

/// Reads 64 lower-case digits as 32 bytes.
fn decode_digest(encoded: &[char]) -> (bytes: Option<[u8; 32]>)
    requires
        encoded@.len() == 64,
        is_lower_hex(encoded@),
    ensures
        bytes is Some,
        hex_of(bytes.unwrap()@) == encoded@,
{
    let text = string_of(encoded);
    let ghost digits = encode_utf8(text@);
    proof {
        assert(is_ascii_chars(encoded@)) by {
            assert forall|i: int| 0 <= i < encoded@.len() implies '\0' <= #[trigger] encoded@[i]
                <= '\u{7f}' by {
                assert(is_lower_hex_char(encoded@[i]));
            }
        }
        is_ascii_chars_encode_utf8(text@);
        assert forall|i: int| 0 <= i < digits.len() implies hex_value(#[trigger] digits[i])
            is Some by {
            assert(is_lower_hex_char(encoded@[i]));
            assert(digits[i] == encoded@[i] as u8);
        }
    }
    match hex_bytes(&text) {
        Err(_) => None,
        Ok(decoded) => {
            let mut bytes: [u8; 32] = [0u8;32];
            let mut i: usize = 0;
            while i < 32
                invariant
                    i <= 32,
                    decoded@.len() == 32,
                    forall|j: int| 0 <= j < i ==> bytes@[j] == decoded@[j],
                decreases 32 - i,
            {
                bytes[i] = decoded[i];
                i += 1;
            }
            proof {
                assert(bytes@ =~= decoded@);
                assert forall|i: int| 0 <= i < 64 implies #[trigger] hex_of(bytes@)[i]
                    == encoded@[i] by {
                    let k = i / 2;
                    assert(is_lower_hex_char(encoded@[2 * k]));
                    assert(is_lower_hex_char(encoded@[2 * k + 1]));
                    assert(digits[2 * k] == encoded@[2 * k] as u8);
                    assert(digits[2 * k + 1] == encoded@[2 * k + 1] as u8);
                }
                assert(hex_of(bytes@) =~= encoded@);
            }
            Some(bytes)
        },
    }
}

/// Reads a digest's text, reporting a refusal under the given name.
fn parse_digest(name: &'static str, value: &str) -> (bytes: Result<[u8; 32], ManifestError>)
    ensures
        match bytes {
            Ok(bytes) => is_digest_text(value@) && digest_text(bytes@) == value@,
            Err(error) => !is_digest_text(value@) && error@ == (ManifestFault::InvalidField {
                field: name@,
                reason: "expected sha256:<64 lowercase hexadecimal characters>"@,
            }),
        },
{
    let chars = chars_of(value);
    let prefix = chars_of("sha256:");
    if has_prefix(&chars, &prefix) {
        let encoded = chars_between(&chars, prefix.len(), chars.len());
        assert(encoded@ =~= value@.skip("sha256:"@.len() as int));
        if encoded.len() == 64 && all_lower_hex(&encoded) {
            if let Some(bytes) = decode_digest(&encoded) {
                assert(value@ =~= "sha256:"@ + encoded@);
                return Ok(bytes);
            }
        }
    }
    Err(ManifestError::invalid(name, "expected sha256:<64 lowercase hexadecimal characters>"))
}

/// The SHA-256 digest of a profile artifact.
#[derive(Debug, Clone, Copy, PartialEq, Eq)]
pub struct ArtifactDigest([u8; 32]);

impl View for ArtifactDigest {
    type V = Seq<u8>;

    closed spec fn view(&self) -> Seq<u8> {
        self.0@
    }
}

impl ArtifactDigest {
    pub fn from_bytes(bytes: [u8; 32]) -> (digest: ArtifactDigest)
        ensures
            digest@ == bytes@,
    {
        ArtifactDigest(bytes)
    }

    pub fn as_bytes(self) -> (bytes: [u8; 32])
        ensures
            bytes@ == self@,
    {
        self.0
    }

    /// 64 lower-case digits.
    pub fn hexadecimal(self) -> (text: String)
        ensures
            text@ == hex_of(self@),
    {
        hex_text(&self.0)
    }

    /// `sha256:` and 64 lower-case digits.
    pub fn to_text(self) -> (text: String)
        ensures
            text@ == digest_text(self@),
    {
        join("sha256:", &hex_text(&self.0))
    }

    /// Reads the text that `to_text` writes, and nothing else.
    pub fn parse(value: &str) -> (digest: Result<ArtifactDigest, ManifestError>)
        ensures
            match digest {
                Ok(digest) => is_digest_text(value@) && digest_text(digest@) == value@,
                Err(error) => !is_digest_text(value@) && error@ == (ManifestFault::InvalidField {
                    field: "ArtifactDigest"@,
                    reason: "expected sha256:<64 lowercase hexadecimal characters>"@,
                }),
            },
    {
        match parse_digest("ArtifactDigest", value) {
            Ok(bytes) => Ok(ArtifactDigest(bytes)),
            Err(error) => Err(error),
        }
    }

    /// The digest of the bytes.
    pub fn of_bytes(bytes: &[u8]) -> (digest: ArtifactDigest)
        ensures
            digest@ == sha256_of(bytes@),
    {
        ArtifactDigest(sha256(bytes))
    }

    pub fn same(self, other: ArtifactDigest) -> (same: bool)
        ensures
            same == (self@ == other@),
    {
        same_bytes(&self.0, &other.0)
    }
}

/// A digest has 32 bytes, and its text names it.
pub proof fn lemma_digest_text_names_it(left: ArtifactDigest, right: ArtifactDigest)
    ensures
        left@.len() == 32,
        is_digest_text(digest_text(left@)),
        digest_text(left@) == digest_text(right@) ==> left@ == right@,
{
    law_digest_text_round_trips(left@, right@);
}

/// The identity of one profile manifest, without its revision field.
#[derive(Debug, Clone, Copy, PartialEq, Eq)]
pub struct ProfileRevision([u8; 32]);

impl View for ProfileRevision {
    type V = Seq<u8>;

    closed spec fn view(&self) -> Seq<u8> {
        self.0@
    }
}

impl ProfileRevision {
    pub fn from_bytes(bytes: [u8; 32]) -> (revision: ProfileRevision)
        ensures
            revision@ == bytes@,
    {
        ProfileRevision(bytes)
    }

    pub fn as_bytes(self) -> (bytes: [u8; 32])
        ensures
            bytes@ == self@,
    {
        self.0
    }

    /// 64 lower-case digits.
    pub fn hexadecimal(self) -> (text: String)
        ensures
            text@ == hex_of(self@),
    {
        hex_text(&self.0)
    }

    /// `sha256:` and 64 lower-case digits.
    pub fn to_text(self) -> (text: String)
        ensures
            text@ == digest_text(self@),
    {
        join("sha256:", &hex_text(&self.0))
    }

    /// Reads the text that `to_text` writes, and nothing else.
    pub fn parse(value: &str) -> (revision: Result<ProfileRevision, ManifestError>)
        ensures
            match revision {
                Ok(revision) => is_digest_text(value@) && digest_text(revision@) == value@,
                Err(error) => !is_digest_text(value@) && error@ == (ManifestFault::InvalidField {
                    field: "ProfileRevision"@,
                    reason: "expected sha256:<64 lowercase hexadecimal characters>"@,
                }),
            },
    {
        match parse_digest("ProfileRevision", value) {
            Ok(bytes) => Ok(ProfileRevision(bytes)),
            Err(error) => Err(error),
        }
    }

    pub fn same(self, other: ProfileRevision) -> (same: bool)
        ensures
            same == (self@ == other@),
    {
        same_bytes(&self.0, &other.0)
    }
}

/// Whether two byte slices are equal.
pub fn same_bytes(left: &[u8], right: &[u8]) -> (same: bool)
    ensures
        same == (left@ == right@),
{
    if left.len() != right.len() {
        return false;
    }
    let mut i: usize = 0;
    while i < left.len()
        invariant
            i <= left@.len(),
            left@.len() == right@.len(),
            forall|j: int| 0 <= j < i ==> left@[j] == right@[j],
        decreases left@.len() - i,
    {
        if left[i] != right[i] {
            return false;
        }
        i += 1;
    }
    assert(left@ =~= right@);
    true
}

/// Reading a digest's text gives the digest back: the text of 32 bytes is
/// always accepted, and no other bytes have that text.
pub proof fn law_digest_text_round_trips(bytes: Seq<u8>, other: Seq<u8>)
    requires
        bytes.len() == 32,
        other.len() == 32,
    ensures
        is_digest_text(digest_text(bytes)),
        digest_text(bytes) == digest_text(other) ==> bytes == other,
{
    let text = digest_text(bytes);
    let n = "sha256:"@.len() as int;
    assert(text.take(n) =~= "sha256:"@);
    assert(text.skip(n) =~= hex_of(bytes));
    assert forall|i: int| 0 <= i < hex_of(bytes).len() implies is_lower_hex_char(
        #[trigger] hex_of(bytes)[i],
    ) by {
        assert(bytes[i / 2] / 16 < 16);
    }
    if text == digest_text(other) {
        assert(digest_text(other).skip(n) =~= hex_of(other));
        assert forall|k: int| 0 <= k < 32 implies bytes[k] == other[k] by {
            let high = hex_of(bytes)[2 * k];
            let low = hex_of(bytes)[2 * k + 1];
            assert(hex_of(other)[2 * k] == high);
            assert(hex_of(other)[2 * k + 1] == low);
            assert((2 * k) / 2 == k && (2 * k + 1) / 2 == k);
            lemma_hex_digit_injective(bytes[k] / 16, other[k] / 16);
            lemma_hex_digit_injective(bytes[k] % 16, other[k] % 16);
        }
        assert(bytes =~= other);
    }
}

proof fn lemma_hex_digit_injective(left: u8, right: u8)
    requires
        left < 16,
        right < 16,
    ensures
        hex_digit(left) == hex_digit(right) ==> left == right,
{
}

/// A byte is written as its two hexadecimal digits, the higher one first.
pub proof fn law_hexadecimal_spells_every_byte(bytes: Seq<u8>, i: int)
    requires
        0 <= i < bytes.len(),
    ensures
        hex_of(bytes).len() == 2 * bytes.len(),
        hex_of(bytes)[2 * i] == "0123456789abcdef"@[bytes[i] as int / 16],
        hex_of(bytes)[2 * i + 1] == "0123456789abcdef"@[bytes[i] as int % 16],
{
    lemma_hex_letters((bytes[i] / 16) as u8);
    lemma_hex_letters((bytes[i] % 16) as u8);
    assert((2 * i) / 2 == i && (2 * i) % 2 == 0);
    assert((2 * i + 1) / 2 == i && (2 * i + 1) % 2 == 1);
}

proof fn lemma_hex_letters(value: u8)
    requires
        value < 16,
    ensures
        hex_digit(value) == "0123456789abcdef"@[value as int],
{
    reveal_strlit("0123456789abcdef");
    assert(value == 0 || value == 1 || value == 2 || value == 3 || value == 4 || value == 5 || value
        == 6 || value == 7 || value == 8 || value == 9 || value == 10 || value == 11 || value == 12
        || value == 13 || value == 14 || value == 15);
}

/// A digest is written as `sha256:` and 64 lower-case hexadecimal digits, and
/// nothing else is read as one.
pub proof fn law_digest_text_is_the_only_form(text: Seq<char>)
    ensures
        is_digest_text(text) <==> {
            &&& text.len() == 71
            &&& text.take(7) == "sha256:"@
            &&& forall|i: int|
                7 <= i < 71 ==> ('0' <= #[trigger] text[i] <= '9' || 'a' <= text[i] <= 'f')
        },
{
    reveal_strlit("sha256:");
    if text.len() == 71 {
        let tail = text.skip(7);
        if is_lower_hex(tail) {
            assert forall|i: int| 7 <= i < 71 implies ('0' <= #[trigger] text[i] <= '9' || 'a'
                <= text[i] <= 'f') by {
                assert(is_lower_hex_char(tail[i - 7]));
            }
        }
        if forall|i: int|
            7 <= i < 71 ==> ('0' <= #[trigger] text[i] <= '9' || 'a' <= text[i] <= 'f') {
            assert forall|i: int| 0 <= i < tail.len() implies is_lower_hex_char(
                #[trigger] tail[i],
            ) by {
                assert(tail[i] == text[i + 7]);
            }
        }
    }
}

/// A digest that was read is written again as it was, and a digest that was
/// written is read again as it was.
pub proof fn law_digest_reads_back(
    digest: ArtifactDigest,
    text: String,
    spelled: &str,
    again: ArtifactDigest,
)
    requires
        call_ensures(ArtifactDigest::to_text, (digest,), text),
        spelled@ == text@,
        call_ensures(ArtifactDigest::parse, (spelled,), Ok(again)),
    ensures
        again@ == digest@,
{
    lemma_digest_text_names_it(digest, again);
}

} // verus!
