//! The registry trust roots: PEM certificates in UTF-8 with LF line endings.

use vstd::prelude::*;
use vstd::utf8::*;

use crate::error::{invalid_field, manifest_fault, ManifestError, ManifestFault};
use crate::text::{
    byte_count, byte_len, chars_are, chars_of, control_char, is_control, lines, lines_of, pieces,
    string_of, utf8_text,
};

verus! {

/// Most bytes of a trust-root bundle.
pub const MAX_CA_BUNDLE_BYTES: usize = 16 * 1024 * 1024;

pub open spec fn bundle_refused(reason: Seq<char>) -> ManifestFault {
    invalid_field("registry_ca_bundle"@, reason)
}

/// A control character other than a line feed or a tab.
pub open spec fn is_unexpected(c: char) -> bool {
    is_control(c) && c != '\n' && c != '\t'
}

pub open spec fn is_base64_char(c: char) -> bool {
    'a' <= c <= 'z' || 'A' <= c <= 'Z' || '0' <= c <= '9' || c == '+' || c == '/' || c == '='
}

/// How many `=` end the line.
pub open spec fn padding(line: Seq<char>) -> nat
    decreases line.len(),
{
    if line.len() > 0 && line.last() == '=' {
        1 + padding(line.drop_last())
    } else {
        0
    }
}

/// A line of 4 to 128 base64 characters in groups of four, with at most two
/// padding characters and those at the end.
pub open spec fn is_pem_line(line: Seq<char>) -> bool {
    &&& 0 < byte_count(line) <= 128
    &&& byte_count(line) % 4 == 0
    &&& padding(line) <= 2
    &&& !line.take(line.len() - padding(line)).contains('=')
    &&& forall|i: int| 0 <= i < line.len() ==> is_base64_char(#[trigger] line[i])
}

/// How far a bundle has been read.
pub struct BundleState {
    pub inside: bool,
    pub encoded: bool,
    pub count: nat,
}

/// The state after one more line, or why the line is refused.
pub open spec fn bundle_step(state: BundleState, line: Seq<char>) -> Result<
    BundleState,
    ManifestFault,
> {
    if !state.inside {
        if line == "-----BEGIN CERTIFICATE-----"@ {
            Ok(BundleState { inside: true, encoded: false, ..state })
        } else if line == "-----END CERTIFICATE-----"@ {
            Err(
                bundle_refused(
                    "contains a certificate end delimiter without a begin delimiter"@,
                ),
            )
        } else {
            Ok(state)
        }
    } else if line == "-----BEGIN CERTIFICATE-----"@ {
        Err(bundle_refused("contains a nested certificate begin delimiter"@))
    } else if line == "-----END CERTIFICATE-----"@ {
        if !state.encoded {
            Err(bundle_refused("contains an empty certificate PEM block"@))
        } else {
            Ok(BundleState { inside: false, count: state.count + 1, ..state })
        }
    } else if !is_pem_line(line) {
        Err(
            bundle_refused(
                "certificate PEM body contains a non-base64 or malformed line"@,
            ),
        )
    } else {
        Ok(BundleState { encoded: true, ..state })
    }
}

/// The state after all lines.
pub open spec fn bundle_scan(all: Seq<Seq<char>>) -> Result<BundleState, ManifestFault>
    decreases all.len(),
{
    if all.len() == 0 {
        Ok(BundleState { inside: false, encoded: false, count: 0 })
    } else {
        match bundle_scan(all.drop_last()) {
            Err(fault) => Err(fault),
            Ok(state) => bundle_step(state, all.last()),
        }
    }
}

/// Why a bundle is refused, if it is.
pub open spec fn bundle_fault(bytes: Seq<u8>) -> Option<ManifestFault> {
    let text = decode_utf8(bytes);
    if !valid_utf8(bytes) {
        Some(bundle_refused("is not UTF-8 PEM"@))
    } else if exists|i: int| 0 <= i < text.len() && is_unexpected(#[trigger] text[i]) {
        Some(
            bundle_refused(
                "must use UTF-8 PEM with LF line endings and no unexpected controls"@,
            ),
        )
    } else {
        match bundle_scan(lines(text)) {
            Err(fault) => Some(fault),
            Ok(state) => if state.inside || state.count == 0 {
                Some(
                    bundle_refused(
                        "must contain one or more complete CERTIFICATE PEM blocks"@,
                    ),
                )
            } else {
                None
            },
        }
    }
}

pub fn valid_pem_base64_line(line: &str) -> (valid: bool)
    ensures
        valid == is_pem_line(line@),
{
    let bytes: usize = byte_len(line);
    if bytes == 0 || bytes > 128 || bytes % 4 != 0 {
        return false;
    }
    let chars = chars_of(line);
    let mut end: usize = chars.len();
    assert(chars@.take(end as int) =~= chars@);
    while end > 0 && chars[end - 1] == '='
        invariant
            end <= chars@.len(),
            padding(chars@) == chars@.len() - end + padding(chars@.take(end as int)),
        decreases end,
    {
        assert(chars@.take(end as int).drop_last() =~= chars@.take(end - 1));
        end -= 1;
    }
    assert(padding(chars@.take(end as int)) == 0);
    if chars.len() - end > 2 {
        return false;
    }
    let mut i: usize = 0;
    while i < chars.len()
        invariant
            i <= chars@.len(),
            end <= chars@.len(),
            chars@ == line@,
            end == chars@.len() - padding(chars@),
            forall|j: int| 0 <= j < i ==> is_base64_char(#[trigger] chars@[j]),
            forall|j: int| 0 <= j < i && j < end ==> chars@[j] != '=',
        decreases chars@.len() - i,
    {
        let c: char = chars[i];
        if i < end && c == '=' {
            assert(chars@.take(end as int)[i as int] == '=');
            return false;
        }
        let allowed = ('a' <= c && c <= 'z') || ('A' <= c && c <= 'Z') || ('0' <= c && c <= '9')
            || c == '+' || c == '/' || c == '=';
        if !allowed {
            assert(!is_base64_char(line@[i as int]));
            return false;
        }
        i += 1;
    }
    assert(!chars@.take(end as int).contains('='));
    true
}

/// A refusal of earlier lines is the refusal of the whole.
proof fn lemma_scan_prefix(all: Seq<Seq<char>>, n: int)
    requires
        0 <= n <= all.len(),
        bundle_scan(all.take(n)) is Err,
    ensures
        bundle_scan(all) == bundle_scan(all.take(n)),
    decreases all.len(),
{
    if n == all.len() {
        assert(all.take(n) =~= all);
    } else {
        assert(all.drop_last().take(n) =~= all.take(n));
        lemma_scan_prefix(all.drop_last(), n);
    }
}

/// Reads the lines of a bundle.
fn scan_bundle(all: &Vec<Vec<char>>) -> (scanned: Result<(bool, usize), ManifestError>)
    ensures
        match scanned {
            Ok((inside, count)) => bundle_scan(pieces(all@)) matches Ok(state) && state.inside
                == inside && state.count == count,
            Err(error) => bundle_scan(pieces(all@)) == Err::<BundleState, _>(error@),
        },
{
    let ghost text = pieces(all@);
    let mut inside = false;
    let mut encoded = false;
    let mut count: usize = 0;
    let mut i: usize = 0;
    assert(text.take(0) =~= Seq::<Seq<char>>::empty());
    while i < all.len()
        invariant
            i <= all@.len(),
            count <= i,
            text == pieces(all@),
            bundle_scan(text.take(i as int)) == Ok::<_, ManifestFault>(
                BundleState { inside, encoded, count: count as nat },
            ),
        decreases all@.len() - i,
    {
        let ghost next = text.take(i + 1);
        assert(next.drop_last() =~= text.take(i as int));
        assert(next.last() == all@[i as int]@);
        let line = &all[i];
        let begin = chars_are(line, "-----BEGIN CERTIFICATE-----");
        let end = chars_are(line, "-----END CERTIFICATE-----");
        proof {
            if bundle_scan(next) is Err {
                lemma_scan_prefix(text, i + 1);
            }
            assert("-----BEGIN CERTIFICATE-----"@ != "-----END CERTIFICATE-----"@) by {
                reveal_strlit("-----BEGIN CERTIFICATE-----");
                reveal_strlit("-----END CERTIFICATE-----");
                assert("-----BEGIN CERTIFICATE-----"@.len() != "-----END CERTIFICATE-----"@.len());
            }
        }
        if !inside {
            if begin {
                inside = true;
                encoded = false;
            } else if end {
                return Err(
                    ManifestError::invalid(
                        "registry_ca_bundle",
                        "contains a certificate end delimiter without a begin delimiter",
                    ),
                );
            }
        } else if begin {
            return Err(
                ManifestError::invalid(
                    "registry_ca_bundle",
                    "contains a nested certificate begin delimiter",
                ),
            );
        } else if end {
            if !encoded {
                return Err(
                    ManifestError::invalid(
                        "registry_ca_bundle",
                        "contains an empty certificate PEM block",
                    ),
                );
            }
            count += 1;
            inside = false;
        } else {
            if !valid_pem_base64_line(&string_of(line)) {
                return Err(
                    ManifestError::invalid(
                        "registry_ca_bundle",
                        "certificate PEM body contains a non-base64 or malformed line",
                    ),
                );
            }
            encoded = true;
        }
        i += 1;
    }
    assert(text.take(i as int) =~= text);
    Ok((inside, count))
}

/// Refuses a bundle that is not one or more complete PEM certificates.
pub fn validate_registry_ca_bundle(bytes: &[u8]) -> (checked: Result<(), ManifestError>)
    ensures
        manifest_fault(checked) == bundle_fault(bytes@),
{
    let text = match utf8_text(bytes) {
        Some(text) => text,
        None => {
            return Err(ManifestError::invalid("registry_ca_bundle", "is not UTF-8 PEM"));
        },
    };
    proof {
        encode_utf8_decode_utf8(text@);
    }
    let chars = chars_of(&text);
    let mut i: usize = 0;
    while i < chars.len()
        invariant
            i <= chars@.len(),
            valid_utf8(bytes@),
            chars@ == decode_utf8(bytes@),
            forall|j: int| 0 <= j < i ==> !is_unexpected(#[trigger] chars@[j]),
        decreases chars@.len() - i,
    {
        let c: char = chars[i];
        if control_char(c) && c != '\n' && c != '\t' {
            assert(is_unexpected(chars@[i as int]));
            return Err(
                ManifestError::invalid(
                    "registry_ca_bundle",
                    "must use UTF-8 PEM with LF line endings and no unexpected controls",
                ),
            );
        }
        i += 1;
    }
    match scan_bundle(&lines_of(&chars)) {
        Err(error) => Err(error),
        Ok((inside, count)) => {
            if inside || count == 0 {
                return Err(
                    ManifestError::invalid(
                        "registry_ca_bundle",
                        "must contain one or more complete CERTIFICATE PEM blocks",
                    ),
                );
            }
            Ok(())
        },
    }
}

/// How often a line occurs.
pub open spec fn occurrences(all: Seq<Seq<char>>, line: Seq<char>) -> nat
    decreases all.len(),
{
    if all.len() == 0 {
        0
    } else {
        occurrences(all.drop_last(), line) + if all.last() == line {
            1nat
        } else {
            0
        }
    }
}

/// An accepted bundle holds at least one certificate, and as many end
/// delimiters as begin delimiters.
pub proof fn law_accepted_bundle_is_complete(bytes: Seq<u8>)
    requires
        bundle_fault(bytes) is None,
    ensures
        ({
            let all = lines(decode_utf8(bytes));
            let begins = occurrences(all, "-----BEGIN CERTIFICATE-----"@);
            let ends = occurrences(all, "-----END CERTIFICATE-----"@);
            begins == ends && begins > 0
        }),
{
    lemma_delimiters(lines(decode_utf8(bytes)));
}

proof fn lemma_delimiters(all: Seq<Seq<char>>)
    requires
        bundle_scan(all) is Ok,
    ensures
        ({
            let state = bundle_scan(all)->Ok_0;
            let begins = occurrences(all, "-----BEGIN CERTIFICATE-----"@);
            let ends = occurrences(all, "-----END CERTIFICATE-----"@);
            &&& ends == state.count
            &&& begins == state.count + if state.inside {
                1nat
            } else {
                0
            }
        }),
    decreases all.len(),
{
    reveal_strlit("-----BEGIN CERTIFICATE-----");
    reveal_strlit("-----END CERTIFICATE-----");
    assert("-----BEGIN CERTIFICATE-----"@.len() != "-----END CERTIFICATE-----"@.len());
    if all.len() > 0 {
        lemma_delimiters(all.drop_last());
    }
}

/// Whether a certificate has begun and not ended before a line.
pub open spec fn is_inside(all: Seq<Seq<char>>, at: int) -> bool {
    occurrences(all.take(at), "-----BEGIN CERTIFICATE-----"@) > occurrences(
        all.take(at),
        "-----END CERTIFICATE-----"@,
    )
}

/// An accepted bundle is text with no control characters but line feeds and
/// tabs; inside a certificate stand only whole base64 lines of at most 128
/// bytes, whose only `=` are at most two at the end, and a certificate neither
/// begins inside another nor ends outside one.
pub proof fn law_accepted_certificates_are_base64(
    bytes: &[u8],
    at: int,
)
    requires
        call_ensures(validate_registry_ca_bundle, (bytes,), Ok(())),
        0 <= at < lines(decode_utf8(bytes@)).len(),
    ensures
        valid_utf8(bytes@),
        forall|i: int|
            0 <= i < decode_utf8(bytes@).len() ==> {
                let c = #[trigger] decode_utf8(bytes@)[i];
                c == '\n' || c == '\t' || !is_control(c)
            },
        ({
            let all = lines(decode_utf8(bytes@));
            let line = all[at];
            &&& line == "-----BEGIN CERTIFICATE-----"@ ==> !is_inside(all, at)
            &&& line == "-----END CERTIFICATE-----"@ ==> is_inside(all, at)
            &&& is_inside(all, at) && line != "-----END CERTIFICATE-----"@ ==> {
                &&& 0 < byte_count(line) <= 128
                &&& byte_count(line) % 4 == 0
                &&& forall|i: int|
                    0 <= i < line.len() ==> {
                        let c = #[trigger] line[i];
                        'a' <= c <= 'z' || 'A' <= c <= 'Z' || '0' <= c <= '9' || c == '+' || c
                            == '/' || (c == '=' && i >= line.len() - 2)
                    }
            }
        }),
{
    let bytes = bytes@;
    let all = lines(decode_utf8(bytes));
    let text = decode_utf8(bytes);
    assert forall|i: int| 0 <= i < text.len() implies {
        let c = #[trigger] text[i];
        c == '\n' || c == '\t' || !is_control(c)
    } by {
        assert(!is_unexpected(text[i]));
    }
    if bundle_scan(all.take(at)) is Err {
        lemma_scan_prefix(all, at);
    }
    if bundle_scan(all.take(at + 1)) is Err {
        lemma_scan_prefix(all, at + 1);
    }
    lemma_delimiters(all.take(at));
    assert(all.take(at + 1).drop_last() =~= all.take(at));
    assert(all.take(at + 1).last() == all[at]);
    reveal_strlit("-----BEGIN CERTIFICATE-----");
    reveal_strlit("-----END CERTIFICATE-----");
    assert("-----BEGIN CERTIFICATE-----"@.len() != "-----END CERTIFICATE-----"@.len());
    let state = bundle_scan(all.take(at))->Ok_0;
    let line = all[at];
    if state.inside && line != "-----END CERTIFICATE-----"@ {
        assert(is_pem_line(line));
        lemma_padding_fits(line);
        assert forall|i: int| 0 <= i < line.len() implies {
            let c = #[trigger] line[i];
            'a' <= c <= 'z' || 'A' <= c <= 'Z' || '0' <= c <= '9' || c == '+' || c == '/' || (c
                == '=' && i >= line.len() - 2)
        } by {
            assert(is_base64_char(line[i]));
            let body = line.take(line.len() - padding(line));
            if line[i] == '=' && i < body.len() {
                assert(body[i] == '=');
            }
        }
    }
}

proof fn lemma_padding_fits(line: Seq<char>)
    ensures
        padding(line) <= line.len(),
    decreases line.len(),
{
    if line.len() > 0 && line.last() == '=' {
        lemma_padding_fits(line.drop_last());
    }
}

/// A line of a certificate is 4 to 128 base64 characters in groups of four, of
/// which the last two at most are padding.
pub proof fn law_certificate_line_is_base64(line: &str, valid: bool)
    requires
        call_ensures(valid_pem_base64_line, (line,), valid),
    ensures
        valid <==> {
            &&& 0 < byte_count(line@) <= 128
            &&& byte_count(line@) % 4 == 0
            &&& exists|end: int|
                line@.len() - 2 <= end <= line@.len() && 0 <= end && #[trigger] is_padded_from(
                    line@,
                    end,
                )
        },
{
    lemma_padding(line@);
    let end = line@.len() - padding(line@);
    if valid {
        assert forall|i: int| 0 <= i < end implies {
            let c = #[trigger] line@[i];
            'a' <= c <= 'z' || 'A' <= c <= 'Z' || '0' <= c <= '9' || c == '+' || c == '/'
        } by {
            assert(is_base64_char(line@[i]));
            if line@[i] == '=' {
                assert(line@.take(end)[i] == '=');
                assert(line@.take(end).contains('='));
            }
        }
        assert(is_padded_from(line@, end));
    }
    if exists|end: int|
        line@.len() - 2 <= end <= line@.len() && 0 <= end && #[trigger] is_padded_from(
            line@,
            end,
        ) {
        let from = choose|end: int|
            line@.len() - 2 <= end <= line@.len() && 0 <= end && #[trigger] is_padded_from(
                line@,
                end,
            );
        if from > end {
            assert(line@[end] == '=');
        }
        if from < end {
            assert(line@[end - 1] == '=');
        }
        assert(from == end);
        if line@.take(end).contains('=') {
            let k = line@.take(end).index_of('=');
            assert(line@[k] == '=');
        }
        assert forall|i: int| 0 <= i < line@.len() implies is_base64_char(#[trigger] line@[i]) by {
            if i < end {
                let c = line@[i];
                assert('a' <= c <= 'z' || 'A' <= c <= 'Z' || '0' <= c <= '9' || c == '+' || c
                    == '/');
            }
        }
    }
}

/// Whether a line is base64 up to a place and padding from there on.
pub open spec fn is_padded_from(line: Seq<char>, end: int) -> bool {
    &&& forall|i: int|
        0 <= i < end ==> {
            let c = #[trigger] line[i];
            'a' <= c <= 'z' || 'A' <= c <= 'Z' || '0' <= c <= '9' || c == '+' || c == '/'
        }
    &&& forall|i: int| end <= i < line.len() ==> #[trigger] line[i] == '='
}

proof fn lemma_padding(line: Seq<char>)
    ensures
        padding(line) <= line.len(),
        forall|i: int| line.len() - padding(line) <= i < line.len() ==> #[trigger] line[i] == '=',
        padding(line) < line.len() ==> line[line.len() - padding(line) - 1] != '=',
    decreases line.len(),
{
    if line.len() > 0 && line.last() == '=' {
        let front = line.drop_last();
        lemma_padding(front);
        assert forall|i: int| line.len() - padding(line) <= i < line.len() implies #[trigger] line[i]
            == '=' by {
            if i < front.len() {
                assert(front[i] == line[i]);
            }
        }
        if padding(line) < line.len() {
            assert(front[front.len() - padding(front) - 1] == line[line.len() - padding(line) - 1]);
        }
    }
}

/// One more complete certificate is accepted behind any that were, and counted.
pub proof fn law_one_more_certificate_is_accepted(
    before: Seq<Seq<char>>,
    body: Seq<Seq<char>>,
)
    requires
        bundle_scan(before) matches Ok(state) && !state.inside,
        body.len() > 0,
        forall|i: int|
            0 <= i < body.len() ==> is_pem_line(#[trigger] body[i]) && body[i]
                != "-----BEGIN CERTIFICATE-----"@ && body[i] != "-----END CERTIFICATE-----"@,
    ensures
        ({
            let all = before.push("-----BEGIN CERTIFICATE-----"@) + body;
            bundle_scan(all.push("-----END CERTIFICATE-----"@)) matches Ok(state) && !state.inside
                && state.count == bundle_scan(before)->Ok_0.count + 1
        }),
{
    let opened = before.push("-----BEGIN CERTIFICATE-----"@);
    let all = opened + body;
    lemma_body_is_read(before, body);
    assert(all.push("-----END CERTIFICATE-----"@).drop_last() =~= all);
    reveal_strlit("-----BEGIN CERTIFICATE-----");
    reveal_strlit("-----END CERTIFICATE-----");
    assert("-----BEGIN CERTIFICATE-----"@.len() != "-----END CERTIFICATE-----"@.len());
}

proof fn lemma_body_is_read(before: Seq<Seq<char>>, body: Seq<Seq<char>>)
    requires
        bundle_scan(before) matches Ok(state) && !state.inside,
        forall|i: int|
            0 <= i < body.len() ==> is_pem_line(#[trigger] body[i]) && body[i]
                != "-----BEGIN CERTIFICATE-----"@ && body[i] != "-----END CERTIFICATE-----"@,
    ensures
        bundle_scan(before.push("-----BEGIN CERTIFICATE-----"@) + body) matches Ok(state)
            && state.inside && state.encoded == (body.len() > 0) && state.count == bundle_scan(
            before,
        )->Ok_0.count,
    decreases body.len(),
{
    let opened = before.push("-----BEGIN CERTIFICATE-----"@);
    assert(opened.drop_last() =~= before);
    if body.len() > 0 {
        let front = body.drop_last();
        assert forall|i: int| 0 <= i < front.len() implies is_pem_line(#[trigger] front[i])
            && front[i] != "-----BEGIN CERTIFICATE-----"@ && front[i]
            != "-----END CERTIFICATE-----"@ by {
            assert(front[i] == body[i]);
        }
        lemma_body_is_read(before, front);
        assert((opened + body).drop_last() =~= opened + front);
        assert(body[body.len() - 1] == body.last());
    } else {
        assert(opened + body =~= opened);
    }
}

/// A bundle is accepted exactly where it is plain text whose lines close every
/// certificate that they open, and at least one.
pub proof fn law_bundle_closes_what_it_opens(bytes: &[u8], checked: Result<(), ManifestError>)
    requires
        call_ensures(validate_registry_ca_bundle, (bytes,), checked),
    ensures
        checked is Ok <==> {
            &&& valid_utf8(bytes@)
            &&& forall|i: int|
                0 <= i < decode_utf8(bytes@).len() ==> {
                    let c = #[trigger] decode_utf8(bytes@)[i];
                    c == '\n' || c == '\t' || !is_control(c)
                }
            &&& bundle_scan(lines(decode_utf8(bytes@))) matches Ok(state) && !state.inside
                && state.count > 0
        },
{
    let text = decode_utf8(bytes@);
    if exists|i: int| 0 <= i < text.len() && is_unexpected(#[trigger] text[i]) {
        let i = choose|i: int| 0 <= i < text.len() && is_unexpected(#[trigger] text[i]);
        let c = text[i];
        assert(!(c == '\n' || c == '\t' || !is_control(c)));
    } else {
        assert forall|i: int| 0 <= i < text.len() implies {
            let c = #[trigger] text[i];
            c == '\n' || c == '\t' || !is_control(c)
        } by {
            assert(!is_unexpected(text[i]));
        }
    }
}

} // verus!
