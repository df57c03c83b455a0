//! Text as sequences of characters, and the few operations the rules need.

use vstd::prelude::*;
use vstd::string::*;
use vstd::utf8::*;

verus! {

/// Appends one character to a string, as `String::push` documents.
pub assume_specification[ String::push ](text: &mut String, c: char)
    ensures
        final(text)@ == old(text)@.push(c),
;

/// The characters of each string of a list.
pub open spec fn texts(items: Seq<String>) -> Seq<Seq<char>> {
    Seq::new(items.len(), |i: int| items[i]@)
}

/// The text of an optional string.
pub open spec fn optional_text(item: Option<String>) -> Option<Seq<char>> {
    match item {
        Some(text) => Some(text@),
        None => None,
    }
}

/// The number of bytes the text takes in UTF-8.
pub open spec fn byte_count(text: Seq<char>) -> nat {
    encode_utf8(text).len()
}

pub open spec fn is_digit(c: char) -> bool {
    '0' <= c <= '9'
}

pub open spec fn all_digits(text: Seq<char>) -> bool {
    forall|i: int| 0 <= i < text.len() ==> is_digit(#[trigger] text[i])
}

/// The number that a run of decimal digits spells.
pub open spec fn digits_value(text: Seq<char>) -> nat
    decreases text.len(),
{
    if text.len() == 0 {
        0
    } else {
        digits_value(text.drop_last()) * 10 + (text.last() as nat - '0' as nat) as nat
    }
}

pub open spec fn digit_char(digit: nat) -> char {
    ('0' as nat + digit) as char
}

/// The decimal spelling of a number, without leading zeros.
pub open spec fn decimal(value: nat) -> Seq<char>
    decreases value,
{
    if value < 10 {
        seq![digit_char(value)]
    } else {
        decimal(value / 10).push(digit_char(value % 10))
    }
}

/// The number of bytes of a string.
pub fn byte_len(text: &str) -> (len: usize)
    ensures
        len == byte_count(text@),
{
    text.as_bytes().len()
}

/// Whether two strings hold the same text.
pub fn same_text(left: &str, right: &str) -> (same: bool)
    ensures
        same == (left@ == right@),
{
    let a = left.as_bytes();
    let b = right.as_bytes();
    proof {
        encode_utf8_decode_utf8(left@);
        encode_utf8_decode_utf8(right@);
    }
    if a.len() != b.len() {
        return false;
    }
    let mut i: usize = 0;
    while i < a.len()
        invariant
            i <= a@.len(),
            a@.len() == b@.len(),
            a@ == encode_utf8(left@),
            b@ == encode_utf8(right@),
            forall|j: int| 0 <= j < i ==> a@[j] == b@[j],
        decreases a@.len() - i,
    {
        if a[i] != b[i] {
            return false;
        }
        i += 1;
    }
    assert(a@ =~= b@);
    true
}

/// The characters of a string.
pub fn chars_of(text: &str) -> (chars: Vec<char>)
    ensures
        chars@ == text@,
{
    let mut chars: Vec<char> = Vec::new();
    for c in iter: text.chars()
        invariant
            iter.seq() == text@,
            chars@ == text@.take(iter.index() as int),
    {
        chars.push(c);
    }
    chars
}

/// The string made of the given characters.
pub fn string_of(chars: &[char]) -> (text: String)
    ensures
        text@ == chars@,
{
    let mut text = String::new();
    let mut i: usize = 0;
    while i < chars.len()
        invariant
            i <= chars@.len(),
            text@ == chars@.take(i as int),
        decreases chars@.len() - i,
    {
        text.push(chars[i]);
        i += 1;
        assert(text@ =~= chars@.take(i as int));
    }
    assert(chars@.take(i as int) =~= chars@);
    text
}

/// The two texts, one after the other.
pub fn join(first: &str, second: &str) -> (text: String)
    ensures
        text@ == first@ + second@,
{
    let mut text = first.to_owned();
    text.append(second);
    text
}

/// The three texts, one after the other.
pub fn join3(first: &str, second: &str, third: &str) -> (text: String)
    ensures
        text@ == first@ + second@ + third@,
{
    let mut text = join(first, second);
    text.append(third);
    text
}

/// Spells a number in decimal.
pub fn decimal_text(value: u64) -> (text: String)
    ensures
        text@ == decimal(value as nat),
    decreases value,
{
    let last: char = (48u8 + (value % 10) as u8) as char;
    if value < 10 {
        let mut text = String::new();
        text.push(last);
        assert(text@ =~= seq![digit_char(value as nat)]);
        text
    } else {
        let mut text = decimal_text(value / 10);
        text.push(last);
        text
    }
}

/// The spelling that Rust's `Debug` gives a string: quoted, with escapes.
pub uninterp spec fn debug_spelling(text: Seq<char>) -> Seq<char>;

/// Formats a string with `{:?}`. What `<str as Debug>::fmt` writes is a
/// function of the text alone, here called `debug_spelling`.
#[verifier::external_body]
pub(crate) fn debug_text(text: &str) -> (spelling: String)
    ensures
        spelling@ == debug_spelling(text@),
{
    format!("{:?}", text)
}

/// A prefix of a digit run spells no larger a number.
pub proof fn lemma_digits_prefix(text: Seq<char>, n: int)
    requires
        0 <= n <= text.len(),
        all_digits(text),
    ensures
        digits_value(text.take(n)) <= digits_value(text),
    decreases text.len(),
{
    if n == text.len() {
        assert(text.take(n) =~= text);
    } else {
        let shorter = text.drop_last();
        assert(forall|i: int| 0 <= i < shorter.len() ==> shorter[i] == text[i]);
        lemma_digits_prefix(shorter, n);
        assert(shorter.take(n) =~= text.take(n));
        assert(is_digit(text[text.len() - 1]));
    }
}

/// Reads a run of decimal digits as a number no greater than `maximum`.
pub fn parse_digits(chars: &[char], maximum: u32) -> (value: Option<u32>)
    requires
        all_digits(chars@),
    ensures
        match value {
            Some(value) => value == digits_value(chars@) && value <= maximum,
            None => digits_value(chars@) > maximum,
        },
{
    let mut value: u64 = 0;
    let mut i: usize = 0;
    assert(chars@.take(0) =~= Seq::<char>::empty());
    while i < chars.len()
        invariant
            i <= chars@.len(),
            all_digits(chars@),
            value == digits_value(chars@.take(i as int)),
            value <= maximum,
        decreases chars@.len() - i,
    {
        assert(is_digit(chars@[i as int]));
        assert(chars@.take(i + 1).drop_last() =~= chars@.take(i as int));
        value = value * 10 + (chars[i] as u32 - 48) as u64;
        i += 1;
        if value > maximum as u64 {
            proof {
                lemma_digits_prefix(chars@, i as int);
            }
            return None;
        }
    }
    assert(chars@.take(i as int) =~= chars@);
    Some(value as u32)
}

/// Whether every character is a decimal digit.
pub fn is_all_digits(chars: &[char]) -> (digits: bool)
    ensures
        digits == all_digits(chars@),
{
    let mut i: usize = 0;
    while i < chars.len()
        invariant
            i <= chars@.len(),
            forall|j: int| 0 <= j < i ==> is_digit(#[trigger] chars@[j]),
        decreases chars@.len() - i,
    {
        if chars[i] < '0' || chars[i] > '9' {
            assert(!is_digit(chars@[i as int]));
            return false;
        }
        i += 1;
    }
    true
}

/// Whether the text holds the character.
pub fn has_char(text: &str, c: char) -> (found: bool)
    ensures
        found == text@.contains(c),
{
    position(&chars_of(text), c).is_some()
}

/// Where the character first occurs.
pub fn position(chars: &[char], c: char) -> (found: Option<usize>)
    ensures
        match found {
            Some(i) => chars@.index_of_first(c) == Some(i as int) && i < chars@.len()
                && chars@.contains(c),
            None => chars@.index_of_first(c) == None::<int> && !chars@.contains(c),
        },
{
    proof {
        chars@.index_of_first_ensures(c);
    }
    let mut i: usize = 0;
    while i < chars.len()
        invariant
            i <= chars@.len(),
            forall|j: int| 0 <= j < i ==> chars@[j] != c,
        decreases chars@.len() - i,
    {
        if chars[i] == c {
            proof {
                chars@.index_of_first_ensures(c);
                assert(chars@[i as int] == c);
            }
            return Some(i);
        }
        i += 1;
    }
    None
}

/// Whether `prefix` starts `text`.
pub open spec fn starts_with(text: Seq<char>, prefix: Seq<char>) -> bool {
    prefix.len() <= text.len() && text.take(prefix.len() as int) == prefix
}

/// Whether the characters start with the given ones.
pub fn has_prefix(chars: &[char], prefix: &[char]) -> (found: bool)
    ensures
        found == starts_with(chars@, prefix@),
{
    if prefix.len() > chars.len() {
        return false;
    }
    let mut i: usize = 0;
    while i < prefix.len()
        invariant
            i <= prefix@.len() <= chars@.len(),
            forall|j: int| 0 <= j < i ==> chars@[j] == prefix@[j],
        decreases prefix@.len() - i,
    {
        if chars[i] != prefix[i] {
            assert(chars@.take(prefix@.len() as int)[i as int] != prefix@[i as int]);
            return false;
        }
        i += 1;
    }
    assert(chars@.take(prefix@.len() as int) =~= prefix@);
    true
}

/// Whether the characters are exactly those of `text`.
pub fn chars_are(chars: &[char], text: &str) -> (same: bool)
    ensures
        same == (chars@ == text@),
{
    let other = chars_of(text);
    if chars.len() != other.len() {
        return false;
    }
    let same = has_prefix(chars, &other);
    assert(chars@.take(chars@.len() as int) =~= chars@);
    same
}

/// A copy of the characters from `from` up to `to`.
pub fn chars_between(chars: &[char], from: usize, to: usize) -> (part: Vec<char>)
    requires
        from <= to <= chars@.len(),
    ensures
        part@ == chars@.subrange(from as int, to as int),
{
    let mut part: Vec<char> = Vec::new();
    let mut i: usize = from;
    while i < to
        invariant
            from <= i <= to <= chars@.len(),
            part@ == chars@.subrange(from as int, i as int),
        decreases to - i,
    {
        part.push(chars[i]);
        i += 1;
        assert(part@ =~= chars@.subrange(from as int, i as int));
    }
    part
}

/// A copy of a list of strings.
pub fn copy_texts(items: &Vec<String>) -> (copy: Vec<String>)
    ensures
        texts(copy@) == texts(items@),
{
    let mut copy: Vec<String> = Vec::new();
    let mut i: usize = 0;
    while i < items.len()
        invariant
            i <= items@.len(),
            texts(copy@) == texts(items@).take(i as int),
        decreases items@.len() - i,
    {
        push_text(&mut copy, &items[i]);
        i += 1;
        assert(texts(copy@) =~= texts(items@).take(i as int));
    }
    assert(texts(items@).take(i as int) =~= texts(items@));
    copy
}

/// Appends a string to a list.
pub fn push_text(items: &mut Vec<String>, text: &str)
    ensures
        texts(final(items)@) == texts(old(items)@).push(text@),
{
    let ghost before = items@;
    items.push(text.to_owned());
    assert(texts(items@) =~= texts(before).push(text@));
}

/// Appends every string of one list to another.
pub fn extend_texts(items: &mut Vec<String>, more: &Vec<String>)
    ensures
        texts(final(items)@) == texts(old(items)@) + texts(more@),
{
    let ghost before = texts(items@);
    let mut i: usize = 0;
    assert(before + texts(more@).take(0) =~= before);
    while i < more.len()
        invariant
            i <= more@.len(),
            texts(items@) == before + texts(more@).take(i as int),
        decreases more@.len() - i,
    {
        push_text(items, &more[i]);
        i += 1;
        assert(texts(items@) =~= before + texts(more@).take(i as int));
    }
    assert(texts(more@).take(i as int) =~= texts(more@));
}

/// The pieces between separators; a text without one is a single piece.
pub open spec fn split(text: Seq<char>, separator: char) -> Seq<Seq<char>>
    decreases text.len(),
{
    if text.contains(separator) {
        proof {
            text.index_of_first_ensures(separator);
        }
        let at = text.index_of_first(separator).unwrap();
        seq![text.take(at)] + split(text.skip(at + 1), separator)
    } else {
        seq![text]
    }
}

/// The pieces of a list of character lists.
pub open spec fn pieces(parts: Seq<Vec<char>>) -> Seq<Seq<char>> {
    Seq::new(parts.len(), |i: int| parts[i]@)
}

/// Splits the characters at every separator.
pub fn split_on(chars: &[char], separator: char) -> (parts: Vec<Vec<char>>)
    ensures
        pieces(parts@) == split(chars@, separator),
        parts@.len() >= 1,
{
    let mut parts: Vec<Vec<char>> = Vec::new();
    let mut start: usize = 0;
    let ghost whole = split(chars@, separator);
    assert(chars@.skip(0) =~= chars@);
    assert(pieces(parts@) + split(chars@.skip(0), separator) =~= whole);
    loop
        invariant
            start <= chars@.len(),
            whole == split(chars@, separator),
            pieces(parts@) + split(chars@.skip(start as int), separator) == whole,
        decreases chars@.len() - start,
    {
        let ghost rest = chars@.skip(start as int);
        proof {
            rest.index_of_first_ensures(separator);
        }
        let mut end: usize = start;
        while end < chars.len() && chars[end] != separator
            invariant
                start <= end <= chars@.len(),
                rest == chars@.skip(start as int),
                forall|j: int| 0 <= j < end - start ==> rest[j] != separator,
            decreases chars@.len() - end,
        {
            assert(rest[end - start] == chars@[end as int]);
            end += 1;
        }
        let ghost before = pieces(parts@);
        let part = chars_between(chars, start, end);
        assert(part@ =~= rest.take(end - start));
        parts.push(part);
        assert(pieces(parts@) =~= before.push(rest.take(end - start)));
        if end == chars.len() {
            assert(!rest.contains(separator));
            assert(rest.take(end - start) =~= rest);
            assert(pieces(parts@) =~= whole);
            return parts;
        }
        proof {
            assert(rest[end - start] == separator);
            assert(rest.contains(separator));
            rest.index_of_first_ensures(separator);
            assert(rest.index_of_first(separator) == Some(end - start));
            assert(rest.skip(end - start + 1) =~= chars@.skip(end + 1));
            assert(split(rest, separator) == seq![rest.take(end - start)] + split(
                chars@.skip(end + 1),
                separator,
            ));
            assert(before + split(rest, separator) == whole);
            assert(pieces(parts@) + split(chars@.skip(end + 1), separator) =~= whole);
        }
        start = end + 1;
    }
}

/// One line without its line feed, when it had one, and without the carriage
/// return in front of that.
pub open spec fn without_return(line: Seq<char>) -> Seq<char> {
    if line.len() > 0 && line.last() == '\r' {
        line.drop_last()
    } else {
        line
    }
}

/// The lines of a text. A line ends with a line feed, or a carriage return and
/// a line feed; the last line needs no ending.
pub open spec fn lines(text: Seq<char>) -> Seq<Seq<char>> {
    let parts = split(text, '\n');
    let complete = Seq::new(
        (parts.len() - 1) as nat,
        |i: int| without_return(parts[i]),
    );
    if parts.last().len() == 0 {
        complete
    } else {
        complete.push(parts.last())
    }
}

/// The lines of the characters.
pub fn lines_of(chars: &[char]) -> (result: Vec<Vec<char>>)
    ensures
        pieces(result@) == lines(chars@),
{
    let parts = split_on(chars, '\n');
    let mut result: Vec<Vec<char>> = Vec::new();
    let mut i: usize = 0;
    let last = parts.len() - 1;
    let ghost all = split(chars@, '\n');
    assert(pieces(parts@).len() == parts@.len());
    while i < last
        invariant
            i <= last,
            last == parts@.len() - 1,
            all == pieces(parts@),
            all == split(chars@, '\n'),
            pieces(result@) =~= Seq::new(i as nat, |j: int| without_return(all[j])),
        decreases last - i,
    {
        let line = &parts[i];
        let ghost before = pieces(result@);
        assert(all[i as int] == line@);
        let mut end: usize = line.len();
        if end > 0 && line[end - 1] == '\r' {
            end = end - 1;
            assert(line@.subrange(0, end as int) =~= line@.drop_last());
        } else {
            assert(line@.subrange(0, end as int) =~= line@);
        }
        result.push(chars_between(line, 0, end));
        assert(pieces(result@) =~= before.push(without_return(all[i as int])));
        i += 1;
    }
    let ghost before = pieces(result@);
    assert(before =~= Seq::new((all.len() - 1) as nat, |j: int| without_return(all[j])));
    assert(all.last() == parts@[last as int]@);
    if parts[last].len() > 0 {
        let line = &parts[last];
        assert(line@.subrange(0, line@.len() as int) =~= line@);
        result.push(chars_between(line, 0, line.len()));
        assert(pieces(result@) =~= before.push(all.last()));
    }
    result
}

/// A control character of Unicode: U+0000 to U+001F and U+007F to U+009F.
pub open spec fn is_control(c: char) -> bool {
    c <= '\u{1f}' || '\u{7f}' <= c <= '\u{9f}'
}

/// A white space character of Unicode.
pub open spec fn is_whitespace(c: char) -> bool {
    '\u{9}' <= c <= '\u{d}' || c == '\u{20}' || c == '\u{85}' || c == '\u{a0}' || c == '\u{1680}'
        || '\u{2000}' <= c <= '\u{200a}' || c == '\u{2028}' || c == '\u{2029}' || c == '\u{202f}' || c
        == '\u{205f}' || c == '\u{3000}'
}

pub fn control_char(c: char) -> (control: bool)
    ensures
        control == is_control(c),
{
    c <= '\u{1f}' || ('\u{7f}' <= c && c <= '\u{9f}')
}

pub fn whitespace_char(c: char) -> (space: bool)
    ensures
        space == is_whitespace(c),
{
    ('\u{9}' <= c && c <= '\u{d}') || c == '\u{20}' || c == '\u{85}' || c == '\u{a0}' || c
        == '\u{1680}' || ('\u{2000}' <= c && c <= '\u{200a}') || c == '\u{2028}' || c == '\u{2029}'
        || c == '\u{202f}' || c == '\u{205f}' || c == '\u{3000}'
}

/// Calls `std::str::from_utf8`, which accepts exactly the valid UTF-8 byte
/// sequences and gives the text that they encode.
#[verifier::external_body]
pub(crate) fn utf8_text(bytes: &[u8]) -> (text: Option<String>)
    ensures
        match text {
            Some(text) => valid_utf8(bytes@) && encode_utf8(text@) == bytes@,
            None => !valid_utf8(bytes@),
        },
{
    match std::str::from_utf8(bytes) {
        Ok(text) => Some(text.to_owned()),
        Err(_) => None,
    }
}

/// The text that bytes stand for when whatever is no UTF-8 is replaced.
pub uninterp spec fn lossy_spelling(bytes: Seq<u8>) -> Seq<char>;

/// Calls `String::from_utf8_lossy`. The text is a function of the bytes alone,
/// here called `lossy_spelling`; valid UTF-8 is read as it is. What replaces
/// invalid bytes is not stated.
#[verifier::external_body]
pub(crate) fn lossy_text(bytes: &[u8]) -> (text: String)
    ensures
        text@ == lossy_spelling(bytes@),
        valid_utf8(bytes@) ==> encode_utf8(text@) == bytes@,
{
    String::from_utf8_lossy(bytes).into_owned()
}

/// How a character is spelled when a diagnostic escapes it.
pub uninterp spec fn escaped_spelling(c: char) -> Seq<char>;

/// Calls `char::escape_debug`. What it spells is a function of the character
/// alone, here called `escaped_spelling`.
#[verifier::external_body]
pub(crate) fn escaped_char(c: char) -> (text: String)
    ensures
        text@ == escaped_spelling(c),
{
    c.escape_debug().to_string()
}

/// Each character escaped.
pub open spec fn escaped(text: Seq<char>) -> Seq<char>
    decreases text.len(),
{
    if text.len() == 0 {
        Seq::empty()
    } else {
        escaped(text.drop_last()) + escaped_spelling(text.last())
    }
}

/// Escapes each character of a text.
pub fn escaped_text(text: &str) -> (spelled: String)
    ensures
        spelled@ == escaped(text@),
{
    let chars = chars_of(text);
    let mut spelled = String::new();
    let mut i: usize = 0;
    assert(text@.take(0) =~= Seq::<char>::empty());
    while i < chars.len()
        invariant
            i <= chars@.len(),
            chars@ == text@,
            spelled@ == escaped(text@.take(i as int)),
        decreases chars@.len() - i,
    {
        assert(text@.take(i + 1).drop_last() =~= text@.take(i as int));
        spelled.append(&escaped_char(chars[i]));
        i += 1;
    }
    assert(text@.take(i as int) =~= text@);
    spelled
}

/// An ASCII white space character: a tab, a line feed, a form feed, a carriage
/// return or a space.
pub open spec fn is_ascii_whitespace(c: char) -> bool {
    c == '\u{9}' || c == '\u{a}' || c == '\u{c}' || c == '\u{d}' || c == ' '
}

/// White space, either of ASCII alone or of all of Unicode.
pub open spec fn is_gap(c: char, ascii: bool) -> bool {
    if ascii {
        is_ascii_whitespace(c)
    } else {
        is_whitespace(c)
    }
}

fn gap_char(c: char, ascii: bool) -> (gap: bool)
    ensures
        gap == is_gap(c, ascii),
{
    if ascii {
        c == '\u{9}' || c == '\u{a}' || c == '\u{c}' || c == '\u{d}' || c == ' '
    } else {
        whitespace_char(c)
    }
}

/// The longest runs of characters that are not white space.
pub open spec fn words(text: Seq<char>, ascii: bool) -> Seq<Seq<char>>
    decreases text.len(),
{
    if text.len() == 0 {
        Seq::empty()
    } else {
        let before = words(text.drop_last(), ascii);
        if is_gap(text.last(), ascii) {
            before
        } else if text.len() == 1 || is_gap(text[text.len() - 2], ascii) {
            before.push(seq![text.last()])
        } else {
            before.drop_last().push(before.last().push(text.last()))
        }
    }
}

/// Splits the characters at white space.
pub fn words_of(chars: &[char], ascii: bool) -> (parts: Vec<Vec<char>>)
    ensures
        pieces(parts@) == words(chars@, ascii),
{
    let mut parts: Vec<Vec<char>> = Vec::new();
    let mut word: Vec<char> = Vec::new();
    let mut inside = false;
    let mut i: usize = 0;
    assert(pieces(parts@) =~= words(chars@.take(0), ascii));
    while i < chars.len()
        invariant
            i <= chars@.len(),
            inside == (i > 0 && !is_gap(chars@[i - 1], ascii)),
            inside ==> words(chars@.take(i as int), ascii) == pieces(parts@).push(word@),
            !inside ==> words(chars@.take(i as int), ascii) == pieces(parts@) && word@.len() == 0,
        decreases chars@.len() - i,
    {
        let ghost text = chars@.take(i + 1);
        let ghost before = pieces(parts@);
        assert(text.drop_last() =~= chars@.take(i as int));
        assert(text.last() == chars@[i as int]);
        assert(i > 0 ==> text[text.len() - 2] == chars@[i - 1]);
        if gap_char(chars[i], ascii) {
            if inside {
                parts.push(word);
                assert(pieces(parts@) =~= words(text, ascii));
                word = Vec::new();
            }
            inside = false;
        } else {
            let ghost shorter = word@;
            word.push(chars[i]);
            if inside {
                assert(before.push(shorter).drop_last() =~= before);
            } else {
                assert(word@ =~= seq![text.last()]);
            }
            assert(words(text, ascii) =~= before.push(word@));
            inside = true;
        }
        i += 1;
    }
    assert(chars@.take(i as int) =~= chars@);
    if inside {
        let ghost before = pieces(parts@);
        let ghost last = word@;
        parts.push(word);
        assert(pieces(parts@) =~= before.push(last));
    }
    parts
}

/// The digits of a number that may have a plus sign in front.
pub open spec fn unsigned_digits(text: Seq<char>) -> Seq<char> {
    if text.len() > 0 && text[0] == '+' {
        text.skip(1)
    } else {
        text
    }
}

/// The machine word that a text spells, if it spells one.
pub open spec fn parsed_word(text: Seq<char>) -> Option<u64> {
    let digits = unsigned_digits(text);
    if digits.len() > 0 && all_digits(digits) && digits_value(digits) <= u64::MAX {
        Some(digits_value(digits) as u64)
    } else {
        None
    }
}

/// Reads a decimal machine word.
pub fn parse_word(chars: &[char]) -> (value: Option<u64>)
    ensures
        value == parsed_word(chars@),
{
    let start: usize = if chars.len() > 0 && chars[0] == '+' {
        1
    } else {
        0
    };
    let digits = chars_between(chars, start, chars.len());
    assert(digits@ =~= unsigned_digits(chars@));
    if digits.len() == 0 || !is_all_digits(&digits) {
        return None;
    }
    let mut value: u128 = 0;
    let mut i: usize = 0;
    assert(digits@.take(0) =~= Seq::<char>::empty());
    while i < digits.len()
        invariant
            i <= digits@.len(),
            digits@ == unsigned_digits(chars@),
            digits@.len() > 0,
            all_digits(digits@),
            value == digits_value(digits@.take(i as int)),
            value <= u64::MAX,
        decreases digits@.len() - i,
    {
        assert(is_digit(digits@[i as int]));
        assert(digits@.take(i + 1).drop_last() =~= digits@.take(i as int));
        value = value * 10 + (digits[i] as u32 - 48) as u128;
        i += 1;
        if value > u64::MAX as u128 {
            proof {
                lemma_digits_prefix(digits@, i as int);
            }
            return None;
        }
    }
    assert(digits@.take(i as int) =~= digits@);
    Some(value as u64)
}

/// Whether `suffix` ends `text`.
pub open spec fn ends_with(text: Seq<char>, suffix: Seq<char>) -> bool {
    suffix.len() <= text.len() && text.skip(text.len() - suffix.len()) == suffix
}

/// Whether the characters end with the given ones.
pub fn has_suffix(chars: &[char], suffix: &[char]) -> (found: bool)
    ensures
        found == ends_with(chars@, suffix@),
{
    if suffix.len() > chars.len() {
        return false;
    }
    let start = chars.len() - suffix.len();
    let tail = chars_between(chars, start, chars.len());
    assert(tail@ =~= chars@.skip(start as int));
    let found = has_prefix(&tail, suffix);
    assert(tail@.take(suffix@.len() as int) =~= tail@);
    found
}

/// Whether two character lists are equal.
pub fn same_chars(left: &[char], right: &[char]) -> (same: bool)
    ensures
        same == (left@ == right@),
{
    if left.len() != right.len() {
        return false;
    }
    let same = has_prefix(left, right);
    assert(left@.take(left@.len() as int) =~= left@);
    same
}

/// Digits are read as a decimal number: a digit further to the left weighs ten
/// times as much.
pub proof fn law_digits_are_decimal(text: Seq<char>, i: int)
    requires
        0 <= i < text.len(),
        all_digits(text),
    ensures
        digits_value(text.subrange(i, i + 1)) == text[i] as int - 48,
        digits_value(text.take(i + 1)) == 10 * digits_value(text.take(i)) + (text[i] as int - 48),
        digits_value(Seq::<char>::empty()) == 0,
{
    let one = text.subrange(i, i + 1);
    assert(one.drop_last() =~= Seq::<char>::empty());
    reveal_with_fuel(digits_value, 2);
    assert(text.take(i + 1).drop_last() =~= text.take(i));
}

/// The pieces put together again, with a separator between any two.
pub open spec fn rejoined(parts: Seq<Seq<char>>, separator: char) -> Seq<char>
    decreases parts.len(),
{
    if parts.len() <= 1 {
        parts.flatten()
    } else {
        parts[0] + seq![separator] + rejoined(parts.skip(1), separator)
    }
}

/// Splitting loses nothing and leaves no separator in a piece.
pub proof fn law_split_loses_nothing(text: Seq<char>, separator: char)
    ensures
        split(text, separator).len() >= 1,
        rejoined(split(text, separator), separator) == text,
        forall|i: int|
            0 <= i < split(text, separator).len() ==> !(#[trigger] split(
                text,
                separator,
            )[i]).contains(separator),
    decreases text.len(),
{
    let parts = split(text, separator);
    if text.contains(separator) {
        text.index_of_first_ensures(separator);
        let at = text.index_of_first(separator).unwrap();
        let rest = split(text.skip(at + 1), separator);
        law_split_loses_nothing(text.skip(at + 1), separator);
        assert(parts.skip(1) =~= rest);
        assert(text =~= text.take(at) + seq![separator] + text.skip(at + 1));
        assert forall|i: int| 0 <= i < parts.len() implies !(#[trigger] parts[i]).contains(
            separator,
        ) by {
            if i > 0 {
                assert(parts[i] == rest[i - 1]);
            }
        }
    } else {
        assert(parts.drop_first() =~= Seq::<Seq<char>>::empty());
        reveal_with_fuel(Seq::<Seq<_>>::flatten, 2);
        assert(parts.flatten() =~= text);
    }
}

/// The characters of a text that are no gaps.
pub open spec fn without_gaps(text: Seq<char>, ascii: bool) -> Seq<char> {
    text.filter(|c: char| !is_gap(c, ascii))
}

/// Words are not empty, hold no white space, and between them hold everything
/// else in its order.
pub proof fn law_words_are_what_stands_between_gaps(text: Seq<char>, ascii: bool)
    ensures
        forall|i: int|
            0 <= i < words(text, ascii).len() ==> (#[trigger] words(text, ascii)[i]).len() > 0,
        forall|i: int, j: int|
            0 <= i < words(text, ascii).len() && 0 <= j < words(text, ascii)[i].len()
                ==> !is_gap(#[trigger] words(text, ascii)[i][j], ascii),
        words(text, ascii).flatten() == without_gaps(text, ascii),
        text.len() > 0 && !is_gap(text.last(), ascii) ==> words(text, ascii).len() > 0,
    decreases text.len(),
{
    let all = words(text, ascii);
    let kept = |c: char| !is_gap(c, ascii);
    reveal(Seq::filter);
    if text.len() == 0 {
        assert(all.flatten() =~= Seq::<char>::empty());
    } else {
        let front = text.drop_last();
        let before = words(front, ascii);
        law_words_are_what_stands_between_gaps(front, ascii);
        let last = text.last();
        if !is_gap(last, ascii) {
            if text.len() == 1 || is_gap(text[text.len() - 2], ascii) {
                lemma_flatten_push(before, seq![last]);
                assert(before.flatten() + seq![last] =~= before.flatten().push(last));
            } else {
                assert(front.last() == text[text.len() - 2]);
                let longer = before.last().push(last);
                assert(before =~= before.drop_last().push(before.last()));
                lemma_flatten_push(before.drop_last(), before.last());
                lemma_flatten_push(before.drop_last(), longer);
                assert(before.drop_last().flatten() + longer =~= (before.drop_last().flatten()
                    + before.last()).push(last));
            }
        }
    }
}

proof fn lemma_flatten_push(parts: Seq<Seq<char>>, part: Seq<char>)
    ensures
        parts.push(part).flatten() == parts.flatten() + part,
{
    parts.lemma_flatten_push(part);
}

/// A machine word is read from digits alone, with one plus sign at most, and
/// only where it fits.
pub proof fn law_machine_word_is_digits(digits: Seq<char>)
    ensures
        digits.len() > 0 && all_digits(digits) && digits_value(digits) < 0x1_0000_0000_0000_0000
            ==> parsed_word(digits) == Some(digits_value(digits) as u64) && parsed_word(
            seq!['+'] + digits,
        ) == Some(digits_value(digits) as u64),
        digits.len() == 0 || digits_value(digits) >= 0x1_0000_0000_0000_0000 || !all_digits(digits)
            ==> parsed_word(seq!['+'] + digits) is None,
        parsed_word(digits) is Some ==> digits.len() > 0 && (digits[0] == '+' || all_digits(
            digits,
        )),
{
    assert((seq!['+'] + digits).skip(1) =~= digits);
    if digits.len() > 0 && all_digits(digits) {
        assert(is_digit(digits[0]));
    }
}

/// White space and control characters, by their numbers.
pub proof fn law_character_classes(c: char)
    ensures
        is_digit(c) <==> 48 <= c as int <= 57,
        is_control(c) <==> c as int <= 31 || 127 <= c as int <= 159,
        is_ascii_whitespace(c) <==> (c as int == 9 || c as int == 10 || c as int == 12 || c as int
            == 13 || c as int == 32),
        is_whitespace(c) <==> 9 <= c as int <= 13 || c as int == 32 || c as int == 133 || c as int
            == 160 || c as int == 5760 || 8192 <= c as int <= 8202 || c as int == 8232 || c as int
            == 8233 || c as int == 8239 || c as int == 8287 || c as int == 12288,
        is_ascii_whitespace(c) ==> is_whitespace(c),
{
}

/// Lines hold no line feed, lose the carriage return before it, and a text that
/// ends in a line feed has no empty line behind it.
pub proof fn law_lines_end_at_line_feeds(text: Seq<char>, i: int)
    requires
        0 <= i < lines(text).len(),
    ensures
        !lines(text)[i].contains('\n'),
        lines(text).len() + 1 >= split(text, '\n').len() >= lines(text).len(),
        split(text, '\n')[i] == lines(text)[i] || (i + 1 < split(text, '\n').len() && split(
            text,
            '\n',
        )[i] == lines(text)[i].push('\r')),
        i + 1 < split(text, '\n').len() && split(text, '\n')[i].len() > 0 && split(
            text,
            '\n',
        )[i].last() == '\r' ==> split(text, '\n')[i] == lines(text)[i].push('\r'),
        i + 1 == split(text, '\n').len() ==> lines(text)[i].len() > 0,
{
    law_split_loses_nothing(text, '\n');
    let part = split(text, '\n')[i];
    assert(!part.contains('\n'));
    if part.len() > 0 && part.last() == '\r' {
        assert(part.drop_last().push('\r') =~= part);
        if part.drop_last().contains('\n') {
            let k = part.drop_last().index_of('\n');
            assert(part[k] == '\n');
        }
    }
}

} // verus!
