//! The `debugfs` commands that read file contents out of a base image.
//!
//! A command is one line of words. Blanks stand between the words; a word in
//! double quotes may hold blanks, and two quotes inside it stand for one. No
//! word can hold a line feed or a NUL byte.

use vstd::prelude::*;
use vstd::string::*;
use vstd::utf8::*;

use super::{exported_path, layer_path, ManifestEntry, KIND_FILE};
use crate::bytes::extend;
use crate::numeral::{
    law_decimal_reads_back, lemma_padding_keeps_the_value, pad_zeros, zero_padded,
};
use crate::path::{join_path, joined};
use crate::text::{all_digits, decimal, decimal_text, digits_value, join};

verus! {

// ---------------------------------------------------------------------------
// Words
// ---------------------------------------------------------------------------

/// Space, tab, vertical tab, form feed and carriage return.
pub open spec fn is_blank(byte: u8) -> bool {
    byte == 32 || byte == 9 || byte == 11 || byte == 12 || byte == 13
}

/// Whether a word can hold the byte at all.
pub open spec fn is_wordly(byte: u8) -> bool {
    byte != 10 && byte != 0
}

/// Whether a word can hold the byte without quotes around it.
pub open spec fn is_bare(byte: u8) -> bool {
    is_wordly(byte) && !is_blank(byte) && byte != 34
}

/// Whether bytes can be one word.
pub open spec fn is_word(bytes: Seq<u8>) -> bool {
    forall|i: int| 0 <= i < bytes.len() ==> is_wordly(#[trigger] bytes[i])
}

pub open spec fn is_bare_word(bytes: Seq<u8>) -> bool {
    bytes.len() > 0 && forall|i: int| 0 <= i < bytes.len() ==> is_bare(#[trigger] bytes[i])
}

/// The bytes with every quote doubled.
pub open spec fn doubled(bytes: Seq<u8>) -> Seq<u8>
    decreases bytes.len(),
{
    if bytes.len() == 0 {
        Seq::empty()
    } else if bytes.last() == 34 {
        doubled(bytes.drop_last()).push(34u8).push(34u8)
    } else {
        doubled(bytes.drop_last()).push(bytes.last())
    }
}

/// How a word is written: as it is, or between quotes.
pub open spec fn spelled(word: Seq<u8>) -> Seq<u8> {
    if is_bare_word(word) {
        word
    } else {
        seq![34u8] + doubled(word) + seq![34u8]
    }
}

fn wordly(byte: u8) -> (yes: bool)
    ensures
        yes == is_wordly(byte),
{
    byte != 10 && byte != 0
}

fn bare(byte: u8) -> (yes: bool)
    ensures
        yes == is_bare(byte),
{
    wordly(byte) && byte != 32 && byte != 9 && byte != 11 && byte != 12 && byte != 13 && byte != 34
}

fn is_one_word(bytes: &[u8]) -> (yes: bool)
    ensures
        yes == is_word(bytes@),
{
    let mut i: usize = 0;
    while i < bytes.len()
        invariant
            i <= bytes@.len(),
            forall|j: int| 0 <= j < i ==> is_wordly(#[trigger] bytes@[j]),
        decreases bytes@.len() - i,
    {
        if !wordly(bytes[i]) {
            assert(!is_wordly(bytes@[i as int]));
            return false;
        }
        i += 1;
    }
    true
}

fn needs_no_quotes(bytes: &[u8]) -> (yes: bool)
    ensures
        yes == is_bare_word(bytes@),
{
    let mut i: usize = 0;
    while i < bytes.len()
        invariant
            i <= bytes@.len(),
            forall|j: int| 0 <= j < i ==> is_bare(#[trigger] bytes@[j]),
        decreases bytes@.len() - i,
    {
        if !bare(bytes[i]) {
            assert(!is_bare(bytes@[i as int]));
            return false;
        }
        i += 1;
    }
    bytes.len() > 0
}

/// Appends a word to a line.
fn append_word(line: &mut Vec<u8>, word: &[u8])
    ensures
        final(line)@ == old(line)@ + spelled(word@),
{
    if needs_no_quotes(word) {
        extend(line, word);
        return ;
    }
    let ghost before = line@.push(34u8);
    line.push(34u8);
    let mut i: usize = 0;
    assert(word@.take(0) =~= Seq::<u8>::empty());
    assert(before + doubled(word@.take(0)) =~= before);
    while i < word.len()
        invariant
            i <= word@.len(),
            line@ == before + doubled(word@.take(i as int)),
        decreases word@.len() - i,
    {
        let byte = word[i];
        let ghost done = line@;
        assert(word@.take(i + 1).drop_last() =~= word@.take(i as int));
        line.push(byte);
        if byte == 34 {
            line.push(34u8);
        }
        assert(line@ =~= before + doubled(word@.take(i + 1)));
        i += 1;
    }
    assert(word@.take(i as int) =~= word@);
    line.push(34u8);
    assert(line@ =~= old(line)@ + spelled(word@));
}

// ---------------------------------------------------------------------------
// Commands
// ---------------------------------------------------------------------------

/// The staged name of an entry.
pub open spec fn staged(index: nat) -> Seq<char> {
    "f"@ + zero_padded(decimal(index), 8)
}

/// Where `debugfs` should write one entry's contents, relative to a scratch
/// directory: its index, so no guest-controlled path reaches the host.
pub fn staged_name(index: usize) -> (name: String)
    ensures
        name@ == staged(index as nat),
{
    join("f", &pad_zeros(&decimal_text(index as u64), 8))
}

/// Whether an entry has contents that must be read out of the image.
pub open spec fn is_dumped(entry: ManifestEntry) -> bool {
    entry.kind == KIND_FILE && entry.hardlink_target is None && entry.size != 0 && exported_path(
        entry.path@,
    ) is Some
}

/// The inode that no file has. It stands for a path that no word can hold, so
/// that such an entry's contents are never found rather than its path read as
/// a command.
pub const NO_INODE: &'static str = "<0>";

/// How a command names an entry: its path from the root of the image.
pub open spec fn source_operand(entry: ManifestEntry) -> Seq<u8> {
    if is_word(entry.path@) {
        seq![47u8] + entry.path@
    } else {
        encode_utf8(NO_INODE@)
    }
}

/// Where a command writes an entry's contents.
pub open spec fn target_operand(scratch: Seq<char>, index: nat) -> Seq<u8> {
    encode_utf8(joined(scratch, staged(index)))
}

/// The command that dumps one entry.
pub open spec fn dump_line(entry: ManifestEntry, scratch: Seq<char>, index: nat) -> Seq<u8> {
    encode_utf8("dump "@) + spelled(source_operand(entry)) + seq![32u8] + spelled(
        target_operand(scratch, index),
    )
}

/// The commands that dump the first `count` entries, one for each that has
/// contents to read.
pub open spec fn dump_lines(entries: Seq<ManifestEntry>, scratch: Seq<char>, count: nat) -> Seq<
    Seq<u8>,
>
    decreases count,
{
    if count == 0 {
        Seq::empty()
    } else {
        let before = dump_lines(entries, scratch, (count - 1) as nat);
        if is_dumped(entries[count - 1]) {
            before.push(dump_line(entries[count - 1], scratch, (count - 1) as nat))
        } else {
            before
        }
    }
}

/// Lines, each with its line feed.
pub open spec fn as_text(lines: Seq<Seq<u8>>) -> Seq<u8>
    decreases lines.len(),
{
    if lines.len() == 0 {
        Seq::empty()
    } else {
        as_text(lines.drop_last()) + lines.last() + seq![10u8]
    }
}

/// The `debugfs` command file that extracts every regular file in one run.
///
/// One process rather than one per file: an image with many thousands of files
/// would otherwise spend all of its time on process creation.
pub fn dump_script(entries: &Vec<ManifestEntry>, scratch: &str) -> (script: Vec<u8>)
    ensures
        script@ == as_text(
            dump_lines(entries@, scratch@, entries@.len()).push(encode_utf8("quit"@)),
        ),
{
    let mut script: Vec<u8> = Vec::new();
    let mut i: usize = 0;
    while i < entries.len()
        invariant
            i <= entries@.len(),
            script@ == as_text(dump_lines(entries@, scratch@, i as nat)),
        decreases entries@.len() - i,
    {
        let entry = &entries[i];
        let ghost before = script@;
        let ghost lines = dump_lines(entries@, scratch@, i as nat);
        if entry.kind == KIND_FILE && entry.hardlink_target.is_none() && entry.size != 0
            && layer_path(entry).is_some() {
            let mut source: Vec<u8> = Vec::new();
            if is_one_word(&entry.path) {
                source.push(47u8);
                extend(&mut source, &entry.path);
            } else {
                extend(&mut source, NO_INODE.as_bytes());
            }
            assert(source@ =~= source_operand(*entry));
            let target = join_path(scratch, &staged_name(i));
            extend(&mut script, "dump ".as_bytes());
            append_word(&mut script, &source);
            script.push(32u8);
            append_word(&mut script, target.as_str().as_bytes());
            script.push(10u8);
            proof {
                let line = dump_line(*entry, scratch@, i as nat);
                assert(lines.push(line).drop_last() =~= lines);
                assert(script@ =~= before + line + seq![10u8]);
            }
        }
        i += 1;
    }
    let ghost lines = dump_lines(entries@, scratch@, entries@.len());
    let ghost before = script@;
    extend(&mut script, "quit".as_bytes());
    script.push(10u8);
    proof {
        let quit = encode_utf8("quit"@);
        assert(lines.push(quit).drop_last() =~= lines);
        assert(script@ =~= before + quit + seq![10u8]);
    }
    script
}

// ---------------------------------------------------------------------------
// What the commands say
// ---------------------------------------------------------------------------

/// The ended lines of a command file, and what follows the last of them.
pub open spec fn lines_in(text: Seq<u8>) -> (Seq<Seq<u8>>, Seq<u8>)
    decreases text.len(),
{
    if text.len() == 0 {
        (Seq::empty(), Seq::empty())
    } else {
        let before = lines_in(text.drop_last());
        if text.last() == 10 {
            (before.0.push(before.1), Seq::empty())
        } else {
            (before.0, before.1.push(text.last()))
        }
    }
}

/// Where the reading of a line stands.
pub enum WordState {
    /// No word has begun.
    Between,
    /// Inside a word, outside quotes.
    Bare,
    /// Inside quotes.
    Quoted,
    /// Behind a quote inside quotes: it ends them, unless another follows.
    Closing,
}

pub struct LineReading {
    pub state: WordState,
    pub words: Seq<Seq<u8>>,
    pub word: Seq<u8>,
}

/// The reading after one more byte.
pub open spec fn read_byte(reading: LineReading, byte: u8) -> LineReading {
    match reading.state {
        WordState::Quoted => if byte == 34 {
            LineReading { state: WordState::Closing, ..reading }
        } else {
            LineReading { word: reading.word.push(byte), ..reading }
        },
        WordState::Closing if byte == 34 => LineReading {
            state: WordState::Quoted,
            word: reading.word.push(byte),
            ..reading
        },
        _ => if is_blank(byte) {
            end_word(reading)
        } else if byte == 34 {
            LineReading { state: WordState::Quoted, ..reading }
        } else {
            LineReading { state: WordState::Bare, word: reading.word.push(byte), ..reading }
        },
    }
}

/// The reading after its word has ended, if there is one.
pub open spec fn end_word(reading: LineReading) -> LineReading {
    if reading.state is Between {
        reading
    } else {
        LineReading {
            state: WordState::Between,
            words: reading.words.push(reading.word),
            word: Seq::empty(),
        }
    }
}

/// The reading after all bytes.
pub open spec fn read_line(reading: LineReading, line: Seq<u8>) -> LineReading
    decreases line.len(),
{
    if line.len() == 0 {
        reading
    } else {
        read_byte(read_line(reading, line.drop_last()), line.last())
    }
}

/// The words of a line.
pub open spec fn words_in(line: Seq<u8>) -> Seq<Seq<u8>> {
    let start = LineReading {
        state: WordState::Between,
        words: Seq::empty(),
        word: Seq::empty(),
    };
    end_word(read_line(start, line)).words
}

/// Every list of entries gives exactly one line for each entry that is dumped,
/// in their order, and then `quit`: nothing in an entry begins a line of its
/// own.
pub proof fn law_each_dump_is_one_line(entries: Seq<ManifestEntry>, scratch: Seq<char>)
    requires
        is_word(encode_utf8(scratch)),
    ensures
        ({
            let lines = dump_lines(entries, scratch, entries.len()).push(encode_utf8("quit"@));
            lines_in(as_text(lines)) == (lines, Seq::<u8>::empty())
        }),
{
    reveal_strlit("quit");
    is_ascii_chars_encode_utf8("quit"@);
    let lines = dump_lines(entries, scratch, entries.len());
    let quit = encode_utf8("quit"@);
    assert(is_word(quit)) by {
        assert forall|i: int| 0 <= i < quit.len() implies is_wordly(#[trigger] quit[i]) by {
            assert(quit[i] == "quit"@[i] as u8);
        }
    }
    lemma_lines_are_words(entries, scratch, entries.len());
    let all = lines.push(quit);
    assert forall|i: int| 0 <= i < all.len() implies is_word(#[trigger] all[i]) by {
        if i < lines.len() {
            assert(all[i] == lines[i]);
        }
    }
    lemma_lines(all);
}

/// A dump has three words: the command, the entry's path from the root of the
/// image, or the inode that no file has, and the staged name below the scratch
/// directory. Only that last one names a place on the host.
pub proof fn law_dump_writes_only_its_staged_file(
    entry: ManifestEntry,
    scratch: Seq<char>,
    index: nat,
)
    ensures
        words_in(dump_line(entry, scratch, index)) == seq![
            encode_utf8("dump"@),
            source_operand(entry),
            encode_utf8(joined(scratch, staged(index))),
        ],
{
    reveal_strlit("dump");
    reveal_strlit("dump ");
    is_ascii_chars_encode_utf8("dump"@);
    is_ascii_chars_encode_utf8("dump "@);
    let start = LineReading {
        state: WordState::Between,
        words: Seq::empty(),
        word: Seq::empty(),
    };
    let command = encode_utf8("dump"@);
    assert(encode_utf8("dump "@) =~= command + seq![32u8]);
    assert(is_bare_word(command)) by {
        assert forall|i: int| 0 <= i < command.len() implies is_bare(#[trigger] command[i]) by {
            assert(command[i] == "dump"@[i] as u8);
        }
    }
    let source = source_operand(entry);
    let target = target_operand(scratch, index);
    let one = command + seq![32u8];
    let two = one + spelled(source);
    let three = two + seq![32u8];
    let line = three + spelled(target);
    assert(dump_line(entry, scratch, index) =~= line);
    assert(spelled(command) == command);
    lemma_read_word(start, command);
    lemma_read_blank(start, command);
    let after_one = read_line(start, one);
    assert(after_one.words =~= seq![command]);
    lemma_read_both(start, one, spelled(source));
    lemma_read_word(after_one, source);
    lemma_read_blank(start, two);
    let after_two = read_line(start, three);
    assert(after_two.words =~= seq![command, source]);
    lemma_read_both(start, three, spelled(target));
    lemma_read_word(after_two, target);
    assert(end_word(read_line(start, line)).words =~= seq![command, source, target]);
}

proof fn lemma_read_both(reading: LineReading, left: Seq<u8>, right: Seq<u8>)
    ensures
        read_line(reading, left + right) == read_line(read_line(reading, left), right),
    decreases right.len(),
{
    if right.len() == 0 {
        assert(left + right =~= left);
    } else {
        assert((left + right).drop_last() =~= left + right.drop_last());
        lemma_read_both(reading, left, right.drop_last());
    }
}

proof fn lemma_read_blank(reading: LineReading, line: Seq<u8>)
    ensures
        read_line(reading, line + seq![32u8]) == read_byte(read_line(reading, line), 32u8),
{
    assert((line + seq![32u8]).drop_last() =~= line);
}

/// A word that is read between words is the one that was written.
proof fn lemma_read_word(reading: LineReading, word: Seq<u8>)
    requires
        reading.state is Between,
        reading.word.len() == 0,
    ensures
        ({
            let read = read_line(reading, spelled(word));
            &&& read.state is Bare || read.state is Closing
            &&& read.words == reading.words
            &&& read.word == word
        }),
{
    if is_bare_word(word) {
        lemma_read_bare(reading, word);
        assert(reading.word + word =~= word);
    } else {
        let open = read_line(reading, seq![34u8]);
        assert(seq![34u8].drop_last() =~= Seq::<u8>::empty());
        assert(read_line(reading, Seq::<u8>::empty()) == reading);
        assert(open == read_byte(reading, 34u8));
        lemma_read_both(reading, seq![34u8], doubled(word));
        lemma_read_doubled(open, word);
        assert(open.word + word =~= word);
        let inner = seq![34u8] + doubled(word);
        assert(spelled(word) =~= inner + seq![34u8]);
        assert((inner + seq![34u8]).drop_last() =~= inner);
    }
}

proof fn lemma_read_bare(reading: LineReading, bytes: Seq<u8>)
    requires
        reading.state is Between || reading.state is Bare,
        forall|i: int| 0 <= i < bytes.len() ==> is_bare(#[trigger] bytes[i]),
    ensures
        ({
            let read = read_line(reading, bytes);
            &&& read.words == reading.words
            &&& read.word == reading.word + bytes
            &&& bytes.len() > 0 ==> read.state is Bare
            &&& bytes.len() == 0 ==> read.state == reading.state
        }),
    decreases bytes.len(),
{
    if bytes.len() > 0 {
        let front = bytes.drop_last();
        assert forall|i: int| 0 <= i < front.len() implies is_bare(#[trigger] front[i]) by {
            assert(front[i] == bytes[i]);
        }
        lemma_read_bare(reading, front);
        assert(is_bare(bytes[bytes.len() - 1]));
        assert((reading.word + front).push(bytes.last()) =~= reading.word + bytes);
    } else {
        assert(reading.word + bytes =~= reading.word);
    }
}

proof fn lemma_read_doubled(reading: LineReading, bytes: Seq<u8>)
    requires
        reading.state is Quoted,
    ensures
        ({
            let read = read_line(reading, doubled(bytes));
            &&& read.state is Quoted
            &&& read.words == reading.words
            &&& read.word == reading.word + bytes
        }),
    decreases bytes.len(),
{
    if bytes.len() > 0 {
        let front = doubled(bytes.drop_last());
        lemma_read_doubled(reading, bytes.drop_last());
        assert((reading.word + bytes.drop_last()).push(bytes.last()) =~= reading.word + bytes);
        if bytes.last() == 34 {
            assert(front.push(34u8).push(34u8).drop_last() =~= front.push(34u8));
            assert(front.push(34u8).drop_last() =~= front);
            assert(read_line(reading, front.push(34u8)) == read_byte(
                read_line(reading, front),
                34u8,
            ));
            assert(read_line(reading, front.push(34u8).push(34u8)) == read_byte(
                read_line(reading, front.push(34u8)),
                34u8,
            ));
        } else {
            assert(front.push(bytes.last()).drop_last() =~= front);
        }
    } else {
        assert(reading.word + bytes =~= reading.word);
    }
}

proof fn lemma_lines(lines: Seq<Seq<u8>>)
    requires
        forall|i: int| 0 <= i < lines.len() ==> is_word(#[trigger] lines[i]),
    ensures
        lines_in(as_text(lines)) == (lines, Seq::<u8>::empty()),
    decreases lines.len(),
{
    if lines.len() > 0 {
        let front = lines.drop_last();
        assert forall|i: int| 0 <= i < front.len() implies is_word(#[trigger] front[i]) by {
            assert(front[i] == lines[i]);
        }
        lemma_lines(front);
        assert(is_word(lines[lines.len() - 1]));
        lemma_line_goes_on(as_text(front), lines.last());
        let text = as_text(front) + lines.last();
        assert((text + seq![10u8]).drop_last() =~= text);
        assert(Seq::<u8>::empty() + lines.last() =~= lines.last());
        assert(front.push(lines.last()) =~= lines);
    } else {
        assert(lines =~= Seq::<Seq<u8>>::empty());
    }
}

/// Bytes without a line feed belong to the line that has begun.
proof fn lemma_line_goes_on(text: Seq<u8>, more: Seq<u8>)
    requires
        is_word(more),
    ensures
        lines_in(text + more) == (lines_in(text).0, lines_in(text).1 + more),
    decreases more.len(),
{
    if more.len() == 0 {
        assert(text + more =~= text);
        assert(lines_in(text).1 + more =~= lines_in(text).1);
    } else {
        let front = more.drop_last();
        assert forall|i: int| 0 <= i < front.len() implies is_wordly(#[trigger] front[i]) by {
            assert(front[i] == more[i]);
        }
        lemma_line_goes_on(text, front);
        assert((text + more).drop_last() =~= text + front);
        assert(is_wordly(more[more.len() - 1]));
        assert((lines_in(text).1 + front).push(more.last()) =~= lines_in(text).1 + more);
    }
}

proof fn lemma_doubled_is_a_word(bytes: Seq<u8>)
    requires
        is_word(bytes),
    ensures
        is_word(doubled(bytes)),
    decreases bytes.len(),
{
    if bytes.len() > 0 {
        let front = bytes.drop_last();
        assert forall|i: int| 0 <= i < front.len() implies is_wordly(#[trigger] front[i]) by {
            assert(front[i] == bytes[i]);
        }
        lemma_doubled_is_a_word(front);
        assert(is_wordly(bytes[bytes.len() - 1]));
    }
}

proof fn lemma_spelled_is_a_word(bytes: Seq<u8>)
    requires
        is_word(bytes),
    ensures
        is_word(spelled(bytes)),
{
    lemma_doubled_is_a_word(bytes);
}

/// A staged name below the scratch directory is a word.
proof fn lemma_target_is_a_word(scratch: Seq<char>, index: nat)
    requires
        is_word(encode_utf8(scratch)),
    ensures
        is_word(target_operand(scratch, index)),
{
    reveal_strlit("f");
    reveal_strlit("/");
    let name = staged(index);
    crate::numeral::lemma_decimal_digits(index);
    crate::numeral::lemma_padding_keeps_the_value(decimal(index), 8);
    let digits = zero_padded(decimal(index), 8);
    let slashed = "/"@ + name;
    assert forall|i: int| 0 <= i < name.len() implies '\u{1f}' < #[trigger] name[i] < '\u{7f}' by {
        if i > 0 {
            assert(name[i] == digits[i - 1]);
            assert(crate::text::is_digit(digits[i - 1]));
        }
    }
    assert forall|i: int| 0 <= i < slashed.len() implies '\u{1f}' < #[trigger] slashed[i]
        < '\u{7f}' by {
        if i > 0 {
            assert(slashed[i] == name[i - 1]);
        }
    }
    lemma_printable_is_a_word(name);
    lemma_printable_is_a_word(slashed);
    let path = joined(scratch, name);
    if path == scratch + name {
        lemma_encoding_of_both(scratch, name);
    } else {
        assert(path =~= scratch + slashed);
        lemma_encoding_of_both(scratch, slashed);
    }
}

proof fn lemma_encoding_of_both(left: Seq<char>, right: Seq<char>)
    ensures
        encode_utf8(left + right) == encode_utf8(left) + encode_utf8(right),
    decreases left.len(),
{
    if left.len() == 0 {
        assert(left + right =~= right);
        assert(encode_utf8(left) + encode_utf8(right) =~= encode_utf8(right));
    } else {
        assert((left + right).drop_first() =~= left.drop_first() + right);
        lemma_encoding_of_both(left.drop_first(), right);
        assert(encode_utf8(left + right) =~= encode_utf8(left) + encode_utf8(right));
    }
}

proof fn lemma_printable_is_a_word(text: Seq<char>)
    requires
        forall|i: int| 0 <= i < text.len() ==> '\u{1f}' < #[trigger] text[i] < '\u{7f}',
    ensures
        is_word(encode_utf8(text)),
{
    assert(is_ascii_chars(text));
    is_ascii_chars_encode_utf8(text);
    let bytes = encode_utf8(text);
    assert forall|i: int| 0 <= i < bytes.len() implies is_wordly(#[trigger] bytes[i]) by {
        assert(bytes[i] == text[i] as u8);
    }
}

proof fn lemma_lines_are_words(entries: Seq<ManifestEntry>, scratch: Seq<char>, count: nat)
    requires
        is_word(encode_utf8(scratch)),
        count <= entries.len(),
    ensures
        forall|i: int|
            0 <= i < dump_lines(entries, scratch, count).len() ==> is_word(
                #[trigger] dump_lines(entries, scratch, count)[i],
            ),
    decreases count,
{
    if count > 0 {
        let before = dump_lines(entries, scratch, (count - 1) as nat);
        let entry = entries[count - 1];
        let index = (count - 1) as nat;
        lemma_lines_are_words(entries, scratch, index);
        reveal_strlit("dump ");
        reveal_strlit("<0>");
        lemma_printable_is_a_word("dump "@);
        lemma_printable_is_a_word(NO_INODE@);
        lemma_target_is_a_word(scratch, index);
        let source = source_operand(entry);
        assert(is_word(source)) by {
            if is_word(entry.path@) {
                assert forall|i: int| 0 <= i < source.len() implies is_wordly(
                    #[trigger] source[i],
                ) by {
                    if i > 0 {
                        assert(source[i] == entry.path@[i - 1]);
                    }
                }
            }
        }
        lemma_spelled_is_a_word(source);
        lemma_spelled_is_a_word(target_operand(scratch, index));
        let lines = dump_lines(entries, scratch, count);
        assert forall|i: int| 0 <= i < lines.len() implies is_word(#[trigger] lines[i]) by {
            if i < before.len() {
                assert(lines[i] == before[i]);
            }
        }
    }
}

/// What is dumped: every file of the exported tree that is not empty and not
/// another name of one, each by its path in the image into a staged file of its
/// own; a path that no word can hold is not looked for.
pub proof fn law_script_dumps_every_file(
    entries: Vec<ManifestEntry>,
    scratch: &str,
    script: Vec<u8>,
    i: int,
)
    requires
        call_ensures(dump_script, (&entries, scratch), script),
        0 <= i < entries@.len(),
    ensures
        script@ == as_text(
            dump_lines(entries@, scratch@, entries@.len()).push(encode_utf8("quit"@)),
        ),
        entries@[i].kind == 1 && entries@[i].hardlink_target is None && entries@[i].size > 0
            && exported_path(entries@[i].path@) is Some ==> dump_lines(
            entries@,
            scratch@,
            entries@.len(),
        ).contains(dump_line(entries@[i], scratch@, i as nat)),
        is_word(entries@[i].path@) ==> source_operand(entries@[i]) == seq![47u8]
            + entries@[i].path@,
        !is_word(entries@[i].path@) ==> source_operand(entries@[i]) == encode_utf8("<0>"@),
{
    lemma_dumped(entries@, scratch@, entries@.len(), i);
}

proof fn lemma_dumped(entries: Seq<ManifestEntry>, scratch: Seq<char>, count: nat, i: int)
    requires
        0 <= i < count <= entries.len(),
    ensures
        is_dumped(entries[i]) ==> dump_lines(entries, scratch, count).contains(
            dump_line(entries[i], scratch, i as nat),
        ),
    decreases count,
{
    let line = dump_line(entries[i], scratch, i as nat);
    let before = dump_lines(entries, scratch, (count - 1) as nat);
    let all = dump_lines(entries, scratch, count);
    if is_dumped(entries[i]) {
        if i < count - 1 {
            lemma_dumped(entries, scratch, (count - 1) as nat, i);
            let k = before.index_of(line);
            assert(before[k] == line);
            assert(all[k] == line);
        } else {
            assert(all[before.len() as int] == line);
        }
    }
}

/// Nothing else is dumped.
pub proof fn law_only_files_are_dumped(
    entries: Seq<ManifestEntry>,
    scratch: Seq<char>,
    count: nat,
    k: int,
)
    requires
        count <= entries.len(),
        0 <= k < dump_lines(entries, scratch, count).len(),
    ensures
        exists|i: int|
            0 <= i < count && (#[trigger] entries[i]).kind == 1 && entries[i].hardlink_target
                is None && entries[i].size > 0 && exported_path(entries[i].path@) is Some
                && dump_lines(entries, scratch, count)[k] == dump_line(
                entries[i],
                scratch,
                i as nat,
            ),
    decreases count,
{
    if count > 0 {
        let before = dump_lines(entries, scratch, (count - 1) as nat);
        if k < before.len() {
            law_only_files_are_dumped(entries, scratch, (count - 1) as nat, k);
        } else {
            assert(is_dumped(entries[count - 1]));
        }
    }
}

/// A staged file is named by its number, in at least eight digits.
pub proof fn law_staged_file_is_numbered(index: usize, name: String)
    requires
        call_ensures(staged_name, (index,), name),
    ensures
        name@ == staged(index as nat),
        name@.len() >= 9,
        name@[0] == 'f',
        all_digits(name@.skip(1)),
        digits_value(name@.skip(1)) == index,
{
    reveal_strlit("f");
    law_decimal_reads_back(index as nat);
    lemma_padding_keeps_the_value(decimal(index as nat), 8);
    assert(name@.skip(1) =~= zero_padded(decimal(index as nat), 8));
}

} // verus!
