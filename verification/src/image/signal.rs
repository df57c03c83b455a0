//! Docker's spellings of Linux signals.

use vstd::prelude::*;
use vstd::string::*;
use vstd::utf8::*;

use crate::error::{invalid_run, run_outcome, RuntimeError, RuntimeFault};
use crate::text::{
    all_digits, chars_are, chars_between, chars_of, debug_spelling, debug_text, digits_value,
    has_prefix, is_all_digits, join, parse_digits, starts_with,
};

verus! {

/// The signal sent when an image names none: SIGTERM.
pub const DEFAULT_STOP_SIGNAL: u16 = 15;

/// The first realtime signal that a program may use.
pub const RTMIN: u16 = 34;

/// The last realtime signal.
pub const RTMAX: u16 = 64;

pub open spec fn ascii_upper(c: char) -> char {
    if 'a' <= c <= 'z' {
        (c as u32 - 32) as char
    } else {
        c
    }
}

pub open spec fn upper_text(text: Seq<char>) -> Seq<char> {
    Seq::new(text.len(), |i: int| ascii_upper(text[i]))
}

/// The name to look up: upper case, without a leading `SIG`.
pub open spec fn signal_name(value: Seq<char>) -> Seq<char> {
    let upper = upper_text(value);
    if starts_with(upper, "SIG"@) {
        upper.skip("SIG"@.len() as int)
    } else {
        upper
    }
}

/// The number of a signal that has a name of its own.
pub open spec fn named_signal(name: Seq<char>) -> Option<u16> {
    if name == "HUP"@ {
        Some(1)
    } else if name == "INT"@ {
        Some(2)
    } else if name == "QUIT"@ {
        Some(3)
    } else if name == "ILL"@ {
        Some(4)
    } else if name == "TRAP"@ {
        Some(5)
    } else if name == "ABRT"@ || name == "IOT"@ {
        Some(6)
    } else if name == "BUS"@ {
        Some(7)
    } else if name == "FPE"@ {
        Some(8)
    } else if name == "KILL"@ {
        Some(9)
    } else if name == "USR1"@ {
        Some(10)
    } else if name == "SEGV"@ {
        Some(11)
    } else if name == "USR2"@ {
        Some(12)
    } else if name == "PIPE"@ {
        Some(13)
    } else if name == "ALRM"@ {
        Some(14)
    } else if name == "TERM"@ {
        Some(15)
    } else if name == "STKFLT"@ {
        Some(16)
    } else if name == "CHLD"@ || name == "CLD"@ {
        Some(17)
    } else if name == "CONT"@ {
        Some(18)
    } else if name == "STOP"@ {
        Some(19)
    } else if name == "TSTP"@ {
        Some(20)
    } else if name == "TTIN"@ {
        Some(21)
    } else if name == "TTOU"@ {
        Some(22)
    } else if name == "URG"@ {
        Some(23)
    } else if name == "XCPU"@ {
        Some(24)
    } else if name == "XFSZ"@ {
        Some(25)
    } else if name == "VTALRM"@ {
        Some(26)
    } else if name == "PROF"@ {
        Some(27)
    } else if name == "WINCH"@ {
        Some(28)
    } else if name == "IO"@ || name == "POLL"@ {
        Some(29)
    } else if name == "PWR"@ {
        Some(30)
    } else if name == "SYS"@ {
        Some(31)
    } else if name == "RTMIN"@ {
        Some(RTMIN)
    } else if name == "RTMAX"@ {
        Some(RTMAX)
    } else {
        None
    }
}

pub open spec fn signal_refused(reason: Seq<char>) -> RuntimeFault {
    invalid_run("image.stop_signal"@, reason)
}

pub open spec fn signal_range(signal: int) -> Result<u16, RuntimeFault> {
    if 1 <= signal <= 64 {
        Ok(signal as u16)
    } else {
        Err(signal_refused("signal must resolve to a value in 1..=64"@))
    }
}

pub open spec fn realtime_range(signal: int) -> Result<u16, RuntimeFault> {
    if RTMIN <= signal <= RTMAX {
        Ok(signal as u16)
    } else {
        Err(
            signal_refused(
                "named realtime signal must resolve within RTMIN..=RTMAX (34..=64)"@,
            ),
        )
    }
}

pub open spec fn realtime_offset(value: Seq<char>) -> Result<u16, RuntimeFault> {
    if value.len() == 0 || !all_digits(value) {
        Err(signal_refused("realtime signal offset must be unsigned decimal"@))
    } else if digits_value(value) > u16::MAX {
        Err(signal_refused("realtime signal offset does not fit u16"@))
    } else {
        Ok(digits_value(value) as u16)
    }
}

/// The signal at an offset above `RTMIN`.
pub open spec fn above_rtmin(offset: Seq<char>) -> Result<u16, RuntimeFault> {
    match realtime_offset(offset) {
        Err(fault) => Err(fault),
        Ok(offset) => if RTMIN + offset > u16::MAX {
            Err(signal_refused("realtime signal overflows"@))
        } else {
            realtime_range(RTMIN + offset)
        },
    }
}

/// The signal at an offset below `RTMAX`.
pub open spec fn below_rtmax(offset: Seq<char>) -> Result<u16, RuntimeFault> {
    match realtime_offset(offset) {
        Err(fault) => Err(fault),
        Ok(offset) => if RTMAX < offset {
            Err(signal_refused("realtime signal underflows"@))
        } else {
            realtime_range(RTMAX - offset)
        },
    }
}

/// The signal that a name spells, or why it spells none.
pub open spec fn signal_by_name(value: Seq<char>) -> Result<u16, RuntimeFault> {
    let name = signal_name(value);
    match named_signal(name) {
        Some(signal) => Ok(signal),
        None => if starts_with(name, "RTMIN+"@) {
            above_rtmin(name.skip("RTMIN+"@.len() as int))
        } else if starts_with(name, "RTMAX-"@) {
            below_rtmax(name.skip("RTMAX-"@.len() as int))
        } else {
            Err(signal_refused("unsupported Linux signal name "@ + debug_spelling(value)))
        },
    }
}

/// The signal that the text spells, or why it spells none.
pub open spec fn signal_outcome(value: Seq<char>) -> Result<u16, RuntimeFault> {
    if value.len() == 0 || !is_ascii_chars(value) {
        Err(signal_refused("signal must be nonempty ASCII"@))
    } else if all_digits(value) {
        if digits_value(value) > u16::MAX {
            Err(signal_refused("numeric signal does not fit u16"@))
        } else {
            signal_range(digits_value(value) as int)
        }
    } else {
        signal_by_name(value)
    }
}

/// Parse Docker's numeric or conventional Linux signal spelling without
/// consulting the host libc's process-specific signal-name tables.
pub fn parse_image_signal(value: &str) -> (signal: Result<u16, RuntimeError>)
    ensures
        run_outcome(signal) == signal_outcome(value@),
{
    parse_signal(value)
}

pub fn parse_signal(value: &str) -> (signal: Result<u16, RuntimeError>)
    ensures
        run_outcome(signal) == signal_outcome(value@),
{
    if value.is_empty() || !value.is_ascii() {
        return Err(RuntimeError::invalid("image.stop_signal", "signal must be nonempty ASCII"));
    }
    let chars = chars_of(value);
    if is_all_digits(&chars) {
        return match parse_digits(&chars, u16::MAX as u32) {
            Some(signal) => valid_signal(signal as u16),
            None => Err(
                RuntimeError::invalid("image.stop_signal", "numeric signal does not fit u16"),
            ),
        };
    }
    let name = lookup_name(&chars);
    match signal_number(&name) {
        Some(signal) => valid_signal(signal),
        None => {
            let minimum = chars_of("RTMIN+");
            let maximum = chars_of("RTMAX-");
            if has_prefix(&name, &minimum) {
                let offset = chars_between(&name, minimum.len(), name.len());
                match parse_realtime_offset(&offset) {
                    Err(error) => Err(error),
                    Ok(offset) => match RTMIN.checked_add(offset) {
                        Some(signal) => valid_realtime_signal(signal),
                        None => Err(
                            RuntimeError::invalid("image.stop_signal", "realtime signal overflows"),
                        ),
                    },
                }
            } else if has_prefix(&name, &maximum) {
                let offset = chars_between(&name, maximum.len(), name.len());
                match parse_realtime_offset(&offset) {
                    Err(error) => Err(error),
                    Ok(offset) => match RTMAX.checked_sub(offset) {
                        Some(signal) => valid_realtime_signal(signal),
                        None => Err(
                            RuntimeError::invalid("image.stop_signal", "realtime signal underflows"),
                        ),
                    },
                }
            } else {
                Err(
                    RuntimeError::invalid(
                        "image.stop_signal",
                        &join("unsupported Linux signal name ", &debug_text(value)),
                    ),
                )
            }
        },
    }
}

/// The upper-case name, without a leading `SIG`.
fn lookup_name(chars: &[char]) -> (name: Vec<char>)
    ensures
        name@ == signal_name(chars@),
{
    let mut upper: Vec<char> = Vec::new();
    let mut i: usize = 0;
    while i < chars.len()
        invariant
            i <= chars@.len(),
            upper@ == upper_text(chars@).take(i as int),
        decreases chars@.len() - i,
    {
        let c: char = chars[i];
        if 'a' <= c && c <= 'z' {
            upper.push(((c as u32 - 32) as u8) as char);
        } else {
            upper.push(c);
        }
        i += 1;
        assert(upper@ =~= upper_text(chars@).take(i as int));
    }
    assert(upper@ =~= upper_text(chars@));
    let prefix = chars_of("SIG");
    if has_prefix(&upper, &prefix) {
        chars_between(&upper, prefix.len(), upper.len())
    } else {
        upper
    }
}

/// Looks a signal up by its own name.
fn signal_number(name: &[char]) -> (signal: Option<u16>)
    ensures
        signal == named_signal(name@),
        signal matches Some(number) ==> 1 <= number <= 64,
{
    if chars_are(name, "HUP") {
        Some(1)
    } else if chars_are(name, "INT") {
        Some(2)
    } else if chars_are(name, "QUIT") {
        Some(3)
    } else if chars_are(name, "ILL") {
        Some(4)
    } else if chars_are(name, "TRAP") {
        Some(5)
    } else if chars_are(name, "ABRT") || chars_are(name, "IOT") {
        Some(6)
    } else if chars_are(name, "BUS") {
        Some(7)
    } else if chars_are(name, "FPE") {
        Some(8)
    } else if chars_are(name, "KILL") {
        Some(9)
    } else if chars_are(name, "USR1") {
        Some(10)
    } else if chars_are(name, "SEGV") {
        Some(11)
    } else if chars_are(name, "USR2") {
        Some(12)
    } else if chars_are(name, "PIPE") {
        Some(13)
    } else if chars_are(name, "ALRM") {
        Some(14)
    } else if chars_are(name, "TERM") {
        Some(15)
    } else if chars_are(name, "STKFLT") {
        Some(16)
    } else if chars_are(name, "CHLD") || chars_are(name, "CLD") {
        Some(17)
    } else if chars_are(name, "CONT") {
        Some(18)
    } else if chars_are(name, "STOP") {
        Some(19)
    } else if chars_are(name, "TSTP") {
        Some(20)
    } else if chars_are(name, "TTIN") {
        Some(21)
    } else if chars_are(name, "TTOU") {
        Some(22)
    } else if chars_are(name, "URG") {
        Some(23)
    } else if chars_are(name, "XCPU") {
        Some(24)
    } else if chars_are(name, "XFSZ") {
        Some(25)
    } else if chars_are(name, "VTALRM") {
        Some(26)
    } else if chars_are(name, "PROF") {
        Some(27)
    } else if chars_are(name, "WINCH") {
        Some(28)
    } else if chars_are(name, "IO") || chars_are(name, "POLL") {
        Some(29)
    } else if chars_are(name, "PWR") {
        Some(30)
    } else if chars_are(name, "SYS") {
        Some(31)
    } else if chars_are(name, "RTMIN") {
        Some(RTMIN)
    } else if chars_are(name, "RTMAX") {
        Some(RTMAX)
    } else {
        None
    }
}

pub fn valid_realtime_signal(signal: u16) -> (valid: Result<u16, RuntimeError>)
    ensures
        run_outcome(valid) == realtime_range(signal as int),
{
    if RTMIN <= signal && signal <= RTMAX {
        Ok(signal)
    } else {
        Err(
            RuntimeError::invalid(
                "image.stop_signal",
                "named realtime signal must resolve within RTMIN..=RTMAX (34..=64)",
            ),
        )
    }
}

pub fn parse_realtime_offset(value: &[char]) -> (offset: Result<u16, RuntimeError>)
    ensures
        run_outcome(offset) == realtime_offset(value@),
{
    if value.len() == 0 || !is_all_digits(value) {
        return Err(
            RuntimeError::invalid(
                "image.stop_signal",
                "realtime signal offset must be unsigned decimal",
            ),
        );
    }
    match parse_digits(value, u16::MAX as u32) {
        Some(offset) => Ok(offset as u16),
        None => Err(
            RuntimeError::invalid(
                "image.stop_signal",
                "realtime signal offset does not fit u16",
            ),
        ),
    }
}

pub fn valid_signal(signal: u16) -> (valid: Result<u16, RuntimeError>)
    ensures
        run_outcome(valid) == signal_range(signal as int),
{
    if 1 <= signal && signal <= 64 {
        Ok(signal)
    } else {
        Err(
            RuntimeError::invalid(
                "image.stop_signal",
                "signal must resolve to a value in 1..=64",
            ),
        )
    }
}

/// Every spelling that is accepted names a signal in 1..=64, and no spelling
/// is read differently in lower case.
pub proof fn law_signals_are_bounded_and_case_blind(value: Seq<char>)
    ensures
        signal_outcome(value) matches Ok(signal) ==> 1 <= signal <= 64,
        signal_outcome(value) is Ok <==> signal_outcome(upper_text(value)) is Ok,
        signal_outcome(value) is Ok ==> signal_outcome(value) == signal_outcome(
            upper_text(value),
        ),
{
    let upper = upper_text(value);
    assert(upper_text(upper) =~= upper);
    assert(all_digits(value) <==> all_digits(upper)) by {
        assert forall|i: int| 0 <= i < value.len() implies crate::text::is_digit(
            #[trigger] value[i],
        ) == crate::text::is_digit(upper[i]) by {}
        if all_digits(value) {
            assert forall|i: int| 0 <= i < upper.len() implies crate::text::is_digit(
                #[trigger] upper[i],
            ) by {
                assert(crate::text::is_digit(value[i]));
            }
        }
        if all_digits(upper) {
            assert forall|i: int| 0 <= i < value.len() implies crate::text::is_digit(
                #[trigger] value[i],
            ) by {
                assert(crate::text::is_digit(upper[i]));
            }
        }
    }
    if all_digits(value) {
        assert(upper =~= value) by {
            assert forall|i: int| 0 <= i < value.len() implies upper[i] == value[i] by {
                assert(crate::text::is_digit(value[i]));
            }
        }
    }
    assert(is_ascii_chars(value) <==> is_ascii_chars(upper)) by {
        if is_ascii_chars(value) {
            assert forall|i: int| 0 <= i < upper.len() implies '\0' <= #[trigger] upper[i]
                <= '\u{7f}' by {
                assert('\0' <= value[i] <= '\u{7f}');
            }
        }
        if is_ascii_chars(upper) {
            assert forall|i: int| 0 <= i < value.len() implies '\0' <= #[trigger] value[i]
                <= '\u{7f}' by {
                assert('\0' <= upper[i] <= '\u{7f}');
            }
        }
    }
}

/// Whether a text spells a name in letters of either case, with or without
/// `SIG` in front.
pub open spec fn spells(value: Seq<char>, name: Seq<char>) -> bool {
    is_ascii_chars(value) && (upper_text(value) == name || upper_text(value) == "SIG"@ + name)
}

/// Every conventional name has its own number, in letters of either case and
/// with or without `SIG` in front.
pub proof fn law_each_name_has_its_number(
    text: &str,
    signal: Result<u16, RuntimeError>,
    again: Result<u16, RuntimeError>,
)
    requires
        call_ensures(parse_image_signal, (text,), signal),
        call_ensures(parse_signal, (text,), again),
    ensures
        run_outcome(again) == run_outcome(signal),
        spells(text@, "HUP"@) ==> run_outcome(signal) == Ok::<u16, RuntimeFault>(1),
        spells(text@, "INT"@) ==> run_outcome(signal) == Ok::<u16, RuntimeFault>(2),
        spells(text@, "QUIT"@) ==> run_outcome(signal) == Ok::<u16, RuntimeFault>(3),
        spells(text@, "ILL"@) ==> run_outcome(signal) == Ok::<u16, RuntimeFault>(4),
        spells(text@, "TRAP"@) ==> run_outcome(signal) == Ok::<u16, RuntimeFault>(5),
        spells(text@, "ABRT"@) ==> run_outcome(signal) == Ok::<u16, RuntimeFault>(6),
        spells(text@, "IOT"@) ==> run_outcome(signal) == Ok::<u16, RuntimeFault>(6),
        spells(text@, "BUS"@) ==> run_outcome(signal) == Ok::<u16, RuntimeFault>(7),
        spells(text@, "FPE"@) ==> run_outcome(signal) == Ok::<u16, RuntimeFault>(8),
        spells(text@, "KILL"@) ==> run_outcome(signal) == Ok::<u16, RuntimeFault>(9),
        spells(text@, "USR1"@) ==> run_outcome(signal) == Ok::<u16, RuntimeFault>(10),
        spells(text@, "SEGV"@) ==> run_outcome(signal) == Ok::<u16, RuntimeFault>(11),
        spells(text@, "USR2"@) ==> run_outcome(signal) == Ok::<u16, RuntimeFault>(12),
        spells(text@, "PIPE"@) ==> run_outcome(signal) == Ok::<u16, RuntimeFault>(13),
        spells(text@, "ALRM"@) ==> run_outcome(signal) == Ok::<u16, RuntimeFault>(14),
        spells(text@, "TERM"@) ==> run_outcome(signal) == Ok::<u16, RuntimeFault>(15),
        spells(text@, "STKFLT"@) ==> run_outcome(signal) == Ok::<u16, RuntimeFault>(16),
        spells(text@, "CHLD"@) ==> run_outcome(signal) == Ok::<u16, RuntimeFault>(17),
        spells(text@, "CLD"@) ==> run_outcome(signal) == Ok::<u16, RuntimeFault>(17),
        spells(text@, "CONT"@) ==> run_outcome(signal) == Ok::<u16, RuntimeFault>(18),
        spells(text@, "STOP"@) ==> run_outcome(signal) == Ok::<u16, RuntimeFault>(19),
        spells(text@, "TSTP"@) ==> run_outcome(signal) == Ok::<u16, RuntimeFault>(20),
        spells(text@, "TTIN"@) ==> run_outcome(signal) == Ok::<u16, RuntimeFault>(21),
        spells(text@, "TTOU"@) ==> run_outcome(signal) == Ok::<u16, RuntimeFault>(22),
        spells(text@, "URG"@) ==> run_outcome(signal) == Ok::<u16, RuntimeFault>(23),
        spells(text@, "XCPU"@) ==> run_outcome(signal) == Ok::<u16, RuntimeFault>(24),
        spells(text@, "XFSZ"@) ==> run_outcome(signal) == Ok::<u16, RuntimeFault>(25),
        spells(text@, "VTALRM"@) ==> run_outcome(signal) == Ok::<u16, RuntimeFault>(26),
        spells(text@, "PROF"@) ==> run_outcome(signal) == Ok::<u16, RuntimeFault>(27),
        spells(text@, "WINCH"@) ==> run_outcome(signal) == Ok::<u16, RuntimeFault>(28),
        spells(text@, "IO"@) ==> run_outcome(signal) == Ok::<u16, RuntimeFault>(29),
        spells(text@, "POLL"@) ==> run_outcome(signal) == Ok::<u16, RuntimeFault>(29),
        spells(text@, "PWR"@) ==> run_outcome(signal) == Ok::<u16, RuntimeFault>(30),
        spells(text@, "SYS"@) ==> run_outcome(signal) == Ok::<u16, RuntimeFault>(31),
        spells(text@, "RTMIN"@) ==> run_outcome(signal) == Ok::<u16, RuntimeFault>(34),
        spells(text@, "RTMAX"@) ==> run_outcome(signal) == Ok::<u16, RuntimeFault>(64),
{
    let value = text@;
    reveal_strlit("SIG");
    reveal_strlit("HUP");
    reveal_strlit("INT");
    reveal_strlit("QUIT");
    reveal_strlit("ILL");
    reveal_strlit("TRAP");
    reveal_strlit("ABRT");
    reveal_strlit("IOT");
    reveal_strlit("BUS");
    reveal_strlit("FPE");
    reveal_strlit("KILL");
    reveal_strlit("USR1");
    reveal_strlit("SEGV");
    reveal_strlit("USR2");
    reveal_strlit("PIPE");
    reveal_strlit("ALRM");
    reveal_strlit("TERM");
    reveal_strlit("STKFLT");
    reveal_strlit("CHLD");
    reveal_strlit("CLD");
    reveal_strlit("CONT");
    reveal_strlit("STOP");
    reveal_strlit("TSTP");
    reveal_strlit("TTIN");
    reveal_strlit("TTOU");
    reveal_strlit("URG");
    reveal_strlit("XCPU");
    reveal_strlit("XFSZ");
    reveal_strlit("VTALRM");
    reveal_strlit("PROF");
    reveal_strlit("WINCH");
    reveal_strlit("IO");
    reveal_strlit("POLL");
    reveal_strlit("PWR");
    reveal_strlit("SYS");
    reveal_strlit("RTMIN");
    reveal_strlit("RTMAX");
    assert("HUP"@[1] == 'U' && "HUP"@[2] == 'P');
    assert("INT"@[1] == 'N' && "INT"@[2] == 'T');
    assert("QUIT"@[1] == 'U' && "QUIT"@[2] == 'I' && "QUIT"@[3] == 'T');
    assert("ILL"@[1] == 'L' && "ILL"@[2] == 'L');
    assert("TRAP"@[1] == 'R' && "TRAP"@[2] == 'A' && "TRAP"@[3] == 'P');
    assert("ABRT"@[1] == 'B' && "ABRT"@[2] == 'R' && "ABRT"@[3] == 'T');
    assert("IOT"@[1] == 'O' && "IOT"@[2] == 'T');
    assert("BUS"@[1] == 'U' && "BUS"@[2] == 'S');
    assert("FPE"@[1] == 'P' && "FPE"@[2] == 'E');
    assert("KILL"@[1] == 'I' && "KILL"@[2] == 'L' && "KILL"@[3] == 'L');
    assert("USR1"@[1] == 'S' && "USR1"@[2] == 'R' && "USR1"@[3] == '1');
    assert("SEGV"@[1] == 'E' && "SEGV"@[2] == 'G' && "SEGV"@[3] == 'V');
    assert("USR2"@[1] == 'S' && "USR2"@[2] == 'R' && "USR2"@[3] == '2');
    assert("PIPE"@[1] == 'I' && "PIPE"@[2] == 'P' && "PIPE"@[3] == 'E');
    assert("ALRM"@[1] == 'L' && "ALRM"@[2] == 'R' && "ALRM"@[3] == 'M');
    assert("TERM"@[1] == 'E' && "TERM"@[2] == 'R' && "TERM"@[3] == 'M');
    assert("STKFLT"@[1] == 'T' && "STKFLT"@[2] == 'K' && "STKFLT"@[3] == 'F');
    assert("CHLD"@[1] == 'H' && "CHLD"@[2] == 'L' && "CHLD"@[3] == 'D');
    assert("CLD"@[1] == 'L' && "CLD"@[2] == 'D');
    assert("CONT"@[1] == 'O' && "CONT"@[2] == 'N' && "CONT"@[3] == 'T');
    assert("STOP"@[1] == 'T' && "STOP"@[2] == 'O' && "STOP"@[3] == 'P');
    assert("TSTP"@[1] == 'S' && "TSTP"@[2] == 'T' && "TSTP"@[3] == 'P');
    assert("TTIN"@[1] == 'T' && "TTIN"@[2] == 'I' && "TTIN"@[3] == 'N');
    assert("TTOU"@[1] == 'T' && "TTOU"@[2] == 'O' && "TTOU"@[3] == 'U');
    assert("URG"@[1] == 'R' && "URG"@[2] == 'G');
    assert("XCPU"@[1] == 'C' && "XCPU"@[2] == 'P' && "XCPU"@[3] == 'U');
    assert("XFSZ"@[1] == 'F' && "XFSZ"@[2] == 'S' && "XFSZ"@[3] == 'Z');
    assert("VTALRM"@[1] == 'T' && "VTALRM"@[2] == 'A' && "VTALRM"@[3] == 'L');
    assert("PROF"@[1] == 'R' && "PROF"@[2] == 'O' && "PROF"@[3] == 'F');
    assert("WINCH"@[1] == 'I' && "WINCH"@[2] == 'N' && "WINCH"@[3] == 'C');
    assert("IO"@[1] == 'O');
    assert("POLL"@[1] == 'O' && "POLL"@[2] == 'L' && "POLL"@[3] == 'L');
    assert("PWR"@[1] == 'W' && "PWR"@[2] == 'R');
    assert("SYS"@[1] == 'Y' && "SYS"@[2] == 'S');
    assert("RTMIN"@[1] == 'T' && "RTMIN"@[2] == 'M' && "RTMIN"@[3] == 'I');
    assert("RTMAX"@[1] == 'T' && "RTMAX"@[2] == 'M' && "RTMAX"@[3] == 'A');
    assert forall|name: Seq<char>| #[trigger] spells(value, name) && name.len() > 1 && 'A' <= name[0]
        <= 'Z' && (name[0] != 'S' || name[1] != 'I') implies signal_outcome(value)
        == signal_by_name(value) && signal_name(value) == name by {
        lemma_spelled_name(value, name);
    }
}

proof fn lemma_spelled_name(value: Seq<char>, name: Seq<char>)
    requires
        spells(value, name),
        name.len() > 1,
        'A' <= name[0] <= 'Z',
        name[0] != 'S' || name[1] != 'I',
    ensures
        signal_outcome(value) == signal_by_name(value),
        signal_name(value) == name,
{
    reveal_strlit("SIG");
    let upper = upper_text(value);
    if upper == name {
        if starts_with(upper, "SIG"@) {
            assert(upper.take(3)[0] == 'S');
            assert(upper.take(3)[1] == 'I');
        }
    } else {
        assert(upper.take(3) =~= "SIG"@);
        assert(upper.skip(3) =~= name);
    }
    assert(upper[0] == ascii_upper(value[0]));
    assert(!crate::text::is_digit(value[0]));
}

/// A number is the signal itself, from 1 to 64.
pub proof fn law_numbers_stand_for_themselves(
    text: &str,
    signal: Result<u16, RuntimeError>,
)
    requires
        text@.len() > 0,
        all_digits(text@),
        call_ensures(parse_image_signal, (text,), signal),
    ensures
        match run_outcome(signal) {
            Ok(number) => number == digits_value(text@) && 1 <= number <= 64,
            Err(_) => digits_value(text@) == 0 || digits_value(text@) > 64,
        },
{
    let value = text@;
    assert forall|i: int| 0 <= i < value.len() implies '\0' <= #[trigger] value[i] <= '\u{7f}' by {
        assert(crate::text::is_digit(value[i]));
    }
}

/// Realtime signals are counted up from 34 and down from 64, and never out of
/// that range.
pub proof fn law_realtime_signals_are_counted(
    text: &str,
    count: Seq<char>,
    signal: Result<u16, RuntimeError>,
)
    requires
        count.len() > 0,
        all_digits(count),
        call_ensures(parse_image_signal, (text,), signal),
    ensures
        spells(text@, "RTMIN+"@ + count) ==> match run_outcome(signal) {
            Ok(number) => number == 34 + digits_value(count) && number <= 64,
            Err(_) => digits_value(count) > 30,
        },
        spells(text@, "RTMAX-"@ + count) ==> match run_outcome(signal) {
            Ok(number) => number == 64 - digits_value(count) && number >= 34,
            Err(_) => digits_value(count) > 30,
        },
{
    let value = text@;
    reveal_strlit("RTMIN+");
    reveal_strlit("RTMAX-");
    let up = "RTMIN+"@ + count;
    let down = "RTMAX-"@ + count;
    assert(up.take(6) =~= "RTMIN+"@);
    assert(up.skip(6) =~= count);
    assert(down.take(6) =~= "RTMAX-"@);
    assert(down.skip(6) =~= count);
    assert(down.take(6)[3] != "RTMIN+"@[3]);
    lemma_long_names_are_none(up);
    lemma_long_names_are_none(down);
    if spells(value, up) {
        lemma_spelled_name(value, up);
    }
    if spells(value, down) {
        lemma_spelled_name(value, down);
    }
}

/// No signal has a name of its own of more than six letters.
proof fn lemma_long_names_are_none(name: Seq<char>)
    requires
        name.len() > 6,
    ensures
        named_signal(name) is None,
{
    reveal_strlit("HUP");
    reveal_strlit("INT");
    reveal_strlit("QUIT");
    reveal_strlit("ILL");
    reveal_strlit("TRAP");
    reveal_strlit("ABRT");
    reveal_strlit("IOT");
    reveal_strlit("BUS");
    reveal_strlit("FPE");
    reveal_strlit("KILL");
    reveal_strlit("USR1");
    reveal_strlit("SEGV");
    reveal_strlit("USR2");
    reveal_strlit("PIPE");
    reveal_strlit("ALRM");
    reveal_strlit("TERM");
    reveal_strlit("STKFLT");
    reveal_strlit("CHLD");
    reveal_strlit("CLD");
    reveal_strlit("CONT");
    reveal_strlit("STOP");
    reveal_strlit("TSTP");
    reveal_strlit("TTIN");
    reveal_strlit("TTOU");
    reveal_strlit("URG");
    reveal_strlit("XCPU");
    reveal_strlit("XFSZ");
    reveal_strlit("VTALRM");
    reveal_strlit("PROF");
    reveal_strlit("WINCH");
    reveal_strlit("IO");
    reveal_strlit("POLL");
    reveal_strlit("PWR");
    reveal_strlit("SYS");
    reveal_strlit("RTMIN");
    reveal_strlit("RTMAX");
}

/// What is accepted is a number, one of the names, or counted from one of the
/// ends of the realtime range: nothing else spells a signal.
pub proof fn law_nothing_else_spells_a_signal(
    text: &str,
    signal: Result<u16, RuntimeError>,
)
    requires
        signal is Ok,
        call_ensures(parse_image_signal, (text,), signal),
    ensures
        ({
            ||| all_digits(text@)
            ||| spells(text@, "HUP"@)
            ||| spells(text@, "INT"@)
            ||| spells(text@, "QUIT"@)
            ||| spells(text@, "ILL"@)
            ||| spells(text@, "TRAP"@)
            ||| spells(text@, "ABRT"@)
            ||| spells(text@, "IOT"@)
            ||| spells(text@, "BUS"@)
            ||| spells(text@, "FPE"@)
            ||| spells(text@, "KILL"@)
            ||| spells(text@, "USR1"@)
            ||| spells(text@, "SEGV"@)
            ||| spells(text@, "USR2"@)
            ||| spells(text@, "PIPE"@)
            ||| spells(text@, "ALRM"@)
            ||| spells(text@, "TERM"@)
            ||| spells(text@, "STKFLT"@)
            ||| spells(text@, "CHLD"@)
            ||| spells(text@, "CLD"@)
            ||| spells(text@, "CONT"@)
            ||| spells(text@, "STOP"@)
            ||| spells(text@, "TSTP"@)
            ||| spells(text@, "TTIN"@)
            ||| spells(text@, "TTOU"@)
            ||| spells(text@, "URG"@)
            ||| spells(text@, "XCPU"@)
            ||| spells(text@, "XFSZ"@)
            ||| spells(text@, "VTALRM"@)
            ||| spells(text@, "PROF"@)
            ||| spells(text@, "WINCH"@)
            ||| spells(text@, "IO"@)
            ||| spells(text@, "POLL"@)
            ||| spells(text@, "PWR"@)
            ||| spells(text@, "SYS"@)
            ||| spells(text@, "RTMIN"@)
            ||| spells(text@, "RTMAX"@)
            ||| exists|count: Seq<char>|
                all_digits(count) && (spells(text@, #[trigger] ("RTMIN+"@ + count)) || spells(
                    text@,
                    "RTMAX-"@ + count,
                ))
        }),
{
    let value = text@;
    if !all_digits(value) {
        reveal_strlit("SIG");
        reveal_strlit("RTMIN+");
        reveal_strlit("RTMAX-");
        let upper = upper_text(value);
        let name = signal_name(value);
        if starts_with(upper, "SIG"@) {
            assert(upper =~= "SIG"@ + name);
        }
        assert(spells(value, name));
        if named_signal(name) is None {
            let count = name.skip(6);
            if starts_with(name, "RTMIN+"@) {
                assert(name =~= "RTMIN+"@ + count);
            } else {
                assert(name =~= "RTMAX-"@ + count);
                assert(spells(value, "RTMAX-"@ + count));
                let other = "RTMIN+"@ + count;
            }
        }
    }
}

/// Signals are 1 to 64, real-time ones 34 to 64, and an offset is a decimal
/// number of 16 bits.
pub proof fn law_signal_ranges(
    signal: u16,
    any: Result<u16, RuntimeError>,
    realtime: Result<u16, RuntimeError>,
    text: &[char],
    offset: Result<u16, RuntimeError>,
)
    requires
        call_ensures(valid_signal, (signal,), any),
        call_ensures(valid_realtime_signal, (signal,), realtime),
        call_ensures(parse_realtime_offset, (text,), offset),
    ensures
        any is Ok <==> 1 <= signal <= 64,
        any matches Ok(same) ==> same == signal,
        realtime is Ok <==> 34 <= signal <= 64,
        realtime matches Ok(same) ==> same == signal,
        offset is Ok <==> text@.len() > 0 && all_digits(text@) && digits_value(text@) <= 0xffff,
        offset matches Ok(value) ==> value == digits_value(text@),
{
}

} // verus!
