//! Streams of which a bounded part is kept, and what is reported of them.

use vstd::prelude::*;
use vstd::string::*;
use vstd::utf8::*;

use crate::bytes::{append_bounded, copy_between, extend};
use crate::text::{
    decimal, decimal_text, escaped, escaped_text, join, join3, lossy_spelling, lossy_text,
};

verus! {

/// Most bytes of each stream that a failure diagnostic shows.
pub const MAXIMUM_RETAINED_PER_STREAM: usize = 8 * 1024;

/// What was kept of a stream.
#[derive(Debug, Clone, PartialEq, Eq)]
pub struct CapturedStream {
    pub bytes: Vec<u8>,
    pub truncated: bool,
    pub total_bytes: u64,
}

/// The first bytes of a stream, up to a bound.
pub open spec fn kept(stream: Seq<u8>, maximum: nat) -> Seq<u8> {
    if stream.len() <= maximum {
        stream
    } else {
        stream.take(maximum as int)
    }
}

/// A count that stops at the largest machine word.
pub open spec fn counted(length: nat) -> nat {
    if length > u64::MAX {
        u64::MAX as nat
    } else {
        length
    }
}

/// Drains a stream chunk by chunk, keeping its first bytes.
#[derive(Debug)]
pub struct Capture {
    bytes: Vec<u8>,
    total: u64,
    maximum: usize,
}

impl Capture {
    pub closed spec fn bytes(self) -> Seq<u8> {
        self.bytes@
    }

    pub closed spec fn total(self) -> nat {
        self.total as nat
    }

    pub closed spec fn maximum(self) -> nat {
        self.maximum as nat
    }

    /// Whether the capture has drained exactly the given stream.
    pub open spec fn drained(self, stream: Seq<u8>) -> bool {
        self.bytes() == kept(stream, self.maximum()) && self.total() == counted(stream.len())
    }

    pub fn new(maximum: usize) -> (capture: Capture)
        ensures
            capture.maximum() == maximum,
            capture.drained(Seq::empty()),
    {
        let capture = Capture { bytes: Vec::new(), total: 0, maximum };
        assert(capture.bytes() =~= Seq::<u8>::empty());
        capture
    }

    /// Takes the next chunk of the stream: all of it counts, and as much as
    /// still fits is kept.
    pub fn accept(&mut self, chunk: &[u8])
        ensures
            final(self).maximum() == old(self).maximum(),
            final(self).bytes() == append_bounded(
                old(self).bytes(),
                old(self).maximum(),
                chunk@,
            ),
            final(self).total() == counted(old(self).total() + chunk@.len()),
            forall|stream: Seq<u8>|
                #[trigger] old(self).drained(stream) ==> final(self).drained(stream + chunk@),
    {
        let ghost before = *self;
        let length: u64 = chunk.len() as u64;
        self.total = if self.total > u64::MAX - length {
            u64::MAX
        } else {
            self.total + length
        };
        let remaining: usize = if self.bytes.len() < self.maximum {
            self.maximum - self.bytes.len()
        } else {
            0
        };
        if chunk.len() <= remaining {
            extend(&mut self.bytes, chunk);
        } else {
            let part = copy_between(chunk, 0, remaining);
            assert(part@ =~= chunk@.take(remaining as int));
            extend(&mut self.bytes, &part);
        }
        proof {
            assert forall|stream: Seq<u8>| #[trigger] before.drained(stream) implies self.drained(
                stream + chunk@,
            ) by {
                law_capture_keeps_the_first_bytes(stream, chunk@, self.maximum());
            }
        }
    }

    /// What was kept, and whether that is all of the stream.
    pub fn finish(self) -> (captured: CapturedStream)
        ensures
            captured.bytes@ == self.bytes(),
            captured.total_bytes == self.total(),
            captured.truncated == (self.total() > self.bytes().len()),
    {
        let truncated = self.total > self.bytes.len() as u64;
        CapturedStream { bytes: self.bytes, truncated, total_bytes: self.total }
    }
}

/// Keeping what fits of each chunk keeps the first bytes of the whole stream,
/// however it was cut.
pub proof fn law_capture_keeps_the_first_bytes(stream: Seq<u8>, chunk: Seq<u8>, maximum: nat)
    ensures
        append_bounded(kept(stream, maximum), maximum, chunk) == kept(stream + chunk, maximum),
        kept(stream + chunk, maximum).len() <= maximum,
        counted(counted(stream.len()) + chunk.len()) == counted((stream + chunk).len()),
{
    assert(append_bounded(kept(stream, maximum), maximum, chunk) =~= kept(
        stream + chunk,
        maximum,
    ));
}

// ---------------------------------------------------------------------------
// Tails
// ---------------------------------------------------------------------------

/// The last bytes of a list, up to a bound.
pub open spec fn tail(bytes: Seq<u8>, maximum: nat) -> Seq<u8> {
    if bytes.len() <= maximum {
        bytes
    } else {
        bytes.skip(bytes.len() - maximum)
    }
}

/// The last bytes of a list as text.
pub fn lossy_tail(bytes: &[u8], maximum: usize) -> (text: String)
    ensures
        text@ == lossy_spelling(tail(bytes@, maximum as nat)),
{
    let start: usize = if bytes.len() <= maximum {
        0
    } else {
        bytes.len() - maximum
    };
    let part = copy_between(bytes, start, bytes.len());
    assert(part@ =~= tail(bytes@, maximum as nat));
    lossy_text(&part)
}

// ---------------------------------------------------------------------------
// Failure diagnostics
// ---------------------------------------------------------------------------

/// How one stream is reported.
pub open spec fn stream_report(role: Seq<char>, captured: CapturedStream) -> Seq<char> {
    let counted = role + "(total="@ + decimal(captured.total_bytes as nat);
    let marked = if captured.truncated {
        counted + ", capture-truncated"@
    } else {
        counted
    };
    marked + ")="@ + escaped(
        lossy_spelling(tail(captured.bytes@, MAXIMUM_RETAINED_PER_STREAM as nat)),
    )
}

/// A stream by the name it is reported under, if it was captured.
#[derive(Debug)]
pub struct NamedCapture {
    pub role: &'static str,
    pub capture: Option<CapturedStream>,
}

/// Whether a stream is reported at all: only one that carried something is.
pub open spec fn is_reported(stream: NamedCapture) -> bool {
    stream.capture matches Some(captured) && captured.total_bytes != 0
}

/// The report of every stream that carried something.
pub open spec fn diagnostics(streams: Seq<NamedCapture>) -> Seq<char>
    decreases streams.len(),
{
    if streams.len() == 0 {
        Seq::empty()
    } else {
        let before = diagnostics(streams.drop_last());
        let last = streams.last();
        if is_reported(last) {
            let report = stream_report(last.role@, last.capture->Some_0);
            if before.len() == 0 {
                report
            } else {
                before + "; "@ + report
            }
        } else {
            before
        }
    }
}

fn stream_report_text(role: &str, captured: &CapturedStream) -> (text: String)
    ensures
        text@ == stream_report(role@, *captured),
{
    let counted = join3(role, "(total=", &decimal_text(captured.total_bytes));
    let marked = if captured.truncated {
        join(&counted, ", capture-truncated")
    } else {
        counted
    };
    let retained = lossy_tail(&captured.bytes, MAXIMUM_RETAINED_PER_STREAM);
    join3(&marked, ")=", &escaped_text(&retained))
}

proof fn lemma_report_is_nonempty(role: Seq<char>, captured: CapturedStream)
    ensures
        stream_report(role, captured).len() > 0,
{
    reveal_strlit(")=");
}

/// Reports what the streams of a failed run carried: the end of each, bounded
/// and escaped.
pub fn failure_diagnostics(streams: &Vec<NamedCapture>) -> (text: String)
    ensures
        text@ == diagnostics(streams@),
{
    let ghost all = streams@;
    let mut text = String::new();
    let mut started = false;
    let mut i: usize = 0;
    assert(all.take(0) =~= Seq::<NamedCapture>::empty());
    while i < streams.len()
        invariant
            i <= streams@.len(),
            all == streams@,
            text@ == diagnostics(all.take(i as int)),
            started == (text@.len() > 0),
        decreases streams@.len() - i,
    {
        assert(all.take(i + 1).drop_last() =~= all.take(i as int));
        if let Some(captured) = &streams[i].capture {
            if captured.total_bytes != 0 {
                let report = stream_report_text(streams[i].role, captured);
                proof {
                    lemma_report_is_nonempty(streams@[i as int].role@, *captured);
                }
                text = if started {
                    join3(&text, "; ", &report)
                } else {
                    report
                };
                started = true;
            }
        }
        i += 1;
    }
    assert(all.take(i as int) =~= all);
    text
}

/// What is written to a console transcript.
pub open spec fn transcript(console: CapturedStream) -> Seq<u8> {
    if console.truncated {
        console.bytes@ + encode_utf8(
            "pocket: console capture truncated at "@ + decimal(console.bytes@.len()) + " of "@
                + decimal(console.total_bytes as nat) + " bytes\n"@,
        )
    } else {
        console.bytes@
    }
}

/// The console transcript: what was kept, and a line that says so if that is
/// not all.
pub fn console_transcript(console: &CapturedStream) -> (bytes: Vec<u8>)
    ensures
        bytes@ == transcript(*console),
{
    let mut bytes = copy_between(&console.bytes, 0, console.bytes.len());
    assert(bytes@ =~= console.bytes@);
    if console.truncated {
        let at = join3(
            "pocket: console capture truncated at ",
            &decimal_text(console.bytes.len() as u64),
            " of ",
        );
        let note = join3(&at, &decimal_text(console.total_bytes), " bytes\n");
        extend(&mut bytes, note.as_str().as_bytes());
    }
    bytes
}

/// What is kept of a stream is its beginning, as much as the limit holds; how
/// much came is counted; and it is truncated exactly where more came than was
/// kept.
pub proof fn law_capture_says_what_it_left_out(
    capture: Capture,
    stream: Seq<u8>,
    captured: CapturedStream,
)
    requires
        capture.drained(stream),
        stream.len() <= u64::MAX,
        call_ensures(Capture::finish, (capture,), captured),
    ensures
        captured.total_bytes == stream.len(),
        captured.truncated <==> stream.len() > capture.maximum(),
        captured.bytes@.len() <= capture.maximum(),
        captured.bytes@.len() <= stream.len(),
        captured.bytes@ == stream.take(captured.bytes@.len() as int),
        stream.len() <= capture.maximum() ==> captured.bytes@ == stream,
{
    assert(stream.take(stream.len() as int) =~= stream);
}

/// A report of a stream is made of at most its last 8192 bytes; one that carried
/// nothing is not reported.
pub proof fn law_report_shows_the_end(stream: NamedCapture)
    ensures
        diagnostics(seq![stream]) == match stream.capture {
            None => Seq::empty(),
            Some(captured) => if captured.total_bytes == 0 {
                Seq::empty()
            } else {
                stream.role@ + "(total="@ + decimal(captured.total_bytes as nat) + (
                if captured.truncated {
                    ", capture-truncated"@
                } else {
                    Seq::empty()
                }) + ")="@ + escaped(
                    lossy_spelling(
                        if captured.bytes@.len() <= 8192 {
                            captured.bytes@
                        } else {
                            captured.bytes@.skip(captured.bytes@.len() - 8192)
                        },
                    ),
                )
            },
        },
{
    assert(seq![stream].drop_last() =~= Seq::<NamedCapture>::empty());
    reveal_with_fuel(diagnostics, 2);
    if stream.capture is Some {
        let counted = stream.role@ + "(total="@ + decimal(
            stream.capture->Some_0.total_bytes as nat,
        );
        assert(counted + Seq::<char>::empty() =~= counted);
    }
}

/// A transcript is what the console said, with one more line where something
/// was left out.
pub proof fn law_transcript_says_what_is_missing(console: CapturedStream, bytes: Vec<u8>)
    requires
        call_ensures(console_transcript, (&console,), bytes),
    ensures
        !console.truncated ==> bytes@ == console.bytes@,
        console.truncated ==> bytes@ == console.bytes@ + encode_utf8(
            "pocket: console capture truncated at "@ + decimal(console.bytes@.len()) + " of "@
                + decimal(console.total_bytes as nat) + " bytes\n"@,
        ),
{
}

/// A capture goes on keeping the beginning and counting everything.
pub proof fn law_capture_goes_on(capture: &mut Capture, stream: Seq<u8>, chunk: &[u8], empty: Capture, maximum: usize)
    requires
        old(capture).drained(stream),
        call_ensures(Capture::accept, (capture, chunk), ()),
        call_ensures(Capture::new, (maximum,), empty),
    ensures
        final(capture).drained(stream + chunk@),
        final(capture).maximum() == old(capture).maximum(),
        empty.maximum() == maximum,
        empty.drained(Seq::empty()),
{
}

} // verus!
