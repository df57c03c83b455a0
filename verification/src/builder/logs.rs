//! The bounded log of a build.

use vstd::prelude::*;
use vstd::string::*;
use vstd::utf8::*;

use crate::bytes::{append_bounded, copy_between, extend};
use crate::capture::CapturedStream;
use crate::text::{decimal, decimal_text, join3};

verus! {

/// What one stage of a build wrote.
#[derive(Debug, Clone)]
pub struct StageLog {
    pub stage: &'static str,
    pub stdout: CapturedStream,
    pub stderr: CapturedStream,
}

/// Appends as much of the bytes as the bound leaves room for.
pub fn append_log(output: &mut Vec<u8>, maximum: usize, bytes: &[u8])
    ensures
        final(output)@ == append_bounded(old(output)@, maximum as nat, bytes@),
{
    let remaining: usize = if output.len() < maximum {
        maximum - output.len()
    } else {
        0
    };
    if bytes.len() <= remaining {
        extend(output, bytes);
    } else {
        let part = copy_between(bytes, 0, remaining);
        assert(part@ =~= bytes@.take(remaining as int));
        extend(output, &part);
    }
}

pub open spec fn bool_text(value: bool) -> Seq<char> {
    if value {
        "true"@
    } else {
        "false"@
    }
}

/// The line in front of a captured stream.
pub open spec fn log_header(
    stage: Seq<char>,
    stream: Seq<char>,
    captured: CapturedStream,
) -> Seq<char> {
    "== "@ + stage + " "@ + stream + " total="@ + decimal(captured.total_bytes as nat)
        + " retained="@ + decimal(captured.bytes@.len()) + " truncated="@ + bool_text(
        captured.truncated,
    ) + " ==\n"@
}

fn log_header_text(stage: &str, stream: &str, captured: &CapturedStream) -> (text: String)
    ensures
        text@ == log_header(stage@, stream@, *captured),
{
    let truncated = if captured.truncated {
        "true"
    } else {
        "false"
    };
    let named = join3(&join3("== ", stage, " "), stream, " total=");
    let counted = join3(&named, &decimal_text(captured.total_bytes), " retained=");
    let retained = join3(&counted, &decimal_text(captured.bytes.len() as u64), " truncated=");
    join3(&retained, truncated, " ==\n")
}

/// The log after one captured stream.
pub open spec fn log_stream(
    output: Seq<u8>,
    maximum: nat,
    stage: Seq<char>,
    stream: Seq<char>,
    captured: CapturedStream,
) -> Seq<u8> {
    append_bounded(
        append_bounded(
            append_bounded(output, maximum, encode_utf8(log_header(stage, stream, captured))),
            maximum,
            captured.bytes@,
        ),
        maximum,
        seq![10u8],
    )
}

/// The log of all stages.
pub open spec fn build_log(stages: Seq<StageLog>, maximum: nat) -> Seq<u8>
    decreases stages.len(),
{
    if stages.len() == 0 {
        Seq::empty()
    } else {
        let last = stages.last();
        let before = build_log(stages.drop_last(), maximum);
        log_stream(
            log_stream(before, maximum, last.stage@, "stdout"@, last.stdout),
            maximum,
            last.stage@,
            "stderr"@,
            last.stderr,
        )
    }
}

fn append_stream(
    output: &mut Vec<u8>,
    maximum: usize,
    stage: &str,
    stream: &str,
    captured: &CapturedStream,
)
    ensures
        final(output)@ == log_stream(old(output)@, maximum as nat, stage@, stream@, *captured),
{
    let header = log_header_text(stage, stream, captured);
    append_log(output, maximum, header.as_str().as_bytes());
    append_log(output, maximum, &captured.bytes);
    let newline: Vec<u8> = vec![10u8];
    assert(newline@ =~= seq![10u8]);
    append_log(output, maximum, &newline);
}

/// The log of a build: both streams of every stage, cut at the bound.
pub fn encode_build_log(stages: &Vec<StageLog>, maximum: usize) -> (output: Vec<u8>)
    ensures
        output@ == build_log(stages@, maximum as nat),
{
    let ghost all = stages@;
    let mut output: Vec<u8> = Vec::new();
    let mut i: usize = 0;
    assert(all.take(0) =~= Seq::<StageLog>::empty());
    while i < stages.len()
        invariant
            i <= stages@.len(),
            all == stages@,
            output@ == build_log(all.take(i as int), maximum as nat),
        decreases stages@.len() - i,
    {
        assert(all.take(i + 1).drop_last() =~= all.take(i as int));
        let stage = &stages[i];
        append_stream(&mut output, maximum, stage.stage, "stdout", &stage.stdout);
        append_stream(&mut output, maximum, stage.stage, "stderr", &stage.stderr);
        i += 1;
    }
    assert(all.take(i as int) =~= all);
    output
}

/// A build log never exceeds its bound, and a later stage never changes what an
/// earlier one wrote.
pub proof fn law_build_log_is_bounded(stages: Seq<StageLog>, maximum: nat)
    ensures
        build_log(stages, maximum).len() <= maximum,
        stages.len() > 0 ==> build_log(stages.drop_last(), maximum).len() <= build_log(
            stages,
            maximum,
        ).len() && build_log(stages, maximum).take(
            build_log(stages.drop_last(), maximum).len() as int,
        ) == build_log(stages.drop_last(), maximum),
    decreases stages.len(),
{
    if stages.len() > 0 {
        let last = stages.last();
        let before = build_log(stages.drop_last(), maximum);
        law_build_log_is_bounded(stages.drop_last(), maximum);
        lemma_stream_extends(before, maximum, last.stage@, "stdout"@, last.stdout);
        let middle = log_stream(before, maximum, last.stage@, "stdout"@, last.stdout);
        lemma_stream_extends(middle, maximum, last.stage@, "stderr"@, last.stderr);
        let after = build_log(stages, maximum);
        assert(after.take(before.len() as int) =~= after.take(middle.len() as int).take(
            before.len() as int,
        ));
    }
}

proof fn lemma_append_extends(before: Seq<u8>, maximum: nat, more: Seq<u8>)
    requires
        before.len() <= maximum,
    ensures
        before.len() <= append_bounded(before, maximum, more).len() <= maximum,
        append_bounded(before, maximum, more).take(before.len() as int) == before,
{
    assert(append_bounded(before, maximum, more).take(before.len() as int) =~= before);
}

proof fn lemma_stream_extends(
    before: Seq<u8>,
    maximum: nat,
    stage: Seq<char>,
    stream: Seq<char>,
    captured: CapturedStream,
)
    requires
        before.len() <= maximum,
    ensures
        before.len() <= log_stream(before, maximum, stage, stream, captured).len() <= maximum,
        log_stream(before, maximum, stage, stream, captured).take(before.len() as int) == before,
{
    let header = encode_utf8(log_header(stage, stream, captured));
    let first = append_bounded(before, maximum, header);
    let second = append_bounded(first, maximum, captured.bytes@);
    let third = append_bounded(second, maximum, seq![10u8]);
    lemma_append_extends(before, maximum, header);
    lemma_append_extends(first, maximum, captured.bytes@);
    lemma_append_extends(second, maximum, seq![10u8]);
    assert(third.take(before.len() as int) =~= third.take(second.len() as int).take(
        first.len() as int,
    ).take(before.len() as int));
}

/// What a stage adds to a log with room: a line on each stream, what was kept of
/// it and a line feed, the standard output first.
pub proof fn law_log_tells_each_stage(stages: Seq<StageLog>, stage: StageLog, maximum: nat)
    requires
        ({
            let before = build_log(stages, maximum);
            before.len() + encode_utf8(log_header(stage.stage@, "stdout"@, stage.stdout)).len()
                + stage.stdout.bytes@.len() + 1 + encode_utf8(
                log_header(stage.stage@, "stderr"@, stage.stderr),
            ).len() + stage.stderr.bytes@.len() + 1 <= maximum
        }),
    ensures
        build_log(stages.push(stage), maximum) == build_log(stages, maximum) + encode_utf8(
            log_header(stage.stage@, "stdout"@, stage.stdout),
        ) + stage.stdout.bytes@ + seq![10u8] + encode_utf8(
            log_header(stage.stage@, "stderr"@, stage.stderr),
        ) + stage.stderr.bytes@ + seq![10u8],
{
    assert(stages.push(stage).drop_last() =~= stages);
}

/// The line on a stream counts what came and what was kept, and says whether
/// that is less.
pub proof fn law_log_line_counts_the_stream(
    stage: Seq<char>,
    stream: Seq<char>,
    captured: CapturedStream,
)
    ensures
        log_header(stage, stream, captured) == "== "@ + stage + " "@ + stream + " total="@
            + decimal(captured.total_bytes as nat) + " retained="@ + decimal(captured.bytes@.len())
            + " truncated="@ + (if captured.truncated {
            "true"@
        } else {
            "false"@
        }) + " ==\n"@,
{
}

/// A log is what its stages add to it, in their order.
pub proof fn law_log_is_that_of_its_stages(stages: Vec<StageLog>, maximum: usize, output: Vec<u8>)
    requires
        call_ensures(encode_build_log, (&stages, maximum), output),
    ensures
        output@ == build_log(stages@, maximum as nat),
        output@.len() <= maximum,
        stages@.len() == 0 ==> output@.len() == 0,
{
    law_build_log_is_bounded(stages@, maximum as nat);
}

} // verus!
