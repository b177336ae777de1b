//! What is shown of a command that has run.
use vstd::prelude::*;
use vstd::utf8::{decode_utf8, valid_utf8};

use crate::std_calls::{decode_lossy, decoded, is_white_space, lossy_text};
use crate::text::{
    blank, decimal, is_blank, join, joined, lemma_joined_line_count, lemma_lines_hold_no_line_feed,
    lemma_lines_join_back, lines, lines_of, optional_text, prefixed,
    push_decimal, texts,
};

verus! {

/// How many lines of the output are shown where the command failed.
pub const TAIL_LINES: usize = 20;

/// The exit code of a command that was ended otherwise than by exiting.
pub const UNKNOWN_EXIT: i32 = 1;

/// The exit code by which the shell says that it could not execute the command.
pub const CANNOT_EXECUTE: i32 = 126;

/// The exit code by which the shell says that it did not find the command.
pub const NOT_FOUND: i32 = 127;

/// Both outputs of a command in one text.
pub open spec fn merged(stdout: Seq<char>, stderr: Seq<char>) -> Seq<char> {
    if stderr.len() == 0 {
        stdout
    } else if stdout.len() == 0 {
        stderr
    } else {
        stdout + "\n"@ + stderr
    }
}

/// The exit code that a status stands for.
pub open spec fn status_code(status: Option<i32>) -> i32 {
    match status {
        Some(code) => code,
        None => UNKNOWN_EXIT,
    }
}

/// Whether an exit code means that the command failed and no filter may stand
/// between its output and the user.
pub open spec fn is_hard_failure(exit_code: i32, filter_on_failure: bool) -> bool {
    &&& exit_code != 0
    &&& exit_code == CANNOT_EXECUTE || exit_code == NOT_FOUND || !filter_on_failure
}

/// The last items of a list, at most `count` of them.
pub open spec fn last_items<T>(items: Seq<T>, count: int) -> Seq<T> {
    if items.len() <= count {
        items
    } else {
        items.skip(items.len() - count)
    }
}

/// The last lines of an output.
pub open spec fn tail(raw: Seq<char>) -> Seq<char> {
    joined(last_items(lines(raw), TAIL_LINES as int), "\n"@)
}

/// What is shown of a command that failed.
pub open spec fn failure_report(raw: Seq<char>, exit_code: i32) -> Seq<char> {
    let head = "Command failed (exit code "@ + decimal(exit_code as int);
    if is_blank(raw) {
        head + ")."@
    } else {
        head + "):\n"@ + tail(raw)
    }
}

/// What is shown of a command whose output was filtered.
pub open spec fn filtered_report(raw: Seq<char>, exit_code: i32, filtered: Seq<char>) -> Seq<char> {
    if !is_blank(filtered) {
        filtered
    } else if exit_code == 0 {
        "ok"@
    } else {
        tail(raw)
    }
}

/// What is shown of a command, where the filter makes `filtered` of its output.
pub open spec fn report(
    raw: Seq<char>,
    exit_code: i32,
    filter_on_failure: bool,
    filtered: Seq<char>,
) -> Seq<char> {
    if is_hard_failure(exit_code, filter_on_failure) {
        failure_report(raw, exit_code)
    } else {
        filtered_report(raw, exit_code, filtered)
    }
}

/// A text with a hint on a line of its own below it, where there is a hint.
pub open spec fn hinted(text: Seq<char>, hint: Option<Seq<char>>) -> Seq<char> {
    match hint {
        Some(line) => text + "\n"@ + line,
        None => text,
    }
}

/// Merges both outputs of a command into one text.
pub fn merge_output(stdout: &str, stderr: &str) -> (raw: String)
    ensures
        raw@ == merged(stdout@, stderr@),
{
    if stderr.is_empty() {
        stdout.to_owned()
    } else if stdout.is_empty() {
        stderr.to_owned()
    } else {
        let mut raw = stdout.to_owned();
        raw.append("\n");
        raw.append(stderr);
        raw
    }
}

/// The exit code that a status stands for: the code itself, or 1 for a command
/// that was ended by a signal.
pub fn exit_code_of(status: Option<i32>) -> (exit_code: i32)
    ensures
        exit_code == status_code(status),
        status matches Some(code) ==> exit_code == code,
        status is None ==> exit_code == 1,
{
    match status {
        Some(code) => code,
        None => UNKNOWN_EXIT,
    }
}

/// Whether the output is shown raw, as that of a failed command. The two exit
/// codes of a command that never ran count as a failure in every case; any
/// other non-zero code does where the filter is not meant to see failures.
pub fn hard_failure(exit_code: i32, filter_on_failure: bool) -> (hard: bool)
    ensures
        hard == is_hard_failure(exit_code, filter_on_failure),
        hard <==> exit_code == 126 || exit_code == 127 || (exit_code != 0 && !filter_on_failure),
{
    let launch_failure = exit_code == CANNOT_EXECUTE || exit_code == NOT_FOUND;
    exit_code != 0 && (launch_failure || !filter_on_failure)
}

/// The last lines of an output, at most twenty.
pub fn raw_tail(raw: &str) -> (text: String)
    ensures
        text@ == tail(raw@),
{
    let all = lines_of(raw);
    let start: usize = if all.len() <= TAIL_LINES {
        0
    } else {
        all.len() - TAIL_LINES
    };
    let mut kept: Vec<String> = Vec::new();
    for i in start..all.len()
        invariant
            start <= all@.len(),
            kept@ == all@.subrange(start as int, i as int),
    {
        kept.push(all[i].clone());
        assert(all@.subrange(start as int, i + 1) == all@.subrange(start as int, i as int).push(
            all@[i as int],
        ));
    }
    assert(texts(kept@) == last_items(texts(all@), TAIL_LINES as int));
    join(&kept, "\n")
}

/// What is shown of a command that exited with `exit_code`. `filtered` is what
/// its filter makes of `raw`; a hard failure shows nothing of it.
pub fn final_output(raw: &str, exit_code: i32, filter_on_failure: bool, filtered: &str) -> (text:
    String)
    ensures
        text@ == report(raw@, exit_code, filter_on_failure, filtered@),
{
    if hard_failure(exit_code, filter_on_failure) {
        let mut text = "Command failed (exit code ".to_owned();
        push_decimal(&mut text, exit_code);
        if blank(raw) {
            text.append(").");
        } else {
            text.append("):\n");
            text.append(raw_tail(raw).as_str());
        }
        text
    } else if !blank(filtered) {
        filtered.to_owned()
    } else if exit_code == 0 {
        "ok".to_owned()
    } else {
        raw_tail(raw)
    }
}

/// A text with a hint on a line of its own below it, where there is a hint.
pub fn with_hint(text: &str, hint: Option<String>) -> (shown: String)
    ensures
        shown@ == hinted(text@, optional_text(hint)),
{
    let mut shown = text.to_owned();
    if let Some(line) = hint {
        shown.append("\n");
        shown.append(line.as_str());
    }
    shown
}

/// What came of a command whose output was filtered.
#[derive(Debug, PartialEq, Eq)]
pub struct Execution {
    /// Both outputs in one text.
    pub raw: String,
    pub exit_code: i32,
    /// What to show.
    pub output: String,
    /// The name that the run is recorded under.
    pub recorded_as: String,
}

/// Handles a command that has run: decodes and merges its outputs, and applies
/// `filter` unless the command failed hard. The filter need only be callable on
/// the merged output, and not at all where the failure is hard: it is then never
/// called.
pub fn exec_filtered<F: Fn(&str) -> String>(
    label: &str,
    filter: F,
    filter_on_failure: bool,
    stdout: &[u8],
    stderr: &[u8],
    status: Option<i32>,
) -> (execution: Execution)
    requires
        !is_hard_failure(status_code(status), filter_on_failure) ==> forall|raw: &str|
            raw@ == merged(decoded(stdout@), decoded(stderr@)) ==> #[trigger] filter.requires(
                (raw,),
            ),
    ensures
        execution.raw@ == merged(decoded(stdout@), decoded(stderr@)),
        execution.raw@.len() == 0 <==> stdout@.len() == 0 && stderr@.len() == 0,
        execution.exit_code == status_code(status),
        status matches Some(code) ==> execution.exit_code == code,
        status is None ==> execution.exit_code == 1,
        execution.recorded_as@ == "otk "@ + label@,
        is_hard_failure(execution.exit_code, filter_on_failure) ==> execution.output@
            == failure_report(execution.raw@, execution.exit_code),
        !is_hard_failure(execution.exit_code, filter_on_failure) ==> exists|
            raw: &str,
            filtered: String,
        |
            {
                &&& raw@ == execution.raw@
                &&& #[trigger] filter.ensures((raw,), filtered)
                &&& execution.output@ == filtered_report(
                    execution.raw@,
                    execution.exit_code,
                    filtered@,
                )
            },
{
    let raw = merge_output(decode_lossy(stdout).as_str(), decode_lossy(stderr).as_str());
    let exit_code = exit_code_of(status);
    let recorded_as = prefixed("otk ", label);
    let output = if hard_failure(exit_code, filter_on_failure) {
        final_output(raw.as_str(), exit_code, filter_on_failure, "")
    } else {
        let filtered = filter(raw.as_str());
        final_output(raw.as_str(), exit_code, filter_on_failure, filtered.as_str())
    };
    Execution { raw, exit_code, output, recorded_as }
}

/// What came of a command that was run without filtering.
#[derive(Debug, PartialEq, Eq)]
pub struct ProxyOutput {
    pub stdout: String,
    pub stderr: String,
    pub exit_code: i32,
}

/// Handles a command that was run without filtering: both outputs are passed on
/// as text, and the exit code is kept.
pub fn proxy_output(stdout: &[u8], stderr: &[u8], status: Option<i32>) -> (output: ProxyOutput)
    ensures
        output.stdout@ == decoded(stdout@),
        output.stderr@ == decoded(stderr@),
        output.exit_code == status_code(status),
        status matches Some(code) ==> output.exit_code == code,
        status is None ==> output.exit_code == 1,
{
    ProxyOutput {
        stdout: decode_lossy(stdout),
        stderr: decode_lossy(stderr),
        exit_code: exit_code_of(status),
    }
}

/// The message for a command that could not be started, and why.
pub fn execute_error(command: &str, reason: &str) -> (message: String)
    ensures
        message@ == "Failed to execute '"@ + command@ + "': "@ + reason@,
{
    let mut message = "Failed to execute '".to_owned();
    message.append(command);
    message.append("': ");
    message.append(reason);
    message
}

/// Both outputs stand whole in the merged text, the standard output first.
pub proof fn law_merging_keeps_both_outputs(stdout: Seq<char>, stderr: Seq<char>)
    ensures
        stdout.is_prefix_of(merged(stdout, stderr)),
        stderr.is_suffix_of(merged(stdout, stderr)),
{
    let raw = merged(stdout, stderr);
    assert(stdout == raw.subrange(0, stdout.len() as int));
    assert(stderr == raw.subrange(raw.len() - stderr.len(), raw.len() as int));
}

/// A hard failure shows the same whatever the filter would have made of the
/// output, and says that the command failed: no filter can pass a failure off
/// as a success.
pub proof fn law_filter_cannot_mask_hard_failure(
    raw: Seq<char>,
    exit_code: i32,
    filter_on_failure: bool,
    filtered: Seq<char>,
    other: Seq<char>,
)
    requires
        is_hard_failure(exit_code, filter_on_failure),
    ensures
        report(raw, exit_code, filter_on_failure, filtered) == report(
            raw,
            exit_code,
            filter_on_failure,
            other,
        ),
        ("Command failed (exit code "@ + decimal(exit_code as int)).is_prefix_of(
            report(raw, exit_code, filter_on_failure, filtered),
        ),
{
}

/// A command that could not be executed or was not found is a hard failure,
/// also where the filter is meant to see failures.
pub proof fn law_launch_failure_is_always_hard(filter_on_failure: bool)
    ensures
        is_hard_failure(CANNOT_EXECUTE, filter_on_failure),
        is_hard_failure(NOT_FOUND, filter_on_failure),
{
}

/// Where the filter is not meant to see failures, a command fails hard just when
/// its exit code is not zero.
pub proof fn law_without_leave_any_nonzero_is_hard(exit_code: i32)
    ensures
        is_hard_failure(exit_code, false) <==> exit_code != 0,
{
}

/// A successful command always shows something, and so does one that failed hard.
pub proof fn law_report_is_not_blank(
    raw: Seq<char>,
    exit_code: i32,
    filter_on_failure: bool,
    filtered: Seq<char>,
)
    requires
        exit_code == 0 || is_hard_failure(exit_code, filter_on_failure),
    ensures
        !is_blank(report(raw, exit_code, filter_on_failure, filtered)),
{
    let shown = report(raw, exit_code, filter_on_failure, filtered);
    reveal_strlit("ok");
    reveal_strlit("Command failed (exit code ");
    if is_hard_failure(exit_code, filter_on_failure) {
        assert(shown[0] == 'C');
        assert(!is_white_space(shown[0]));
    } else if is_blank(filtered) {
        assert(shown[0] == 'o');
        assert(!is_white_space(shown[0]));
    }
}

/// What the filter makes of the output is shown unchanged, unless it is blank or
/// the command failed hard.
pub proof fn law_filtered_output_is_shown_unchanged(
    raw: Seq<char>,
    exit_code: i32,
    filter_on_failure: bool,
    filtered: Seq<char>,
)
    requires
        !is_hard_failure(exit_code, filter_on_failure),
        !is_blank(filtered),
    ensures
        report(raw, exit_code, filter_on_failure, filtered) == filtered,
{
}

/// The tail of an output has at most as many lines as are shown of a failure.
pub proof fn law_tail_is_short(raw: Seq<char>)
    ensures
        lines(tail(raw)).len() <= TAIL_LINES,
{
    let kept = last_items(lines(raw), TAIL_LINES as int);
    reveal_strlit("\n");
    assert("\n"@ == seq!['\n']);
    lemma_lines_hold_no_line_feed(raw);
    lemma_joined_line_count(kept);
}

/// An output of no more lines than are shown, without carriage returns before
/// line feeds and without a line feed at its end, is its own tail.
pub proof fn law_short_output_is_its_own_tail(raw: Seq<char>)
    requires
        lines(raw).len() <= TAIL_LINES,
        forall|i: int| 0 <= i < raw.len() - 1 && raw[i] == '\r' ==> #[trigger] raw[i + 1] != '\n',
        raw.len() > 0 ==> raw.last() != '\n',
    ensures
        tail(raw) == raw,
{
    reveal_strlit("\n");
    assert("\n"@ == seq!['\n']);
    lemma_lines_join_back(raw);
}

/// The outputs are merged with one line feed between them, and without it where
/// one of them is empty.
pub proof fn law_merging_puts_one_line_feed_between(stdout: Seq<char>, stderr: Seq<char>)
    ensures
        stdout.len() == 0 ==> merged(stdout, stderr) == stderr,
        stderr.len() == 0 ==> merged(stdout, stderr) == stdout,
        stdout.len() > 0 && stderr.len() > 0 ==> merged(stdout, stderr) == stdout + seq!['\n']
            + stderr,
{
    reveal_strlit("\n");
    assert("\n"@ == seq!['\n']);
    if stdout.len() == 0 && stderr.len() == 0 {
        assert(stdout == stderr);
    }
}

/// Bytes are read as the text that they encode, or lossily where they encode none.
pub proof fn law_valid_bytes_are_read_as_their_text(bytes: Seq<u8>)
    ensures
        valid_utf8(bytes) ==> decoded(bytes) == decode_utf8(bytes),
        !valid_utf8(bytes) ==> decoded(bytes) == lossy_text(bytes),
{
}

/// The exit code is the one that the command exited with, whatever it is, and 1
/// where it did not exit by itself. It is 0 only for a command that exited with 0.
pub proof fn law_exit_code_is_preserved(status: Option<i32>)
    ensures
        status matches Some(code) ==> status_code(status) == code,
        status is None ==> status_code(status) == 1,
        status_code(status) == 0 <==> status == Some(0i32),
{
}

/// A failure is hard just when the exit code is 126 or 127, or is not zero and
/// the filter is not meant to see failures.
pub proof fn law_hard_failures_are_told_by_exit_code(exit_code: i32, filter_on_failure: bool)
    ensures
        is_hard_failure(exit_code, filter_on_failure) <==> exit_code == 126 || exit_code == 127 || (
        exit_code != 0 && !filter_on_failure),
{
}

/// The tail is all lines where there are at most twenty, and otherwise what
/// follows all but the last twenty of them.
pub proof fn law_tail_holds_the_last_twenty_lines(raw: Seq<char>)
    ensures
        lines(raw).len() <= 20 ==> tail(raw) == joined(lines(raw), seq!['\n']),
        lines(raw).len() > 20 ==> tail(raw) == joined(
            lines(raw).subrange(lines(raw).len() - 20, lines(raw).len() as int),
            seq!['\n'],
        ),
{
    reveal_strlit("\n");
    assert("\n"@ == seq!['\n']);
    if lines(raw).len() > 20 {
        assert(lines(raw).skip(lines(raw).len() - 20) == lines(raw).subrange(
            lines(raw).len() - 20,
            lines(raw).len() as int,
        ));
    }
}

/// A hard failure whose output is not blank always shows the tail of the output,
/// below the exit code; one whose output is blank shows the exit code alone.
pub proof fn law_hard_failure_shows_the_tail(
    raw: Seq<char>,
    exit_code: i32,
    filter_on_failure: bool,
    filtered: Seq<char>,
)
    requires
        is_hard_failure(exit_code, filter_on_failure),
    ensures
        !is_blank(raw) ==> tail(raw).is_suffix_of(
            report(raw, exit_code, filter_on_failure, filtered),
        ),
        !is_blank(raw) ==> report(raw, exit_code, filter_on_failure, filtered)
            == "Command failed (exit code "@ + decimal(exit_code as int) + "):\n"@ + tail(raw),
        is_blank(raw) ==> report(raw, exit_code, filter_on_failure, filtered)
            == "Command failed (exit code "@ + decimal(exit_code as int) + ")."@,
        failure_report(raw, exit_code) == report(raw, exit_code, filter_on_failure, filtered),
{
    let shown = report(raw, exit_code, filter_on_failure, filtered);
    if !is_blank(raw) {
        assert(tail(raw) == shown.subrange(shown.len() - tail(raw).len(), shown.len() as int));
    }
}

/// Where the failure is not hard, a blank result of the filter is replaced by
/// `ok` for a success and by the tail of the output for a failure; any other
/// result is what is shown.
pub proof fn law_blank_results_are_replaced(
    raw: Seq<char>,
    exit_code: i32,
    filter_on_failure: bool,
    filtered: Seq<char>,
)
    requires
        !is_hard_failure(exit_code, filter_on_failure),
    ensures
        !is_blank(filtered) ==> report(raw, exit_code, filter_on_failure, filtered) == filtered,
        is_blank(filtered) && exit_code == 0 ==> report(raw, exit_code, filter_on_failure, filtered)
            == "ok"@,
        is_blank(filtered) && exit_code != 0 ==> report(raw, exit_code, filter_on_failure, filtered)
            == tail(raw),
        filtered_report(raw, exit_code, filtered) == report(
            raw,
            exit_code,
            filter_on_failure,
            filtered,
        ),
{
}

/// A hint stands below the text, behind one line feed; without a hint the text
/// stays as it is.
pub proof fn law_hint_stands_below(text: Seq<char>, hint: Option<Seq<char>>)
    ensures
        hint is None ==> hinted(text, hint) == text,
        hint matches Some(line) ==> hinted(text, hint) == text + seq!['\n'] + line,
{
    reveal_strlit("\n");
    assert("\n"@ == seq!['\n']);
}

}
