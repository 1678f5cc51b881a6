//! Viewing a log: what `gzip` says of the file, which of its lines are shown,
//! from the last to the first, and the steps from the file to the pager.

use vstd::prelude::*;
use vstd::utf8::{decode_utf8, valid_utf8};
use crate::apply::{utf8_lossy, CommandOutput};
use crate::order::texts;

verus! {

/// Whether `part` occurs in `text` as a run of characters.
pub open spec fn contains_part(text: Seq<char>, part: Seq<char>) -> bool {
    exists|i: int| 0 <= i <= text.len() - part.len() && #[trigger] text.subrange(i, i + part.len()) == part
}

/// How many characters of `text` stand before its first newline, or how many
/// it has where it has none.
pub open spec fn line_length(text: Seq<char>) -> nat
    decreases text.len(),
{
    if text.len() == 0 || text[0] == '\n' {
        0
    } else {
        1 + line_length(text.drop_first())
    }
}

/// `line` without the carriage return at its end, if it has one there.
pub open spec fn without_cr(line: Seq<char>) -> Seq<char> {
    if line.len() > 0 && line.last() == '\r' {
        line.drop_last()
    } else {
        line
    }
}

/// The lines of `text`, as `str::lines` documents them. A line ends at a
/// newline, or at a carriage return that a newline follows; neither is part
/// of the line. What follows the last newline is a line too, as it stands,
/// unless nothing follows it.
pub open spec fn text_lines(text: Seq<char>) -> Seq<Seq<char>>
    decreases text.len(),
{
    let n = line_length(text) as int;
    if text.len() == 0 {
        Seq::empty()
    } else if n >= text.len() {
        seq![text]
    } else {
        seq![without_cr(text.take(n))] + text_lines(text.skip(n + 1))
    }
}

/// Whether `part` occurs in `text`, by `str::contains`, which looks for a
/// sub-slice of `text` that equals `part`.
#[verifier::external_body]
fn has_part(text: &str, part: &str) -> (r: bool)
    ensures
        r == contains_part(text@, part@),
{
    text.contains(part)
}

/// Splits a text with `str::lines`: the lines are cut as that function
/// documents, which `text_lines` writes down.
#[verifier::external_body]
fn split_lines(text: &str) -> (lines: Vec<String>)
    ensures
        texts(lines@) == text_lines(text@),
{
    text.lines().map(String::from).collect()
}

/// Whether `line` holds one of the texts of `ignore`.
pub open spec fn ignored(line: Seq<char>, ignore: Seq<Seq<char>>) -> bool {
    exists|k: int| 0 <= k < ignore.len() && contains_part(line, #[trigger] ignore[k])
}

/// The lines of `lines` that hold no text of `ignore`, the last one first.
pub open spec fn shown(lines: Seq<Seq<char>>, ignore: Seq<Seq<char>>) -> Seq<Seq<char>>
    decreases lines.len(),
{
    if lines.len() == 0 {
        Seq::empty()
    } else if ignored(lines.last(), ignore) {
        shown(lines.drop_last(), ignore)
    } else {
        seq![lines.last()] + shown(lines.drop_last(), ignore)
    }
}

/// Whether `line` holds one of the texts of `ignore`.
pub fn is_ignored(line: &str, ignore: &Vec<String>) -> (r: bool)
    ensures
        r == ignored(line@, texts(ignore@)),
{
    let mut k: usize = 0;
    while k < ignore.len()
        invariant
            k <= ignore@.len(),
            forall|j: int| 0 <= j < k ==> !contains_part(line@, #[trigger] texts(ignore@)[j]),
        decreases ignore@.len() - k,
    {
        if has_part(line, ignore[k].as_str()) {
            assert(contains_part(line@, texts(ignore@)[k as int]));
            return true;
        }
        k += 1;
    }
    false
}

/// The lines to show of a log given line by line: those that hold no text of
/// `ignore`, the last one first.
pub fn visible_lines(lines: &Vec<String>, ignore: &Vec<String>) -> (r: Vec<String>)
    ensures
        texts(r@) == shown(texts(lines@), texts(ignore@)),
{
    let mut r: Vec<String> = Vec::new();
    let mut i: usize = lines.len();
    proof {
        assert(texts(lines@).take(i as int) =~= texts(lines@));
        assert(texts(r@) =~= Seq::empty());
    }
    while i > 0
        invariant
            i <= lines@.len(),
            texts(r@) + shown(texts(lines@).take(i as int), texts(ignore@)) == shown(
                texts(lines@),
                texts(ignore@),
            ),
        decreases i,
    {
        let ghost head = texts(lines@).take(i as int);
        let ghost before = texts(r@);
        i -= 1;
        proof {
            assert(head.drop_last() =~= texts(lines@).take(i as int));
            assert(head.last() == lines@[i as int]@);
        }
        if !is_ignored(lines[i].as_str(), ignore) {
            r.push(lines[i].clone());
            proof {
                assert(texts(r@) =~= before + seq![lines@[i as int]@]);
                let rest = shown(texts(lines@).take(i as int), texts(ignore@));
                assert(texts(r@) + rest =~= before + (seq![lines@[i as int]@] + rest));
            }
        }
    }
    proof {
        assert(texts(lines@).take(0) =~= Seq::empty());
        assert(texts(r@) + Seq::<Seq<char>>::empty() =~= texts(r@));
    }
    r
}

/// The lines to show of a log: its lines that hold no text of `ignore`, the
/// last one first.
pub fn cli_pager(log: &str, ignore: &Vec<String>) -> (r: Vec<String>)
    ensures
        texts(r@) == shown(text_lines(log@), texts(ignore@)),
{
    let lines = split_lines(log);
    visible_lines(&lines, ignore)
}

/// Whether the output of `gzip -vt` says that the tested file is compressed:
/// it does unless what was written to standard error holds the word NOT.
pub fn is_gzip(output: &CommandOutput) -> (r: bool)
    ensures
        r == !contains_part(utf8_lossy(output.stderr@), "NOT"@),
        valid_utf8(output.stderr@) ==> r == !contains_part(decode_utf8(output.stderr@), "NOT"@),
{
    let said = crate::apply::lossy_text(output.stderr.as_slice());
    !has_part(said.as_str(), "NOT")
}

/// What the caller is asked to do next for the log file to be viewed.
#[derive(Debug, PartialEq, Eq)]
pub enum LogAction {
    /// Find out whether the file exists.
    Probe,
    /// Run the gzip test on the file.
    TestGzip,
    /// Read the file as text, through a gzip decoder if `gzip` says so.
    Read { gzip: bool },
    /// Show the lines in the pager.
    Page(Vec<String>),
}

/// What came of an action.
#[derive(Debug, PartialEq, Eq)]
pub enum LogEvent {
    /// The answer to the probe.
    Exists(bool),
    /// What the gzip test put out.
    Tested(CommandOutput),
    /// The text of the file.
    Read(String),
    /// The pager was closed.
    Paged,
    /// The action failed.
    Failed(String),
}

/// Where the viewing of a log stands: which answer it waits for.
#[derive(Clone, Copy, Debug, PartialEq, Eq)]
pub enum LogState {
    Probing,
    Testing,
    Reading,
    Paging,
}

/// How the viewing of a log ended.
#[derive(Debug, PartialEq, Eq)]
pub enum Viewed {
    /// The log was shown.
    Shown,
    /// There is no such file: nothing was shown.
    NotFound,
    /// An action failed; the text is its own.
    Failed(String),
    /// An event was reported that answers no action asked for.
    OutOfTurn,
}

/// One step of the viewing of a log.
#[derive(Debug, PartialEq, Eq)]
pub enum LogStep {
    /// The caller carries out the action and reports to the state.
    Next(LogState, LogAction),
    /// The viewing is over.
    Finished(Viewed),
}

/// Whether `step` is the step that follows when `event` is reported in
/// `state`, with `ignore` the texts whose lines are left out. A file that is
/// not there is passed over; one that is there is read as the gzip test says,
/// and its lines are paged as `shown` gives them.
pub open spec fn log_follows(
    state: LogState,
    event: LogEvent,
    ignore: Seq<Seq<char>>,
    step: LogStep,
) -> bool {
    match (state, event) {
        (LogState::Probing, LogEvent::Exists(true)) => step == LogStep::Next(
            LogState::Testing,
            LogAction::TestGzip,
        ),
        (LogState::Probing, LogEvent::Exists(false)) => step == LogStep::Finished(Viewed::NotFound),
        (LogState::Testing, LogEvent::Tested(output)) => step == LogStep::Next(
            LogState::Reading,
            LogAction::Read { gzip: !contains_part(utf8_lossy(output.stderr@), "NOT"@) },
        ),
        (LogState::Reading, LogEvent::Read(text)) => {
            &&& step matches LogStep::Next(LogState::Paging, LogAction::Page(lines))
            &&& texts(lines@) == shown(text_lines(text@), ignore)
        },
        (LogState::Paging, LogEvent::Paged) => step == LogStep::Finished(Viewed::Shown),
        (_, LogEvent::Failed(message)) => step == LogStep::Finished(Viewed::Failed(message)),
        (_, _) => step == LogStep::Finished(Viewed::OutOfTurn),
    }
}

/// Starts the viewing of a log file: says what is to be done first.
pub fn view_log_file() -> (step: LogStep)
    ensures
        step == LogStep::Next(LogState::Probing, LogAction::Probe),
{
    LogStep::Next(LogState::Probing, LogAction::Probe)
}

impl LogState {
    /// Takes up the viewing with what came of the action last asked for.
    pub fn resume(self, event: LogEvent, ignore: &Vec<String>) -> (step: LogStep)
        ensures
            log_follows(self, event, texts(ignore@), step),
    {
        match event {
            LogEvent::Failed(message) => LogStep::Finished(Viewed::Failed(message)),
            LogEvent::Exists(found) => match self {
                LogState::Probing => if found {
                    LogStep::Next(LogState::Testing, LogAction::TestGzip)
                } else {
                    LogStep::Finished(Viewed::NotFound)
                },
                _ => LogStep::Finished(Viewed::OutOfTurn),
            },
            LogEvent::Tested(output) => match self {
                LogState::Testing => LogStep::Next(
                    LogState::Reading,
                    LogAction::Read { gzip: is_gzip(&output) },
                ),
                _ => LogStep::Finished(Viewed::OutOfTurn),
            },
            LogEvent::Read(text) => match self {
                LogState::Reading => LogStep::Next(
                    LogState::Paging,
                    LogAction::Page(cli_pager(text.as_str(), ignore)),
                ),
                _ => LogStep::Finished(Viewed::OutOfTurn),
            },
            LogEvent::Paged => match self {
                LogState::Paging => LogStep::Finished(Viewed::Shown),
                _ => LogStep::Finished(Viewed::OutOfTurn),
            },
        }
    }
}

} // verus!
