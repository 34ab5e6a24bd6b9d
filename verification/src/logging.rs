//! Lines of the run log.
//!
//! Every line of the log carries the local time at which it was written and
//! a tag that says where it came from. The host reads the clock and appends
//! the line to the file; what the line looks like is decided here.

use vstd::prelude::*;

verus! {

/// The part of the run log that a line belongs to.
#[derive(Clone, Copy, Debug, PartialEq, Eq)]
pub enum LogTag {
    /// A line of standard output.
    Stdout,
    /// A line of standard error.
    Stderr,
    /// A note on the process itself.
    Process,
    /// The command of a run.
    Command,
    /// A line of the standard output of the converter.
    ConverterStdout,
    /// A line of the standard error of the converter.
    ConverterStderr,
}

impl LogTag {
    /// The tag as it is written in the log.
    pub open spec fn text(self) -> Seq<char> {
        match self {
            LogTag::Stdout => "whisper:stdout"@,
            LogTag::Stderr => "whisper:stderr"@,
            LogTag::Process => "whisper"@,
            LogTag::Command => "CMD"@,
            LogTag::ConverterStdout => "ffmpeg:stdout"@,
            LogTag::ConverterStderr => "ffmpeg:stderr"@,
        }
    }

    /// The tag as it is written in the log.
    pub fn name(self) -> (s: String)
        ensures
            s@ == self.text(),
    {
        match self {
            LogTag::Stdout => "whisper:stdout".to_owned(),
            LogTag::Stderr => "whisper:stderr".to_owned(),
            LogTag::Process => "whisper".to_owned(),
            LogTag::Command => "CMD".to_owned(),
            LogTag::ConverterStdout => "ffmpeg:stdout".to_owned(),
            LogTag::ConverterStderr => "ffmpeg:stderr".to_owned(),
        }
    }
}

/// The local date and time, `offset` seconds east of UTC, at `secs` seconds
/// after the start of 1970 UTC, as chrono writes it by `pattern`; none where
/// chrono has no such time or offset, or cannot write by the pattern.
pub uninterp spec fn local_time_text(secs: i64, offset: i32, pattern: Seq<char>) -> Option<
    Seq<char>,
>;

/// The pattern by which the log writes a time: year-month-day, a space, and
/// hour:minute:second.
pub open spec fn time_pattern() -> Seq<char> {
    "%Y-%m-%d %H:%M:%S"@
}

/// Calls chrono to write a moment as local date and time:
/// `FixedOffset::east_opt` and `DateTime::from_timestamp` make the moment,
/// `DateTime::format` takes the pattern, and `DelayedFormat::write_to`
/// writes. Nothing is written where chrono reports an error. The result is
/// a function of the two numbers and the pattern alone.
#[verifier::external_body]
fn clock_text(secs: i64, offset: i32, pattern: &str) -> (text: Option<String>)
    ensures
        match text {
            Some(s) => local_time_text(secs, offset, pattern@) == Some(s@),
            None => local_time_text(secs, offset, pattern@) is None,
        },
{
    let zone = chrono::FixedOffset::east_opt(offset)?;
    let moment = chrono::DateTime::from_timestamp(secs, 0)?;
    let mut text = String::new();
    match moment.with_timezone(&zone).format(pattern).write_to(&mut text) {
        Ok(()) => Some(text),
        Err(_) => None,
    }
}

/// A line of the log: the time and the tag, each in square brackets, a
/// space, the text, and a line feed.
pub open spec fn log_line_text(time: Seq<char>, tag: Seq<char>, text: Seq<char>) -> Seq<char> {
    "["@ + time + "]["@ + tag + "] "@ + text + "\n"@
}

/// Writes a line of the log for a time that is already text.
pub fn format_log_line(time: &str, tag: &str, text: &str) -> (line: String)
    ensures
        line@ == log_line_text(time@, tag@, text@),
{
    let mut line = "[".to_owned();
    line.append(time);
    line.append("][");
    line.append(tag);
    line.append("] ");
    line.append(text);
    line.append("\n");
    line
}

/// Writes a line of the log for the moment `secs` seconds after the start
/// of 1970 UTC, in the zone `offset` seconds east of UTC. The time is written
/// as year-month-day, a space, and hour:minute:second.
///
/// `None` where the moment or the zone is out of range.
pub fn log_line_at(secs: i64, offset: i32, tag: &str, text: &str) -> (line: Option<String>)
    ensures
        match line {
            Some(l) => local_time_text(secs, offset, time_pattern()) matches Some(time) && l@
                == log_line_text(time, tag@, text@),
            None => local_time_text(secs, offset, time_pattern()) is None,
        },
{
    match clock_text(secs, offset, "%Y-%m-%d %H:%M:%S") {
        Some(time) => Some(format_log_line(time.as_str(), tag, text)),
        None => None,
    }
}

} // verus!
