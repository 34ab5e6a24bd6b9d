//! The stream processor: from what a running process sends to what the host
//! is to do about it.
//!
//! A process sends chunks of bytes on its two output streams and, at last,
//! the way it ended. The processor decodes each chunk, takes it apart into
//! lines, reads progress from them, and answers with a list of actions for
//! the host to carry out in order: lines for the log of the run, events for
//! the user interface, and the end of the stream for the supervisor.
//!
//! Whether an event may still be sent is not decided here. A job may have
//! been cancelled while its process still writes; the host asks the
//! supervisor before it sends an event, and the supervisor accepts none of
//! a job that no longer runs.

use vstd::prelude::*;
use vstd::utf8::{decode_utf8, valid_utf8};
use crate::decimal::{decimal_digits, push_decimal};
use crate::logging::LogTag;
use crate::progress::{
    percent_thousandths, read_percentage, read_segment, segment_millis, ProgressSample,
};
use crate::supervisor::{StreamEnd, StreamEndView};
use crate::text::{
    chars_of, contains_sub, find_char, find_sub, first_index, is_first_index, lemma_first_index,
    lemma_first_index_unique, matches_at, occurs_at, string_of, sub_vec, trim_bounds, trimmed,
};

verus! {

/// The output stream that a line came on.
#[derive(Clone, Copy, Debug, PartialEq, Eq)]
pub enum Origin {
    Stdout,
    Stderr,
}

/// One line of decoded output.
#[derive(Clone, Debug, PartialEq, Eq)]
pub struct RawLine {
    pub origin: Origin,
    pub text: String,
}

/// What a running process sends.
#[derive(Clone, Debug, PartialEq, Eq)]
pub enum ProcessEvent {
    /// Bytes written to standard output.
    Stdout(Vec<u8>),
    /// Bytes written to standard error.
    Stderr(Vec<u8>),
    /// The stream failed, for the reason given.
    Error(String),
    /// The process ended.
    Terminated { code: Option<i32>, signal: Option<i32> },
    /// Anything else.
    Other,
}

/// One thing for the host to do.
#[derive(Clone, Debug, PartialEq, Eq)]
pub enum Action {
    /// Append a line to the log of the run.
    Log { tag: LogTag, text: String },
    /// Emit a progress event.
    Progress(ProgressSample),
    /// Emit a line of output.
    Output(String),
    /// Emit a line of error output.
    Error(String),
    /// Tell the supervisor that the stream has ended, and stop reading.
    Finish(StreamEnd),
}

/// An action, with its text as a sequence of characters.
pub enum ActionView {
    Log { tag: LogTag, text: Seq<char> },
    Progress(ProgressSample),
    Output(Seq<char>),
    Error(Seq<char>),
    Finish(StreamEndView),
}

impl View for Action {
    type V = ActionView;

    open spec fn view(&self) -> ActionView {
        match *self {
            Action::Log { tag, text } => ActionView::Log { tag, text: text@ },
            Action::Progress(sample) => ActionView::Progress(sample),
            Action::Output(text) => ActionView::Output(text@),
            Action::Error(text) => ActionView::Error(text@),
            Action::Finish(end) => ActionView::Finish(end@),
        }
    }
}

impl DeepView for Action {
    type V = ActionView;

    open spec fn deep_view(&self) -> ActionView {
        self@
    }
}

/// The log tag for lines of the given stream.
pub open spec fn tag_of(origin: Origin) -> LogTag {
    match origin {
        Origin::Stdout => LogTag::Stdout,
        Origin::Stderr => LogTag::Stderr,
    }
}

/// Whether a line of standard output is kept from the user: a line that
/// begins with the prefix of the binary's own diagnostics, or that holds
/// one of its status phrases.
pub open spec fn is_noise(line: Seq<char>) -> bool {
    ||| occurs_at(line, "whisper_"@, 0)
    ||| contains_sub(line, "processing"@)
    ||| contains_sub(line, "load time"@)
}

/// What one line of output calls for.
///
/// A line that is empty once trimmed calls for nothing. Any other line goes
/// to the log. On standard output a segment line gives a progress sample,
/// and the line is shown unless it is noise. On standard error a percentage
/// line gives a progress sample, and any other line is shown as an error.
pub open spec fn line_actions(origin: Origin, text: Seq<char>, total: Option<u64>) -> Seq<
    ActionView,
> {
    let line = trimmed(text);
    if line.len() == 0 {
        seq![]
    } else {
        seq![ActionView::Log { tag: tag_of(origin), text: line }] + match origin {
            Origin::Stdout => {
                (match segment_millis(line) {
                    Some(ms) if ms <= u64::MAX => seq![
                        ActionView::Progress(ProgressSample::at_time(ms as u64, total)),
                    ],
                    _ => seq![],
                }) + (if is_noise(line) {
                    seq![]
                } else {
                    seq![ActionView::Output(line)]
                })
            },
            Origin::Stderr => match percent_thousandths(line) {
                Some(p) if p <= u64::MAX => seq![
                    ActionView::Progress(ProgressSample::at_percent(p as u64, total)),
                ],
                _ => seq![ActionView::Error(line)],
            },
        }
    }
}

/// What a chunk of text calls for: what each of its lines calls for, in the
/// order of the lines. Lines end at a line feed.
pub open spec fn chunk_actions(origin: Origin, text: Seq<char>, total: Option<u64>) -> Seq<
    ActionView,
>
    decreases text.len(),
{
    let end = first_index(text, '\n');
    if 0 <= end < text.len() {
        line_actions(origin, text.take(end), total) + chunk_actions(
            origin,
            text.skip(end + 1),
            total,
        )
    } else {
        line_actions(origin, text, total)
    }
}

/// What a chunk of bytes calls for: nothing unless it is valid UTF-8, and
/// then what its text calls for.
pub open spec fn bytes_actions(origin: Origin, data: Seq<u8>, total: Option<u64>) -> Seq<
    ActionView,
> {
    if valid_utf8(data) {
        chunk_actions(origin, decode_utf8(data), total)
    } else {
        seq![]
    }
}

/// A number with its sign, in base ten.
pub open spec fn signed_digits(n: int) -> Seq<char> {
    if n < 0 {
        seq!['-'] + decimal_digits((-n) as nat)
    } else {
        decimal_digits(n as nat)
    }
}

/// The note that the log gets on how a process ended.
pub open spec fn exit_note(code: Option<i32>) -> Seq<char> {
    match code {
        Some(c) => "terminated: Some("@ + signed_digits(c as int) + ")"@,
        None => "terminated: None"@,
    }
}

/// What an event of a process calls for.
pub open spec fn event_actions(event: ProcessEvent, total: Option<u64>) -> Seq<ActionView> {
    match event {
        ProcessEvent::Stdout(data) => bytes_actions(Origin::Stdout, data@, total),
        ProcessEvent::Stderr(data) => bytes_actions(Origin::Stderr, data@, total),
        ProcessEvent::Error(reason) => seq![
            ActionView::Log { tag: LogTag::Process, text: "error: "@ + reason@ },
            ActionView::Finish(StreamEndView::Failed { reason: reason@ }),
        ],
        ProcessEvent::Terminated { code, signal } => seq![
            ActionView::Log { tag: LogTag::Process, text: exit_note(code) },
            ActionView::Finish(StreamEndView::Exited { code, signal }),
        ],
        ProcessEvent::Other => seq![],
    }
}

/// Actions keep the order of the text: what two texts call for when a
/// line feed joins them is what the first calls for, followed by what the
/// second calls for.
pub proof fn lemma_chunk_actions_in_order(
    origin: Origin,
    first: Seq<char>,
    second: Seq<char>,
    total: Option<u64>,
)
    ensures
        chunk_actions(origin, first + seq!['\n'] + second, total) == chunk_actions(
            origin,
            first,
            total,
        ) + chunk_actions(origin, second, total),
    decreases first.len(),
{
    let whole = first + seq!['\n'] + second;
    lemma_first_index(first, '\n');
    let end = first_index(first, '\n');
    assert forall|j: int| 0 <= j < end implies whole[j] != '\n' by {
        assert(whole[j] == first[j]);
    }
    assert(is_first_index(whole, '\n', end));
    lemma_first_index_unique(whole, '\n', end);
    if end < first.len() {
        assert(whole.take(end) =~= first.take(end));
        assert(whole.skip(end + 1) =~= first.skip(end + 1) + seq!['\n'] + second);
        lemma_chunk_actions_in_order(origin, first.skip(end + 1), second, total);
        assert(line_actions(origin, first.take(end), total) + (chunk_actions(
            origin,
            first.skip(end + 1),
            total,
        ) + chunk_actions(origin, second, total)) =~= (line_actions(
            origin,
            first.take(end),
            total,
        ) + chunk_actions(origin, first.skip(end + 1), total)) + chunk_actions(
            origin,
            second,
            total,
        ));
    } else {
        assert(whole.take(end) =~= first);
        assert(whole.skip(end + 1) =~= second);
    }
}

/// `String::from_utf8` turns bytes into a string if they are valid UTF-8,
/// and into nothing otherwise. The string holds the characters that the
/// bytes encode.
#[verifier::external_body]
fn decode(data: Vec<u8>) -> (text: Option<String>)
    ensures
        match text {
            Some(s) => valid_utf8(data@) && s@ == decode_utf8(data@),
            None => !valid_utf8(data@),
        },
{
    match String::from_utf8(data) {
        Ok(s) => Some(s),
        Err(_) => None,
    }
}

/// Whether a line of standard output is kept from the user.
pub fn noise(line: &Vec<char>) -> (b: bool)
    ensures
        b == is_noise(line@),
{
    let prefix = chars_of("whisper_");
    let status = chars_of("processing");
    let banner = chars_of("load time");
    matches_at(line, 0, &prefix) || find_sub(line, &status).is_some() || find_sub(
        line,
        &banner,
    ).is_some()
}

/// Appends to `out` what one line of output calls for.
pub fn push_line_actions(out: &mut Vec<Action>, origin: Origin, text: &Vec<char>, total: Option<u64>)
    ensures
        final(out).deep_view() == old(out).deep_view() + line_actions(origin, text@, total),
{
    let (from, to) = trim_bounds(text);
    if from == to {
        assert(old(out).deep_view() + Seq::<ActionView>::empty() =~= old(out).deep_view());
        return ;
    }
    let line = sub_vec(text, from, to);
    let shown = string_of(text, from, to);
    let ghost before = old(out).deep_view();
    let ghost log = seq![ActionView::Log { tag: tag_of(origin), text: line@ }];
    let tag = match origin {
        Origin::Stdout => LogTag::Stdout,
        Origin::Stderr => LogTag::Stderr,
    };
    out.push(Action::Log { tag, text: shown.clone() });
    assert(out.deep_view() =~= before + log);
    match origin {
        Origin::Stdout => {
            let ghost progress = match segment_millis(line@) {
                Some(ms) if ms <= u64::MAX => seq![
                    ActionView::Progress(ProgressSample::at_time(ms as u64, total)),
                ],
                _ => seq![],
            };
            match read_segment(&line) {
                Some(ms) => {
                    out.push(Action::Progress(ProgressSample::from_timestamp(ms, total)));
                },
                None => {},
            }
            assert(out.deep_view() =~= before + log + progress);
            if !noise(&line) {
                out.push(Action::Output(shown));
                assert(out.deep_view() =~= before + (log + (progress + seq![
                    ActionView::Output(line@),
                ])));
            } else {
                assert(out.deep_view() =~= before + (log + (progress + Seq::<
                    ActionView,
                >::empty())));
            }
        },
        Origin::Stderr => {
            match read_percentage(&line) {
                Some(p) => {
                    out.push(Action::Progress(ProgressSample::from_percentage(p, total)));
                    assert(out.deep_view() =~= before + (log + seq![
                        ActionView::Progress(ProgressSample::at_percent(p, total)),
                    ]));
                },
                None => {
                    out.push(Action::Error(shown));
                    assert(out.deep_view() =~= before + (log + seq![ActionView::Error(line@)]));
                },
            }
        },
    }
}

/// What a chunk of text calls for.
pub fn process_text(origin: Origin, text: &str, total: Option<u64>) -> (actions: Vec<Action>)
    ensures
        actions.deep_view() == chunk_actions(origin, text@, total),
{
    let v = chars_of(text);
    let n = v.len();
    let mut out: Vec<Action> = Vec::new();
    let mut pos: usize = 0;
    assert(v@.skip(0) =~= v@);
    assert(out.deep_view() =~= Seq::<ActionView>::empty());
    loop
        invariant
            pos <= n == v.len(),
            v@ == text@,
            chunk_actions(origin, text@, total) == out.deep_view() + chunk_actions(
                origin,
                v@.skip(pos as int),
                total,
            ),
        decreases n - pos,
    {
        let ghost rest = v@.skip(pos as int);
        let ghost before = out.deep_view();
        let end = find_char(&v, pos, n, '\n');
        assert(v@.subrange(pos as int, n as int) =~= rest);
        let line = sub_vec(&v, pos, pos + end);
        assert(line@ =~= rest.take(end as int));
        push_line_actions(&mut out, origin, &line, total);
        if pos + end >= n {
            assert(rest.take(end as int) =~= rest);
            assert(before + line_actions(origin, rest, total) =~= chunk_actions(
                origin,
                text@,
                total,
            ));
            return out;
        }
        assert(rest.skip(end + 1) =~= v@.skip(pos + end + 1));
        assert(before + (line_actions(origin, rest.take(end as int), total) + chunk_actions(
            origin,
            rest.skip(end + 1),
            total,
        )) =~= (before + line_actions(origin, rest.take(end as int), total)) + chunk_actions(
            origin,
            rest.skip(end + 1),
            total,
        ));
        pos = pos + end + 1;
    }
}

/// Appends `n` with its sign, in base ten.
fn push_signed(out: &mut String, n: i32)
    ensures
        final(out)@ == old(out)@ + signed_digits(n as int),
{
    if n < 0 {
        out.push('-');
        push_decimal(out, (-(n as i64)) as u64);
        assert(final(out)@ =~= old(out)@ + (seq!['-'] + decimal_digits((-n) as nat)));
    } else {
        push_decimal(out, n as u64);
    }
}

/// What the host is to do about one line of output, in order.
pub fn process_line(line: &RawLine, total: Option<u64>) -> (actions: Vec<Action>)
    ensures
        actions.deep_view() == line_actions(line.origin, line.text@, total),
{
    let text = chars_of(line.text.as_str());
    let mut out: Vec<Action> = Vec::new();
    assert(out.deep_view() =~= Seq::<ActionView>::empty());
    push_line_actions(&mut out, line.origin, &text, total);
    assert(Seq::<ActionView>::empty() + line_actions(line.origin, line.text@, total)
        =~= line_actions(line.origin, line.text@, total));
    out
}

/// What the host is to do about a chunk of bytes from one of the streams.
pub fn process_bytes(origin: Origin, data: Vec<u8>, total: Option<u64>) -> (actions: Vec<Action>)
    ensures
        actions.deep_view() == bytes_actions(origin, data@, total),
{
    match decode(data) {
        Some(text) => process_text(origin, text.as_str(), total),
        None => {
            let out: Vec<Action> = Vec::new();
            assert(out.deep_view() =~= Seq::<ActionView>::empty());
            out
        },
    }
}

/// What the host is to do about an event of a process, in order.
pub fn process_event(event: ProcessEvent, total: Option<u64>) -> (actions: Vec<Action>)
    ensures
        actions.deep_view() == event_actions(event, total),
{
    match event {
        ProcessEvent::Stdout(data) => process_bytes(Origin::Stdout, data, total),
        ProcessEvent::Stderr(data) => process_bytes(Origin::Stderr, data, total),
        ProcessEvent::Error(reason) => {
            let mut text = "error: ".to_owned();
            text.append(reason.as_str());
            let mut out: Vec<Action> = Vec::new();
            out.push(Action::Log { tag: LogTag::Process, text });
            out.push(Action::Finish(StreamEnd::Failed { reason }));
            assert(out.deep_view() =~= event_actions(event, total));
            out
        },
        ProcessEvent::Terminated { code, signal } => {
            let text = match code {
                Some(c) => {
                    let mut t = "terminated: Some(".to_owned();
                    push_signed(&mut t, c);
                    t.append(")");
                    t
                },
                None => "terminated: None".to_owned(),
            };
            let mut out: Vec<Action> = Vec::new();
            out.push(Action::Log { tag: LogTag::Process, text });
            out.push(Action::Finish(StreamEnd::Exited { code, signal }));
            assert(out.deep_view() =~= event_actions(event, total));
            out
        },
        ProcessEvent::Other => {
            let out: Vec<Action> = Vec::new();
            assert(out.deep_view() =~= event_actions(event, total));
            out
        },
    }
}

/// What a processor knows: the total duration of the audio, and whether
/// the stream has come to its end.
pub struct Reading {
    pub total: Option<u64>,
    pub finished: bool,
}

/// Whether an event is the last of its stream.
pub open spec fn ends_stream(event: ProcessEvent) -> bool {
    event is Error || event is Terminated
}

/// What a processor in state `reading` asks for on `event`: what the event
/// calls for, and nothing once the stream has come to its end.
pub open spec fn asked_on(reading: Reading, event: ProcessEvent) -> Seq<ActionView> {
    if reading.finished {
        seq![]
    } else {
        event_actions(event, reading.total)
    }
}

/// The state of a processor after `event`.
pub open spec fn reading_after(reading: Reading, event: ProcessEvent) -> Reading {
    Reading { total: reading.total, finished: reading.finished || ends_stream(event) }
}

/// The reason with which a stream fails that is closed before the process
/// has told how it ended.
pub open spec fn closed_early() -> Seq<char> {
    "output stream closed"@
}

/// What a processor asks for when the stream is closed: to finish with a
/// failed stream, unless the stream has come to its end before.
pub open spec fn asked_on_close(reading: Reading) -> Seq<ActionView> {
    if reading.finished {
        seq![]
    } else {
        seq![ActionView::Finish(StreamEndView::Failed { reason: closed_early() })]
    }
}

/// The state of a processor after all of `events`, in order.
pub open spec fn reading_after_all(reading: Reading, events: Seq<ProcessEvent>) -> Reading
    decreases events.len(),
{
    if events.len() == 0 {
        reading
    } else {
        reading_after(reading_after_all(reading, events.drop_last()), events.last())
    }
}

/// All that a processor asks for on `events`, in order.
pub open spec fn asked_on_all(reading: Reading, events: Seq<ProcessEvent>) -> Seq<ActionView>
    decreases events.len(),
{
    if events.len() == 0 {
        seq![]
    } else {
        asked_on_all(reading, events.drop_last()) + asked_on(
            reading_after_all(reading, events.drop_last()),
            events.last(),
        )
    }
}

/// How many of `actions` finish the stream.
pub open spec fn finishes(actions: Seq<ActionView>) -> nat
    decreases actions.len(),
{
    if actions.len() == 0 {
        0
    } else {
        finishes(actions.drop_last()) + if actions.last() is Finish {
            1nat
        } else {
            0nat
        }
    }
}

proof fn lemma_finishes_add(a: Seq<ActionView>, b: Seq<ActionView>)
    ensures
        finishes(a + b) == finishes(a) + finishes(b),
    decreases b.len(),
{
    if b.len() == 0 {
        assert(a + b =~= a);
    } else {
        assert((a + b).drop_last() =~= a + b.drop_last());
        lemma_finishes_add(a, b.drop_last());
    }
}

proof fn lemma_no_finish(actions: Seq<ActionView>)
    requires
        forall|i: int| 0 <= i < actions.len() ==> !(actions[i] is Finish),
    ensures
        finishes(actions) == 0,
    decreases actions.len(),
{
    if actions.len() > 0 {
        lemma_no_finish(actions.drop_last());
    }
}

/// No line of output finishes the stream.
proof fn lemma_chunk_never_finishes(origin: Origin, text: Seq<char>, total: Option<u64>)
    ensures
        forall|i: int|
            0 <= i < chunk_actions(origin, text, total).len() ==> !(chunk_actions(
                origin,
                text,
                total,
            )[i] is Finish),
    decreases text.len(),
{
    let end = first_index(text, '\n');
    if 0 <= end < text.len() {
        lemma_chunk_never_finishes(origin, text.skip(end + 1), total);
    }
}

/// An event finishes the stream once, with its last action, if it is the
/// last of its stream, and not at all if it is not.
pub proof fn lemma_event_finishes(event: ProcessEvent, total: Option<u64>)
    ensures
        ends_stream(event) ==> finishes(event_actions(event, total)) == 1 && event_actions(
            event,
            total,
        ).last() is Finish,
        !ends_stream(event) ==> finishes(event_actions(event, total)) == 0,
{
    let actions = event_actions(event, total);
    match event {
        ProcessEvent::Stdout(data) => {
            if valid_utf8(data@) {
                lemma_chunk_never_finishes(Origin::Stdout, decode_utf8(data@), total);
            }
            lemma_no_finish(actions);
        },
        ProcessEvent::Stderr(data) => {
            if valid_utf8(data@) {
                lemma_chunk_never_finishes(Origin::Stderr, decode_utf8(data@), total);
            }
            lemma_no_finish(actions);
        },
        ProcessEvent::Other => {
            lemma_no_finish(actions);
        },
        _ => {
            assert(actions.len() == 2);
            assert(actions.drop_last().drop_last() =~= Seq::<ActionView>::empty());
            assert(finishes(actions.drop_last().drop_last()) == 0);
            assert(finishes(actions.drop_last()) == 0);
        },
    }
}

/// Whatever a process sends, once its stream is closed the processor has
/// asked to finish exactly once, with the last of its actions.
pub proof fn lemma_stream_finishes_once(reading: Reading, events: Seq<ProcessEvent>)
    requires
        !reading.finished,
    ensures
        ({
            let all = asked_on_all(reading, events) + asked_on_close(
                reading_after_all(reading, events),
            );
            finishes(all) == 1 && all.last() is Finish
        }),
{
    lemma_finishes_while_reading(reading, events);
    let asked = asked_on_all(reading, events);
    let close = asked_on_close(reading_after_all(reading, events));
    lemma_finishes_add(asked, close);
    if close.len() > 0 {
        assert(close.drop_last() =~= Seq::<ActionView>::empty());
        assert(finishes(close.drop_last()) == 0);
        assert((asked + close).last() == close.last());
    } else {
        assert(asked + close =~= asked);
    }
}

/// While a stream is read the processor has asked to finish once if the
/// stream has come to its end, with the last of its actions, and not at all
/// if it has not.
proof fn lemma_finishes_while_reading(reading: Reading, events: Seq<ProcessEvent>)
    requires
        !reading.finished,
    ensures
        reading_after_all(reading, events).total == reading.total,
        reading_after_all(reading, events).finished ==> finishes(asked_on_all(reading, events))
            == 1 && asked_on_all(reading, events).last() is Finish,
        !reading_after_all(reading, events).finished ==> finishes(asked_on_all(reading, events))
            == 0,
    decreases events.len(),
{
    if events.len() > 0 {
        let before = events.drop_last();
        lemma_finishes_while_reading(reading, before);
        let state = reading_after_all(reading, before);
        let step = asked_on(state, events.last());
        lemma_finishes_add(asked_on_all(reading, before), step);
        if state.finished {
            assert(asked_on_all(reading, before) + step =~= asked_on_all(reading, before));
        } else {
            lemma_event_finishes(events.last(), reading.total);
            if ends_stream(events.last()) {
                assert((asked_on_all(reading, before) + step).last() == step.last());
            }
        }
    }
}

/// An action that reports progress does so with a sample that is well
/// formed and states the given total.
pub open spec fn sound_for(action: ActionView, total: Option<u64>) -> bool {
    action matches ActionView::Progress(sample) ==> sample.wf() && sample.total_ms == total
}

/// Each of `actions` that reports progress does so with a sample that is
/// well formed and states the given total.
pub open spec fn all_sound(actions: Seq<ActionView>, total: Option<u64>) -> bool {
    forall|i: int| 0 <= i < actions.len() ==> sound_for(#[trigger] actions[i], total)
}

proof fn lemma_sound_add(a: Seq<ActionView>, b: Seq<ActionView>, total: Option<u64>)
    requires
        all_sound(a, total),
        all_sound(b, total),
    ensures
        all_sound(a + b, total),
{
    assert forall|i: int| 0 <= i < (a + b).len() implies sound_for(
        #[trigger] (a + b)[i],
        total,
    ) by {
        if i < a.len() {
            assert((a + b)[i] == a[i]);
        } else {
            assert((a + b)[i] == b[i - a.len()]);
        }
    }
}

proof fn lemma_chunk_progress(origin: Origin, text: Seq<char>, total: Option<u64>)
    ensures
        all_sound(chunk_actions(origin, text, total), total),
    decreases text.len(),
{
    let end = first_index(text, '\n');
    if 0 <= end < text.len() {
        assert(all_sound(line_actions(origin, text.take(end), total), total));
        lemma_chunk_progress(origin, text.skip(end + 1), total);
        lemma_sound_add(
            line_actions(origin, text.take(end), total),
            chunk_actions(origin, text.skip(end + 1), total),
            total,
        );
    } else {
        assert(all_sound(line_actions(origin, text, total), total));
    }
}

proof fn lemma_event_progress(event: ProcessEvent, total: Option<u64>)
    ensures
        all_sound(event_actions(event, total), total),
{
    match event {
        ProcessEvent::Stdout(data) => {
            if valid_utf8(data@) {
                lemma_chunk_progress(Origin::Stdout, decode_utf8(data@), total);
            }
        },
        ProcessEvent::Stderr(data) => {
            if valid_utf8(data@) {
                lemma_chunk_progress(Origin::Stderr, decode_utf8(data@), total);
            }
        },
        _ => {},
    }
}

/// Whatever a process sends, the total duration stays what it was when the
/// processor was made, and every sample of progress states that total and
/// no more than one hundred percent.
pub proof fn lemma_progress_is_sound(reading: Reading, events: Seq<ProcessEvent>)
    ensures
        reading_after_all(reading, events).total == reading.total,
        all_sound(asked_on_all(reading, events), reading.total),
    decreases events.len(),
{
    if events.len() > 0 {
        let before = events.drop_last();
        lemma_progress_is_sound(reading, before);
        lemma_event_progress(events.last(), reading.total);
        lemma_sound_add(
            asked_on_all(reading, before),
            asked_on(reading_after_all(reading, before), events.last()),
            reading.total,
        );
    }
}

/// The processor of the output of one job.
///
/// The total duration of the audio is fixed when the processor is made. The
/// processor reads until the stream comes to its end, and asks to finish
/// then; if the stream is closed before, it asks to finish then.
pub struct StreamProcessor {
    total_ms: Option<u64>,
    finished: bool,
}

impl View for StreamProcessor {
    type V = Reading;

    closed spec fn view(&self) -> Reading {
        Reading { total: self.total_ms, finished: self.finished }
    }
}

impl StreamProcessor {
    /// A processor for a job whose audio lasts `total_ms`, where that is known.
    pub fn new(total_ms: Option<u64>) -> (p: Self)
        ensures
            p@ == (Reading { total: total_ms, finished: false }),
    {
        StreamProcessor { total_ms, finished: false }
    }

    /// The total duration that samples are reconciled with.
    pub fn total_ms(&self) -> (total: Option<u64>)
        ensures
            total == self@.total,
    {
        self.total_ms
    }

    /// Whether the stream has come to its end.
    pub fn is_finished(&self) -> (finished: bool)
        ensures
            finished == self@.finished,
    {
        self.finished
    }

    /// What the host is to do about `event`, in order: what the event calls
    /// for, and nothing once the stream has come to its end.
    pub fn process(&mut self, event: ProcessEvent) -> (actions: Vec<Action>)
        ensures
            actions.deep_view() == asked_on(old(self)@, event),
            final(self)@ == reading_after(old(self)@, event),
    {
        if self.finished {
            let out: Vec<Action> = Vec::new();
            assert(out.deep_view() =~= Seq::<ActionView>::empty());
            return out;
        }
        match &event {
            ProcessEvent::Error(_) => {
                self.finished = true;
            },
            ProcessEvent::Terminated { .. } => {
                self.finished = true;
            },
            _ => {},
        }
        process_event(event, self.total_ms)
    }

    /// What the host is to do when the stream is closed: to finish with a
    /// failed stream, unless the stream has come to its end before.
    pub fn close(&mut self) -> (actions: Vec<Action>)
        ensures
            actions.deep_view() == asked_on_close(old(self)@),
            final(self)@ == (Reading { total: old(self)@.total, finished: true }),
    {
        let mut out: Vec<Action> = Vec::new();
        if !self.finished {
            self.finished = true;
            out.push(Action::Finish(StreamEnd::Failed { reason: "output stream closed".to_owned() }));
        }
        assert(out.deep_view() =~= asked_on_close(old(self)@));
        out
    }
}

} // verus!
