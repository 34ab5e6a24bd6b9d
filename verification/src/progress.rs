//! Progress samples: reading them from output lines and reconciling them
//! with the total duration of a job.
//!
//! The transcription binary reports progress in two ways. On its standard
//! output each recognised segment is printed behind its time range,
//! `[H:MM:SS.mmm --> H:MM:SS.mmm] text`; on its standard error a callback
//! prints a percentage. Times are held in whole milliseconds and percentages
//! in thousandths of a percent.

use vstd::prelude::*;
use crate::decimal::{
    all_digits, digits_value, fraction_thousandths, is_decimal, lemma_decimal_chars,
    lemma_decimal_of_digits, lemma_decimal_of_parts, lemma_three_places, read_thousandths,
    thousandths,
};
use crate::text::{
    chars_of, contains_sub, find_char, find_sub, first_index, first_occurrence, is_first_index,
    is_first_occurrence, is_last_index, last_index, lemma_first_index, lemma_first_index_unique,
    lemma_first_occurrence_unique, lemma_last_index_unique, lemma_run_start_is, occurs_at,
    rfind_char, run_start, scan_back, sub_vec, trim_bounds, trimmed, CharClass,
};

verus! {

/// One hundred percent, in thousandths of a percent.
pub const FULL: u64 = 100_000;

/// The token that marks a percentage line.
pub open spec fn progress_marker() -> Seq<char> {
    "whisper_print_progress_callback"@
}

/// The token between the two times of a segment line.
pub open spec fn arrow() -> Seq<char> {
    " --> "@
}

/// The parts of `s` before, between and after its colons, if it has exactly two.
pub open spec fn colon_parts(s: Seq<char>) -> Option<(Seq<char>, Seq<char>, Seq<char>)> {
    let a = first_index(s, ':');
    let rest = s.skip(a + 1);
    let b = first_index(rest, ':');
    let last = rest.skip(b + 1);
    if a < s.len() && b < rest.len() && first_index(last, ':') == last.len() {
        Some((s.take(a), rest.take(b), last))
    } else {
        None
    }
}

/// The time that `s` states as hours, minutes and seconds, in milliseconds.
///
/// `s` must have exactly three parts around its colons, each a decimal
/// numeral; the time is hours × 3600 + minutes × 60 + seconds.
pub open spec fn timestamp_millis(s: Seq<char>) -> Option<nat> {
    match colon_parts(s) {
        Some((h, m, sec)) => if is_decimal(h) && is_decimal(m) && is_decimal(sec) {
            Some(thousandths(h) * 3600 + thousandths(m) * 60 + thousandths(sec))
        } else {
            None
        },
        None => None,
    }
}

/// The start time of the segment that `line` reports, in milliseconds.
///
/// The time stands between the first `[` of the line and the first ` --> `,
/// with whitespace around it ignored.
pub open spec fn segment_millis(line: Seq<char>) -> Option<nat> {
    let open = first_index(line, '[');
    let to = first_occurrence(line, arrow());
    if open < line.len() && open < to <= line.len() {
        timestamp_millis(trimmed(line.subrange(open + 1, to)))
    } else {
        None
    }
}

/// The numeral that stands before the last `%` of `line`: ASCII whitespace
/// before the sign is skipped, then digits are taken backwards, with at most
/// one point among them.
pub open spec fn percent_numeral(line: Seq<char>) -> Seq<char> {
    let sign = last_index(line, '%');
    let end = run_start(line, sign, CharClass::AsciiSpace);
    let digits = run_start(line, end, CharClass::Digit);
    let start = if 0 < digits <= line.len() && line[digits - 1] == '.' {
        run_start(line, digits - 1, CharClass::Digit)
    } else {
        digits
    };
    line.subrange(start, end)
}

/// The percentage that `line` reports, in thousandths of a percent.
///
/// Only a line that holds the progress marker reports one, and only if a
/// numeral with at least one digit stands before its last `%`.
pub open spec fn percent_thousandths(line: Seq<char>) -> Option<nat> {
    if contains_sub(line, progress_marker()) && last_index(line, '%') >= 0 && is_decimal(
        percent_numeral(line),
    ) {
        Some(thousandths(percent_numeral(line)))
    } else {
        None
    }
}

/// The part of `total` that `elapsed` is, in thousandths of a percent: never
/// more than one hundred percent, and one hundred percent of a total of zero.
pub open spec fn percent_of(elapsed: nat, total: nat) -> nat {
    if total == 0 || elapsed * FULL as nat / total > FULL {
        FULL as nat
    } else {
        elapsed * FULL as nat / total
    }
}

/// A percentage no greater than one hundred percent.
pub open spec fn clamp_percent(percent: nat) -> nat {
    if percent > FULL {
        FULL as nat
    } else {
        percent
    }
}

/// The time into `total` at which `percent` of it is done: `percent / 100 ×
/// total`, for any percentage, also one above one hundred.
pub open spec fn elapsed_at(percent: nat, total: nat) -> nat {
    percent * total / FULL as nat
}

/// A time no greater than a `u64` holds.
pub open spec fn clamp_millis(millis: nat) -> nat {
    if millis > u64::MAX {
        u64::MAX as nat
    } else {
        millis
    }
}

/// What is known of a job's progress at one moment.
///
/// Times are in milliseconds, the percentage in thousandths of a percent.
#[derive(Clone, Copy, Debug, PartialEq, Eq)]
pub struct ProgressSample {
    /// Position in the audio that has been reached.
    pub current_ms: Option<u64>,
    /// Duration of the whole audio, where the job knows it.
    pub total_ms: Option<u64>,
    /// Share of the work that is done.
    pub percentage: Option<u64>,
}

impl ProgressSample {
    /// A sample states a position or a percentage, both where the total is
    /// known, and never more than one hundred percent.
    pub open spec fn wf(self) -> bool {
        &&& self.current_ms is Some || self.percentage is Some
        &&& self.total_ms is Some ==> self.current_ms is Some && self.percentage is Some
        &&& self.percentage matches Some(p) ==> p <= FULL
    }

    /// The sample for a segment that starts at `elapsed`.
    pub open spec fn at_time(elapsed: u64, total: Option<u64>) -> Self {
        ProgressSample {
            current_ms: Some(elapsed),
            total_ms: total,
            percentage: match total {
                Some(d) => Some(percent_of(elapsed as nat, d as nat) as u64),
                None => None,
            },
        }
    }

    /// The sample for a reported percentage.
    ///
    /// The position is that of the percentage as it was reported; only the
    /// percentage that the sample states is brought down to one hundred. A
    /// position of more milliseconds than a `u64` holds is stated as the
    /// greatest that it holds.
    pub open spec fn at_percent(percent: u64, total: Option<u64>) -> Self {
        ProgressSample {
            current_ms: match total {
                Some(d) => Some(clamp_millis(elapsed_at(percent as nat, d as nat)) as u64),
                None => None,
            },
            total_ms: total,
            percentage: Some(clamp_percent(percent as nat) as u64),
        }
    }

    /// The sample for a segment that starts at `elapsed`.
    ///
    /// Where the total is known the percentage is `elapsed / total × 100`, at
    /// most one hundred; where it is not, only the position is stated.
    pub fn from_timestamp(elapsed: u64, total: Option<u64>) -> (sample: Self)
        ensures
            sample == Self::at_time(elapsed, total),
            sample.wf(),
    {
        let percentage = match total {
            Some(d) => {
                if d == 0 {
                    Some(FULL)
                } else {
                    let share: u128 = elapsed as u128 * (FULL as u128) / (d as u128);
                    if share > FULL as u128 {
                        Some(FULL)
                    } else {
                        Some(share as u64)
                    }
                }
            },
            None => None,
        };
        ProgressSample { current_ms: Some(elapsed), total_ms: total, percentage }
    }

    /// The sample for a reported percentage.
    ///
    /// The percentage is stated, at most one hundred. Where the total is
    /// known the position is `percent / 100 × total`, from the percentage as
    /// it was reported, and at most the greatest number of milliseconds that
    /// a `u64` holds.
    pub fn from_percentage(percent: u64, total: Option<u64>) -> (sample: Self)
        ensures
            sample == Self::at_percent(percent, total),
            sample.wf(),
    {
        let clamped = if percent > FULL {
            FULL
        } else {
            percent
        };
        let current_ms = match total {
            Some(d) => {
                assert(percent as u128 * d as u128 <= u128::MAX) by (nonlinear_arith)
                    requires
                        percent <= u64::MAX,
                        d <= u64::MAX,
                ;
                let position: u128 = percent as u128 * (d as u128) / (FULL as u128);
                if position > u64::MAX as u128 {
                    Some(u64::MAX)
                } else {
                    Some(position as u64)
                }
            },
            None => None,
        };
        ProgressSample { current_ms, total_ms: total, percentage: Some(clamped) }
    }
}

/// The position for a percentage of no more than one hundred lies within
/// the total.
pub proof fn lemma_elapsed_within_total(percent: nat, total: nat)
    requires
        percent <= FULL,
    ensures
        elapsed_at(percent, total) <= total,
{
    assert(percent * total <= 100_000 * total) by (nonlinear_arith)
        requires
            percent <= 100_000,
    ;
    assert(percent * total / 100_000 <= total) by (nonlinear_arith)
        requires
            percent * total <= 100_000 * total,
    ;
}

/// A percentage is exact to a thousandth of a percent below the total, and
/// one hundred percent from the total on.
pub proof fn lemma_percent_of(elapsed: nat, total: nat)
    requires
        total > 0,
    ensures
        percent_of(elapsed, total) <= FULL,
        elapsed >= total ==> percent_of(elapsed, total) == FULL,
        elapsed < total ==> percent_of(elapsed, total) * total <= elapsed * FULL < (percent_of(
            elapsed,
            total,
        ) + 1) * total,
{
    let q = elapsed * 100_000 / total;
    assert(q * total <= elapsed * 100_000 < (q + 1) * total) by (nonlinear_arith)
        requires
            q == elapsed * 100_000 / total,
            total > 0,
    ;
    if elapsed >= total {
        assert(q >= 100_000) by (nonlinear_arith)
            requires
                elapsed * 100_000 < (q + 1) * total,
                elapsed >= total,
                total > 0,
        ;
    } else {
        assert(q < 100_000) by (nonlinear_arith)
            requires
                q * total <= elapsed * 100_000,
                elapsed < total,
                total > 0,
        ;
    }
}

/// A line without the progress marker reports no percentage, whatever
/// else it holds.
pub proof fn lemma_percentage_needs_marker(line: Seq<char>)
    requires
        !contains_sub(line, progress_marker()),
    ensures
        percent_thousandths(line) is None,
{
}

/// A line that holds the progress marker and ends in a whole number, any
/// ASCII whitespace and a percent sign reports that number of percent.
pub proof fn lemma_percentage_of_line(head: Seq<char>, digits: Seq<char>, blanks: Seq<char>)
    requires
        contains_sub(head, progress_marker()),
        head.len() > 0 ==> !CharClass::Digit.has(head.last()) && head.last() != '.',
        all_digits(digits),
        digits.len() > 0,
        forall|i: int| 0 <= i < blanks.len() ==> CharClass::AsciiSpace.has(#[trigger] blanks[i]),
    ensures
        percent_thousandths(head + digits + blanks + seq!['%']) == Some(
            digits_value(digits) * 1000,
        ),
{
    let line = head + digits + blanks + seq!['%'];
    let from = head.len() as int;
    let end = from + digits.len();
    let sign = end + blanks.len();
    let at = choose|i: int| occurs_at(head, progress_marker(), i);
    assert(line.subrange(at, at + progress_marker().len()) =~= head.subrange(
        at,
        at + progress_marker().len(),
    ));
    assert(occurs_at(line, progress_marker(), at));
    assert(is_last_index(line, '%', sign));
    lemma_last_index_unique(line, '%', sign);
    assert forall|j: int| end <= j < sign implies CharClass::AsciiSpace.has(
        #[trigger] line[j],
    ) by {
        assert(line[j] == blanks[j - end]);
    }
    assert(line[end - 1] == digits[digits.len() - 1]);
    lemma_run_start_is(line, sign, CharClass::AsciiSpace, end);
    assert forall|j: int| from <= j < end implies CharClass::Digit.has(#[trigger] line[j]) by {
        assert(line[j] == digits[j - from]);
    }
    if from > 0 {
        assert(line[from - 1] == head.last());
    }
    lemma_run_start_is(line, end, CharClass::Digit, from);
    assert(percent_numeral(line) =~= digits);
    lemma_decimal_of_digits(digits);
}

/// A line that begins with `[`, a time, and ` --> ` reports the time, with
/// whitespace around it ignored, whatever follows.
pub proof fn lemma_segment_of_line(stamp: Seq<char>, rest: Seq<char>)
    requires
        !stamp.contains('-'),
        !stamp.contains('['),
    ensures
        segment_millis(seq!['['] + stamp + arrow() + rest) == timestamp_millis(trimmed(stamp)),
{
    reveal_strlit(" --> ");
    let line = seq!['['] + stamp + arrow() + rest;
    let to = 1 + stamp.len() as int;
    assert(is_first_index(line, '[', 0));
    lemma_first_index_unique(line, '[', 0);
    assert(line.subrange(to, to + arrow().len()) =~= arrow());
    assert forall|j: int| 0 <= j < to implies !occurs_at(line, arrow(), j) by {
        if occurs_at(line, arrow(), j) {
            assert(line.subrange(j, j + arrow().len())[1] == '-');
            assert(line[j + 1] == '-');
            if j + 1 < to {
                assert(stamp[j] == '-');
            } else {
                assert(line.subrange(j, j + arrow().len())[0] == ' ');
                assert(line.subrange(to, to + arrow().len())[0] == ' ');
                assert(line[to] == ' ');
                assert(line.subrange(j, j + arrow().len())[2] == '-');
                assert(line.subrange(to, to + arrow().len())[1] == '-');
                assert(line[j + 2] == '-');
                assert(line[to + 1] == '-');
                assert(line.subrange(j, j + arrow().len())[3] == '>');
                assert(line[j + 3] == '>');
                assert(line.subrange(to, to + arrow().len())[2] == '-');
                assert(line[to + 2] == '-');
            }
        }
    }
    assert(is_first_occurrence(line, arrow(), to));
    lemma_first_occurrence_unique(line, arrow(), to);
    assert(line.subrange(1, to) =~= stamp);
}

/// How often `c` occurs in `s`.
pub open spec fn occurrences(s: Seq<char>, c: char) -> nat
    decreases s.len(),
{
    if s.len() == 0 {
        0
    } else {
        occurrences(s.drop_last(), c) + if s.last() == c {
            1nat
        } else {
            0nat
        }
    }
}

proof fn lemma_occurrences_none(s: Seq<char>, c: char)
    requires
        !s.contains(c),
    ensures
        occurrences(s, c) == 0,
    decreases s.len(),
{
    if s.len() > 0 {
        assert(s.last() == s[s.len() - 1]);
        assert forall|i: int| 0 <= i < s.drop_last().len() implies s.drop_last()[i] != c by {
            assert(s.drop_last()[i] == s[i]);
        }
        lemma_occurrences_none(s.drop_last(), c);
    }
}

proof fn lemma_occurrences_add(a: Seq<char>, b: Seq<char>, c: char)
    ensures
        occurrences(a + b, c) == occurrences(a, c) + occurrences(b, c),
    decreases b.len(),
{
    if b.len() == 0 {
        assert(a + b =~= a);
    } else {
        assert((a + b).drop_last() =~= a + b.drop_last());
        lemma_occurrences_add(a, b.drop_last(), c);
    }
}

/// The parts that `colon_parts` gives hold no colon, and make up the text
/// with a colon between them.
proof fn lemma_colon_parts(s: Seq<char>)
    requires
        colon_parts(s) is Some,
    ensures
        ({
            let (h, m, sec) = colon_parts(s)->0;
            &&& s == h + seq![':'] + m + seq![':'] + sec
            &&& !h.contains(':')
            &&& !m.contains(':')
            &&& !sec.contains(':')
        }),
{
    let a = first_index(s, ':');
    let rest = s.skip(a + 1);
    let b = first_index(rest, ':');
    let last = rest.skip(b + 1);
    lemma_first_index(s, ':');
    lemma_first_index(rest, ':');
    lemma_first_index(last, ':');
    assert(s =~= s.take(a) + seq![':'] + rest.take(b) + seq![':'] + last);
}

/// Three parts without a colon, set around two colons, state a time if and
/// only if each is a decimal numeral, and then the time is
/// hours × 3600 + minutes × 60 + seconds.
pub proof fn lemma_timestamp_of_parts(h: Seq<char>, m: Seq<char>, sec: Seq<char>)
    requires
        !h.contains(':'),
        !m.contains(':'),
        !sec.contains(':'),
    ensures
        timestamp_millis(h + seq![':'] + m + seq![':'] + sec) == if is_decimal(h) && is_decimal(m)
            && is_decimal(sec) {
            Some(thousandths(h) * 3600 + thousandths(m) * 60 + thousandths(sec))
        } else {
            None
        },
{
    let s = h + seq![':'] + m + seq![':'] + sec;
    assert forall|j: int| 0 <= j < h.len() implies s[j] != ':' by {
        assert(h[j] == s[j]);
    }
    assert(is_first_index(s, ':', h.len() as int));
    lemma_first_index_unique(s, ':', h.len() as int);
    let rest = s.skip(h.len() as int + 1);
    assert(rest =~= m + seq![':'] + sec);
    assert forall|j: int| 0 <= j < m.len() implies rest[j] != ':' by {
        assert(m[j] == rest[j]);
    }
    assert(is_first_index(rest, ':', m.len() as int));
    lemma_first_index_unique(rest, ':', m.len() as int);
    let last = rest.skip(m.len() as int + 1);
    assert(last =~= sec);
    assert(is_first_index(sec, ':', sec.len() as int));
    lemma_first_index_unique(sec, ':', sec.len() as int);
    assert(s.take(h.len() as int) =~= h);
    assert(rest.take(m.len() as int) =~= m);
}

/// A text with fewer or more than two colons states no time.
pub proof fn lemma_timestamp_needs_three_parts(s: Seq<char>)
    requires
        occurrences(s, ':') != 2,
    ensures
        timestamp_millis(s) is None,
{
    if colon_parts(s) is Some {
        lemma_colon_parts(s);
        let (h, m, sec) = colon_parts(s)->0;
        let colon = seq![':'];
        lemma_occurrences_none(h, ':');
        lemma_occurrences_none(m, ':');
        lemma_occurrences_none(sec, ':');
        assert(colon.drop_last() =~= Seq::<char>::empty());
        assert(occurrences(Seq::<char>::empty(), ':') == 0);
        assert(colon.last() == ':');
        assert(occurrences(colon, ':') == 1);
        lemma_occurrences_add(h, colon, ':');
        lemma_occurrences_add(h + colon, m, ':');
        lemma_occurrences_add(h + colon + m, colon, ':');
        lemma_occurrences_add(h + colon + m + colon, sec, ':');
    }
}

/// A time written as `H:MM:SS.mmm`, with any number of digits for the hours,
/// the minutes and the seconds and three for the milliseconds, is read as
/// H × 3600 + MM × 60 + SS seconds and mmm milliseconds.
pub proof fn lemma_timestamp_of_clock_time(
    hours: Seq<char>,
    minutes: Seq<char>,
    seconds: Seq<char>,
    millis: Seq<char>,
)
    requires
        all_digits(hours) && hours.len() > 0,
        all_digits(minutes) && minutes.len() > 0,
        all_digits(seconds) && seconds.len() > 0,
        all_digits(millis) && millis.len() == 3,
    ensures
        timestamp_millis(
            hours + seq![':'] + minutes + seq![':'] + (seconds + seq!['.'] + millis),
        ) == Some(
            (digits_value(hours) * 3600 + digits_value(minutes) * 60 + digits_value(seconds))
                * 1000 + digits_value(millis),
        ),
{
    let sec = seconds + seq!['.'] + millis;
    lemma_decimal_of_digits(hours);
    lemma_decimal_of_digits(minutes);
    lemma_decimal_of_parts(seconds, millis);
    lemma_three_places(millis);
    assert forall|i: int| 0 <= i < hours.len() implies hours[i] != ':' by {
        lemma_decimal_chars(hours, i);
    }
    assert forall|i: int| 0 <= i < minutes.len() implies minutes[i] != ':' by {
        lemma_decimal_chars(minutes, i);
    }
    assert forall|i: int| 0 <= i < sec.len() implies sec[i] != ':' by {
        lemma_decimal_chars(sec, i);
    }
    lemma_timestamp_of_parts(hours, minutes, sec);
    assert((digits_value(hours) * 1000) * 3600 + (digits_value(minutes) * 1000) * 60 + (
    digits_value(seconds) * 1000 + digits_value(millis)) == (digits_value(hours) * 3600
        + digits_value(minutes) * 60 + digits_value(seconds)) * 1000 + digits_value(millis))
        by (nonlinear_arith);
}

/// A time written as hours, minutes and seconds in digits, the seconds with
/// any number of places after a point, is read as hours × 3600 + minutes ×
/// 60 + seconds, in milliseconds; of the places after the point the first
/// three count.
pub proof fn lemma_timestamp_of_digits(
    hours: Seq<char>,
    minutes: Seq<char>,
    seconds: Seq<char>,
    fraction: Seq<char>,
)
    requires
        all_digits(hours) && hours.len() > 0,
        all_digits(minutes) && minutes.len() > 0,
        all_digits(seconds) && all_digits(fraction),
        seconds.len() + fraction.len() > 0,
    ensures
        timestamp_millis(
            hours + seq![':'] + minutes + seq![':'] + (seconds + seq!['.'] + fraction),
        ) == Some(
            (digits_value(hours) * 3600 + digits_value(minutes) * 60 + digits_value(seconds))
                * 1000 + fraction_thousandths(fraction),
        ),
{
    let sec = seconds + seq!['.'] + fraction;
    lemma_decimal_of_digits(hours);
    lemma_decimal_of_digits(minutes);
    lemma_decimal_of_parts(seconds, fraction);
    assert forall|i: int| 0 <= i < hours.len() implies hours[i] != ':' by {
        lemma_decimal_chars(hours, i);
    }
    assert forall|i: int| 0 <= i < minutes.len() implies minutes[i] != ':' by {
        lemma_decimal_chars(minutes, i);
    }
    assert forall|i: int| 0 <= i < sec.len() implies sec[i] != ':' by {
        lemma_decimal_chars(sec, i);
    }
    lemma_timestamp_of_parts(hours, minutes, sec);
    assert((digits_value(hours) * 1000) * 3600 + (digits_value(minutes) * 1000) * 60 + (
    digits_value(seconds) * 1000 + fraction_thousandths(fraction)) == (digits_value(hours) * 3600
        + digits_value(minutes) * 60 + digits_value(seconds)) * 1000 + fraction_thousandths(
        fraction,
    )) by (nonlinear_arith);
}

/// A time written as hours, minutes and whole seconds in digits is read as
/// hours × 3600 + minutes × 60 + seconds, in milliseconds.
pub proof fn lemma_timestamp_of_whole_seconds(
    hours: Seq<char>,
    minutes: Seq<char>,
    seconds: Seq<char>,
)
    requires
        all_digits(hours) && hours.len() > 0,
        all_digits(minutes) && minutes.len() > 0,
        all_digits(seconds) && seconds.len() > 0,
    ensures
        timestamp_millis(hours + seq![':'] + minutes + seq![':'] + seconds) == Some(
            (digits_value(hours) * 3600 + digits_value(minutes) * 60 + digits_value(seconds))
                * 1000,
        ),
{
    lemma_decimal_of_digits(hours);
    lemma_decimal_of_digits(minutes);
    lemma_decimal_of_digits(seconds);
    assert forall|i: int| 0 <= i < hours.len() implies hours[i] != ':' by {
        lemma_decimal_chars(hours, i);
    }
    assert forall|i: int| 0 <= i < minutes.len() implies minutes[i] != ':' by {
        lemma_decimal_chars(minutes, i);
    }
    assert forall|i: int| 0 <= i < seconds.len() implies seconds[i] != ':' by {
        lemma_decimal_chars(seconds, i);
    }
    lemma_timestamp_of_parts(hours, minutes, seconds);
    assert((digits_value(hours) * 1000) * 3600 + (digits_value(minutes) * 1000) * 60
        + digits_value(seconds) * 1000 == (digits_value(hours) * 3600 + digits_value(minutes) * 60
        + digits_value(seconds)) * 1000) by (nonlinear_arith);
}

/// Reads a time from the characters `v`, as [`parse_timestamp`] does from a string.
pub fn read_timestamp(v: &Vec<char>) -> (r: Option<u64>)
    ensures
        r is Some <==> (timestamp_millis(v@) matches Some(ms) && ms <= u64::MAX),
        r matches Some(ms) ==> timestamp_millis(v@) == Some(ms as nat),
{
    let n = v.len();
    let a = find_char(v, 0, n, ':');
    proof {
        assert(v@.subrange(0, n as int) =~= v@);
    }
    if a >= n {
        return None;
    }
    let b = find_char(v, a + 1, n, ':');
    let ghost rest = v@.skip(a + 1);
    proof {
        assert(v@.subrange(a + 1, n as int) =~= rest);
    }
    if a + 1 + b >= n {
        return None;
    }
    let m_end = a + 1 + b;
    let c = find_char(v, m_end + 1, n, ':');
    let ghost last = rest.skip(b + 1);
    proof {
        assert(v@.subrange(m_end + 1, n as int) =~= last);
    }
    if m_end + 1 + c < n {
        return None;
    }
    proof {
        assert(v@.subrange(0, a as int) =~= v@.take(a as int));
        assert(v@.subrange(a + 1, m_end as int) =~= rest.take(b as int));
        assert(colon_parts(v@) == Some((v@.take(a as int), rest.take(b as int), last)));
    }
    let hours = match read_thousandths(v, 0, a) {
        Some(x) => x,
        None => {
            return None;
        },
    };
    let minutes = match read_thousandths(v, a + 1, m_end) {
        Some(x) => x,
        None => {
            return None;
        },
    };
    let seconds = match read_thousandths(v, m_end + 1, n) {
        Some(x) => x,
        None => {
            return None;
        },
    };
    let total: u128 = hours as u128 * 3600 + minutes as u128 * 60 + seconds as u128;
    if total > u64::MAX as u128 {
        return None;
    }
    Some(total as u64)
}

/// Reads a time written as `H:MM:SS.mmm`, in milliseconds.
///
/// The text must have exactly three parts around its colons, and each part
/// must be a decimal numeral. `None` for any other text, and for a time of
/// more milliseconds than a `u64` holds.
pub fn parse_timestamp(timestamp: &str) -> (r: Option<u64>)
    ensures
        r is Some <==> (timestamp_millis(timestamp@) matches Some(ms) && ms <= u64::MAX),
        r matches Some(ms) ==> timestamp_millis(timestamp@) == Some(ms as nat),
{
    let v = chars_of(timestamp);
    read_timestamp(&v)
}

/// Reads the start time of a segment line from its characters.
pub fn read_segment(line: &Vec<char>) -> (r: Option<u64>)
    ensures
        r is Some <==> (segment_millis(line@) matches Some(ms) && ms <= u64::MAX),
        r matches Some(ms) ==> segment_millis(line@) == Some(ms as nat),
{
    let n = line.len();
    let open = find_char(line, 0, n, '[');
    proof {
        assert(line@.subrange(0, n as int) =~= line@);
    }
    let pat = chars_of(" --> ");
    let to = match find_sub(line, &pat) {
        Some(i) => i,
        None => {
            return None;
        },
    };
    if open >= n || open >= to {
        return None;
    }
    let inner = sub_vec(line, open + 1, to);
    let (from, until) = trim_bounds(&inner);
    let stamp = sub_vec(&inner, from, until);
    read_timestamp(&stamp)
}

/// Reads the start time of the segment that a line of standard output
/// reports, in milliseconds.
///
/// A segment line has the form `[H:MM:SS.mmm --> H:MM:SS.mmm] text`. `None`
/// for a line without `[` or without ` --> `, for one whose first `[` does
/// not stand before its first ` --> `, and for one with no time between them.
pub fn extract_progress_from_whisper_output(line: &str) -> (r: Option<u64>)
    ensures
        r is Some <==> (segment_millis(line@) matches Some(ms) && ms <= u64::MAX),
        r matches Some(ms) ==> segment_millis(line@) == Some(ms as nat),
{
    let v = chars_of(line);
    read_segment(&v)
}

/// Reads the percentage of a progress line from its characters.
pub fn read_percentage(line: &Vec<char>) -> (r: Option<u64>)
    ensures
        r is Some <==> (percent_thousandths(line@) matches Some(p) && p <= u64::MAX),
        r matches Some(p) ==> percent_thousandths(line@) == Some(p as nat),
{
    let marker = chars_of("whisper_print_progress_callback");
    if find_sub(line, &marker).is_none() {
        return None;
    }
    let sign = match rfind_char(line, '%') {
        Some(i) => i,
        None => {
            return None;
        },
    };
    let end = scan_back(line, sign, CharClass::AsciiSpace);
    let digits = scan_back(line, end, CharClass::Digit);
    let start = if digits > 0 && line[digits - 1] == '.' {
        scan_back(line, digits - 1, CharClass::Digit)
    } else {
        digits
    };
    read_thousandths(line, start, end)
}

/// Reads the percentage that a line of standard error reports, in
/// thousandths of a percent.
///
/// Only a line that holds the token `whisper_print_progress_callback` is
/// read. The numeral is the one before the last `%` of the line. `None` for
/// a line without the token, without `%`, or without a digit before the `%`.
pub fn extract_percentage_from_progress_line(line: &str) -> (r: Option<u64>)
    ensures
        r is Some <==> (percent_thousandths(line@) matches Some(p) && p <= u64::MAX),
        r matches Some(p) ==> percent_thousandths(line@) == Some(p as nat),
{
    let v = chars_of(line);
    read_percentage(&v)
}

} // verus!
