//! Character-level vocabulary shared by the parsers and formatters.
//!
//! Strings are modelled by their view, a `Seq<char>`. The executable helpers
//! work on a `Vec<char>` and on index ranges into it, so that a line is
//! decoded once and then only indexed.

use vstd::prelude::*;

verus! {

/// `String::push` appends one character to the end of the string.
pub assume_specification[ String::push ](s: &mut String, ch: char)
    ensures
        final(s)@ == old(s)@.push(ch),
;

/// Classes of characters that the scanners skip or collect.
#[derive(Clone, Copy, Debug)]
pub enum CharClass {
    /// The ten ASCII digits.
    Digit,
    /// ASCII whitespace: space, tab, line feed, form feed, carriage return.
    AsciiSpace,
    /// Unicode whitespace (the `White_Space` property).
    Space,
    /// The double quote.
    Quote,
}

/// Whether `c` is one of the ten ASCII digits.
pub open spec fn is_digit(c: char) -> bool {
    '0' <= c <= '9'
}

/// Whether `c` is ASCII whitespace: space, tab, line feed, form feed or
/// carriage return.
pub open spec fn is_ascii_space(c: char) -> bool {
    c == ' ' || c == '\t' || c == '\n' || c == '\x0C' || c == '\r'
}

/// Whether `c` is whitespace by the Unicode property `White_Space`.
pub open spec fn is_space(c: char) -> bool {
    ||| c == ' '
    ||| '\t' <= c <= '\r'
    ||| c == '\u{85}'
    ||| c == '\u{A0}'
    ||| c == '\u{1680}'
    ||| '\u{2000}' <= c <= '\u{200A}'
    ||| c == '\u{2028}'
    ||| c == '\u{2029}'
    ||| c == '\u{202F}'
    ||| c == '\u{205F}'
    ||| c == '\u{3000}'
}

impl CharClass {
    /// Whether `c` belongs to the class.
    pub open spec fn has(self, c: char) -> bool {
        match self {
            CharClass::Digit => is_digit(c),
            CharClass::AsciiSpace => is_ascii_space(c),
            CharClass::Space => is_space(c),
            CharClass::Quote => c == '"',
        }
    }

    /// Whether `c` belongs to the class.
    pub fn holds(self, c: char) -> (b: bool)
        ensures
            b == self.has(c),
    {
        match self {
            CharClass::Digit => '0' <= c && c <= '9',
            CharClass::AsciiSpace => c == ' ' || c == '\t' || c == '\n' || c == '\x0C' || c == '\r',
            CharClass::Space => {
                c == ' ' || ('\t' <= c && c <= '\r') || c == '\u{85}' || c == '\u{A0}' || c
                    == '\u{1680}' || ('\u{2000}' <= c && c <= '\u{200A}') || c == '\u{2028}' || c
                    == '\u{2029}' || c == '\u{202F}' || c == '\u{205F}' || c == '\u{3000}'
            },
            CharClass::Quote => c == '"',
        }
    }
}

/// The least `i <= end` such that all of `s[i..end]` is in `class`.
pub open spec fn run_start(s: Seq<char>, end: int, class: CharClass) -> int
    decreases end,
{
    if 0 < end <= s.len() && class.has(s[end - 1]) {
        run_start(s, end - 1, class)
    } else {
        end
    }
}

/// The greatest `i >= start` such that all of `s[start..i]` is in `class`.
pub open spec fn run_end(s: Seq<char>, start: int, class: CharClass) -> int
    decreases s.len() - start,
{
    if 0 <= start < s.len() && class.has(s[start]) {
        run_end(s, start + 1, class)
    } else {
        start
    }
}

/// `i` is where `c` first occurs in `s`, or `s.len()` if it does not occur.
pub open spec fn is_first_index(s: Seq<char>, c: char, i: int) -> bool {
    &&& 0 <= i <= s.len()
    &&& i < s.len() ==> s[i] == c
    &&& forall|j: int| 0 <= j < i ==> s[j] != c
}

/// Where `c` first occurs in `s`, or `s.len()` if it does not occur.
pub open spec fn first_index(s: Seq<char>, c: char) -> int {
    choose|i: int| is_first_index(s, c, i)
}

/// `i` is where `c` last occurs in `s`, or `-1` if it does not occur.
pub open spec fn is_last_index(s: Seq<char>, c: char, i: int) -> bool {
    &&& -1 <= i < s.len()
    &&& 0 <= i ==> s[i] == c
    &&& forall|j: int| i < j < s.len() ==> s[j] != c
}

/// Where `c` last occurs in `s`, or `-1` if it does not occur.
pub open spec fn last_index(s: Seq<char>, c: char) -> int {
    choose|i: int| is_last_index(s, c, i)
}

/// `pat` stands in `s` at index `i`.
pub open spec fn occurs_at(s: Seq<char>, pat: Seq<char>, i: int) -> bool {
    0 <= i && i + pat.len() <= s.len() && s.subrange(i, i + pat.len()) == pat
}

/// `pat` stands somewhere in `s`.
pub open spec fn contains_sub(s: Seq<char>, pat: Seq<char>) -> bool {
    exists|i: int| occurs_at(s, pat, i)
}

/// `i` is where `pat` first stands in `s`, or `s.len() + 1` if it stands nowhere.
pub open spec fn is_first_occurrence(s: Seq<char>, pat: Seq<char>, i: int) -> bool {
    &&& occurs_at(s, pat, i) || i == s.len() + 1
    &&& forall|j: int| 0 <= j < i ==> !occurs_at(s, pat, j)
}

/// Where `pat` first stands in `s`, or `s.len() + 1` if it stands nowhere.
pub open spec fn first_occurrence(s: Seq<char>, pat: Seq<char>) -> int {
    choose|i: int| is_first_occurrence(s, pat, i)
}

/// `s` without the characters of `class` at its start and at its end.
pub open spec fn stripped(s: Seq<char>, class: CharClass) -> Seq<char> {
    let start = run_end(s, 0, class);
    let end = run_start(s, s.len() as int, class);
    if start <= end {
        s.subrange(start, end)
    } else {
        Seq::empty()
    }
}

/// `s` without its leading and trailing Unicode whitespace.
pub open spec fn trimmed(s: Seq<char>) -> Seq<char> {
    stripped(s, CharClass::Space)
}

/// `run_start` is the one index from which a run of `class` reaches `end`
/// and before which it cannot be extended.
pub proof fn lemma_run_start_is(s: Seq<char>, end: int, class: CharClass, k: int)
    requires
        0 <= k <= end <= s.len(),
        forall|j: int| k <= j < end ==> class.has(#[trigger] s[j]),
        k > 0 ==> !class.has(s[k - 1]),
    ensures
        run_start(s, end, class) == k,
    decreases end - k,
{
    if k < end {
        assert(class.has(s[end - 1]));
        lemma_run_start_is(s, end - 1, class, k);
    }
}

/// The least index at or after `k` where `c` stands in `s`, or `s.len()`.
proof fn first_index_from(s: Seq<char>, c: char, k: int) -> (i: int)
    requires
        0 <= k <= s.len(),
        forall|j: int| 0 <= j < k ==> s[j] != c,
    ensures
        is_first_index(s, c, i),
    decreases s.len() - k,
{
    if k == s.len() || s[k] == c {
        k
    } else {
        first_index_from(s, c, k + 1)
    }
}

/// `first_index` is the index that `is_first_index` describes.
pub proof fn lemma_first_index(s: Seq<char>, c: char)
    ensures
        is_first_index(s, c, first_index(s, c)),
{
    let i = first_index_from(s, c, 0);
    assert(is_first_index(s, c, i));
}

/// The index that `is_first_index` describes is unique.
pub proof fn lemma_first_index_unique(s: Seq<char>, c: char, i: int)
    requires
        is_first_index(s, c, i),
    ensures
        first_index(s, c) == i,
{
    let k = first_index(s, c);
    assert(is_first_index(s, c, k));
    if k < i {
        assert(s[k] != c);
    } else if i < k {
        assert(s[i] != c);
    }
}

/// The index that `is_last_index` describes is unique.
pub proof fn lemma_last_index_unique(s: Seq<char>, c: char, i: int)
    requires
        is_last_index(s, c, i),
    ensures
        last_index(s, c) == i,
{
    let k = last_index(s, c);
    assert(is_last_index(s, c, k));
    if k < i {
        assert(s[i] != c);
    } else if i < k {
        assert(s[k] != c);
    }
}

/// The index that `is_first_occurrence` describes is unique.
pub proof fn lemma_first_occurrence_unique(s: Seq<char>, pat: Seq<char>, i: int)
    requires
        is_first_occurrence(s, pat, i),
    ensures
        first_occurrence(s, pat) == i,
        contains_sub(s, pat) <==> i <= s.len(),
{
    let k = first_occurrence(s, pat);
    assert(is_first_occurrence(s, pat, k));
    if k < i {
        assert(!occurs_at(s, pat, k));
    } else if i < k {
        assert(!occurs_at(s, pat, i));
    }
    if contains_sub(s, pat) {
        let w = choose|w: int| occurs_at(s, pat, w);
        if i > s.len() {
            assert(!occurs_at(s, pat, w));
        }
    }
}

/// The characters of `s`, in order.
pub fn chars_of(s: &str) -> (v: Vec<char>)
    ensures
        v@ == s@,
{
    let mut v: Vec<char> = Vec::new();
    for c in it: s.chars()
        invariant
            v@ == it.seq().take(it.index()),
            it.seq() == s@,
    {
        v.push(c);
    }
    v
}

/// `c` as a lower-case letter if it is an ASCII upper-case letter, else `c`.
pub open spec fn ascii_lower(c: char) -> char {
    if 'A' <= c <= 'Z' {
        (c as u8 + 32) as char
    } else {
        c
    }
}

/// `s` with its ASCII upper-case letters made lower-case.
pub open spec fn lowercase(s: Seq<char>) -> Seq<char> {
    s.map_values(|c: char| ascii_lower(c))
}

/// The characters of `s` with the ASCII upper-case letters made lower-case.
pub fn lowercase_chars(s: &str) -> (v: Vec<char>)
    ensures
        v@ == lowercase(s@),
{
    let src = chars_of(s);
    let mut v: Vec<char> = Vec::new();
    let mut i: usize = 0;
    while i < src.len()
        invariant
            i <= src.len(),
            src@ == s@,
            v@ == lowercase(s@).take(i as int),
        decreases src.len() - i,
    {
        let c = src[i];
        let l = if 'A' <= c && c <= 'Z' {
            (c as u8 + 32u8) as char
        } else {
            c
        };
        v.push(l);
        assert(v@ =~= lowercase(s@).take(i + 1));
        i += 1;
    }
    assert(lowercase(s@).take(src.len() as int) =~= lowercase(s@));
    v
}

/// Whether two sequences of characters are the same.
pub fn same_chars(a: &Vec<char>, b: &Vec<char>) -> (r: bool)
    ensures
        r == (a@ == b@),
{
    if a.len() != b.len() {
        return false;
    }
    let mut i: usize = 0;
    while i < a.len()
        invariant
            i <= a.len(),
            a.len() == b.len(),
            forall|j: int| 0 <= j < i ==> a@[j] == b@[j],
        decreases a.len() - i,
    {
        if a[i] != b[i] {
            return false;
        }
        i += 1;
    }
    assert(a@ =~= b@);
    true
}

/// Whether two strings hold the same text.
pub fn same_text(a: &str, b: &str) -> (r: bool)
    ensures
        r == (a@ == b@),
{
    let x = chars_of(a);
    let y = chars_of(b);
    same_chars(&x, &y)
}

/// A copy of `v[from..to]`.
pub fn sub_vec(v: &Vec<char>, from: usize, to: usize) -> (r: Vec<char>)
    requires
        from <= to <= v.len(),
    ensures
        r@ == v@.subrange(from as int, to as int),
{
    let mut r: Vec<char> = Vec::new();
    let mut i: usize = from;
    while i < to
        invariant
            from <= i <= to <= v.len(),
            r@ == v@.subrange(from as int, i as int),
        decreases to - i,
    {
        r.push(v[i]);
        i += 1;
    }
    r
}

/// The string made of the characters `v[from..to]`.
pub fn string_of(v: &Vec<char>, from: usize, to: usize) -> (s: String)
    requires
        from <= to <= v.len(),
    ensures
        s@ == v@.subrange(from as int, to as int),
{
    let mut s = String::new();
    let mut i: usize = from;
    while i < to
        invariant
            from <= i <= to <= v.len(),
            s@ == v@.subrange(from as int, i as int),
        decreases to - i,
    {
        s.push(v[i]);
        i += 1;
    }
    s
}

/// Scans backwards from `end` over characters of `class`.
pub fn scan_back(v: &Vec<char>, end: usize, class: CharClass) -> (i: usize)
    requires
        end <= v.len(),
    ensures
        i == run_start(v@, end as int, class),
        i <= end,
{
    let mut i: usize = end;
    while i > 0 && class.holds(v[i - 1])
        invariant
            i <= end <= v.len(),
            run_start(v@, end as int, class) == run_start(v@, i as int, class),
        decreases i,
    {
        i -= 1;
    }
    i
}

/// Scans forwards from `start` over characters of `class`.
pub fn scan_forward(v: &Vec<char>, start: usize, class: CharClass) -> (i: usize)
    requires
        start <= v.len(),
    ensures
        i == run_end(v@, start as int, class),
        start <= i <= v.len(),
{
    let mut i: usize = start;
    while i < v.len() && class.holds(v[i])
        invariant
            start <= i <= v.len(),
            run_end(v@, start as int, class) == run_end(v@, i as int, class),
        decreases v.len() - i,
    {
        i += 1;
    }
    i
}

/// Finds the first `c` in `v[from..to]`; the result is relative to `from`,
/// and `to - from` when there is none.
pub fn find_char(v: &Vec<char>, from: usize, to: usize, c: char) -> (i: usize)
    requires
        from <= to <= v.len(),
    ensures
        i == first_index(v@.subrange(from as int, to as int), c),
        i <= to - from,
{
    let ghost s = v@.subrange(from as int, to as int);
    let mut i: usize = from;
    while i < to && v[i] != c
        invariant
            from <= i <= to <= v.len(),
            s == v@.subrange(from as int, to as int),
            forall|j: int| 0 <= j < i - from ==> s[j] != c,
        decreases to - i,
    {
        i += 1;
    }
    proof {
        lemma_first_index_unique(s, c, i - from);
    }
    i - from
}

/// Finds the last `c` in `v`.
pub fn rfind_char(v: &Vec<char>, c: char) -> (r: Option<usize>)
    ensures
        match r {
            Some(i) => i == last_index(v@, c) && i < v.len(),
            None => last_index(v@, c) == -1,
        },
{
    let mut i: usize = v.len();
    while i > 0 && v[i - 1] != c
        invariant
            i <= v.len(),
            forall|j: int| i <= j < v.len() ==> v@[j] != c,
        decreases i,
    {
        i -= 1;
    }
    proof {
        lemma_last_index_unique(v@, c, i - 1);
    }
    if i == 0 {
        None
    } else {
        Some(i - 1)
    }
}

/// Whether `pat` stands in `v` at index `at`.
pub fn matches_at(v: &Vec<char>, at: usize, pat: &Vec<char>) -> (b: bool)
    ensures
        b == occurs_at(v@, pat@, at as int),
{
    if pat.len() > v.len() || at > v.len() - pat.len() {
        return false;
    }
    let mut k: usize = 0;
    while k < pat.len()
        invariant
            k <= pat.len(),
            at + pat.len() <= v.len(),
            forall|j: int| 0 <= j < k ==> v@[at + j] == pat@[j],
        decreases pat.len() - k,
    {
        if v[at + k] != pat[k] {
            proof {
                let sub = v@.subrange(at as int, at + pat.len());
                assert(sub[k as int] == v@[at + k]);
            }
            return false;
        }
        k += 1;
    }
    assert(v@.subrange(at as int, at + pat.len()) =~= pat@);
    true
}

/// Finds where `pat` first stands in `v`, if it stands anywhere.
pub fn find_sub(v: &Vec<char>, pat: &Vec<char>) -> (r: Option<usize>)
    ensures
        match r {
            Some(i) => i == first_occurrence(v@, pat@) && occurs_at(v@, pat@, i as int),
            None => first_occurrence(v@, pat@) == v@.len() + 1,
        },
        r is Some <==> contains_sub(v@, pat@),
{
    let mut i: usize = 0;
    while i <= v.len()
        invariant
            i <= v.len() + 1,
            forall|j: int| 0 <= j < i ==> !occurs_at(v@, pat@, j),
        decreases v.len() + 1 - i,
    {
        if matches_at(v, i, pat) {
            proof {
                lemma_first_occurrence_unique(v@, pat@, i as int);
            }
            return Some(i);
        }
        if i == v.len() {
            proof {
                assert forall|j: int| 0 <= j < v@.len() + 1 implies !occurs_at(v@, pat@, j) by {}
                lemma_first_occurrence_unique(v@, pat@, v@.len() as int + 1);
            }
            return None;
        }
        i += 1;
    }
    proof {
        lemma_first_occurrence_unique(v@, pat@, v@.len() as int + 1);
    }
    None
}

/// `line` without the carriage return at its end, if it has one there.
pub open spec fn without_return(line: Seq<char>) -> Seq<char> {
    if line.len() > 0 && line.last() == '\r' {
        line.drop_last()
    } else {
        line
    }
}

/// The lines of `text`. A line ends at a line feed, or at a carriage
/// return followed by a line feed, or with the text; what ends it is no
/// part of it. A text that ends with the end of a line has no further,
/// empty line.
pub open spec fn text_lines(text: Seq<char>) -> Seq<Seq<char>>
    decreases text.len(),
{
    let end = first_index(text, '\n');
    if text.len() == 0 {
        seq![]
    } else if 0 <= end < text.len() {
        seq![without_return(text.take(end))] + text_lines(text.skip(end + 1))
    } else {
        seq![text]
    }
}

/// The lines of `text`.
pub fn lines_of(text: &str) -> (lines: Vec<String>)
    ensures
        lines.deep_view() == text_lines(text@),
{
    let v = chars_of(text);
    let n = v.len();
    let mut lines: Vec<String> = Vec::new();
    let mut pos: usize = 0;
    assert(v@.skip(0) =~= v@);
    assert(lines.deep_view() =~= Seq::<Seq<char>>::empty());
    while pos < n
        invariant
            pos <= n == v.len(),
            v@ == text@,
            text_lines(text@) == lines.deep_view() + text_lines(v@.skip(pos as int)),
        decreases n - pos,
    {
        let ghost rest = v@.skip(pos as int);
        let ghost before = lines.deep_view();
        let end = find_char(&v, pos, n, '\n');
        assert(v@.subrange(pos as int, n as int) =~= rest);
        if pos + end >= n {
            let line = string_of(&v, pos, n);
            assert(line@ =~= rest);
            lines.push(line);
            assert(lines.deep_view() =~= before + seq![rest]);
            assert(v@.skip(n as int) =~= Seq::<char>::empty());
            assert(lines.deep_view() + text_lines(v@.skip(n as int)) =~= before + seq![rest]);
            pos = n;
        } else {
            let stop = if end > 0 && v[pos + end - 1] == '\r' {
                pos + end - 1
            } else {
                pos + end
            };
            let line = string_of(&v, pos, stop);
            proof {
                let whole = rest.take(end as int);
                assert(whole =~= v@.subrange(pos as int, pos + end));
                if end > 0 && v@[pos + end - 1] == '\r' {
                    assert(whole.last() == '\r');
                    assert(whole.drop_last() =~= v@.subrange(pos as int, stop as int));
                }
                assert(line@ == without_return(whole));
            }
            lines.push(line);
            assert(lines.deep_view() =~= before + seq![without_return(rest.take(end as int))]);
            assert(rest.skip(end + 1) =~= v@.skip(pos + end + 1));
            assert(before + (seq![without_return(rest.take(end as int))] + text_lines(
                rest.skip(end + 1),
            )) =~= (before + seq![without_return(rest.take(end as int))]) + text_lines(
                rest.skip(end + 1),
            ));
            pos = pos + end + 1;
        }
    }
    assert(v@.skip(n as int) =~= Seq::<char>::empty());
    assert(lines.deep_view() + Seq::<Seq<char>>::empty() =~= lines.deep_view());
    lines
}

/// The bounds of `v` without the characters of `class` at its start and at
/// its end.
pub fn strip_bounds(v: &Vec<char>, class: CharClass) -> (r: (usize, usize))
    ensures
        r.0 <= r.1 <= v.len(),
        v@.subrange(r.0 as int, r.1 as int) == stripped(v@, class),
{
    let start = scan_forward(v, 0, class);
    let end = scan_back(v, v.len(), class);
    if start <= end {
        (start, end)
    } else {
        assert(v@.subrange(start as int, start as int) =~= Seq::<char>::empty());
        (start, start)
    }
}

/// The bounds of `v` without its leading and trailing Unicode whitespace.
pub fn trim_bounds(v: &Vec<char>) -> (r: (usize, usize))
    ensures
        r.0 <= r.1 <= v.len(),
        v@.subrange(r.0 as int, r.1 as int) == trimmed(v@),
{
    strip_bounds(v, CharClass::Space)
}

} // verus!
