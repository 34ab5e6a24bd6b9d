//! Decimal numerals, read and written exactly.
//!
//! A numeral is a run of ASCII digits with at most one point in it and at
//! least one digit. It is read to three places after the point: the value in
//! *thousandths* is an integer, and digits beyond the third place are dropped.
//! Times in this crate are therefore whole milliseconds, and percentages
//! whole thousandths of a percent.
//!
//! A sign, an exponent, and the words for infinity and for what is no
//! number are no part of a numeral. The transcription binary writes its
//! times as `H:MM:SS.mmm` and its percentages in digits, so none of them
//! occurs in what is read here; and a reader that took them would have to
//! give a value in milliseconds to texts that have none, such as `inf`, or
//! none that fits, such as `1e400`. A text that holds one is read as any
//! other text that is no numeral.

use vstd::prelude::*;
use crate::text::{
    find_char, first_index, is_digit, is_first_index, lemma_first_index,
    lemma_first_index_unique, CharClass,
};

verus! {

/// The value of the digit `c`.
pub open spec fn digit_value(c: char) -> nat {
    (c as int - '0' as int) as nat
}

/// The value of a run of digits, read in base ten. The empty run is zero.
pub open spec fn digits_value(s: Seq<char>) -> nat
    decreases s.len(),
{
    if s.len() == 0 {
        0
    } else {
        digits_value(s.drop_last()) * 10 + digit_value(s.last())
    }
}

/// Whether `s` holds ASCII digits only.
pub open spec fn all_digits(s: Seq<char>) -> bool {
    forall|i: int| 0 <= i < s.len() ==> is_digit(#[trigger] s[i])
}

/// The digits of `s` before its first point: all of `s` if it has none.
pub open spec fn whole_digits(s: Seq<char>) -> Seq<char> {
    s.take(first_index(s, '.'))
}

/// The digits of `s` after its first point: none if it has no point.
pub open spec fn fraction_digits(s: Seq<char>) -> Seq<char> {
    if first_index(s, '.') < s.len() {
        s.skip(first_index(s, '.') + 1)
    } else {
        Seq::empty()
    }
}

/// `s` is a decimal numeral: digits, at most one point, at least one digit.
pub open spec fn is_decimal(s: Seq<char>) -> bool {
    &&& all_digits(whole_digits(s))
    &&& all_digits(fraction_digits(s))
    &&& whole_digits(s).len() + fraction_digits(s).len() > 0
}

/// The digit in place `i` of a fraction, zero where the fraction has ended.
pub open spec fn place(f: Seq<char>, i: int) -> nat {
    if 0 <= i < f.len() {
        digit_value(f[i])
    } else {
        0
    }
}

/// The first three places of a fraction, as a number of thousandths.
pub open spec fn fraction_thousandths(f: Seq<char>) -> nat {
    place(f, 0) * 100 + place(f, 1) * 10 + place(f, 2)
}

/// The value of the numeral `s` in thousandths, places beyond the third dropped.
pub open spec fn thousandths(s: Seq<char>) -> nat {
    digits_value(whole_digits(s)) * 1000 + fraction_thousandths(fraction_digits(s))
}

/// A run of digits is worth at least as much as any of its prefixes.
pub proof fn lemma_digits_value_prefix(s: Seq<char>, k: int)
    requires
        0 <= k <= s.len(),
    ensures
        digits_value(s.take(k)) <= digits_value(s),
    decreases s.len() - k,
{
    if k == s.len() {
        assert(s.take(k) =~= s);
    } else {
        lemma_digits_value_prefix(s.drop_last(), k);
        assert(s.drop_last().take(k) =~= s.take(k));
    }
}

/// Reading one more digit multiplies by ten and adds the digit.
pub proof fn lemma_digits_value_push(s: Seq<char>, k: int)
    requires
        0 <= k < s.len(),
    ensures
        digits_value(s.take(k + 1)) == digits_value(s.take(k)) * 10 + digit_value(s[k]),
{
    assert(s.take(k + 1).drop_last() =~= s.take(k));
}

/// A numeral holds digits and points only.
pub proof fn lemma_decimal_chars(s: Seq<char>, i: int)
    requires
        is_decimal(s),
        0 <= i < s.len(),
    ensures
        is_digit(s[i]) || s[i] == '.',
{
    lemma_first_index(s, '.');
    let p = first_index(s, '.');
    if i < p {
        assert(whole_digits(s)[i] == s[i]);
    } else if i > p {
        assert(fraction_digits(s)[i - p - 1] == s[i]);
    }
}

/// Digits before a point and digits after it make a numeral, worth the
/// digits before it and the first three places after it.
pub proof fn lemma_decimal_of_parts(whole: Seq<char>, fraction: Seq<char>)
    requires
        all_digits(whole),
        all_digits(fraction),
        whole.len() + fraction.len() > 0,
    ensures
        is_decimal(whole + seq!['.'] + fraction),
        thousandths(whole + seq!['.'] + fraction) == digits_value(whole) * 1000
            + fraction_thousandths(fraction),
{
    let s = whole + seq!['.'] + fraction;
    assert forall|j: int| 0 <= j < whole.len() implies s[j] != '.' by {
        assert(is_digit(whole[j]));
    }
    assert(is_first_index(s, '.', whole.len() as int));
    lemma_first_index_unique(s, '.', whole.len() as int);
    assert(whole_digits(s) =~= whole);
    assert(fraction_digits(s) =~= fraction);
}

/// Digits without a point make a numeral, worth the digits.
pub proof fn lemma_decimal_of_digits(whole: Seq<char>)
    requires
        all_digits(whole),
        whole.len() > 0,
    ensures
        is_decimal(whole),
        thousandths(whole) == digits_value(whole) * 1000,
{
    assert forall|j: int| 0 <= j < whole.len() implies whole[j] != '.' by {
        assert(is_digit(whole[j]));
    }
    assert(is_first_index(whole, '.', whole.len() as int));
    lemma_first_index_unique(whole, '.', whole.len() as int);
    assert(whole_digits(whole) =~= whole);
    assert(fraction_digits(whole) =~= Seq::<char>::empty());
}

/// Three digits after the point are read as a number of thousandths.
pub proof fn lemma_three_places(fraction: Seq<char>)
    requires
        fraction.len() == 3,
    ensures
        fraction_thousandths(fraction) == digits_value(fraction),
{
    let a = fraction.drop_last();
    let b = a.drop_last();
    let c = b.drop_last();
    assert(c.len() == 0);
    assert(digits_value(b) == digits_value(c) * 10 + digit_value(b.last()));
    assert(digits_value(a) == digits_value(b) * 10 + digit_value(a.last()));
    assert(b.last() == fraction[0]);
    assert(a.last() == fraction[1]);
}

/// The digit that stands for `d`, for `d` below ten.
pub open spec fn digit_char(d: nat) -> char {
    ('0' as u8 + d) as char
}

/// `n` written in base ten, without leading zeros.
pub open spec fn decimal_digits(n: nat) -> Seq<char>
    decreases n,
{
    if n < 10 {
        seq![digit_char(n)]
    } else {
        decimal_digits(n / 10).push(digit_char(n % 10))
    }
}

/// Appends `n`, written in base ten, to `out`.
pub fn push_decimal(out: &mut String, n: u64)
    ensures
        final(out)@ == old(out)@ + decimal_digits(n as nat),
    decreases n,
{
    if n >= 10 {
        push_decimal(out, n / 10);
    }
    let d: u8 = (n % 10) as u8;
    out.push((48u8 + d) as char);
    proof {
        if n >= 10 {
            assert(old(out)@ + decimal_digits(n as nat / 10).push(digit_char(n as nat % 10))
                =~= (old(out)@ + decimal_digits(n as nat / 10)).push(digit_char(n as nat % 10)));
        } else {
            assert(old(out)@ + seq![digit_char(n as nat)] =~= old(out)@.push(
                digit_char(n as nat),
            ));
        }
    }
}

/// `n` written in base ten.
pub fn decimal_string(n: u64) -> (s: String)
    ensures
        s@ == decimal_digits(n as nat),
{
    let mut s = String::new();
    push_decimal(&mut s, n);
    assert(Seq::<char>::empty() + decimal_digits(n as nat) =~= decimal_digits(n as nat));
    s
}

/// The value of the digit `c`.
pub fn digit_of(c: char) -> (d: u64)
    requires
        is_digit(c),
    ensures
        d == digit_value(c),
        d <= 9,
{
    (c as u32 - '0' as u32) as u64
}

/// Whether `v[from..to]` holds digits only.
fn digits_only(v: &Vec<char>, from: usize, to: usize) -> (b: bool)
    requires
        from <= to <= v.len(),
    ensures
        b == all_digits(v@.subrange(from as int, to as int)),
{
    let ghost s = v@.subrange(from as int, to as int);
    let mut i: usize = from;
    while i < to
        invariant
            from <= i <= to <= v.len(),
            s == v@.subrange(from as int, to as int),
            forall|j: int| 0 <= j < i - from ==> is_digit(#[trigger] s[j]),
        decreases to - i,
    {
        if !CharClass::Digit.holds(v[i]) {
            assert(!is_digit(s[i - from]));
            return false;
        }
        i += 1;
    }
    true
}

/// The value of the digits `v[from..to]`, unless it is beyond a `u64`.
fn read_digits(v: &Vec<char>, from: usize, to: usize) -> (r: Option<u64>)
    requires
        from <= to <= v.len(),
        all_digits(v@.subrange(from as int, to as int)),
    ensures
        match r {
            Some(n) => n == digits_value(v@.subrange(from as int, to as int)),
            None => digits_value(v@.subrange(from as int, to as int)) > u64::MAX,
        },
{
    let ghost s = v@.subrange(from as int, to as int);
    let mut acc: u64 = 0;
    let mut i: usize = from;
    proof {
        assert(s.take(0) =~= Seq::<char>::empty());
    }
    while i < to
        invariant
            from <= i <= to <= v.len(),
            s == v@.subrange(from as int, to as int),
            all_digits(s),
            acc == digits_value(s.take(i - from)),
        decreases to - i,
    {
        assert(is_digit(s[i - from]));
        let d = digit_of(v[i]);
        proof {
            lemma_digits_value_push(s, i - from);
            lemma_digits_value_prefix(s, i - from + 1);
        }
        if acc > (u64::MAX - d) / 10 {
            return None;
        }
        acc = acc * 10 + d;
        i += 1;
    }
    proof {
        assert(s.take(to - from) =~= s);
    }
    Some(acc)
}

/// Reads the numeral `v[from..to]` in thousandths.
///
/// `None` if the range holds no numeral, or one whose value in thousandths is
/// beyond a `u64`.
pub fn read_thousandths(v: &Vec<char>, from: usize, to: usize) -> (r: Option<u64>)
    requires
        from <= to <= v.len(),
    ensures
        r is Some <==> is_decimal(v@.subrange(from as int, to as int)) && thousandths(
            v@.subrange(from as int, to as int),
        ) <= u64::MAX,
        r matches Some(n) ==> n == thousandths(v@.subrange(from as int, to as int)),
{
    let ghost s = v@.subrange(from as int, to as int);
    let p = find_char(v, from, to, '.');
    let point = from + p;
    let frac_from = if point < to {
        point + 1
    } else {
        to
    };
    proof {
        assert(whole_digits(s) =~= v@.subrange(from as int, point as int));
        assert(fraction_digits(s) =~= v@.subrange(frac_from as int, to as int));
    }
    if !digits_only(v, from, point) || !digits_only(v, frac_from, to) {
        return None;
    }
    if point - from + (to - frac_from) == 0 {
        return None;
    }
    let whole = match read_digits(v, from, point) {
        Some(w) => w,
        None => {
            return None;
        },
    };
    let ghost f = fraction_digits(s);
    let mut frac: u64 = 0;
    if frac_from < to {
        assert(is_digit(f[0]));
        frac = frac + digit_of(v[frac_from]) * 100;
    }
    if to - frac_from > 1 {
        assert(is_digit(f[1]));
        frac = frac + digit_of(v[frac_from + 1]) * 10;
    }
    if to - frac_from > 2 {
        assert(is_digit(f[2]));
        frac = frac + digit_of(v[frac_from + 2]);
    }
    assert(frac == fraction_thousandths(f));
    if whole > (u64::MAX - frac) / 1000 {
        return None;
    }
    Some(whole * 1000 + frac)
}

} // verus!
