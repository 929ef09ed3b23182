//! Prices from decimal text.

use crate::fixed::{in_price_range, Price};
use crate::text::{
    all_digits, decimal, decimal_value, digit_char, digit_value, is_digit, lemma_decimal,
    magnitude, padded4, ticks_text,
};
use vstd::prelude::*;

verus! {

/// The first position from `from` on that holds a point, or the length of
/// `s` if none does.
pub open spec fn first_point(s: Seq<char>, from: int) -> int
    decreases s.len() - from,
{
    if from >= s.len() {
        s.len() as int
    } else if s[from] == '.' {
        from
    } else {
        first_point(s, from + 1)
    }
}

/// The digit at place `k` behind the point, or zero where the text ends before.
pub open spec fn place(fraction: Seq<char>, k: int) -> int {
    if k < fraction.len() {
        digit_value(fraction[k]) as int
    } else {
        0
    }
}

/// The ticks that the digits behind the point stand for: the first four
/// count, any further digit is dropped.
pub open spec fn fraction_ticks(fraction: Seq<char>) -> int {
    place(fraction, 0) * 1000 + place(fraction, 1) * 100 + place(fraction, 2) * 10 + place(
        fraction,
        3,
    )
}

/// The ticks of a decimal number without sign: at least one digit, then, if
/// anything, a point and any number of digits.
pub open spec fn unsigned_ticks(s: Seq<char>) -> Option<int> {
    let point = first_point(s, 0);
    let whole = s.subrange(0, point);
    let fraction = if point < s.len() {
        s.subrange(point + 1, s.len() as int)
    } else {
        Seq::empty()
    };
    if whole.len() >= 1 && all_digits(whole) && all_digits(fraction) {
        Some(decimal_value(whole) * 10000 + fraction_ticks(fraction))
    } else {
        None
    }
}

/// The ticks of a decimal number, which may start with a sign.
pub open spec fn decimal_ticks(s: Seq<char>) -> Option<int> {
    if s.len() > 0 && s[0] == '-' {
        match unsigned_ticks(s.skip(1)) {
            Some(ticks) => Some(-ticks),
            None => None,
        }
    } else if s.len() > 0 && s[0] == '+' {
        unsigned_ticks(s.skip(1))
    } else {
        unsigned_ticks(s)
    }
}

/// The price that a text stands for: its ticks, where it is a decimal number
/// within the range of prices.
pub open spec fn price_of_text(s: Seq<char>) -> Option<int> {
    match decimal_ticks(s) {
        Some(ticks) => if in_price_range(ticks) {
            Some(ticks)
        } else {
            None
        },
        None => None,
    }
}

/// The first point lies at or behind `from`, and nothing between the two is a point.
proof fn lemma_first_point(s: Seq<char>, from: int)
    requires
        0 <= from <= s.len(),
    ensures
        from <= first_point(s, from) <= s.len(),
        forall|j: int| from <= j < first_point(s, from) ==> s[j] != '.',
        first_point(s, from) < s.len() ==> s[first_point(s, from)] == '.',
    decreases s.len() - from,
{
    if from < s.len() && s[from] != '.' {
        lemma_first_point(s, from + 1);
    }
}

/// The value of a decimal digit, if `c` is one.
fn digit_of(c: char) -> (r: Option<u8>)
    ensures
        r is Some <==> is_digit(c),
        r matches Some(d) ==> d == digit_value(c) && d < 10,
{
    if c == '0' {
        Some(0)
    } else if c == '1' {
        Some(1)
    } else if c == '2' {
        Some(2)
    } else if c == '3' {
        Some(3)
    } else if c == '4' {
        Some(4)
    } else if c == '5' {
        Some(5)
    } else if c == '6' {
        Some(6)
    } else if c == '7' {
        Some(7)
    } else if c == '8' {
        Some(8)
    } else if c == '9' {
        Some(9)
    } else {
        None
    }
}

/// Largest magnitude, in ticks, that a volume may have.
pub const VOLUME_LIMIT: i64 = 9_000_000_000_000_000_000;

/// The ticks of a decimal number without sign that starts at position
/// `start` of `text`, if they are at most `limit`, which is a whole number
/// of units.
fn parse_unsigned(text: &str, start: usize, limit: u64) -> (r: Option<i64>)
    requires
        start <= text@.len(),
        limit <= 9_000_000_000_000_000_000,
        limit % 10000 == 0,
    ensures
        match unsigned_ticks(text@.skip(start as int)) {
            Some(ticks) => if ticks <= limit {
                r == Some(ticks as i64)
            } else {
                r is None
            },
            None => r is None,
        },
{
    let whole_limit: u64 = limit / 10000;
    let ghost body = text@.skip(start as int);
    let n: usize = text.unicode_len();
    let mut whole: u64 = 0;
    let mut too_big: bool = false;
    let mut i: usize = start;
    let mut at_point: bool = false;
    while i < n && !at_point
        invariant
            n == text@.len(),
            body == text@.skip(start as int),
            start <= i <= n,
            all_digits(body.take(i - start)),
            first_point(body, 0) == first_point(body, i - start),
            whole_limit == limit / 10000,
            limit <= 9_000_000_000_000_000_000,
            !too_big ==> whole == decimal_value(body.take(i - start)) && whole <= whole_limit,
            too_big ==> decimal_value(body.take(i - start)) > whole_limit,
            at_point ==> i < n && body[i - start] == '.',
        decreases n - i + (if at_point { 0int } else { 1int }),
    {
        let c = text.get_char(i);
        let ghost k = i - start;
        assert(body[k] == c);
        if c == '.' {
            at_point = true;
        } else {
            match digit_of(c) {
                Some(d) => {
                    proof {
                        assert(body.take(k + 1).drop_last() =~= body.take(k));
                        assert(body.take(k + 1).last() == c);
                        assert forall|j: int| 0 <= j < k + 1 implies is_digit(
                            #[trigger] body.take(k + 1)[j],
                        ) by {
                            if j < k {
                                assert(body.take(k + 1)[j] == body.take(k)[j]);
                            }
                        }
                    }
                    if !too_big {
                        let next: u64 = whole * 10 + (d as u64);
                        if next > whole_limit {
                            too_big = true;
                        } else {
                            whole = next;
                        }
                    }
                    i += 1;
                },
                None => {
                    proof {
                        let point = first_point(body, 0);
                        lemma_first_point(body, k);
                        assert(point > k);
                        assert(body.subrange(0, point)[k] == c);
                    }
                    return None;
                },
            }
        }
    }
    let ghost point = i - start;
    let ghost whole_text = body.subrange(0, point);
    proof {
        lemma_first_point(body, point);
        assert(first_point(body, 0) == point);
        assert(whole_text =~= body.take(point));
    }
    if i == start {
        return None;
    }
    // The digits behind the point: the first four count.
    let mut fraction: u64 = 0;
    let mut seen: usize = 0;
    let ghost rest = if point < body.len() {
        body.subrange(point + 1, body.len() as int)
    } else {
        Seq::empty()
    };
    if at_point {
        let mut j: usize = i + 1;
        while j < n
            invariant
                n == text@.len(),
                body == text@.skip(start as int),
                start < i < n,
                point == i - start,
                first_point(body, 0) == point,
                point < body.len(),
                rest == body.subrange(point + 1, body.len() as int),
                i + 1 <= j <= n,
                seen == (if j - i - 1 < 4 { j - i - 1 } else { 4 }),
                forall|m: int| 0 <= m < j - i - 1 ==> is_digit(#[trigger] rest[m]),
                seen == 0 ==> fraction == 0,
                seen == 1 ==> fraction == place(rest, 0),
                seen == 2 ==> fraction == place(rest, 0) * 10 + place(rest, 1),
                seen == 3 ==> fraction == place(rest, 0) * 100 + place(rest, 1) * 10 + place(
                    rest,
                    2,
                ),
                seen == 4 ==> fraction == fraction_ticks(rest),
                fraction <= 9999,
            decreases n - j,
        {
            let c = text.get_char(j);
            assert(rest[j - i - 1] == c);
            match digit_of(c) {
                Some(d) => {
                    if seen < 4 {
                        fraction = fraction * 10 + (d as u64);
                        seen += 1;
                    }
                },
                None => {
                    assert(!is_digit(rest[j - i - 1]));
                    return None;
                },
            }
            j += 1;
        }
        assert(all_digits(rest));
    }
    // Fewer than four digits behind the point: the missing ones are zeros.
    let mut padded: u64 = fraction;
    if seen == 0 {
        padded = 0;
    } else if seen == 1 {
        padded = fraction * 1000;
    } else if seen == 2 {
        padded = fraction * 100;
    } else if seen == 3 {
        padded = fraction * 10;
    }
    assert(padded == fraction_ticks(rest));
    assert(all_digits(rest));
    if too_big {
        assert(decimal_value(whole_text) * 10000 + fraction_ticks(rest) > limit);
        return None;
    }
    let ticks: u64 = whole * 10000 + padded;
    if ticks > limit {
        None
    } else {
        Some(ticks as i64)
    }
}

/// The volume that a text stands for: its ticks, where it is a decimal
/// number of a magnitude of at most `VOLUME_LIMIT`.
pub open spec fn volume_of_text(s: Seq<char>) -> Option<int> {
    match decimal_ticks(s) {
        Some(ticks) => if -VOLUME_LIMIT <= ticks <= VOLUME_LIMIT {
            Some(ticks)
        } else {
            None
        },
        None => None,
    }
}

/// The ticks of a decimal number of a magnitude of at most `limit`.
fn parse_signed(text: &str, limit: u64) -> (r: Option<i64>)
    requires
        limit <= 9_000_000_000_000_000_000,
        limit % 10000 == 0,
    ensures
        match decimal_ticks(text@) {
            Some(ticks) => if -limit <= ticks <= limit {
                r == Some(ticks as i64)
            } else {
                r is None
            },
            None => r is None,
        },
{
    let n: usize = text.unicode_len();
    if n > 0 && text.get_char(0) == '-' {
        match parse_unsigned(text, 1, limit) {
            Some(ticks) => Some(-ticks),
            None => None,
        }
    } else if n > 0 && text.get_char(0) == '+' {
        parse_unsigned(text, 1, limit)
    } else {
        assert(text@.skip(0) =~= text@);
        parse_unsigned(text, 0, limit)
    }
}

/// The volume that a decimal number stands for, in ticks; `None` for any
/// other text and for a number beyond `VOLUME_LIMIT`.
pub fn parse_volume(text: &str) -> (r: Option<i64>)
    ensures
        match volume_of_text(text@) {
            Some(ticks) => r == Some(ticks as i64),
            None => r is None,
        },
{
    parse_signed(text, 9_000_000_000_000_000_000)
}

impl Price {
    /// The price that a decimal number stands for: an optional sign, at
    /// least one digit and then, if anything, a point and any number of
    /// digits, of which the first four count. `None` for any other text and
    /// for a number beyond the range of prices.
    pub fn parse(text: &str) -> (r: Option<Price>)
        ensures
            match price_of_text(text@) {
                Some(ticks) => r == Some(Price::of_ticks(ticks)) && r->Some_0@ == ticks,
                None => r is None,
            },
    {
        match parse_signed(text, 1_000_000_000_000) {
            Some(ticks) => Price::from_ticks(ticks),
            None => None,
        }
    }
}

} // verus!

verus! {

/// A number below a hundred in decimal.
proof fn lemma_two_digits(n: nat)
    requires
        10 <= n < 100,
    ensures
        decimal(n) == seq![digit_char((n / 10) as int), digit_char((n % 10) as int)],
{
    assert(decimal(n / 10) =~= seq![digit_char((n / 10) as int)]);
    assert(decimal(n) =~= seq![digit_char((n / 10) as int), digit_char((n % 10) as int)]);
}

/// A number below a thousand in decimal.
proof fn lemma_three_digits(n: nat)
    requires
        100 <= n < 1000,
    ensures
        decimal(n) == seq![
            digit_char((n / 100) as int),
            digit_char((n / 10 % 10) as int),
            digit_char((n % 10) as int),
        ],
{
    lemma_two_digits(n / 10);
    assert(n / 10 / 10 == n / 100);
    assert(decimal(n) =~= seq![
        digit_char((n / 100) as int),
        digit_char((n / 10 % 10) as int),
        digit_char((n % 10) as int),
    ]);
}

/// A number below ten thousand in decimal.
proof fn lemma_four_digits(n: nat)
    requires
        1000 <= n < 10000,
    ensures
        decimal(n) == seq![
            digit_char((n / 1000) as int),
            digit_char((n / 100 % 10) as int),
            digit_char((n / 10 % 10) as int),
            digit_char((n % 10) as int),
        ],
{
    lemma_three_digits(n / 10);
    assert(n / 10 / 100 == n / 1000);
    assert(n / 10 / 10 == n / 100);
    assert(decimal(n) =~= seq![
        digit_char((n / 1000) as int),
        digit_char((n / 100 % 10) as int),
        digit_char((n / 10 % 10) as int),
        digit_char((n % 10) as int),
    ]);
}

/// Four digits stand for the number that they are the digits of.
proof fn lemma_four_digits_stand(d0: int, d1: int, d2: int, d3: int)
    requires
        0 <= d0 < 10,
        0 <= d1 < 10,
        0 <= d2 < 10,
        0 <= d3 < 10,
    ensures
        all_digits(seq![digit_char(d0), digit_char(d1), digit_char(d2), digit_char(d3)]),
        fraction_ticks(seq![digit_char(d0), digit_char(d1), digit_char(d2), digit_char(d3)]) == d0
            * 1000 + d1 * 100 + d2 * 10 + d3,
{
    let digits = seq![digit_char(d0), digit_char(d1), digit_char(d2), digit_char(d3)];
    assert(digits[0] == digit_char(d0) && digits[1] == digit_char(d1));
    assert(digits[2] == digit_char(d2) && digits[3] == digit_char(d3));
    assert(digit_value(digit_char(d0)) == d0 && is_digit(digit_char(d0)));
    assert(digit_value(digit_char(d1)) == d1 && is_digit(digit_char(d1)));
    assert(digit_value(digit_char(d2)) == d2 && is_digit(digit_char(d2)));
    assert(digit_value(digit_char(d3)) == d3 && is_digit(digit_char(d3)));
}

/// A number below ten thousand is written with its four digits.
proof fn lemma_padded4(f: nat)
    requires
        f < 10000,
    ensures
        padded4(f) == seq![
            digit_char((f / 1000) as int),
            digit_char((f / 100 % 10) as int),
            digit_char((f / 10 % 10) as int),
            digit_char((f % 10) as int),
        ],
{
    let wanted = seq![
        digit_char((f / 1000) as int),
        digit_char((f / 100 % 10) as int),
        digit_char((f / 10 % 10) as int),
        digit_char((f % 10) as int),
    ];
    if f < 10 {
        assert(padded4(f) =~= wanted);
    } else if f < 100 {
        lemma_two_digits(f);
        assert(padded4(f) =~= wanted);
    } else if f < 1000 {
        lemma_three_digits(f);
        assert(padded4(f) =~= wanted);
    } else {
        lemma_four_digits(f);
        assert(padded4(f) =~= wanted);
    }
}

/// A number below ten thousand is made up of its four digits.
proof fn lemma_digits_make_up(f: int)
    requires
        0 <= f < 10000,
    ensures
        0 <= f / 1000 < 10,
        0 <= f / 100 % 10 < 10,
        0 <= f / 10 % 10 < 10,
        0 <= f % 10 < 10,
        f == (f / 1000) * 1000 + (f / 100 % 10) * 100 + (f / 10 % 10) * 10 + f % 10,
{
    let tens = f / 10;
    let hundreds = tens / 10;
    assert(f == 10 * tens + f % 10);
    assert(tens == 10 * hundreds + tens % 10);
    assert(hundreds == 10 * (hundreds / 10) + hundreds % 10);
    assert(hundreds == f / 100);
    assert(hundreds / 10 == f / 1000);
}

/// A number below ten thousand is written with four digits, which stand for it.
proof fn lemma_four_places(f: nat)
    requires
        f < 10000,
    ensures
        padded4(f).len() == 4,
        all_digits(padded4(f)),
        fraction_ticks(padded4(f)) == f,
{
    let d0 = (f / 1000) as int;
    let d1 = (f / 100 % 10) as int;
    let d2 = (f / 10 % 10) as int;
    let d3 = (f % 10) as int;
    lemma_digits_make_up(f as int);
    lemma_padded4(f);
    lemma_four_digits_stand(d0, d1, d2, d3);
}

/// Behind digits and a point, the point is the first point.
proof fn lemma_point_behind_digits(digits: Seq<char>, rest: Seq<char>)
    requires
        all_digits(digits),
    ensures
        first_point(digits + seq!['.'] + rest, 0) == digits.len(),
{
    let s = digits + seq!['.'] + rest;
    let at = digits.len() as int;
    lemma_first_point(s, 0);
    let found = first_point(s, 0);
    assert(s[at] == '.');
    if found < at {
        assert(s[found] == digits[found]);
        assert(is_digit(digits[found]));
    }
}

/// A magnitude that is written out with four decimal places is read back as it was.
proof fn lemma_magnitude_is_read_back(m: nat)
    ensures
        unsigned_ticks(decimal(m / 10000) + seq!['.'] + padded4(m % 10000)) == Some(m as int),
{
    let whole = decimal(m / 10000);
    let fraction = padded4(m % 10000);
    let s = whole + seq!['.'] + fraction;
    lemma_decimal(m / 10000);
    lemma_four_places(m % 10000);
    lemma_point_behind_digits(whole, fraction);
    assert(s.subrange(0, whole.len() as int) =~= whole);
    assert(s.subrange(whole.len() as int + 1, s.len() as int) =~= fraction);
}

/// The text of a magnitude starts with a digit.
proof fn lemma_magnitude_text(m: nat)
    ensures
        (decimal(m / 10000) + seq!['.'] + padded4(m % 10000)).len() > 0,
        is_digit((decimal(m / 10000) + seq!['.'] + padded4(m % 10000))[0]),
{
    lemma_decimal(m / 10000);
    let whole = decimal(m / 10000);
    assert((whole + seq!['.'] + padded4(m % 10000))[0] == whole[0]);
    assert(is_digit(whole[0]));
}

/// Behind a minus sign stands the text that the sign was put before.
proof fn lemma_signed_text(body: Seq<char>)
    ensures
        (seq!['-'] + body)[0] == '-',
        (seq!['-'] + body).len() > 0,
        (seq!['-'] + body).skip(1) == body,
{
    assert((seq!['-'] + body).skip(1) =~= body);
}

/// How a number of ticks is written: a minus sign where it is negative, then
/// its magnitude.
proof fn lemma_ticks_text(ticks: int)
    ensures
        ticks < 0 ==> ticks_text(ticks) == seq!['-'] + (decimal(magnitude(ticks) / 10000) + seq![
            '.',
        ] + padded4(magnitude(ticks) % 10000)),
        ticks >= 0 ==> ticks_text(ticks) == decimal(magnitude(ticks) / 10000) + seq!['.']
            + padded4(magnitude(ticks) % 10000),
{
    let m = magnitude(ticks);
    let body = decimal(m / 10000) + seq!['.'] + padded4(m % 10000);
    if ticks < 0 {
        assert(ticks_text(ticks) =~= seq!['-'] + body);
    } else {
        assert(ticks_text(ticks) =~= body);
    }
}

/// A text without sign that stands for `m` ticks stands for `-m` behind a
/// minus sign, and for `m` as it is where it starts with a digit.
proof fn lemma_sign_is_read(body: Seq<char>, m: int)
    requires
        unsigned_ticks(body) == Some(m),
        body.len() > 0,
        is_digit(body[0]),
    ensures
        decimal_ticks(seq!['-'] + body) == Some(-m),
        decimal_ticks(body) == Some(m),
{
    lemma_signed_text(body);
}

/// A number of ticks that is written out is read back as it was.
proof fn lemma_ticks_are_read_back(ticks: int)
    ensures
        decimal_ticks(ticks_text(ticks)) == Some(ticks),
{
    let m = magnitude(ticks);
    let body = decimal(m / 10000) + seq!['.'] + padded4(m % 10000);
    lemma_magnitude_is_read_back(m);
    lemma_magnitude_text(m);
    lemma_ticks_text(ticks);
    lemma_sign_is_read(body, m as int);
}

/// What the library writes, it reads: a price that is written out with its
/// four decimal places is read back as the same price.
pub proof fn lemma_price_is_read_back(ticks: int)
    requires
        in_price_range(ticks),
    ensures
        price_of_text(ticks_text(ticks)) == Some(ticks),
{
    lemma_ticks_are_read_back(ticks);
}

} // verus!
