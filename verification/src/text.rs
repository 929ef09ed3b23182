//! Building text: characters, decimal numbers, comparisons.

use vstd::prelude::*;

verus! {

/// `String::push` appends one character and leaves the rest as it was.
pub assume_specification[ String::push ](s: &mut String, ch: char)
    ensures
        final(s)@ == old(s)@.push(ch),
;

/// The character for a decimal digit.
pub open spec fn digit_char(d: int) -> char {
    if d == 0 {
        '0'
    } else if d == 1 {
        '1'
    } else if d == 2 {
        '2'
    } else if d == 3 {
        '3'
    } else if d == 4 {
        '4'
    } else if d == 5 {
        '5'
    } else if d == 6 {
        '6'
    } else if d == 7 {
        '7'
    } else if d == 8 {
        '8'
    } else {
        '9'
    }
}

/// Whether `c` is one of the ten decimal digits.
pub open spec fn is_digit(c: char) -> bool {
    c == '0' || c == '1' || c == '2' || c == '3' || c == '4' || c == '5' || c == '6' || c == '7'
        || c == '8' || c == '9'
}

/// The digit that a character stands for.
pub open spec fn digit_value(c: char) -> nat {
    if c == '0' {
        0
    } else if c == '1' {
        1
    } else if c == '2' {
        2
    } else if c == '3' {
        3
    } else if c == '4' {
        4
    } else if c == '5' {
        5
    } else if c == '6' {
        6
    } else if c == '7' {
        7
    } else if c == '8' {
        8
    } else {
        9
    }
}

/// Whether `s` consists of decimal digits only.
pub open spec fn all_digits(s: Seq<char>) -> bool {
    forall|i: int| 0 <= i < s.len() ==> is_digit(#[trigger] s[i])
}

/// The number that a text of decimal digits stands for.
pub open spec fn decimal_value(s: Seq<char>) -> nat
    decreases s.len(),
{
    if s.len() == 0 {
        0
    } else {
        decimal_value(s.drop_last()) * 10 + digit_value(s.last())
    }
}

/// `n` in decimal, without leading zeros.
pub open spec fn decimal(n: nat) -> Seq<char>
    decreases n,
{
    if n < 10 {
        seq![digit_char(n as int)]
    } else {
        decimal(n / 10).push(digit_char((n % 10) as int))
    }
}

/// `n` in decimal, with a minus sign where it is negative.
pub open spec fn signed_decimal(n: int) -> Seq<char> {
    if n < 0 {
        seq!['-'] + decimal((-n) as nat)
    } else {
        decimal(n as nat)
    }
}

fn digit(d: u8) -> (c: char)
    requires
        d < 10,
    ensures
        c == digit_char(d as int),
{
    if d == 0 {
        '0'
    } else if d == 1 {
        '1'
    } else if d == 2 {
        '2'
    } else if d == 3 {
        '3'
    } else if d == 4 {
        '4'
    } else if d == 5 {
        '5'
    } else if d == 6 {
        '6'
    } else if d == 7 {
        '7'
    } else if d == 8 {
        '8'
    } else {
        '9'
    }
}

/// Appends `n` in decimal to `out`.
pub fn push_decimal(out: &mut String, n: u128)
    ensures
        final(out)@ == old(out)@ + decimal(n as nat),
    decreases n,
{
    if n >= 10 {
        push_decimal(out, n / 10);
    }
    out.push(digit((n % 10) as u8));
    proof {
        if n >= 10 {
            assert(final(out)@ =~= old(out)@ + decimal(n as nat));
        } else {
            assert(final(out)@ =~= old(out)@ + decimal(n as nat));
        }
    }
}

/// Appends `n` in decimal to `out`, with a minus sign where it is negative.
pub fn push_signed_decimal(out: &mut String, n: i128)
    ensures
        final(out)@ == old(out)@ + signed_decimal(n as int),
{
    if n < 0 {
        out.push('-');
        let magnitude: u128 = if n == i128::MIN {
            0x8000_0000_0000_0000_0000_0000_0000_0000u128
        } else {
            (-n) as u128
        };
        push_decimal(out, magnitude);
        assert(final(out)@ =~= old(out)@ + signed_decimal(n as int));
    } else {
        push_decimal(out, n as u128);
    }
}

} // verus!

verus! {

/// Whether two texts are the same, character by character.
pub(crate) fn same_text(a: &str, b: &str) -> (r: bool)
    ensures
        r == (a@ == b@),
{
    let n: usize = a.unicode_len();
    if b.unicode_len() != n {
        return false;
    }
    let mut i: usize = 0;
    while i < n
        invariant
            n == a@.len(),
            n == b@.len(),
            i <= n,
            forall|j: int| 0 <= j < i ==> a@[j] == b@[j],
        decreases n - i,
    {
        if a.get_char(i) != b.get_char(i) {
            return false;
        }
        i += 1;
    }
    assert(a@ =~= b@);
    true
}

} // verus!

verus! {

/// What `str::to_lowercase` makes of a text.
pub uninterp spec fn lowercase_of(s: Seq<char>) -> Seq<char>;

/// `str::to_lowercase`: the text with every character in lower case.
#[verifier::external_body]
pub(crate) fn lowercase(s: &str) -> (r: String)
    ensures
        r@ == lowercase_of(s@),
{
    s.to_lowercase()
}

} // verus!

verus! {

/// A number in decimal is a text of at least one digit that stands for that number.
pub proof fn lemma_decimal(n: nat)
    ensures
        decimal(n).len() >= 1,
        all_digits(decimal(n)),
        decimal_value(decimal(n)) == n,
    decreases n,
{
    if n < 10 {
        let s = decimal(n);
        assert(s.drop_last() =~= Seq::<char>::empty());
        assert(decimal_value(s.drop_last()) == 0);
        assert(s.last() == digit_char(n as int));
    } else {
        lemma_decimal(n / 10);
        let s = decimal(n);
        assert(s.drop_last() =~= decimal(n / 10));
        assert(s.last() == digit_char((n % 10) as int));
        assert forall|i: int| 0 <= i < s.len() implies is_digit(#[trigger] s[i]) by {
            if i < s.len() - 1 {
                assert(s[i] == decimal(n / 10)[i]);
            }
        }
    }
}

/// Two numbers with the same decimal text are the same number.
pub proof fn lemma_decimal_injective(a: nat, b: nat)
    requires
        decimal(a) == decimal(b),
    ensures
        a == b,
{
    lemma_decimal(a);
    lemma_decimal(b);
}

/// A text that starts with digits and goes on with another character splits
/// in one way only into the digits and the rest.
pub proof fn lemma_digits_then_other(
    digits1: Seq<char>,
    rest1: Seq<char>,
    digits2: Seq<char>,
    rest2: Seq<char>,
)
    requires
        all_digits(digits1),
        all_digits(digits2),
        rest1.len() >= 1,
        rest2.len() >= 1,
        !is_digit(rest1[0]),
        !is_digit(rest2[0]),
        digits1 + rest1 == digits2 + rest2,
    ensures
        digits1 == digits2,
        rest1 == rest2,
{
    let whole = digits1 + rest1;
    if digits1.len() < digits2.len() {
        assert(whole[digits1.len() as int] == rest1[0]);
        assert((digits2 + rest2)[digits1.len() as int] == digits2[digits1.len() as int]);
        assert(is_digit(digits2[digits1.len() as int]));
    }
    if digits2.len() < digits1.len() {
        assert((digits2 + rest2)[digits2.len() as int] == rest2[0]);
        assert(whole[digits2.len() as int] == digits1[digits2.len() as int]);
        assert(is_digit(digits1[digits2.len() as int]));
    }
    assert(digits1 =~= whole.subrange(0, digits1.len() as int));
    assert(digits2 =~= (digits2 + rest2).subrange(0, digits2.len() as int));
    assert(rest1 =~= whole.subrange(digits1.len() as int, whole.len() as int));
    assert(rest2 =~= (digits2 + rest2).subrange(digits2.len() as int, whole.len() as int));
}

/// Texts that are equal behind the same beginning are equal.
pub proof fn lemma_same_beginning(beginning: Seq<char>, a: Seq<char>, b: Seq<char>)
    requires
        beginning + a == beginning + b,
    ensures
        a == b,
{
    assert(a =~= (beginning + a).subrange(beginning.len() as int, (beginning + a).len() as int));
    assert(b =~= (beginning + b).subrange(beginning.len() as int, (beginning + b).len() as int));
}

} // verus!

verus! {

/// `n` in decimal with at least two digits.
pub open spec fn padded2(n: nat) -> Seq<char> {
    if n < 10 {
        seq!['0'] + decimal(n)
    } else {
        decimal(n)
    }
}

/// `n` in decimal with at least four digits.
pub open spec fn padded4(n: nat) -> Seq<char> {
    if n < 10 {
        seq!['0', '0', '0'] + decimal(n)
    } else if n < 100 {
        seq!['0', '0'] + decimal(n)
    } else if n < 1000 {
        seq!['0'] + decimal(n)
    } else {
        decimal(n)
    }
}

/// Appends `n` in decimal with at least two digits.
pub fn push_padded2(out: &mut String, n: u128)
    ensures
        final(out)@ == old(out)@ + padded2(n as nat),
{
    if n < 10 {
        out.push('0');
    }
    push_decimal(out, n);
    assert(final(out)@ =~= old(out)@ + padded2(n as nat));
}

/// Appends `n` in decimal with at least four digits.
pub fn push_padded4(out: &mut String, n: u128)
    ensures
        final(out)@ == old(out)@ + padded4(n as nat),
{
    if n < 1000 {
        out.push('0');
    }
    if n < 100 {
        out.push('0');
    }
    if n < 10 {
        out.push('0');
    }
    push_decimal(out, n);
    assert(final(out)@ =~= old(out)@ + padded4(n as nat));
}

/// The magnitude of a number.
pub open spec fn magnitude(n: int) -> nat {
    if n < 0 {
        (-n) as nat
    } else {
        n as nat
    }
}

/// A minus sign for a negative number, nothing for any other.
pub open spec fn minus_sign(n: int) -> Seq<char> {
    if n < 0 {
        seq!['-']
    } else {
        Seq::empty()
    }
}

/// A number of ticks with all four decimal places, as in `12.3400` for 123400.
pub open spec fn ticks_text(ticks: int) -> Seq<char> {
    minus_sign(ticks) + decimal(magnitude(ticks) / 10000) + seq!['.'] + padded4(
        magnitude(ticks) % 10000,
    )
}

/// A number of ticks rounded to two decimal places, halves away from zero,
/// as in `12.35` for 123450.
pub open spec fn cents_text(ticks: int) -> Seq<char> {
    minus_sign(ticks) + decimal((magnitude(ticks) + 50) / 100 / 100) + seq!['.'] + padded2(
        (magnitude(ticks) + 50) / 100 % 100,
    )
}

fn magnitude_of(n: i64) -> (r: u128)
    ensures
        r == magnitude(n as int),
{
    if n < 0 {
        (-(n as i128)) as u128
    } else {
        n as u128
    }
}

/// Appends a number of ticks with all four decimal places.
pub fn push_ticks(out: &mut String, ticks: i64)
    ensures
        final(out)@ == old(out)@ + ticks_text(ticks as int),
{
    let size = magnitude_of(ticks);
    if ticks < 0 {
        out.push('-');
    }
    push_decimal(out, size / 10000);
    out.push('.');
    push_padded4(out, size % 10000);
    assert(final(out)@ =~= old(out)@ + ticks_text(ticks as int));
}

/// Appends a number of ticks rounded to two decimal places.
pub fn push_cents(out: &mut String, ticks: i64)
    ensures
        final(out)@ == old(out)@ + cents_text(ticks as int),
{
    let cents = (magnitude_of(ticks) + 50) / 100;
    if ticks < 0 {
        out.push('-');
    }
    push_decimal(out, cents / 100);
    out.push('.');
    push_padded2(out, cents % 100);
    assert(final(out)@ =~= old(out)@ + cents_text(ticks as int));
}

} // verus!

verus! {

/// Appending two texts one after the other appends their concatenation.
pub proof fn lemma_append_twice(a: Seq<char>, b: Seq<char>, c: Seq<char>)
    ensures
        (a + b) + c == a + (b + c),
{
    assert((a + b) + c =~= a + (b + c));
}

} // verus!

verus! {

/// What `str::trim` leaves of a text.
pub uninterp spec fn trimmed(s: Seq<char>) -> Seq<char>;

/// `str::trim`: the text without the white space at its beginning and end.
#[verifier::external_body]
pub(crate) fn trim(s: &str) -> (r: &str)
    ensures
        r@ == trimmed(s@),
{
    s.trim()
}

} // verus!
