//! Labels tell requests apart.

use crate::indicators::{kind_of, label_of, pair_text, triple_text, Ask, Kind};
use crate::text::{
    decimal, lemma_decimal, lemma_decimal_injective, lemma_digits_then_other,
    lemma_same_beginning,
};
use vstd::prelude::*;

verus! {

/// The first two characters of a label give away the kind of its request.
proof fn lemma_label_head(ask: Ask)
    ensures
        label_of(ask).len() >= 2,
        kind_of(ask) == Kind::Sma ==> label_of(ask)[0] == 'S' && label_of(ask)[1] == 'M',
        kind_of(ask) == Kind::Ema ==> label_of(ask)[0] == 'E',
        kind_of(ask) == Kind::Rsi ==> label_of(ask)[0] == 'R',
        kind_of(ask) == Kind::Stochastic ==> label_of(ask)[0] == 'S' && label_of(ask)[1] == 'T',
        kind_of(ask) == Kind::Macd ==> label_of(ask)[0] == 'M',
        kind_of(ask) == Kind::Bb ==> label_of(ask)[0] == 'B',
{
}

/// A list of two numbers, as the labels write it, gives the two numbers back.
proof fn lemma_pair_text(a1: nat, b1: nat, a2: nat, b2: nat)
    requires
        pair_text(a1, b1) == pair_text(a2, b2),
    ensures
        a1 == a2,
        b1 == b2,
{
    lemma_decimal(a1);
    lemma_decimal(a2);
    lemma_decimal(b1);
    lemma_decimal(b2);
    let separator = seq![',', ' '];
    let close = seq![')'];
    let rest1 = separator + (decimal(b1) + close);
    let rest2 = separator + (decimal(b2) + close);
    assert(rest1[0] == ',' && rest2[0] == ',');
    lemma_digits_then_other(decimal(a1), rest1, decimal(a2), rest2);
    lemma_decimal_injective(a1, a2);
    lemma_same_beginning(separator, decimal(b1) + close, decimal(b2) + close);
    assert(close[0] == ')');
    lemma_digits_then_other(decimal(b1), close, decimal(b2), close);
    lemma_decimal_injective(b1, b2);
}

/// A list of three numbers, as the labels write it, gives the three numbers back.
proof fn lemma_triple_text(a1: nat, b1: nat, c1: nat, a2: nat, b2: nat, c2: nat)
    requires
        triple_text(a1, b1, c1) == triple_text(a2, b2, c2),
    ensures
        a1 == a2,
        b1 == b2,
        c1 == c2,
{
    lemma_decimal(a1);
    lemma_decimal(a2);
    let separator = seq![',', ' '];
    let rest1 = separator + pair_text(b1, c1);
    let rest2 = separator + pair_text(b2, c2);
    assert(rest1[0] == ',' && rest2[0] == ',');
    lemma_digits_then_other(decimal(a1), rest1, decimal(a2), rest2);
    lemma_decimal_injective(a1, a2);
    lemma_same_beginning(separator, pair_text(b1, c1), pair_text(b2, c2));
    lemma_pair_text(b1, c1, b2, c2);
}

/// Requests with the same label are of the same kind.
proof fn lemma_label_kind(a: Ask, b: Ask)
    requires
        label_of(a) == label_of(b),
    ensures
        kind_of(a) == kind_of(b),
{
    lemma_label_head(a);
    lemma_label_head(b);
    assert(label_of(a)[0] == label_of(b)[0]);
    assert(label_of(a)[1] == label_of(b)[1]);
}

/// The label of a MACD gives its three periods back.
proof fn lemma_macd_label(f1: usize, s1: usize, g1: usize, f2: usize, s2: usize, g2: usize)
    requires
        label_of(Ask::MACD(f1, s1, g1)) == label_of(Ask::MACD(f2, s2, g2)),
    ensures
        f1 == f2,
        s1 == s2,
        g1 == g2,
{
    lemma_same_beginning(
        seq!['M', 'A', 'C', 'D', ' ', '('],
        triple_text(f1 as nat, s1 as nat, g1 as nat),
        triple_text(f2 as nat, s2 as nat, g2 as nat),
    );
    lemma_triple_text(f1 as nat, s1 as nat, g1 as nat, f2 as nat, s2 as nat, g2 as nat);
}

/// The label of Bollinger bands gives period and multiplier back.
proof fn lemma_bb_label(p1: usize, k1: usize, p2: usize, k2: usize)
    requires
        label_of(Ask::BB(p1, k1)) == label_of(Ask::BB(p2, k2)),
    ensures
        p1 == p2,
        k1 == k2,
{
    lemma_same_beginning(
        seq!['B', 'B', ' ', '('],
        pair_text(p1 as nat, k1 as nat),
        pair_text(p2 as nat, k2 as nat),
    );
    lemma_pair_text(p1 as nat, k1 as nat, p2 as nat, k2 as nat);
}

/// Two requests with the same label are the same request: the label names
/// the kind of indicator and every parameter.
pub proof fn lemma_label_identifies_ask(a: Ask, b: Ask)
    requires
        label_of(a) == label_of(b),
    ensures
        a == b,
{
    lemma_label_kind(a, b);
    match (a, b) {
        (Ask::SMA(p), Ask::SMA(q)) => {
            lemma_same_beginning(seq!['S', 'M', 'A', ' '], decimal(p as nat), decimal(q as nat));
            lemma_decimal_injective(p as nat, q as nat);
        },
        (Ask::EMA(p), Ask::EMA(q)) => {
            lemma_same_beginning(seq!['E', 'M', 'A', ' '], decimal(p as nat), decimal(q as nat));
            lemma_decimal_injective(p as nat, q as nat);
        },
        (Ask::RSI(p), Ask::RSI(q)) => {
            lemma_same_beginning(seq!['R', 'S', 'I', ' '], decimal(p as nat), decimal(q as nat));
            lemma_decimal_injective(p as nat, q as nat);
        },
        (Ask::Stochastic(p), Ask::Stochastic(q)) => {
            lemma_same_beginning(seq!['S', 'T', 'O', ' '], decimal(p as nat), decimal(q as nat));
            lemma_decimal_injective(p as nat, q as nat);
        },
        (Ask::MACD(f1, s1, g1), Ask::MACD(f2, s2, g2)) => {
            lemma_macd_label(f1, s1, g1, f2, s2, g2);
        },
        (Ask::BB(p1, k1), Ask::BB(p2, k2)) => {
            lemma_bb_label(p1, k1, p2, k2);
        },
        _ => {},
    }
}

} // verus!
