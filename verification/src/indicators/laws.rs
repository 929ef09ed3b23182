//! What holds of the results once the requests have been computed.

use crate::client::{closes, Series};
use crate::indicators::bollinger::{bollinger_defined, bollinger_middle};
use crate::indicators::labels::lemma_label_identifies_ask;
use crate::indicators::macd::macd_defined;
use crate::indicators::stochastic::stochastic_defined;
use crate::indicators::{
    bands_after, bands_of, kind_of, label_of, labels_after, line_of, lines_after, Ask, Kind,
};
use vstd::prelude::*;

verus! {

/// Once all requests have been computed, every request for a line finds its
/// own line under its label, whatever the other requests were.
pub proof fn lemma_line_is_stored(
    kind: Kind,
    series: Seq<Series>,
    asks: Seq<Ask>,
    before: Map<Seq<char>, Seq<int>>,
    i: int,
)
    requires
        0 <= i < asks.len(),
        kind_of(asks[i]) == kind,
    ensures
        lines_after(kind, series, asks, before).contains_key(label_of(asks[i])),
        lines_after(kind, series, asks, before)[label_of(asks[i])] == line_of(series, asks[i]),
    decreases asks.len(),
{
    let last = asks.last();
    if i < asks.len() - 1 {
        assert(asks.drop_last()[i] == asks[i]);
        lemma_line_is_stored(kind, series, asks.drop_last(), before, i);
        if kind_of(last) == kind && label_of(last) == label_of(asks[i]) {
            lemma_label_identifies_ask(last, asks[i]);
        }
    }
}

/// Once all requests have been computed, every request for bands finds its
/// own bands under its label, whatever the other requests were.
pub proof fn lemma_bands_are_stored(
    kind: Kind,
    series: Seq<Series>,
    asks: Seq<Ask>,
    before: Map<Seq<char>, (Seq<int>, Seq<int>, Seq<int>)>,
    i: int,
)
    requires
        0 <= i < asks.len(),
        kind_of(asks[i]) == kind,
    ensures
        bands_after(kind, series, asks, before).contains_key(label_of(asks[i])),
        bands_after(kind, series, asks, before)[label_of(asks[i])] == bands_of(series, asks[i]),
    decreases asks.len(),
{
    let last = asks.last();
    if i < asks.len() - 1 {
        assert(asks.drop_last()[i] == asks[i]);
        lemma_bands_are_stored(kind, series, asks.drop_last(), before, i);
        if kind_of(last) == kind && label_of(last) == label_of(asks[i]) {
            lemma_label_identifies_ask(last, asks[i]);
        }
    }
}

/// A label that no request of the kind bears holds after the computation
/// what it held before.
pub proof fn lemma_other_lines_stay(
    kind: Kind,
    series: Seq<Series>,
    asks: Seq<Ask>,
    before: Map<Seq<char>, Seq<int>>,
    label: Seq<char>,
)
    requires
        forall|i: int| 0 <= i < asks.len() && kind_of(asks[i]) == kind ==> label_of(asks[i]) != label,
    ensures
        lines_after(kind, series, asks, before).contains_key(label) == before.contains_key(label),
        before.contains_key(label) ==> lines_after(kind, series, asks, before)[label]
            == before[label],
    decreases asks.len(),
{
    if asks.len() > 0 {
        assert forall|i: int|
            0 <= i < asks.drop_last().len() && kind_of(asks.drop_last()[i]) == kind implies label_of(
            asks.drop_last()[i],
        ) != label by {
            assert(asks.drop_last()[i] == asks[i]);
        }
        lemma_other_lines_stay(kind, series, asks.drop_last(), before, label);
        assert(asks.last() == asks[asks.len() - 1]);
    }
}

/// Asking twice under one label stores one label: the labels of a table
/// stay distinct, in the order in which each came first.
pub proof fn lemma_labels_stay_distinct(kind: Kind, asks: Seq<Ask>, before: Seq<Seq<char>>)
    requires
        before.no_duplicates(),
    ensures
        labels_after(kind, asks, before).no_duplicates(),
    decreases asks.len(),
{
    if asks.len() > 0 {
        lemma_labels_stay_distinct(kind, asks.drop_last(), before);
        let earlier = labels_after(kind, asks.drop_last(), before);
        let label = label_of(asks.last());
        if kind_of(asks.last()) == kind && !earlier.contains(label) {
            let after = earlier.push(label);
            assert forall|a: int, b: int|
                0 <= a < after.len() && 0 <= b < after.len() && a != b implies after[a]
                != after[b] by {
                if a < earlier.len() {
                    assert(earlier.contains(after[a]));
                }
                if b < earlier.len() {
                    assert(earlier.contains(after[b]));
                }
            }
        }
    }
}

/// Whatever is asked of a series, every line and every band that is stored
/// for a request whose indicator is defined is as long as the series.
pub proof fn lemma_results_align(series: Seq<Series>, ask: Ask)
    ensures
        match ask {
            Ask::SMA(period) => period >= 1 ==> line_of(series, ask).len() == series.len(),
            Ask::EMA(period) => line_of(series, ask).len() == series.len(),
            Ask::RSI(period) => period >= 1 ==> line_of(series, ask).len() == series.len(),
            Ask::Stochastic(period) => stochastic_defined(series.len(), period as nat)
                ==> line_of(series, ask).len() == series.len(),
            Ask::MACD(fast, slow, signal) => macd_defined(
                series.len(),
                fast as nat,
                slow as nat,
                signal as nat,
            ) ==> bands_of(series, ask).0.len() == series.len() && bands_of(series, ask).1.len()
                == series.len() && bands_of(series, ask).2.len() == series.len(),
            Ask::BB(period, std_dev) => bollinger_defined(series.len(), period as nat)
                ==> bands_of(series, ask).0.len() == series.len() && bands_of(series, ask).1.len()
                == series.len() && bands_of(series, ask).2.len() == series.len(),
        },
{
}

/// Lines are padded with zeros where the window has not filled: a simple
/// moving average at its first `period - 1` positions, a relative strength
/// index and a stochastic oscillator at their first `period`, the outer
/// Bollinger bands at their first `period`.
pub proof fn lemma_padding(series: Seq<Series>, ask: Ask, i: int)
    requires
        0 <= i < series.len(),
    ensures
        match ask {
            Ask::SMA(period) => 1 <= period && i + 1 < period ==> line_of(series, ask)[i] == 0,
            Ask::RSI(period) => 1 <= period && i < period ==> line_of(series, ask)[i] == 0,
            Ask::Stochastic(period) => stochastic_defined(series.len(), period as nat) && i
                < period ==> line_of(series, ask)[i] == 0,
            Ask::BB(period, std_dev) => bollinger_defined(series.len(), period as nat) && i
                < period ==> bands_of(series, ask).0[i] == 0 && bands_of(series, ask).2[i] == 0,
            _ => true,
        },
{
}

/// An exponential moving average is never padded: it starts with the first
/// closing price itself, and so does the middle Bollinger band.
pub proof fn lemma_ema_starts_at_first_close(series: Seq<Series>, period: usize)
    requires
        series.len() >= 1,
    ensures
        line_of(series, Ask::EMA(period))[0] == series[0].close@,
        bollinger_middle(closes(series), period as nat)[0] == series[0].close@,
{
}

} // verus!

verus! {

/// Requests whose lines are in the table already leave the table as it is.
pub proof fn lemma_lines_settle(
    kind: Kind,
    series: Seq<Series>,
    asks: Seq<Ask>,
    table: Map<Seq<char>, Seq<int>>,
)
    requires
        forall|i: int|
            0 <= i < asks.len() && kind_of(asks[i]) == kind ==> table.contains_key(
                label_of(asks[i]),
            ) && table[label_of(asks[i])] == line_of(series, asks[i]),
    ensures
        lines_after(kind, series, asks, table) == table,
    decreases asks.len(),
{
    if asks.len() > 0 {
        assert forall|i: int|
            0 <= i < asks.drop_last().len() && kind_of(asks.drop_last()[i])
                == kind implies table.contains_key(label_of(asks.drop_last()[i])) && table[label_of(
            asks.drop_last()[i],
        )] == line_of(series, asks.drop_last()[i]) by {
            assert(asks.drop_last()[i] == asks[i]);
        }
        lemma_lines_settle(kind, series, asks.drop_last(), table);
        let last = asks[asks.len() - 1];
        if kind_of(last) == kind {
            assert(table.insert(label_of(last), line_of(series, last)) =~= table);
        }
    }
}

/// Requests whose bands are in the table already leave the table as it is.
pub proof fn lemma_bands_settle(
    kind: Kind,
    series: Seq<Series>,
    asks: Seq<Ask>,
    table: Map<Seq<char>, (Seq<int>, Seq<int>, Seq<int>)>,
)
    requires
        forall|i: int|
            0 <= i < asks.len() && kind_of(asks[i]) == kind ==> table.contains_key(
                label_of(asks[i]),
            ) && table[label_of(asks[i])] == bands_of(series, asks[i]),
    ensures
        bands_after(kind, series, asks, table) == table,
    decreases asks.len(),
{
    if asks.len() > 0 {
        assert forall|i: int|
            0 <= i < asks.drop_last().len() && kind_of(asks.drop_last()[i])
                == kind implies table.contains_key(label_of(asks.drop_last()[i])) && table[label_of(
            asks.drop_last()[i],
        )] == bands_of(series, asks.drop_last()[i]) by {
            assert(asks.drop_last()[i] == asks[i]);
        }
        lemma_bands_settle(kind, series, asks.drop_last(), table);
        let last = asks[asks.len() - 1];
        if kind_of(last) == kind {
            assert(table.insert(label_of(last), bands_of(series, last)) =~= table);
        }
    }
}

/// Once the requests have been computed, the label of every request of the
/// kind is among the labels of its table, and what was there before still is.
pub proof fn lemma_labels_are_listed(kind: Kind, asks: Seq<Ask>, before: Seq<Seq<char>>)
    ensures
        forall|i: int|
            0 <= i < asks.len() && kind_of(asks[i]) == kind ==> labels_after(
                kind,
                asks,
                before,
            ).contains(label_of(asks[i])),
        forall|label: Seq<char>|
            before.contains(label) ==> labels_after(kind, asks, before).contains(label),
    decreases asks.len(),
{
    if asks.len() > 0 {
        lemma_labels_are_listed(kind, asks.drop_last(), before);
        let earlier = labels_after(kind, asks.drop_last(), before);
        let after = labels_after(kind, asks, before);
        let last = asks[asks.len() - 1];
        assert forall|label: Seq<char>| earlier.contains(label) implies after.contains(label) by {
            let at = earlier.index_of(label);
            assert(earlier[at] == label);
            if after.len() > earlier.len() {
                assert(after[at] == label);
            }
        }
        assert forall|i: int| 0 <= i < asks.len() && kind_of(asks[i]) == kind implies after.contains(
            label_of(asks[i]),
        ) by {
            if i < asks.len() - 1 {
                assert(asks.drop_last()[i] == asks[i]);
                assert(earlier.contains(label_of(asks[i])));
            } else if !earlier.contains(label_of(last)) {
                assert(after[after.len() - 1] == label_of(last));
            }
        }
    }
}

/// Requests whose labels are listed already leave the labels as they are.
pub proof fn lemma_labels_settle(kind: Kind, asks: Seq<Ask>, labels: Seq<Seq<char>>)
    requires
        forall|i: int|
            0 <= i < asks.len() && kind_of(asks[i]) == kind ==> labels.contains(label_of(asks[i])),
    ensures
        labels_after(kind, asks, labels) == labels,
    decreases asks.len(),
{
    if asks.len() > 0 {
        assert forall|i: int|
            0 <= i < asks.drop_last().len() && kind_of(asks.drop_last()[i])
                == kind implies labels.contains(label_of(asks.drop_last()[i])) by {
            assert(asks.drop_last()[i] == asks[i]);
        }
        lemma_labels_settle(kind, asks.drop_last(), labels);
        assert(asks.last() == asks[asks.len() - 1]);
    }
}

/// Computing the same requests a second time changes nothing: every line,
/// every band and every label is stored as the first computation left it.
pub proof fn lemma_calculate_again(
    kind: Kind,
    series: Seq<Series>,
    asks: Seq<Ask>,
    lines: Map<Seq<char>, Seq<int>>,
    bands: Map<Seq<char>, (Seq<int>, Seq<int>, Seq<int>)>,
    labels: Seq<Seq<char>>,
)
    ensures
        lines_after(kind, series, asks, lines_after(kind, series, asks, lines)) == lines_after(
            kind,
            series,
            asks,
            lines,
        ),
        bands_after(kind, series, asks, bands_after(kind, series, asks, bands)) == bands_after(
            kind,
            series,
            asks,
            bands,
        ),
        labels_after(kind, asks, labels_after(kind, asks, labels)) == labels_after(
            kind,
            asks,
            labels,
        ),
{
    assert forall|i: int| 0 <= i < asks.len() && kind_of(asks[i]) == kind implies lines_after(
        kind,
        series,
        asks,
        lines,
    ).contains_key(label_of(asks[i])) && lines_after(kind, series, asks, lines)[label_of(asks[i])]
        == line_of(series, asks[i]) by {
        lemma_line_is_stored(kind, series, asks, lines, i);
    }
    lemma_lines_settle(kind, series, asks, lines_after(kind, series, asks, lines));
    assert forall|i: int| 0 <= i < asks.len() && kind_of(asks[i]) == kind implies bands_after(
        kind,
        series,
        asks,
        bands,
    ).contains_key(label_of(asks[i])) && bands_after(kind, series, asks, bands)[label_of(asks[i])]
        == bands_of(series, asks[i]) by {
        lemma_bands_are_stored(kind, series, asks, bands, i);
    }
    lemma_bands_settle(kind, series, asks, bands_after(kind, series, asks, bands));
    lemma_labels_are_listed(kind, asks, labels);
    lemma_labels_settle(kind, asks, labels_after(kind, asks, labels));
}

} // verus!
