//! Endpoints: the URLs that requests are sent to, as text.

use crate::errors::{Failure, MarketError, MarketResult};
use vstd::prelude::*;

verus! {

/// What `Url::join` makes of a reference against a base, as text; `None`
/// where the base or the result is no URL.
pub uninterp spec fn joined_url(base: Seq<char>, reference: Seq<char>) -> Option<Seq<char>>;

/// What a URL becomes when `append_pair` adds a pair to its query, as text;
/// `None` where the text is no URL.
pub uninterp spec fn url_with_pair(url: Seq<char>, key: Seq<char>, value: Seq<char>) -> Option<
    Seq<char>,
>;

/// `Url::parse` on `base` and `Url::join` with `reference`: the text of the
/// resulting URL, or the error of whichever of the two failed.
#[verifier::external_body]
fn join_url(base: &str, reference: &str) -> (r: Result<String, url::ParseError>)
    ensures
        match r {
            Ok(url) => joined_url(base@, reference@) == Some(url@),
            Err(_) => joined_url(base@, reference@) is None,
        },
{
    let base = url::Url::parse(base)?;
    base.join(reference).map(String::from)
}

/// The longest URL, key or value, in characters, that takes part when a pair
/// is added to a query. Neither `query_pairs_mut` nor the serializer that it
/// gives returns where the URL with the pair comes to more than 4 GiB, which
/// three texts of this length, each character written with up to twelve
/// bytes, do not come to.
pub const URL_LIMIT: usize = 0x100_0000;

/// `ParseError::Overflow`, the error of `url` for a URL that is too long.
#[verifier::external_body]
fn overflow() -> url::ParseError {
    url::ParseError::Overflow
}

/// `Url::parse` on `url`, then `query_pairs_mut` and `append_pair`: the text
/// of the URL with the pair added to its query, or the error of the parse.
#[verifier::external_body]
fn append_pair(url: &str, key: &str, value: &str) -> (r: Result<String, url::ParseError>)
    requires
        url@.len() <= URL_LIMIT,
        key@.len() <= URL_LIMIT,
        value@.len() <= URL_LIMIT,
    ensures
        match r {
            Ok(extended) => url_with_pair(url@, key@, value@) == Some(extended@),
            Err(_) => url_with_pair(url@, key@, value@) is None,
        },
{
    let mut url = url::Url::parse(url)?;
    url.query_pairs_mut().append_pair(key, value);
    Ok(String::from(url))
}

/// The URL that `reference` points to from `base`.
pub fn resolve(base: &str, reference: &str) -> (r: MarketResult<String>)
    ensures
        match joined_url(base@, reference@) {
            Some(url) => r is Ok && r->Ok_0@ == url,
            None => r is Err && r->Err_0@ == Failure::UrlParseError,
        },
{
    match join_url(base, reference) {
        Ok(url) => Ok(url),
        Err(e) => Err(MarketError::UrlParseError(e)),
    }
}

/// A URL with one more pair in its query; `None` where the text is no URL or
/// where URL, key or value is longer than `URL_LIMIT`.
pub open spec fn pair_added(url: Seq<char>, key: Seq<char>, value: Seq<char>) -> Option<Seq<char>> {
    if url.len() <= URL_LIMIT && key.len() <= URL_LIMIT && value.len() <= URL_LIMIT {
        url_with_pair(url, key, value)
    } else {
        None
    }
}

/// The URL with one more pair in its query.
pub fn with_pair(url: &str, key: &str, value: &str) -> (r: MarketResult<String>)
    ensures
        match pair_added(url@, key@, value@) {
            Some(extended) => r is Ok && r->Ok_0@ == extended,
            None => r is Err && r->Err_0@ == Failure::UrlParseError,
        },
{
    if url.unicode_len() > URL_LIMIT || key.unicode_len() > URL_LIMIT || value.unicode_len()
        > URL_LIMIT {
        return Err(MarketError::UrlParseError(overflow()));
    }
    match append_pair(url, key, value) {
        Ok(extended) => Ok(extended),
        Err(e) => Err(MarketError::UrlParseError(e)),
    }
}

} // verus!

verus! {

/// The pairs of a query as values.
pub open spec fn pairs_of(pairs: Seq<(String, String)>) -> Seq<(Seq<char>, Seq<char>)> {
    Seq::new(pairs.len(), |i: int| (pairs[i].0@, pairs[i].1@))
}

/// A URL with the first `upto` of some pairs added to its query, one after
/// the other.
pub open spec fn url_with_pairs(
    url: Option<Seq<char>>,
    pairs: Seq<(Seq<char>, Seq<char>)>,
    upto: int,
) -> Option<Seq<char>>
    decreases upto,
{
    if upto <= 0 {
        url
    } else {
        match url_with_pairs(url, pairs, upto - 1) {
            Some(sofar) => pair_added(sofar, pairs[upto - 1].0, pairs[upto - 1].1),
            None => None,
        }
    }
}

/// The endpoint that `reference` points to from `base`, with `pairs` as its query.
pub open spec fn endpoint_of(
    base: Seq<char>,
    reference: Seq<char>,
    pairs: Seq<(Seq<char>, Seq<char>)>,
) -> Option<Seq<char>> {
    url_with_pairs(joined_url(base, reference), pairs, pairs.len() as int)
}

/// The endpoint that `reference` points to from `base`, with `pairs` as its
/// query; the error of the first step that does not give a URL.
pub fn endpoint(base: &str, reference: &str, pairs: &Vec<(String, String)>) -> (r: MarketResult<
    String,
>)
    ensures
        match endpoint_of(base@, reference@, pairs_of(pairs@)) {
            Some(url) => r is Ok && r->Ok_0@ == url,
            None => r is Err && r->Err_0@ == Failure::UrlParseError,
        },
{
    let ghost all = pairs_of(pairs@);
    let mut url = match resolve(base, reference) {
        Ok(url) => url,
        Err(e) => {
            proof {
                lemma_no_url_stays_none(all, all.len() as int);
            }
            return Err(e);
        },
    };
    let mut i: usize = 0;
    while i < pairs.len()
        invariant
            i <= pairs@.len(),
            all == pairs_of(pairs@),
            url_with_pairs(joined_url(base@, reference@), all, i as int) == Some(url@),
        decreases pairs@.len() - i,
    {
        match with_pair(url.as_str(), pairs[i].0.as_str(), pairs[i].1.as_str()) {
            Ok(extended) => {
                url = extended;
            },
            Err(e) => {
                proof {
                    lemma_failure_stays(
                        joined_url(base@, reference@),
                        all,
                        i + 1,
                        all.len() as int,
                    );
                }
                return Err(e);
            },
        }
        i += 1;
    }
    Ok(url)
}

/// Without a URL to start from, no pair gives one.
proof fn lemma_no_url_stays_none(pairs: Seq<(Seq<char>, Seq<char>)>, upto: int)
    ensures
        url_with_pairs(None, pairs, upto) is None,
    decreases upto,
{
    if upto > 0 {
        lemma_no_url_stays_none(pairs, upto - 1);
    }
}

/// Once a pair has failed, the pairs behind it do not mend it.
proof fn lemma_failure_stays(
    url: Option<Seq<char>>,
    pairs: Seq<(Seq<char>, Seq<char>)>,
    failed: int,
    upto: int,
)
    requires
        failed <= upto,
        url_with_pairs(url, pairs, failed) is None,
    ensures
        url_with_pairs(url, pairs, upto) is None,
    decreases upto - failed,
{
    if failed < upto {
        lemma_failure_stays(url, pairs, failed, upto - 1);
    }
}

} // verus!

verus! {

/// The texts of a list.
pub open spec fn texts_of(texts: Seq<String>) -> Seq<Seq<char>> {
    Seq::new(texts.len(), |i: int| texts[i]@)
}

/// The first position from `from` on whose reference points to no URL, or
/// the number of references if every one does.
pub open spec fn first_unresolved(base: Seq<char>, references: Seq<Seq<char>>, from: int) -> int
    decreases references.len() - from,
{
    if from >= references.len() {
        references.len() as int
    } else if joined_url(base, references[from]) is None {
        from
    } else {
        first_unresolved(base, references, from + 1)
    }
}

/// Whether `urls` are the URLs that `references` point to from `base`.
pub open spec fn resolved(base: Seq<char>, references: Seq<Seq<char>>, urls: Seq<Seq<char>>) -> bool {
    urls.len() == references.len() && forall|i: int|
        0 <= i < references.len() ==> joined_url(base, references[i]) == Some(#[trigger] urls[i])
}

/// The URLs that `references` point to from `base`, in their order; the
/// error of the first that points to none.
pub fn resolve_all(base: &str, references: &Vec<String>) -> (r: MarketResult<Vec<String>>)
    ensures
        first_unresolved(base@, texts_of(references@), 0) == references@.len() ==> r is Ok
            && resolved(base@, texts_of(references@), texts_of(r->Ok_0@)),
        first_unresolved(base@, texts_of(references@), 0) < references@.len() ==> r is Err
            && r->Err_0@ == Failure::UrlParseError,
{
    let ghost all = texts_of(references@);
    let mut urls: Vec<String> = Vec::with_capacity(references.len());
    let mut i: usize = 0;
    while i < references.len()
        invariant
            all == texts_of(references@),
            i <= references@.len(),
            urls@.len() == i,
            first_unresolved(base@, all, 0) == first_unresolved(base@, all, i as int),
            forall|j: int| 0 <= j < i ==> joined_url(base@, all[j]) == Some(urls@[j]@),
        decreases references@.len() - i,
    {
        assert(all[i as int] == references@[i as int]@);
        match resolve(base, references[i].as_str()) {
            Ok(url) => {
                urls.push(url);
            },
            Err(e) => {
                assert(first_unresolved(base@, all, i as int) == i);
                return Err(e);
            },
        }
        i += 1;
    }
    proof {
        lemma_first_unresolved(base@, all, 0);
        assert forall|j: int| 0 <= j < all.len() implies joined_url(base@, all[j]) == Some(
            #[trigger] texts_of(urls@)[j],
        ) by {
            assert(texts_of(urls@)[j] == urls@[j]@);
        }
    }
    Ok(urls)
}

/// The first unresolved position is at or behind `from` and within the list.
pub proof fn lemma_first_unresolved(base: Seq<char>, references: Seq<Seq<char>>, from: int)
    requires
        0 <= from <= references.len(),
    ensures
        from <= first_unresolved(base, references, from) <= references.len(),
    decreases references.len() - from,
{
    if from < references.len() && joined_url(base, references[from]) is Some {
        lemma_first_unresolved(base, references, from + 1);
    }
}

} // verus!
