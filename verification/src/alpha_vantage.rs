//! Stock data: the address to ask, and the cut of a time series to its most
//! recent dates.

use vstd::prelude::*;
use crate::pattern::{compile, is_match, regex_compile_error, regex_is_match, Pattern};
use crate::text::{comes_before, option_str, push_text, text_eq, text_less, texts};
use crate::tools::text_or;

verus! {

/// The pattern that a key of a time series begins with: a date.
pub const DATE: &'static str = r"^\d{4}-\d{2}-\d{2}";

/// What is said when the service has no key.
pub const NO_KEY: &'static str = "ALPHA_VANTAGE_API_KEY not found in ~/.aicli.conf";

/// The address that answers a query. A quote has no size; every other
/// function is asked for the compact size unless another is named.
pub open spec fn query_url(
    function: Seq<char>,
    symbol: Seq<char>,
    api_key: Seq<char>,
    outputsize: Option<Seq<char>>,
) -> Seq<char> {
    "https://www.alphavantage.co/query?function="@ + function + "&symbol="@ + symbol
        + "&apikey="@ + api_key + if function == "GLOBAL_QUOTE"@ {
        Seq::<char>::empty()
    } else {
        "&outputsize="@ + text_or(outputsize, "compact"@)
    }
}

/// The address to ask for stock data, or the reason why none can be asked.
pub fn alpha_vantage_query(function: &str, symbol: &str, api_key: &str, outputsize: Option<&str>) -> (r:
    Result<String, String>)
    ensures
        match r {
            Ok(url) => api_key@.len() > 0 && url@ == query_url(
                function@,
                symbol@,
                api_key@,
                option_str(outputsize),
            ),
            Err(e) => api_key@.len() == 0 && e@ == NO_KEY@,
        },
{
    if api_key.is_empty() {
        return Err(NO_KEY.to_owned());
    }
    let mut url = String::new();
    push_text(&mut url, "https://www.alphavantage.co/query?function=");
    push_text(&mut url, function);
    push_text(&mut url, "&symbol=");
    push_text(&mut url, symbol);
    push_text(&mut url, "&apikey=");
    push_text(&mut url, api_key);
    if !text_eq(function, "GLOBAL_QUOTE") {
        push_text(&mut url, "&outputsize=");
        match outputsize {
            Some(size) => push_text(&mut url, size),
            None => push_text(&mut url, "compact"),
        }
        assert(url@ =~= query_url(function@, symbol@, api_key@, option_str(outputsize)));
    } else {
        assert(url@ =~= query_url(function@, symbol@, api_key@, option_str(outputsize)));
    }
    Ok(url)
}

/// Whether a key begins with a date.
pub open spec fn is_date(key: Seq<char>) -> bool {
    regex_compile_error(DATE@) is None && regex_is_match(DATE@, key)
}

/// Whether `date` is the pattern for dates, or nothing because that
/// pattern does not compile.
spec fn for_dates(date: Option<Pattern>) -> bool {
    match date {
        Some(p) => p@ == DATE@ && regex_compile_error(DATE@) is None,
        None => regex_compile_error(DATE@) is Some,
    }
}

fn date_pattern() -> (r: Option<Pattern>)
    ensures
        for_dates(r),
{
    match compile(DATE) {
        Ok(p) => Some(p),
        Err(_) => None,
    }
}

fn dated(date: &Option<Pattern>, key: &str) -> (b: bool)
    requires
        for_dates(*date),
    ensures
        b == is_date(key@),
{
    match date {
        Some(p) => is_match(p, key),
        None => false,
    }
}

/// How many of the first `upto` keys are dates after `key`.
pub open spec fn later_dates(keys: Seq<Seq<char>>, key: Seq<char>, upto: int) -> nat
    decreases upto,
{
    if upto <= 0 {
        0
    } else {
        later_dates(keys, key, upto - 1) + if is_date(keys[upto - 1]) && text_less(
            key,
            keys[upto - 1],
        ) {
            1nat
        } else {
            0nat
        }
    }
}

/// Whether a key stays when a series is cut to its `n` most recent dates:
/// it is a date, and fewer than `n` dates of the series are after it.
pub open spec fn stays(keys: Seq<Seq<char>>, n: usize, key: Seq<char>) -> bool {
    is_date(key) && later_dates(keys, key, keys.len() as int) < n
}

/// Those of the first `upto` keys that stay, in their order.
pub open spec fn staying(keys: Seq<Seq<char>>, n: usize, upto: int) -> Seq<Seq<char>>
    decreases upto,
{
    if upto <= 0 {
        Seq::empty()
    } else if stays(keys, n, keys[upto - 1]) {
        staying(keys, n, upto - 1).push(keys[upto - 1])
    } else {
        staying(keys, n, upto - 1)
    }
}

fn count_later(date: &Option<Pattern>, keys: &Vec<String>, key: &str) -> (count: usize)
    requires
        for_dates(*date),
    ensures
        count == later_dates(texts(keys@), key@, keys@.len() as int),
{
    let mut count: usize = 0;
    let mut i: usize = 0;
    while i < keys.len()
        invariant
            i <= keys.len(),
            count <= i,
            for_dates(*date),
            count == later_dates(texts(keys@), key@, i as int),
        decreases keys.len() - i,
    {
        assert(texts(keys@)[i as int] == keys@[i as int]@);
        if dated(date, keys[i].as_str()) && comes_before(key, keys[i].as_str()) {
            count += 1;
        }
        i += 1;
    }
    count
}

/// Cuts the keys of a time series to its `n` most recent dates: the keys
/// that stay, in their order. Keys that are no dates do not stay.
pub fn limit_time_series(keys: &Vec<String>, n: usize) -> (kept: Vec<String>)
    ensures
        texts(kept@) == staying(texts(keys@), n, keys@.len() as int),
{
    let date = date_pattern();
    let mut kept: Vec<String> = Vec::new();
    let mut i: usize = 0;
    while i < keys.len()
        invariant
            i <= keys.len(),
            for_dates(date),
            texts(kept@) == staying(texts(keys@), n, i as int),
        decreases keys.len() - i,
    {
        assert(texts(keys@)[i as int] == keys@[i as int]@);
        if dated(&date, keys[i].as_str()) && count_later(&date, keys, keys[i].as_str()) < n {
            let ghost before = kept@;
            kept.push(keys[i].clone());
            assert(texts(kept@) =~= texts(before).push(keys@[i as int]@));
        }
        i += 1;
    }
    kept
}

/// A member of the answer of the service: its name, and the names of the
/// members of its value if the value is an object.
pub struct Member {
    pub name: String,
    pub inner: Option<Vec<String>>,
}

/// Whether a member holds a time series: its value is an object with a
/// date among its keys.
pub open spec fn is_series(member: Member) -> bool {
    match member.inner {
        Some(keys) => exists|j: int| date_at(keys@, j),
        None => false,
    }
}

/// Whether position `j` of `keys` holds a date.
pub open spec fn date_at(keys: Seq<String>, j: int) -> bool {
    0 <= j < keys.len() && is_date(keys[j]@)
}

fn any_date(date: &Option<Pattern>, keys: &Vec<String>) -> (b: bool)
    requires
        for_dates(*date),
    ensures
        b == exists|j: int| date_at(keys@, j),
{
    let mut j: usize = 0;
    while j < keys.len()
        invariant
            j <= keys.len(),
            for_dates(*date),
            forall|k: int| 0 <= k < j ==> !date_at(keys@, k),
        decreases keys.len() - j,
    {
        if dated(date, keys[j].as_str()) {
            assert(date_at(keys@, j as int));
            return true;
        }
        j += 1;
    }
    false
}

fn holds_series(date: &Option<Pattern>, member: &Member) -> (b: bool)
    requires
        for_dates(*date),
    ensures
        b == is_series(*member),
{
    match &member.inner {
        Some(keys) => any_date(date, keys),
        None => false,
    }
}

/// Finds the time series in the answer of the service: the name of the
/// first member that holds one.
pub fn find_time_series_key(members: &Vec<Member>) -> (r: Option<String>)
    ensures
        match r {
            Some(name) => exists|i: int|
                0 <= i < members@.len() && is_series(#[trigger] members@[i]) && name@
                    == members@[i].name@ && forall|k: int|
                    0 <= k < i ==> !is_series(#[trigger] members@[k]),
            None => forall|k: int| 0 <= k < members@.len() ==> !is_series(#[trigger] members@[k]),
        },
{
    let date = date_pattern();
    let mut i: usize = 0;
    while i < members.len()
        invariant
            i <= members.len(),
            for_dates(date),
            forall|k: int| 0 <= k < i ==> !is_series(#[trigger] members@[k]),
        decreases members.len() - i,
    {
        if holds_series(&date, &members[i]) {
            return Some(members[i].name.clone());
        }
        i += 1;
    }
    None
}

} // verus!
