//! The MS Finance (RapidAPI) service: request addresses and the handling of
//! its JSON answers.

use vstd::prelude::*;
use vstd::string::*;

use serde_json::Value;

verus! {

/// A JSON value of `serde_json`, carried through unread.
#[verifier::external_type_specification]
#[verifier::external_body]
pub struct ExJsonValue(serde_json::Value);

/// Address of the MS Finance symbol search; the symbol follows it.
pub const MSSNIP0: &'static str = "https://ms-finance.p.rapidapi.com/market/v2/auto-complete?q=";

/// Address of the MS Finance real-time quotes; the performance ids follow it.
pub const MSSNIP1: &'static str =
    "https://ms-finance.p.rapidapi.com/market/v2/get-realtime-data?performanceIds=";

/// The RapidAPI key sent with each MS Finance request.
pub const RAPIDKEY: &'static str = "216c8810b8msh81fd3895966c048p1f50b6jsn9dbb47c8f68e";

/// The RapidAPI host sent with each MS Finance request.
pub const RAPIDHOST: &'static str = "ms-finance.p.rapidapi.com";

/// The stand-in result of an MS Finance lookup.
pub const PLACEHOLDER: &'static str = "{
        \"test\": \"value\"
    }";

/// Whether `serde_json::from_str::<Value>` accepts the text: a function of
/// the text alone.
pub uninterp spec fn json_parses(text: Seq<char>) -> bool;

/// The compact JSON text (`to_string`) of the value that `text` parses to.
pub uninterp spec fn json_compact_text(text: Seq<char>) -> Seq<char>;

/// The compact JSON text of `v[key]` for the value `v` that `text` parses
/// to (`null` when there is no such member).
pub uninterp spec fn json_member_text(text: Seq<char>, key: Seq<char>) -> Seq<char>;

/// The compact JSON text of `v[key][index][member]` for the value `v` that
/// `text` parses to (`null` where a step finds nothing).
pub uninterp spec fn json_nested_text(
    text: Seq<char>,
    key: Seq<char>,
    index: usize,
    member: Seq<char>,
) -> Seq<char>;

/// `serde_json::from_str::<Value>(text)` then `to_string` of the value:
/// `None` exactly when `text` is not JSON, else the text `json_compact_text`
/// names.
#[verifier::external_body]
fn compact_text(text: &str) -> (r: Option<String>)
    ensures
        r is Some <==> json_parses(text@),
        r matches Some(t) ==> t@ == json_compact_text(text@),
{
    serde_json::from_str::<Value>(text).ok().map(|v| v.to_string())
}

/// `serde_json::from_str::<Value>(text)`, then `v[key].to_string()`:
/// `None` exactly when `text` is not JSON, else the text `json_member_text`
/// names (indexing never fails: a missing member is `null`).
#[verifier::external_body]
fn member_text(text: &str, key: &str) -> (r: Option<String>)
    ensures
        r is Some <==> json_parses(text@),
        r matches Some(t) ==> t@ == json_member_text(text@, key@),
{
    serde_json::from_str::<Value>(text).ok().map(|v| v[key].to_string())
}

/// `serde_json::from_str::<Value>(text)`, then
/// `v[key][index][member].to_string()`: `None` exactly when `text` is not
/// JSON, else the text `json_nested_text` names (indexing never fails).
#[verifier::external_body]
fn nested_text(text: &str, key: &str, index: usize, member: &str) -> (r: Option<String>)
    ensures
        r is Some <==> json_parses(text@),
        r matches Some(t) ==> t@ == json_nested_text(text@, key@, index, member@),
{
    serde_json::from_str::<Value>(text).ok().map(|v| v[key][index][member].to_string())
}

/// Formats MS Finance quotes for the table; no format is defined yet, so
/// the text is empty.
pub fn format_ms(stocks: Vec<Value>) -> (r: String)
    ensures
        r@ == Seq::<char>::empty(),
{
    let out = String::new();
    out
}

/// The address of the symbol search for `symbol`.
pub fn ms_autocomplete_url(symbol: &str) -> (r: String)
    ensures
        r@ == MSSNIP0@ + symbol@,
{
    let mut url = MSSNIP0.to_owned();
    url.append(symbol);
    url
}

/// Each id followed by `%2C` (an encoded comma), all concatenated.
pub open spec fn comma_terminated(ids: Seq<Seq<char>>) -> Seq<char>
    decreases ids.len(),
{
    if ids.len() == 0 {
        seq![]
    } else {
        comma_terminated(ids.drop_last()) + ids.last() + "%2C"@
    }
}

/// `joined` less the three characters that start four from its end, as
/// `drain(len - 4..len - 1)` on it does.
pub open spec fn drain_near_end(joined: Seq<char>) -> Seq<char> {
    joined.take(joined.len() - 4) + joined.skip(joined.len() - 1)
}

/// What a list of ids must be for the quote address to be built: their
/// comma-terminated form has at least four characters and the one four from
/// the end is ASCII, so the byte range cut out falls on character bounds.
pub open spec fn ids_drainable(ids: Seq<Seq<char>>) -> bool {
    let joined = comma_terminated(ids);
    joined.len() >= 4 && (joined[joined.len() - 4] as u32) < 0x80
}

/// Each id followed by `%2C`, all concatenated.
pub fn comma_join(ids: &Vec<String>) -> (r: String)
    ensures
        r@ == comma_terminated(ids.deep_view()),
{
    let ghost all = ids.deep_view();
    let mut joined = String::new();
    let mut i: usize = 0;
    assert(all.take(0) =~= Seq::<Seq<char>>::empty());
    while i < ids.len()
        invariant
            i <= ids.len(),
            all == ids.deep_view(),
            joined@ == comma_terminated(all.take(i as int)),
        decreases ids.len() - i,
    {
        joined.append(ids[i].as_str());
        joined.append("%2C");
        assert(all.take(i + 1).drop_last() =~= all.take(i as int));
        assert(joined@ =~= comma_terminated(all.take(i + 1)));
        i = i + 1;
    }
    assert(all.take(ids.len() as int) =~= all);
    joined
}

/// Checks `ids_drainable` of `ids`.
pub fn can_join_ids(ids: &Vec<String>) -> (r: bool)
    ensures
        r == ids_drainable(ids.deep_view()),
{
    let joined = comma_join(ids);
    let n = joined.as_str().unicode_len();
    if n < 4 {
        return false;
    }
    let c = joined.as_str().get_char(n - 4);
    (c as u32) < 0x80
}

/// The address of the real-time quotes for `ids`: the ids joined with `%2C`
/// after each, then the three characters that start four from the end cut
/// out (for one id `AB` this leaves `AC`: the cut takes the id's last
/// character and `%2`).
pub fn ms_realtime_url(ids: &Vec<String>) -> (r: String)
    requires
        ids_drainable(ids.deep_view()),
    ensures
        r@ == MSSNIP1@ + drain_near_end(comma_terminated(ids.deep_view())),
{
    let joined = comma_join(ids);
    let n = joined.as_str().unicode_len();
    let head = joined.as_str().substring_char(0, n - 4);
    let tail = joined.as_str().substring_char(n - 1, n);
    let mut url = MSSNIP1.to_owned();
    url.append(head);
    url.append(tail);
    assert(tail@ =~= joined@.skip(n - 1));
    assert(head@ =~= joined@.take(n - 4));
    url
}

/// Whether `s` can lose its first and last characters by `String::remove`:
/// it has two characters and the last is ASCII (one byte), so that the byte
/// index `len - 1` starts a character.
pub open spec fn strippable(s: Seq<char>) -> bool {
    s.len() >= 2 && (s.last() as u32) < 0x80
}

/// `s` without its first and last characters (the quotes around a JSON
/// string).
pub fn strip_outer(s: String) -> (r: String)
    requires
        strippable(s@),
    ensures
        r@ == s@.subrange(1, s@.len() - 1),
{
    let n = s.as_str().unicode_len();
    s.as_str().substring_char(1, n - 1).to_owned()
}

/// Checks `strippable` of `s`.
fn is_strippable(s: &String) -> (r: bool)
    ensures
        r == strippable(s@),
{
    let n = s.as_str().unicode_len();
    if n < 2 {
        return false;
    }
    let c = s.as_str().get_char(n - 1);
    (c as u32) < 0x80
}

/// The id made from the JSON text `t` of a performance id: `t` without its
/// first and last characters, `None` when that would split a multi-byte
/// character.
pub open spec fn stripped_id(t: Seq<char>) -> Option<Seq<char>> {
    if strippable(t) {
        Some(t.subrange(1, t.len() - 1))
    } else {
        None
    }
}

/// An optional string taken by its characters.
pub open spec fn option_text(r: Option<String>) -> Option<Seq<char>> {
    match r {
        Some(s) => Some(s@),
        None => None,
    }
}

/// The performance id given the JSON text of `results[0].performanceId`:
/// the text without its first and last characters (the quotes of a JSON
/// string), `None` when that would split a multi-byte character.
pub fn performance_id_from_text(text: String) -> (r: Option<String>)
    ensures
        option_text(r) == stripped_id(text@),
{
    if is_strippable(&text) {
        Some(strip_outer(text))
    } else {
        None
    }
}

/// The JSON text of `results[0][member]` in the answer `response`.
pub open spec fn first_result_text(response: Seq<char>, member: Seq<char>) -> Seq<char> {
    json_nested_text(response, "results"@, 0, member)
}

/// The performance id in a symbol-search answer: `performance_id_from_text`
/// of the JSON text of `results[0].performanceId`. `None` when the answer is
/// not JSON.
pub fn performance_id(response: &str) -> (r: Option<String>)
    ensures
        !json_parses(response@) ==> r is None,
        json_parses(response@) ==> option_text(r) == stripped_id(
            first_result_text(response@, "performanceId"@),
        ),
{
    let text = match nested_text(response, "results", 0, "performanceId") {
        Some(t) => t,
        None => return None,
    };
    performance_id_from_text(text)
}

/// The report printed after a symbol search: the JSON texts of
/// `results[0].ticker` and `results[0].performanceId` on two lines. `None`
/// when the answer is not JSON.
pub fn ms_lookup_report(response: &str) -> (r: Option<String>)
    ensures
        r is Some <==> json_parses(response@),
        r matches Some(s) ==> s@ == ms_report_text(
            first_result_text(response@, "ticker"@),
            first_result_text(response@, "performanceId"@),
        ),
{
    let ticker = match nested_text(response, "results", 0, "ticker") {
        Some(t) => t,
        None => return None,
    };
    let id = match nested_text(response, "results", 0, "performanceId") {
        Some(t) => t,
        None => return None,
    };
    let mut s = "Symbol of request is: ".to_owned();
    s.append(ticker.as_str());
    s.append("\nPerformance ID is: ");
    s.append(id.as_str());
    Some(s)
}

/// The report text for the given ticker and id texts.
pub open spec fn ms_report_text(ticker: Seq<char>, id: Seq<char>) -> Seq<char> {
    "Symbol of request is: "@ + ticker + "\nPerformance ID is: "@ + id
}

/// The stand-in result of an MS Finance lookup: the compact JSON text of
/// `PLACEHOLDER` (`None` if it did not parse).
pub fn ms_placeholder() -> (r: Option<String>)
    ensures
        r is Some <==> json_parses(PLACEHOLDER@),
        r matches Some(t) ==> t@ == json_compact_text(PLACEHOLDER@),
{
    compact_text(PLACEHOLDER)
}

/// The members named by `ids` of a real-time answer, in order, each as its
/// JSON text (`null` for a missing one). `None` when the answer is not JSON.
pub fn ms_quotes(response: &str, ids: &Vec<String>) -> (r: Option<Vec<String>>)
    ensures
        r is Some <==> json_parses(response@),
        r matches Some(q) ==> q.len() == ids.len() && forall|i: int|
            0 <= i < ids.len() ==> #[trigger] q[i]@ == json_member_text(response@, ids[i]@),
{
    let mut out: Vec<String> = Vec::new();
    let mut i: usize = 0;
    if !json_is_valid(response) {
        return None;
    }
    while i < ids.len()
        invariant
            i <= ids.len(),
            json_parses(response@),
            out.len() == i,
            forall|j: int| 0 <= j < i ==> #[trigger] out[j]@ == json_member_text(response@, ids[j]@),
        decreases ids.len() - i,
    {
        let t = match member_text(response, ids[i].as_str()) {
            Some(t) => t,
            None => return None,
        };
        out.push(t);
        i = i + 1;
    }
    Some(out)
}

/// Whether `text` is JSON.
fn json_is_valid(text: &str) -> (r: bool)
    ensures
        r == json_parses(text@),
{
    compact_text(text).is_some()
}

} // verus!
