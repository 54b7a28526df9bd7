//! Discovery of external mentions through Hacker News' keyless Algolia
//! Search API. Only raw signals (title, score, comment count) are
//! collected; no sentiment or stance is inferred.
//!
//! The search request itself is sent by the program around the library,
//! through the retry policy of `retry.rs`; this module builds the request
//! URL and turns a response body into `ExternalMention`s.

use vstd::prelude::*;

use crate::model::ExternalMention;
use crate::retry::{is_success, status_is_success};
use crate::text::{chars_of, concat2, copy_str};

verus! {

/// Hacker News' Algolia Search API can return a transient 5xx or 429
/// under load: the same retry budget as GitHub calls.
pub const HN_MAX_RETRIES: u32 = 3;

/// The real Hacker News Algolia Search API.
pub const HN_DEFAULT_BASE_URL: &'static str = "https://hn.algolia.com";

/// A JSON document, as the mention parser reads it.
#[derive(Debug)]
pub enum JsonValue {
    Null,
    Bool(bool),
    /// A number: its value where it is an integer that fits `i64`,
    /// `None` for any other number.
    Number(Option<i64>),
    String(String),
    Array(Vec<JsonValue>),
    /// The members of an object, in key order, each key once
    /// (`keys_ordered`, as a `serde_json` map holds them).
    Object(Vec<(String, JsonValue)>),
}

/// Whether `a` comes before `b` when compared character by character by
/// code point, a proper prefix first: the order of `String`'s `Ord`, in
/// which a `serde_json` map keeps its keys.
pub open spec fn key_precedes(a: Seq<char>, b: Seq<char>) -> bool
    decreases a.len(),
{
    if b.len() == 0 {
        false
    } else if a.len() == 0 {
        true
    } else if a[0] != b[0] {
        (a[0] as int) < (b[0] as int)
    } else {
        key_precedes(a.drop_first(), b.drop_first())
    }
}

/// Whether the keys of object members strictly increase: each key once,
/// in key order.
pub open spec fn keys_ordered(entries: Seq<(String, JsonValue)>) -> bool {
    forall|a: int, b: int|
        0 <= a < b < entries.len() ==> key_precedes(
            #[trigger] entries[a].0@,
            #[trigger] entries[b].0@,
        )
}

/// Whether every object in a JSON document, at any depth, has its members
/// in key order, each key once.
pub open spec fn json_well_formed(v: JsonValue) -> bool
    decreases v,
{
    match v {
        JsonValue::Array(items) => forall|i: int|
            0 <= i < items@.len() ==> json_well_formed(#[trigger] items@[i]),
        JsonValue::Object(entries) => keys_ordered(entries@) && forall|i: int|
            0 <= i < entries@.len() ==> json_well_formed(#[trigger] entries@[i].1),
        _ => true,
    }
}

/// No key precedes itself.
pub proof fn lemma_key_precedes_irreflexive(a: Seq<char>)
    ensures
        !key_precedes(a, a),
    decreases a.len(),
{
    if a.len() > 0 {
        lemma_key_precedes_irreflexive(a.drop_first());
    }
}

/// Key order is transitive.
pub proof fn lemma_key_precedes_transitive(a: Seq<char>, b: Seq<char>, c: Seq<char>)
    requires
        key_precedes(a, b),
        key_precedes(b, c),
    ensures
        key_precedes(a, c),
    decreases a.len(),
{
    if a.len() > 0 && a[0] == b[0] && b[0] == c[0] {
        lemma_key_precedes_transitive(a.drop_first(), b.drop_first(), c.drop_first());
    }
}

/// Whether `a` comes before `b` in key order.
pub fn key_is_before(a: &str, b: &str) -> (r: bool)
    ensures
        r == key_precedes(a@, b@),
{
    let ac = chars_of(a);
    let bc = chars_of(b);
    let mut i: usize = 0;
    assert(ac@.skip(0) =~= a@);
    assert(bc@.skip(0) =~= b@);
    while i < ac.len() && i < bc.len()
        invariant
            ac@ == a@,
            bc@ == b@,
            i <= ac@.len(),
            i <= bc@.len(),
            key_precedes(a@, b@) == key_precedes(ac@.skip(i as int), bc@.skip(i as int)),
        decreases ac@.len() - i,
    {
        let x = ac[i];
        let y = bc[i];
        assert(ac@.skip(i as int)[0] == x);
        assert(bc@.skip(i as int)[0] == y);
        if x != y {
            return x < y;
        }
        assert(ac@.skip(i as int).drop_first() =~= ac@.skip(i + 1));
        assert(bc@.skip(i as int).drop_first() =~= bc@.skip(i + 1));
        i = i + 1;
    }
    i < bc.len()
}

/// Whether the keys of object members strictly increase (`keys_ordered`).
pub fn keys_in_order(entries: &Vec<(String, JsonValue)>) -> (r: bool)
    ensures
        r == keys_ordered(entries@),
{
    if entries.len() == 0 {
        return true;
    }
    let mut i: usize = 0;
    while i < entries.len() - 1
        invariant
            entries@.len() >= 1,
            i < entries@.len(),
            keys_ordered(entries@.take(i + 1)),
        decreases entries@.len() - i,
    {
        if !key_is_before(entries[i].0.as_str(), entries[i + 1].0.as_str()) {
            assert(!keys_ordered(entries@)) by {
                assert(entries@[i as int].0@ == entries@[i as int].0@);
            }
            return false;
        }
        let ghost prefix = entries@.take(i + 2);
        assert forall|a: int, b: int| 0 <= a < b < prefix.len() implies key_precedes(
            #[trigger] prefix[a].0@,
            #[trigger] prefix[b].0@,
        ) by {
            assert(prefix[a] == entries@[a]);
            assert(prefix[b] == entries@[b]);
            if b < i + 1 {
                assert(entries@.take(i + 1)[a] == entries@[a]);
                assert(entries@.take(i + 1)[b] == entries@[b]);
            } else if a < i {
                assert(entries@.take(i + 1)[a] == entries@[a]);
                assert(entries@.take(i + 1)[i as int] == entries@[i as int]);
                lemma_key_precedes_transitive(
                    entries@[a].0@,
                    entries@[i as int].0@,
                    entries@[b].0@,
                );
            }
        }
        i = i + 1;
    }
    assert(entries@.take(i + 1) =~= entries@);
    true
}

/// Whether every object of a document has its keys in order
/// (`json_well_formed`).
pub fn json_is_well_formed(v: &JsonValue) -> (r: bool)
    ensures
        r == json_well_formed(*v),
    decreases *v,
{
    match v {
        JsonValue::Array(items) => {
            let mut i: usize = 0;
            while i < items.len()
                invariant
                    *v == JsonValue::Array(*items),
                    i <= items@.len(),
                    forall|k: int| 0 <= k < i ==> json_well_formed(#[trigger] items@[k]),
                decreases items@.len() - i,
            {
                assert(decreases_to!(*v => (*v)->Array_0));
                assert(decreases_to!(*items => items@));
                assert(decreases_to!(items@ => items@[i as int]));
                if !json_is_well_formed(&items[i]) {
                    return false;
                }
                i = i + 1;
            }
            true
        },
        JsonValue::Object(entries) => {
            if !keys_in_order(entries) {
                return false;
            }
            let mut i: usize = 0;
            while i < entries.len()
                invariant
                    *v == JsonValue::Object(*entries),
                    keys_ordered(entries@),
                    i <= entries@.len(),
                    forall|k: int| 0 <= k < i ==> json_well_formed(#[trigger] entries@[k].1),
                decreases entries@.len() - i,
            {
                assert(decreases_to!(*v => (*v)->Object_0));
                assert(decreases_to!(*entries => entries@));
                assert(decreases_to!(entries@ => entries@[i as int]));
                assert(decreases_to!(entries@[i as int] => entries@[i as int].1));
                if !json_is_well_formed(&entries[i].1) {
                    return false;
                }
                i = i + 1;
            }
            true
        },
        _ => true,
    }
}

/// In members with ordered keys, a key names exactly one member: the one
/// found by key is the member with that key, wherever it stands.
pub proof fn lemma_member_found_by_key(entries: Seq<(String, JsonValue)>, i: int)
    requires
        keys_ordered(entries),
        0 <= i < entries.len(),
    ensures
        find_member(entries, entries[i].0@) == Some(entries[i].1),
    decreases entries.len(),
{
    if i == 0 {
    } else {
        let key = entries[i].0@;
        assert(key_precedes(entries[0].0@, entries[i].0@));
        lemma_key_precedes_irreflexive(key);
        assert(entries[0].0@ != key);
        let rest = entries.drop_first();
        assert forall|a: int, b: int| 0 <= a < b < rest.len() implies key_precedes(
            #[trigger] rest[a].0@,
            #[trigger] rest[b].0@,
        ) by {
            assert(rest[a] == entries[a + 1]);
            assert(rest[b] == entries[b + 1]);
        }
        assert(rest[i - 1] == entries[i]);
        lemma_member_found_by_key(rest, i - 1);
    }
}

/// The member `key` of the object members `entries` (the first one with
/// that key).
pub open spec fn find_member(entries: Seq<(String, JsonValue)>, key: Seq<char>) -> Option<
    JsonValue,
>
    decreases entries.len(),
{
    if entries.len() == 0 {
        None
    } else if entries[0].0@ == key {
        Some(entries[0].1)
    } else {
        find_member(entries.drop_first(), key)
    }
}

/// `Value::get(key)`: the member `key` of an object; `None` for anything
/// else.
pub open spec fn json_get(v: JsonValue, key: Seq<char>) -> Option<JsonValue> {
    match v {
        JsonValue::Object(entries) => find_member(entries@, key),
        _ => None,
    }
}

/// `as_str()` of an optional value.
pub open spec fn json_str(v: Option<JsonValue>) -> Option<Seq<char>> {
    match v {
        Some(JsonValue::String(s)) => Some(s@),
        _ => None,
    }
}

/// `as_i64()` of an optional value.
pub open spec fn json_i64(v: Option<JsonValue>) -> Option<i64> {
    match v {
        Some(JsonValue::Number(n)) => n,
        _ => None,
    }
}

pub open spec fn opt_view(s: Option<String>) -> Option<Seq<char>> {
    match s {
        Some(t) => Some(t@),
        None => None,
    }
}

/// What a mention made from a search hit holds: source `hacker_news`; the
/// hit's title, or `(untitled)`; the item URL built from its `objectID`,
/// or empty; its points, comment count and creation time where present.
pub open spec fn mention_of_hit(m: ExternalMention, hit: JsonValue) -> bool {
    &&& m.source@ == "hacker_news"@
    &&& m.title@ == match json_str(json_get(hit, "title"@)) {
        Some(t) => t,
        None => "(untitled)"@,
    }
    &&& m.url@ == match json_str(json_get(hit, "objectID"@)) {
        Some(id) => "https://news.ycombinator.com/item?id="@ + id,
        None => Seq::empty(),
    }
    &&& m.score == json_i64(json_get(hit, "points"@))
    &&& m.num_comments == json_i64(json_get(hit, "num_comments"@))
    &&& opt_view(m.created_at) == json_str(json_get(hit, "created_at"@))
}

/// The member `key` of `v`, where `v` is an object that has it.
pub fn json_member<'a>(v: &'a JsonValue, key: &str) -> (r: Option<&'a JsonValue>)
    ensures
        match r {
            Some(x) => json_get(*v, key@) == Some(*x),
            None => json_get(*v, key@) is None,
        },
{
    match v {
        JsonValue::Object(entries) => {
            let mut i: usize = 0;
            assert(entries@.skip(0) =~= entries@);
            while i < entries.len()
                invariant
                    *v == JsonValue::Object(*entries),
                    i <= entries@.len(),
                    find_member(entries@.skip(i as int), key@) == find_member(entries@, key@),
                decreases entries@.len() - i,
            {
                assert(entries@.skip(i as int).drop_first() =~= entries@.skip(i + 1));
                if crate::text::str_is(entries[i].0.as_str(), key) {
                    assert(entries@.skip(i as int)[0] == entries@[i as int]);
                    assert(entries@[i as int].0@ == key@);
                    assert(find_member(entries@.skip(i as int), key@) == Some(
                        entries@[i as int].1,
                    ));
                    return Some(&entries[i].1);
                }
                i = i + 1;
            }
            assert(entries@.skip(i as int) =~= Seq::<(String, JsonValue)>::empty());
            None
        },
        _ => None,
    }
}

/// The text of member `key`, where it is a string.
fn member_str(v: &JsonValue, key: &str) -> (r: Option<String>)
    ensures
        opt_view(r) == json_str(json_get(*v, key@)),
{
    match json_member(v, key) {
        Some(JsonValue::String(s)) => Some(copy_str(s.as_str())),
        _ => None,
    }
}

/// The integer value of member `key`, where it is an integer that fits.
fn member_i64(v: &JsonValue, key: &str) -> (r: Option<i64>)
    ensures
        r == json_i64(json_get(*v, key@)),
{
    match json_member(v, key) {
        Some(JsonValue::Number(n)) => *n,
        _ => None,
    }
}

/// The mention that one search hit describes.
fn mention_from_hit(hit: &JsonValue) -> (m: ExternalMention)
    ensures
        mention_of_hit(m, *hit),
{
    let title = match member_str(hit, "title") {
        Some(t) => t,
        None => copy_str("(untitled)"),
    };
    let url = match member_str(hit, "objectID") {
        Some(id) => concat2("https://news.ycombinator.com/item?id=", id.as_str()),
        None => String::new(),
    };
    ExternalMention {
        source: copy_str("hacker_news"),
        title,
        url,
        score: member_i64(hit, "points"),
        num_comments: member_i64(hit, "num_comments"),
        created_at: member_str(hit, "created_at"),
    }
}

/// Whether `mentions` are those of the search response body `v`: one per
/// element of its `hits` array, in order; none where there is no such
/// array.
pub open spec fn mentions_of_body(mentions: Seq<ExternalMention>, v: JsonValue) -> bool {
    match json_get(v, "hits"@) {
        Some(JsonValue::Array(hits)) => mentions.len() == hits@.len() && forall|i: int|
            0 <= i < hits@.len() ==> mention_of_hit(#[trigger] mentions[i], hits@[i]),
        _ => mentions.len() == 0,
    }
}

/// Turns an Algolia HN Search response body into mentions: one per element
/// of its `hits` array, in order; none where `hits` is missing or not an
/// array. A missing field degrades visibly (`(untitled)`, an empty URL,
/// `None`) rather than failing.
pub fn parse_hn_hits(v: &JsonValue) -> (r: Vec<ExternalMention>)
    requires
        json_well_formed(*v),
    ensures
        mentions_of_body(r@, *v),
{
    let mut out: Vec<ExternalMention> = Vec::new();
    match json_member(v, "hits") {
        Some(JsonValue::Array(hits)) => {
            let mut i: usize = 0;
            while i < hits.len()
                invariant
                    i <= hits@.len(),
                    out@.len() == i,
                    forall|k: int| 0 <= k < i ==> mention_of_hit(#[trigger] out@[k], hits@[k]),
                decreases hits@.len() - i,
            {
                out.push(mention_from_hit(&hits[i]));
                i = i + 1;
            }
        },
        _ => {},
    }
    out
}

/// Why a search gave no mentions.
#[derive(Debug, PartialEq, Eq)]
pub enum SearchFailure {
    /// The final response's status was not a success.
    Status(u16),
    /// The body of a successful response is not JSON.
    BodyNotJson,
}

/// The outcome of a search from its final response: a non-success status
/// is a failure (zero is never reported for a search that failed); a
/// successful response gives the mentions of its body, where the body is
/// JSON (`body` is `None` where it is not).
pub fn search_outcome(status: u16, body: &Option<JsonValue>) -> (r: Result<
    Vec<ExternalMention>,
    SearchFailure,
>)
    requires
        body matches Some(v) ==> json_well_formed(*v),
    ensures
        !is_success(status) ==> r == Err::<Vec<ExternalMention>, SearchFailure>(
            SearchFailure::Status(status),
        ),
        is_success(status) && body is None ==> r == Err::<Vec<ExternalMention>, SearchFailure>(
            SearchFailure::BodyNotJson,
        ),
        is_success(status) && body is Some ==> (r matches Ok(found) && mentions_of_body(
            found@,
            body->0,
        )),
{
    if !status_is_success(status) {
        return Err(SearchFailure::Status(status));
    }
    match body {
        Some(v) => Ok(parse_hn_hits(v)),
        None => Err(SearchFailure::BodyNotJson),
    }
}

/// Every UTF-8 byte except ASCII alphanumerics and `-`, `.`, `_`, `~`
/// is percent-encoded.
pub open spec fn is_unreserved_byte(b: u8) -> bool {
    (48 <= b && b <= 57) || (65 <= b && b <= 90) || (97 <= b && b <= 122) || b == 45 || b == 46
        || b == 95 || b == 126
}

/// An uppercase hexadecimal digit.
pub open spec fn hex_digit(d: u8) -> char {
    if d < 10 {
        (48 + d) as char
    } else {
        (55 + d) as char
    }
}

/// Percent-encoding of a byte string: unreserved bytes as themselves,
/// every other byte as `%` and two uppercase hex digits.
pub open spec fn percent_encode_bytes(bytes: Seq<u8>) -> Seq<char>
    decreases bytes.len(),
{
    if bytes.len() == 0 {
        Seq::empty()
    } else {
        let b = bytes.last();
        percent_encode_bytes(bytes.drop_last()) + if is_unreserved_byte(b) {
            seq![b as char]
        } else {
            seq!['%', hex_digit(b / 16), hex_digit(b % 16)]
        }
    }
}

/// `urlencoding::encode`. Its source percent-encodes every byte of the
/// input's UTF-8 encoding except ASCII alphanumerics and `-`, `.`, `_`,
/// `~`, with uppercase hex digits; the contract states exactly that.
#[verifier::external_body]
fn url_encode(data: &str) -> (r: String)
    ensures
        r@ == percent_encode_bytes(vstd::utf8::encode_utf8(data@)),
{
    urlencoding::encode(data).into_owned()
}

/// The search request for stories whose URL is exactly `target_url`:
/// `{base_url}/api/v1/search?query={encoded target}&restrictSearchableAttributes=url&tags=story`.
pub fn hn_search_endpoint(base_url: &str, target_url: &str) -> (r: String)
    ensures
        r@ == base_url@ + "/api/v1/search?query="@ + percent_encode_bytes(
            vstd::utf8::encode_utf8(target_url@),
        ) + "&restrictSearchableAttributes=url&tags=story"@,
{
    let encoded = url_encode(target_url);
    let mut r = copy_str(base_url);
    r.append("/api/v1/search?query=");
    r.append(encoded.as_str());
    r.append("&restrictSearchableAttributes=url&tags=story");
    r
}

} // verus!
