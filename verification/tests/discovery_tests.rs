use ghlinks::discovery::{
    hn_search_endpoint, json_is_well_formed, key_is_before, keys_in_order, parse_hn_hits,
    search_outcome, JsonValue, SearchFailure,
};

fn s(v: &str) -> JsonValue {
    JsonValue::String(v.to_string())
}

fn n(v: i64) -> JsonValue {
    JsonValue::Number(Some(v))
}

/// An object with its members in key order, as a JSON parser's map holds
/// them.
fn obj(members: Vec<(&str, JsonValue)>) -> JsonValue {
    let mut members: Vec<(String, JsonValue)> =
        members.into_iter().map(|(k, v)| (k.to_string(), v)).collect();
    members.sort_by(|a, b| a.0.cmp(&b.0));
    JsonValue::Object(members)
}

#[test]
fn parses_a_representative_algolia_hit_into_an_external_mention() {
    let sample = obj(vec![(
        "hits",
        JsonValue::Array(vec![obj(vec![
            ("title", s("Show HN: ghlinks")),
            ("objectID", s("12345")),
            ("points", n(42)),
            ("num_comments", n(7)),
            ("created_at", s("2026-01-01T00:00:00.000Z")),
        ])]),
    )]);
    let mentions = parse_hn_hits(&sample);
    assert_eq!(mentions.len(), 1);
    let m = &mentions[0];
    assert_eq!(m.source, "hacker_news");
    assert_eq!(m.title, "Show HN: ghlinks");
    assert_eq!(m.url, "https://news.ycombinator.com/item?id=12345");
    assert_eq!(m.score, Some(42));
    assert_eq!(m.num_comments, Some(7));
    assert_eq!(m.created_at.as_deref(), Some("2026-01-01T00:00:00.000Z"));
}

#[test]
fn multiple_hits_are_all_parsed_in_order() {
    let sample = obj(vec![(
        "hits",
        JsonValue::Array(vec![
            obj(vec![
                ("title", s("First")),
                ("objectID", s("1")),
                ("points", n(1)),
                ("num_comments", n(0)),
            ]),
            obj(vec![
                ("title", s("Second")),
                ("objectID", s("2")),
                ("points", n(2)),
                ("num_comments", n(1)),
            ]),
        ]),
    )]);
    let mentions = parse_hn_hits(&sample);
    assert_eq!(mentions.len(), 2);
    assert_eq!(mentions[0].title, "First");
    assert_eq!(mentions[1].title, "Second");
}

#[test]
fn missing_title_falls_back_to_untitled_rather_than_erroring() {
    let sample = obj(vec![(
        "hits",
        JsonValue::Array(vec![obj(vec![
            ("objectID", s("1")),
            ("points", n(1)),
            ("num_comments", n(0)),
        ])]),
    )]);
    let mentions = parse_hn_hits(&sample);
    assert_eq!(mentions[0].title, "(untitled)");
}

#[test]
fn missing_object_id_produces_an_empty_url_rather_than_erroring() {
    let sample = obj(vec![(
        "hits",
        JsonValue::Array(vec![obj(vec![
            ("title", s("No id")),
            ("points", n(1)),
            ("num_comments", n(0)),
        ])]),
    )]);
    let mentions = parse_hn_hits(&sample);
    assert_eq!(mentions[0].url, "");
}

#[test]
fn missing_score_and_comment_fields_become_none_not_zero() {
    let sample = obj(vec![(
        "hits",
        JsonValue::Array(vec![obj(vec![("title", s("Sparse")), ("objectID", s("1"))])]),
    )]);
    let mentions = parse_hn_hits(&sample);
    assert_eq!(mentions[0].score, None);
    assert_eq!(mentions[0].num_comments, None);
    assert_eq!(mentions[0].created_at, None);
}

#[test]
fn absent_hits_key_returns_an_empty_vec_not_an_error() {
    let sample = obj(vec![]);
    assert!(parse_hn_hits(&sample).is_empty());
}

#[test]
fn hits_present_but_not_an_array_returns_an_empty_vec() {
    let sample = obj(vec![("hits", s("unexpected string shape"))]);
    assert!(parse_hn_hits(&sample).is_empty());
}

#[test]
fn empty_hits_array_returns_an_empty_vec() {
    let sample = obj(vec![("hits", JsonValue::Array(vec![]))]);
    assert!(parse_hn_hits(&sample).is_empty());
}

// ---- further cases -------------------------------------------------------

#[test]
fn wrongly_typed_hit_fields_read_as_absent() {
    let sample = obj(vec![(
        "hits",
        JsonValue::Array(vec![
            obj(vec![
                ("title", n(5)),
                ("objectID", n(99)),
                ("points", s("many")),
                ("num_comments", JsonValue::Number(None)),
                ("created_at", JsonValue::Null),
            ]),
            JsonValue::Bool(true),
        ]),
    )]);
    let mentions = parse_hn_hits(&sample);
    assert_eq!(mentions.len(), 2);
    assert_eq!(mentions[0].title, "(untitled)");
    assert_eq!(mentions[0].url, "");
    assert_eq!(mentions[0].score, None);
    assert_eq!(mentions[0].num_comments, None);
    assert_eq!(mentions[0].created_at, None);
    assert_eq!(mentions[1].source, "hacker_news");
    assert_eq!(mentions[1].title, "(untitled)");
}

#[test]
fn a_top_level_array_has_no_hits() {
    let sample = JsonValue::Array(vec![obj(vec![("hits", JsonValue::Array(vec![]))])]);
    assert!(parse_hn_hits(&sample).is_empty());
}

#[test]
fn the_search_endpoint_percent_encodes_the_target_url() {
    assert_eq!(
        hn_search_endpoint("https://hn.algolia.com", "https://github.com/owner/repo"),
        "https://hn.algolia.com/api/v1/search?query=https%3A%2F%2Fgithub.com%2Fowner%2Frepo&restrictSearchableAttributes=url&tags=story"
    );
    assert_eq!(
        hn_search_endpoint("http://127.0.0.1:1", "a b~c_d.e-f é"),
        "http://127.0.0.1:1/api/v1/search?query=a%20b~c_d.e-f%20%C3%A9&restrictSearchableAttributes=url&tags=story"
    );
}

#[test]
fn a_failed_search_is_an_error_never_zero_mentions() {
    assert!(matches!(search_outcome(503, &None), Err(SearchFailure::Status(503))));
    let body = Some(obj(vec![("hits", JsonValue::Array(vec![]))]));
    assert!(matches!(search_outcome(404, &body), Err(SearchFailure::Status(404))));
    assert!(matches!(search_outcome(200, &None), Err(SearchFailure::BodyNotJson)));
}

#[test]
fn a_successful_search_with_no_hits_is_zero_mentions() {
    let body = Some(obj(vec![("hits", JsonValue::Array(vec![]))]));
    assert!(matches!(search_outcome(200, &body).map(|m| m.len()), Ok(0)));
    let one = Some(obj(vec![(
        "hits",
        JsonValue::Array(vec![obj(vec![("title", s("T")), ("objectID", s("9"))])]),
    )]));
    let found = search_outcome(200, &one).unwrap();
    assert_eq!(found.len(), 1);
    assert_eq!(found[0].url, "https://news.ycombinator.com/item?id=9");
}

#[test]
fn key_order_is_code_point_order_with_prefixes_first() {
    assert!(key_is_before("a", "b"));
    assert!(key_is_before("ab", "abc"));
    assert!(!key_is_before("abc", "ab"));
    assert!(!key_is_before("a", "a"));
    assert!(key_is_before("Z", "a"));
    assert!(keys_in_order(&vec![("a".to_string(), JsonValue::Null), ("b".to_string(), JsonValue::Null)]));
    assert!(!keys_in_order(&vec![("a".to_string(), JsonValue::Null), ("a".to_string(), JsonValue::Null)]));
}

#[test]
fn well_formedness_looks_into_nested_objects() {
    let good = obj(vec![("hits", JsonValue::Array(vec![obj(vec![("x", n(1)), ("a", n(2))])]))]);
    assert!(json_is_well_formed(&good));
    let bad_inner = JsonValue::Array(vec![JsonValue::Object(vec![
        ("x".to_string(), n(1)),
        ("a".to_string(), n(2)),
    ])]);
    assert!(!json_is_well_formed(&bad_inner));
}
