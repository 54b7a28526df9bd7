use ghlinks::discovery::JsonValue;
use ghlinks::github::{
    contributors_from_body, contributors_from_link, contributors_from_response, parse_last_page,
    ContributorsAnswer, repo_exists_from_status,
    repository_from_envelope, take_releases_page, PagingResult, ReleasesPaging, throttle_pause_secs, GraphQlEnvelope,
    GraphQlError, GraphQlFailure, PageInfo, PageStep, ReleaseNode, ReleasesConnection,
    ReleasesFailure, ReleasesQueryData, RepoQueryData, RepositoryNode, RepositoryReleases,
};
use ghlinks::retry::{HeaderField, ResponseHeaders};

#[test]
fn finds_last_page_among_pagination_links() {
    let header = r#"<https://api.github.com/x?page=2>; rel="next", <https://api.github.com/x?page=42>; rel="last""#;
    assert_eq!(parse_last_page(header), Some(42));
}

#[test]
fn returns_none_for_link_headers_with_no_last_page() {
    let header = r#"<https://api.github.com/x?page=2>; rel="next""#;
    assert_eq!(parse_last_page(header), None);
}

#[test]
fn ignores_malformed_link_headers() {
    assert_eq!(parse_last_page("not a link header"), None);
    assert_eq!(parse_last_page(""), None);
}

// ---- further cases -------------------------------------------------------

#[test]
fn the_last_entry_decides_even_with_other_query_pairs_first() {
    let header = r#"<https://api.github.com/x?per_page=1&anon=true&page=14>; rel="last", <https://api.github.com/x?page=2>; rel="next""#;
    assert_eq!(parse_last_page(header), Some(14));
}

#[test]
fn a_last_entry_whose_url_does_not_parse_ends_the_search() {
    let header = r#"<not a url?page=3>; rel="last", <https://api.github.com/x?page=9>; rel="last""#;
    assert_eq!(parse_last_page(header), None);
}

#[test]
fn a_last_entry_without_a_page_pair_is_passed_over() {
    let header = r#"<https://api.github.com/x?p=3>; rel="last", <https://api.github.com/x?page=9>; rel="last""#;
    assert_eq!(parse_last_page(header), Some(9));
}

#[test]
fn a_page_that_is_not_a_number_gives_none() {
    let header = r#"<https://api.github.com/x?page=many>; rel="last""#;
    assert_eq!(parse_last_page(header), None);
}

#[test]
fn contributor_counts_come_from_the_link_header_or_the_body() {
    assert_eq!(
        contributors_from_link(&HeaderField::Text(
            r#"<https://api.github.com/x?page=14>; rel="last""#.to_string()
        )),
        Some(14)
    );
    assert_eq!(contributors_from_link(&HeaderField::Absent), None);
    assert_eq!(contributors_from_link(&HeaderField::Opaque), None);
    let body = JsonValue::Array(vec![JsonValue::Null, JsonValue::Null]);
    assert_eq!(contributors_from_body(&body), Some(2));
    assert_eq!(contributors_from_body(&JsonValue::Object(vec![])), None);
}

#[test]
fn a_contributors_response_prefers_the_link_header_then_the_body() {
    let link = HeaderField::Text(r#"<https://api.github.com/x?page=14>; rel="last""#.to_string());
    assert_eq!(contributors_from_response(&link, &None), ContributorsAnswer::Count(Some(14)));
    let body = Some(JsonValue::Array(vec![JsonValue::Null]));
    assert_eq!(
        contributors_from_response(&HeaderField::Absent, &body),
        ContributorsAnswer::Count(Some(1))
    );
    assert_eq!(
        contributors_from_response(&HeaderField::Absent, &Some(JsonValue::Null)),
        ContributorsAnswer::Count(None)
    );
    assert_eq!(
        contributors_from_response(&HeaderField::Absent, &None),
        ContributorsAnswer::BodyNotJson
    );
}

#[test]
fn repo_existence_reads_404_as_absent() {
    assert_eq!(repo_exists_from_status(404), Some(false));
    assert_eq!(repo_exists_from_status(200), Some(true));
    assert_eq!(repo_exists_from_status(204), Some(true));
    assert_eq!(repo_exists_from_status(403), None);
    assert_eq!(repo_exists_from_status(500), None);
}

fn node(description: &str) -> RepositoryNode {
    RepositoryNode { description: Some(description.to_string()), ..Default::default() }
}

#[test]
fn a_graphql_repository_envelope_yields_its_repository() {
    let ok = GraphQlEnvelope {
        data: Some(RepoQueryData { repository: Some(node("a test repo")) }),
        errors: None,
    };
    match repository_from_envelope(ok) {
        Ok(n) => assert_eq!(n.description.as_deref(), Some("a test repo")),
        Err(e) => panic!("unexpected failure {e:?}"),
    }
}

#[test]
fn graphql_errors_become_a_failure_with_joined_messages() {
    let failed: GraphQlEnvelope<RepoQueryData> = GraphQlEnvelope {
        data: Some(RepoQueryData { repository: Some(node("ignored")) }),
        errors: Some(vec![
            GraphQlError { message: "rate limited".to_string() },
            GraphQlError { message: "boom".to_string() },
        ]),
    };
    match repository_from_envelope(failed) {
        Err(GraphQlFailure::Errors(m)) => assert_eq!(m, "rate limited; boom"),
        other => panic!("unexpected outcome {other:?}"),
    }
}

#[test]
fn a_null_repository_is_missing() {
    let missing: GraphQlEnvelope<RepoQueryData> =
        GraphQlEnvelope { data: Some(RepoQueryData { repository: None }), errors: None };
    assert!(matches!(repository_from_envelope(missing), Err(GraphQlFailure::Missing)));
    let empty: GraphQlEnvelope<RepoQueryData> = GraphQlEnvelope { data: None, errors: None };
    assert!(matches!(repository_from_envelope(empty), Err(GraphQlFailure::Missing)));
}

fn release(tag: &str) -> ReleaseNode {
    ReleaseNode { tag_name: Some(tag.to_string()), name: None, published_at: None }
}

fn page(tags: &[&str], has_next: bool, cursor: Option<&str>) -> GraphQlEnvelope<ReleasesQueryData> {
    GraphQlEnvelope {
        data: Some(ReleasesQueryData {
            repository: Some(RepositoryReleases {
                releases: Some(ReleasesConnection {
                    nodes: tags.iter().map(|t| release(t)).collect(),
                    page_info: PageInfo {
                        has_next_page: has_next,
                        end_cursor: cursor.map(|c| c.to_string()),
                    },
                }),
            }),
        }),
        errors: None,
    }
}

#[test]
fn release_pages_chain_by_cursor_and_keep_their_order() {
    let mut collected = Vec::new();
    match take_releases_page(&mut collected, page(&["v3", "v2"], true, Some("cursor-1"))) {
        PageStep::Next(c) => assert_eq!(c, "cursor-1"),
        other => panic!("unexpected step {other:?}"),
    }
    assert!(matches!(
        take_releases_page(&mut collected, page(&["v1"], false, None)),
        PageStep::Done
    ));
    let tags: Vec<_> = collected.iter().map(|r| r.tag_name.clone()).collect();
    assert_eq!(tags, vec![Some("v3".into()), Some("v2".into()), Some("v1".into())]);
}

#[test]
fn the_paging_loop_concatenates_pages_and_passes_each_cursor_on() {
    let paging = ReleasesPaging::start();
    assert_eq!(paging.after, None);
    let paging = match paging.take(page(&["v3", "v2"], true, Some("cursor-1"))) {
        PagingResult::More(p) => p,
        other => panic!("unexpected result {other:?}"),
    };
    assert_eq!(paging.after.as_deref(), Some("cursor-1"));
    let paging = match paging.take(page(&["v1"], true, Some("cursor-2"))) {
        PagingResult::More(p) => p,
        other => panic!("unexpected result {other:?}"),
    };
    assert_eq!(paging.after.as_deref(), Some("cursor-2"));
    match paging.take(page(&["v0"], false, None)) {
        PagingResult::Finished(all) => {
            let tags: Vec<_> = all.iter().map(|r| r.tag_name.clone().unwrap()).collect();
            assert_eq!(tags, vec!["v3", "v2", "v1", "v0"]);
        }
        other => panic!("unexpected result {other:?}"),
    }
}

#[test]
fn a_failing_release_page_gives_no_partial_list() {
    let paging = match ReleasesPaging::start().take(page(&["v3"], true, Some("c"))) {
        PagingResult::More(p) => p,
        other => panic!("unexpected result {other:?}"),
    };
    assert!(matches!(
        paging.take(page(&["v2"], true, None)),
        PagingResult::Failed(ReleasesFailure::MissingCursor)
    ));
}

#[test]
fn release_page_failures_leave_the_collected_releases_alone() {
    let mut collected = vec![release("v9")];
    assert!(matches!(
        take_releases_page(&mut collected, page(&["v8"], true, None)),
        PageStep::Failed(ReleasesFailure::MissingCursor)
    ));
    assert_eq!(collected.len(), 2);
    let missing: GraphQlEnvelope<ReleasesQueryData> =
        GraphQlEnvelope { data: Some(ReleasesQueryData { repository: None }), errors: None };
    assert!(matches!(
        take_releases_page(&mut collected, missing),
        PageStep::Failed(ReleasesFailure::MissingConnection)
    ));
    let errors: GraphQlEnvelope<ReleasesQueryData> = GraphQlEnvelope {
        data: None,
        errors: Some(vec![GraphQlError { message: "nope".to_string() }]),
    };
    match take_releases_page(&mut collected, errors) {
        PageStep::Failed(ReleasesFailure::Errors(m)) => assert_eq!(m, "nope"),
        other => panic!("unexpected step {other:?}"),
    }
    assert_eq!(collected.len(), 2);
}

#[test]
fn no_rate_limit_pause_without_both_headers_or_with_calls_left() {
    assert_eq!(throttle_pause_secs(&ResponseHeaders::none()), None);
    let mut headers = ResponseHeaders::none();
    headers.ratelimit_remaining = HeaderField::Text("4999".to_string());
    headers.ratelimit_reset = HeaderField::Text("99999999999".to_string());
    assert_eq!(throttle_pause_secs(&headers), None);
    headers.ratelimit_remaining = HeaderField::Text("1".to_string());
    assert_eq!(throttle_pause_secs(&headers), Some(900));
    headers.ratelimit_reset = HeaderField::Text("1".to_string());
    assert_eq!(throttle_pause_secs(&headers), None);
}

#[test]
fn a_failed_or_unreadable_release_response_ends_paging_with_no_releases() {
    let paging = match ReleasesPaging::start().take_response(200, Some(page(&["v3"], true, Some("c")))) {
        PagingResult::More(p) => p,
        other => panic!("unexpected result {other:?}"),
    };
    assert!(matches!(
        ReleasesPaging { collected: paging.collected, after: paging.after }.take_response(502, None),
        PagingResult::Failed(ReleasesFailure::Status(502))
    ));
    assert!(matches!(
        ReleasesPaging::start().take_response(200, None),
        PagingResult::Failed(ReleasesFailure::BodyNotJson)
    ));
}
