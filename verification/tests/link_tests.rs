use ghlinks::github::{CountWrapper, GistOwner, GistResponse, ReleaseNode, RepositoryNode};
use ghlinks::discovery::JsonValue;
use ghlinks::link::{
    event_is_well_formed, now_rfc3339, timestamp_text, unresolved_pages_message, LinkAction,
    LinkEvent, LinkJob, LinkStep,
};
use ghlinks::retry::instant_of_reading;
use ghlinks::model::{ExternalMention, LinkRecord};
use std::collections::BTreeMap;

fn repo_node() -> RepositoryNode {
    RepositoryNode {
        description: Some("orchestration test repo".into()),
        releases: Some(CountWrapper { total_count: Some(0) }),
        ..Default::default()
    }
}

/// Answers every action the way the given closure says, counting pauses,
/// until the job finishes.
fn run(url: &str, skip_external: bool, mut answer: impl FnMut(&LinkAction) -> LinkEvent) -> (LinkRecord, Vec<String>, u32) {
    let (mut job, mut step) = LinkJob::new(url, skip_external);
    let mut actions = Vec::new();
    let mut pauses = 0;
    loop {
        let LinkStep { pauses: p, action } = step;
        pauses += p;
        if let LinkAction::Finish = action {
            break;
        }
        actions.push(format!("{action:?}"));
        let event = answer(&action);
        step = job.advance(event);
    }
    (job.into_record("0.0.0-test"), actions, pauses)
}

fn healthy_github(action: &LinkAction) -> LinkEvent {
    match action {
        LinkAction::QueryRepository { .. } => LinkEvent::Repository(Ok(repo_node())),
        LinkAction::QueryLanguages { .. } => LinkEvent::Languages(Ok(BTreeMap::new())),
        LinkAction::QueryContributors { .. } => LinkEvent::Contributors(Ok(Some(3))),
        LinkAction::QueryReleases { .. } => LinkEvent::Releases(Ok(vec![])),
        LinkAction::QueryGist { .. } => LinkEvent::Gist(Ok(GistResponse::default())),
        LinkAction::CheckRepoExists { .. } => LinkEvent::RepoExists(Ok(true)),
        LinkAction::SearchHackerNews { .. } => LinkEvent::HackerNews(Ok(vec![])),
        LinkAction::Finish => unreachable!(),
    }
}

#[test]
fn a_valid_repo_produces_a_record_with_no_errors() {
    let (record, actions, pauses) = run("https://github.com/owner/repo", true, healthy_github);
    assert!(record.fetch_errors.is_empty());
    assert_eq!(actions.len(), 4);
    assert_eq!(pauses, 4);
    let data = record.repo_data.unwrap();
    assert_eq!(data.description.as_deref(), Some("orchestration test repo"));
    assert_eq!(data.github_contributors_count, Some(3));
    assert_eq!(data.releases_last_12_months, Some(0));
    assert_eq!(record.link_kind, "repo_root");
    assert_eq!(record.external_discovery.hacker_news_status, "skipped");
    assert!(record.external_discovery.skipped);
    assert!(record.external_discovery.sources.is_empty());
    assert_eq!(record.collector_version, "0.0.0-test");
    assert!(!record.fetched_at.is_empty());
}

#[test]
fn a_failing_repo_api_call_still_produces_a_record_with_the_error_recorded() {
    let (record, actions, _) = run("https://github.com/owner/repo", true, |a| match a {
        LinkAction::QueryRepository { .. } => LinkEvent::Repository(Err("HTTP 500".into())),
        other => healthy_github(other),
    });
    assert!(record.repo_data.is_none());
    assert_eq!(actions.len(), 1, "no further repository calls after the GraphQL failure");
    assert_eq!(record.fetch_errors, vec!["graphql_repo: HTTP 500".to_string()]);
}

#[test]
fn failing_sub_calls_cost_only_their_own_fields() {
    let (record, actions, _) = run("https://github.com/owner/repo", true, |a| match a {
        LinkAction::QueryLanguages { .. } => LinkEvent::Languages(Err("l".into())),
        LinkAction::QueryContributors { .. } => LinkEvent::Contributors(Err("c".into())),
        LinkAction::QueryReleases { .. } => LinkEvent::Releases(Err("r".into())),
        other => healthy_github(other),
    });
    assert_eq!(actions.len(), 4);
    assert_eq!(
        record.fetch_errors,
        vec!["languages: l".to_string(), "contributors_count: c".to_string(), "releases: r".to_string()]
    );
    let data = record.repo_data.unwrap();
    assert_eq!(data.description.as_deref(), Some("orchestration test repo"));
    assert_eq!(data.releases_last_12_months, None);
}

#[test]
fn pages_first_candidate_existing_means_the_second_is_never_queried() {
    let (record, actions, _) = run("https://owner.github.io/somepage", true, healthy_github);
    assert_eq!(record.pages_resolved_repo.as_deref(), Some("owner/owner.github.io"));
    assert_eq!(record.pages_candidates_checked, vec!["owner/owner.github.io".to_string()]);
    assert!(actions[1].contains("QueryRepository"));
    assert!(actions[1].contains("owner.github.io"));
    assert!(record.fetch_errors.is_empty());
    assert!(record.repo_data.is_some());
}

#[test]
fn pages_second_candidate_is_resolved_when_the_first_is_missing() {
    let (record, _, _) = run("https://owner.github.io/somepage", true, |a| match a {
        LinkAction::CheckRepoExists { repo, .. } if repo == "owner.github.io" => {
            LinkEvent::RepoExists(Ok(false))
        }
        other => healthy_github(other),
    });
    assert_eq!(record.pages_resolved_repo.as_deref(), Some("owner/somepage"));
    assert_eq!(
        record.pages_candidates_checked,
        vec!["owner/owner.github.io".to_string(), "owner/somepage".to_string()]
    );
}

#[test]
fn pages_no_candidate_existing_leaves_it_unresolved_with_an_error() {
    let (record, actions, pauses) = run("https://owner.github.io/somepage", true, |a| match a {
        LinkAction::CheckRepoExists { repo, .. } if repo == "somepage" => {
            LinkEvent::RepoExists(Err("HTTP 403".into()))
        }
        LinkAction::CheckRepoExists { .. } => LinkEvent::RepoExists(Ok(false)),
        other => healthy_github(other),
    });
    assert!(record.pages_resolved_repo.is_none());
    assert_eq!(record.pages_candidates_checked.len(), 2);
    assert_eq!(actions.len(), 2);
    assert_eq!(pauses, 3);
    assert_eq!(
        record.fetch_errors,
        vec![
            "repo_exists(owner/somepage): HTTP 403".to_string(),
            "no candidate repo resolved automatically for this Pages site \
             https://owner.github.io/somepage; ruled out: owner/owner.github.io, owner/somepage; \
             manual lookup needed, e.g. a web search for \"https://owner.github.io/somepage\" \
             site:github.com"
                .to_string(),
        ]
    );
}

#[test]
fn pages_neither_candidate_existing_names_the_site_and_both_candidates() {
    let (record, actions, _) = run("https://owner.github.io/somepage", true, |a| match a {
        LinkAction::CheckRepoExists { .. } => LinkEvent::RepoExists(Ok(false)),
        other => healthy_github(other),
    });
    assert!(record.pages_resolved_repo.is_none());
    assert!(record.repo_data.is_none());
    assert_eq!(actions.len(), 2);
    assert_eq!(
        record.pages_candidates_checked,
        vec!["owner/owner.github.io".to_string(), "owner/somepage".to_string()]
    );
    assert_eq!(record.fetch_errors.len(), 1);
    let e = &record.fetch_errors[0];
    assert!(e.contains("no candidate repo resolved"));
    assert!(e.contains("https://owner.github.io/somepage"));
    assert!(e.contains("owner/owner.github.io"));
    assert!(e.contains("owner/somepage"));
    assert!(e.contains("site:github.com"));
}

#[test]
fn the_unresolved_pages_message_lists_what_was_ruled_out() {
    assert_eq!(
        unresolved_pages_message("https://a.github.io/", &vec!["a/a.github.io".to_string()]),
        "no candidate repo resolved automatically for this Pages site https://a.github.io/; \
         ruled out: a/a.github.io; manual lookup needed, e.g. a web search for \
         \"https://a.github.io/\" site:github.com"
    );
    assert_eq!(
        unresolved_pages_message("https://a.github.io/", &vec![]),
        "no candidate repo resolved automatically for this Pages site https://a.github.io/; \
         ruled out: none; manual lookup needed, e.g. a web search for \
         \"https://a.github.io/\" site:github.com"
    );
}

#[test]
fn only_well_formed_gist_events_pass_the_check() {
    let sorted = GistResponse {
        files: vec![("a.py".to_string(), JsonValue::Null), ("b.py".to_string(), JsonValue::Null)],
        ..Default::default()
    };
    assert!(event_is_well_formed(&LinkEvent::Gist(Ok(sorted))));
    let unsorted = GistResponse {
        files: vec![("b.py".to_string(), JsonValue::Null), ("a.py".to_string(), JsonValue::Null)],
        ..Default::default()
    };
    assert!(!event_is_well_formed(&LinkEvent::Gist(Ok(unsorted))));
    assert!(event_is_well_formed(&LinkEvent::Contributors(Ok(None))));
}

fn mention(title: &str) -> ExternalMention {
    ExternalMention {
        source: "hacker_news".into(),
        title: title.into(),
        url: "https://news.ycombinator.com/item?id=1".into(),
        score: Some(10),
        num_comments: Some(2),
        created_at: None,
    }
}

#[test]
fn hn_hit_is_collected_and_status_is_ok() {
    let (record, actions, _) = run("https://github.com/owner/repo", false, |a| match a {
        LinkAction::SearchHackerNews { url } => {
            assert_eq!(url, "https://github.com/owner/repo");
            LinkEvent::HackerNews(Ok(vec![mention("Show HN: ghlinks")]))
        }
        other => healthy_github(other),
    });
    assert_eq!(actions.len(), 5);
    assert_eq!(record.external_discovery.hacker_news_status, "ok");
    assert_eq!(record.external_discovery.sources, vec!["hacker_news"]);
    assert_eq!(record.external_mentions.len(), 1);
    assert_eq!(record.external_discovery.hacker_news_mention_count, 1);
    assert!(record.fetch_errors.is_empty());
}

#[test]
fn hn_zero_hits_is_ok_status_not_an_error() {
    let (record, _, _) = run("https://github.com/owner/repo", false, healthy_github);
    assert_eq!(record.external_discovery.hacker_news_status, "ok");
    assert_eq!(record.external_discovery.hacker_news_mention_count, 0);
    assert!(record.fetch_errors.is_empty());
}

#[test]
fn hn_failure_is_isolated_from_otherwise_successful_github_data() {
    let (record, _, _) = run("https://github.com/owner/repo", false, |a| match a {
        LinkAction::SearchHackerNews { .. } => LinkEvent::HackerNews(Err("Hacker News HTTP 503".into())),
        other => healthy_github(other),
    });
    assert_eq!(record.external_discovery.hacker_news_status, "error");
    assert!(record.fetch_errors.iter().any(|e| e.contains("hacker_news")));
    assert_eq!(
        record.repo_data.unwrap().description.as_deref(),
        Some("orchestration test repo")
    );
}

#[test]
fn out_of_scope_links_record_why_and_go_straight_to_discovery() {
    let (record, actions, pauses) = run("https://github.com/octocat", false, healthy_github);
    assert_eq!(actions.len(), 1);
    assert_eq!(pauses, 1);
    assert_eq!(record.link_kind, "user_or_org_profile");
    assert_eq!(record.owner.as_deref(), Some("octocat"));
    assert_eq!(
        record.fetch_errors,
        vec!["recognized as a GitHub user/organization profile page, not a repository; it was not collected".to_string()]
    );
    let (record, actions, _) = run("not a valid url at all", true, healthy_github);
    assert!(actions.is_empty());
    assert_eq!(record.link_kind, "unknown");
    assert_eq!(record.canonical_url, None);
    assert_eq!(
        record.fetch_errors,
        vec!["could not classify URL (unrecognized host/path shape)".to_string()]
    );
    let (record, _, _) = run("https://github.com/owner/repo/issues", true, healthy_github);
    assert_eq!(
        record.fetch_errors,
        vec!["recognized GitHub subpage is not a repository root or file link; it was not collected".to_string()]
    );
}

#[test]
fn gists_are_collected_with_their_own_query() {
    let (record, actions, _) = run("https://gist.github.com/octocat/abc123", true, |a| match a {
        LinkAction::QueryGist { gist_id } => {
            assert_eq!(gist_id, "abc123");
            LinkEvent::Gist(Ok(GistResponse {
                owner: Some(GistOwner { login: Some("octocat".into()) }),
                ..Default::default()
            }))
        }
        other => healthy_github(other),
    });
    assert_eq!(actions.len(), 1);
    assert_eq!(record.gist_data.unwrap().owner_login.as_deref(), Some("octocat"));
    let (record, _, _) = run("https://gist.github.com/octocat/abc123", true, |_| {
        LinkEvent::Gist(Err("Gist HTTP 404".into()))
    });
    assert!(record.gist_data.is_none());
    assert_eq!(record.fetch_errors, vec!["gist: Gist HTTP 404".to_string()]);
}

#[test]
fn an_outcome_for_another_action_changes_nothing() {
    let (mut job, _) = LinkJob::new("https://github.com/owner/repo", true);
    let step = job.advance(LinkEvent::HackerNews(Ok(vec![])));
    assert_eq!(step.pauses, 0);
    assert!(matches!(step.action, LinkAction::QueryRepository { .. }));
    assert!(job.errors.is_empty());
    let step = job.advance(LinkEvent::Repository(Ok(repo_node())));
    assert!(matches!(step.action, LinkAction::QueryLanguages { .. }));
    let releases = vec![ReleaseNode { tag_name: Some("v1".into()), name: None, published_at: None }];
    let step = job.advance(LinkEvent::Releases(Ok(releases)));
    assert!(matches!(step.action, LinkAction::QueryLanguages { .. }));
}

#[test]
fn one_failing_link_does_not_abort_the_rest_of_the_batch() {
    let urls = [
        "not a valid url at all",
        "https://github.com/owner/repo",
        "https://github.com/owner/repo2",
    ];
    let records: Vec<LinkRecord> =
        urls.iter().map(|u| run(u, true, healthy_github).0).collect();
    assert_eq!(records.len(), 3);
    assert_eq!(records.iter().filter(|r| r.link_kind == "unknown").count(), 1);
    assert_eq!(
        records
            .iter()
            .filter(|r| r.link_kind == "repo_root" && r.fetch_errors.is_empty())
            .count(),
        2
    );
}

#[test]
fn clock_readings_format_as_rfc3339_utc() {
    assert_eq!(timestamp_text(Some((0, 0))), "1970-01-01T00:00:00+00:00");
    assert_eq!(
        timestamp_text(Some((1_700_000_000, 500_000_000))),
        "2023-11-14T22:13:20.500+00:00"
    );
}

#[test]
fn a_clock_before_the_epoch_reads_as_the_epoch() {
    assert_eq!(instant_of_reading(None), (0, 0));
    assert_eq!(timestamp_text(None), "1970-01-01T00:00:00+00:00");
}

#[test]
fn an_instant_chrono_cannot_represent_gives_empty_text() {
    assert_eq!(instant_of_reading(Some((u64::MAX, 0))), (i64::MAX, 0));
    assert_eq!(timestamp_text(Some((u64::MAX, 0))), "");
}

#[test]
fn the_current_time_is_recent_rfc3339_text() {
    let now = now_rfc3339();
    assert!(now.starts_with("20"));
    assert!(now.ends_with("+00:00"));
}

#[test]
fn repository_calls_come_in_order_then_the_search() {
    let (record, actions, _) = run("https://github.com/owner/repo", false, healthy_github);
    let kinds: Vec<&str> = actions.iter().map(|a| a.split(' ').next().unwrap()).collect();
    assert_eq!(
        kinds,
        vec!["QueryRepository", "QueryLanguages", "QueryContributors", "QueryReleases", "SearchHackerNews"]
    );
    assert_eq!(record.external_discovery.hacker_news_status, "ok");
    assert_eq!(record.external_discovery.sources, vec!["hacker_news"]);
}
