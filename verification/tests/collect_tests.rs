use ghlinks::classify::LinkKind;
use ghlinks::collect::{
    apply_releases, apply_releases_at, build_gist_data, build_repo_data, check_run_settings,
    count_link_kinds, describe_kind, parse_link_list, records_with_errors,
    select_pages_candidate_index,
};
use ghlinks::discovery::JsonValue;
use ghlinks::github::{
    CountWrapper, DefaultBranchRef, CommitTarget, GistOwner, GistResponse, LicenseInfo,
    NameWrapper, ReleaseNode, RepositoryNode, TopicName, TopicNode, TopicsConnection,
};
use ghlinks::link::LinkJob;

#[test]
fn releases_are_counted_from_all_supplied_pages_and_sampled_to_100() {
    let node = RepositoryNode {
        releases: Some(CountWrapper { total_count: Some(101) }),
        ..Default::default()
    };
    let mut repo = build_repo_data(&node);
    let releases: Vec<ReleaseNode> = (0..101)
        .map(|i| ReleaseNode {
            tag_name: Some(format!("v{i}")),
            name: None,
            published_at: Some("2026-08-01T00:00:00Z".to_string()),
        })
        .collect();
    apply_releases(&mut repo, &releases);
    assert_eq!(repo.releases_last_12_months, Some(101));
    assert_eq!(repo.recent_releases.len(), 100);
}

#[test]
fn invalid_or_old_release_dates_are_not_counted() {
    let node = RepositoryNode {
        releases: Some(CountWrapper { total_count: Some(2) }),
        ..Default::default()
    };
    let mut repo = build_repo_data(&node);
    apply_releases(
        &mut repo,
        &vec![
            ReleaseNode {
                tag_name: Some("old".into()),
                name: None,
                published_at: Some("2000-01-01T00:00:00Z".into()),
            },
            ReleaseNode {
                tag_name: Some("bad".into()),
                name: None,
                published_at: Some("not-a-date".into()),
            },
        ],
    );
    assert_eq!(repo.releases_last_12_months, Some(0));
}

#[test]
fn latest_release_reflects_the_first_recent_release_entry() {
    let node = RepositoryNode::default();
    let mut repo = build_repo_data(&node);
    apply_releases(
        &mut repo,
        &vec![ReleaseNode {
            tag_name: Some("v3".into()),
            name: Some("Three".into()),
            published_at: Some("2026-06-01T00:00:00Z".into()),
        }],
    );
    assert_eq!(repo.latest_release_tag.as_deref(), Some("v3"));
    assert_eq!(
        repo.latest_release_published_at.as_deref(),
        Some("2026-06-01T00:00:00Z")
    );
}

#[test]
fn build_gist_data_reads_owner_and_file_names_and_leaves_a_star_count_note() {
    let files = vec![
        (
            "a.py".to_string(),
            JsonValue::Object(vec![("filename".to_string(), JsonValue::String("a.py".into()))]),
        ),
        (
            "b.py".to_string(),
            JsonValue::Object(vec![("filename".to_string(), JsonValue::String("b.py".into()))]),
        ),
    ];
    let gist = GistResponse {
        description: Some("desc".into()),
        owner: Some(GistOwner { login: Some("octocat".into()) }),
        comments: Some(1),
        history: vec![JsonValue::Object(vec![]), JsonValue::Object(vec![])],
        files,
        ..Default::default()
    };
    let data = build_gist_data(&gist);
    assert_eq!(data.owner_login.as_deref(), Some("octocat"));
    assert_eq!(data.revision_count, Some(2));
    assert_eq!(data.files.len(), 2);
    assert!(data.note.unwrap().contains("star/fork counts"));
}

#[test]
fn user_or_org_profile_is_described_but_not_treated_as_a_repo() {
    let (kind_name, owner, repo, path) =
        describe_kind(&LinkKind::UserOrOrgProfile { login: "octocat".into() });
    assert_eq!(kind_name, "user_or_org_profile");
    assert_eq!(owner.as_deref(), Some("octocat"));
    assert!(repo.is_none());
    assert!(path.is_none());
}

#[test]
fn recent_releases_includes_entries_older_than_12_months_while_the_count_excludes_them() {
    let node = RepositoryNode::default();
    let mut repo = build_repo_data(&node);
    apply_releases(
        &mut repo,
        &vec![
            ReleaseNode {
                tag_name: Some("v2".into()),
                name: None,
                published_at: Some("2026-06-01T00:00:00Z".into()),
            },
            ReleaseNode {
                tag_name: Some("v1".into()),
                name: None,
                published_at: Some("2020-01-01T00:00:00Z".into()),
            },
        ],
    );
    assert_eq!(repo.recent_releases.len(), 2);
    assert_eq!(repo.recent_releases[1].tag_name.as_deref(), Some("v1"));
    assert_eq!(repo.releases_last_12_months, Some(1));
}

#[test]
fn select_pages_candidate_index_picks_the_first_existing_candidate() {
    assert_eq!(select_pages_candidate_index(&[false, false]), None);
    assert_eq!(select_pages_candidate_index(&[false, true]), Some(1));
    assert_eq!(select_pages_candidate_index(&[true, true]), Some(0));
    assert_eq!(select_pages_candidate_index(&[]), None);
    assert_eq!(select_pages_candidate_index(&[true]), Some(0));
}

// ---- further cases -------------------------------------------------------

#[test]
fn repo_data_reads_every_field_of_a_full_node() {
    let node = RepositoryNode {
        description: Some("desc".into()),
        homepage_url: Some("https://example.com".into()),
        license_info: Some(LicenseInfo { key: Some("mit".into()), name: Some("MIT License".into()) }),
        stargazer_count: Some(12),
        fork_count: Some(3),
        watchers: Some(CountWrapper { total_count: Some(4) }),
        open_issues: Some(CountWrapper { total_count: Some(1) }),
        closed_issues: Some(CountWrapper { total_count: Some(2) }),
        primary_language: Some(NameWrapper { name: Some("Rust".into()) }),
        created_at: Some("2026-01-01T00:00:00Z".into()),
        pushed_at: Some("2026-02-01T00:00:00Z".into()),
        default_branch_ref: Some(DefaultBranchRef {
            name: Some("main".into()),
            target: Some(CommitTarget { history: Some(CountWrapper { total_count: Some(99) }) }),
        }),
        repository_topics: Some(TopicsConnection {
            nodes: vec![
                TopicNode { topic: Some(TopicName { name: Some("cli".into()) }) },
                TopicNode { topic: None },
                TopicNode { topic: Some(TopicName { name: None }) },
                TopicNode { topic: Some(TopicName { name: Some("rust".into()) }) },
            ],
        }),
        releases: Some(CountWrapper { total_count: Some(5) }),
    };
    let d = build_repo_data(&node);
    assert_eq!(d.description.as_deref(), Some("desc"));
    assert_eq!(d.homepage.as_deref(), Some("https://example.com"));
    assert_eq!(d.license_key.as_deref(), Some("mit"));
    assert_eq!(d.license_name.as_deref(), Some("MIT License"));
    assert_eq!((d.stargazers_count, d.forks_count, d.watchers_count), (Some(12), Some(3), Some(4)));
    assert_eq!((d.open_issues_count, d.closed_issues_count), (Some(1), Some(2)));
    assert_eq!(d.primary_language.as_deref(), Some("Rust"));
    assert_eq!(d.default_branch.as_deref(), Some("main"));
    assert_eq!(d.commit_count_default_branch, Some(99));
    assert_eq!(d.topics, vec!["cli".to_string(), "rust".to_string()]);
    assert_eq!(d.releases_total_count, Some(5));
    assert!(d.languages_bytes.is_empty());
    assert_eq!(d.github_contributors_count, None);
    assert_eq!(
        d.github_contributors_count_semantics,
        "GitHub contributors endpoint entries; anon=true; not unique humans"
    );
    assert_eq!(d.releases_last_12_months, None);
    assert!(d.recent_releases.is_empty());
}

#[test]
fn the_release_window_is_365_days_before_now() {
    // 2026-01-01T00:00:00Z is 1767225600; 365 days earlier is 2025-01-01T00:00:00Z.
    let now = (1_767_225_600i64, 0u32);
    let mut repo = build_repo_data(&RepositoryNode::default());
    let at = |p: &str| ReleaseNode { tag_name: None, name: None, published_at: Some(p.into()) };
    apply_releases_at(
        &mut repo,
        &vec![
            at("2025-01-01T00:00:00Z"),
            at("2024-12-31T23:59:59Z"),
            at("2025-01-01T01:00:00+01:00"),
            at("2025-06-01T12:00:00.5Z"),
            ReleaseNode { tag_name: Some("undated".into()), name: None, published_at: None },
        ],
        now,
    );
    assert_eq!(repo.releases_last_12_months, Some(3));
    assert_eq!(repo.latest_release_tag, None);
    assert_eq!(repo.latest_release_published_at.as_deref(), Some("2025-01-01T00:00:00Z"));
    assert_eq!(repo.recent_releases.len(), 5);
}

#[test]
fn no_releases_means_no_latest_release() {
    let mut repo = build_repo_data(&RepositoryNode::default());
    apply_releases_at(&mut repo, &vec![], (0, 0));
    assert_eq!(repo.releases_last_12_months, Some(0));
    assert_eq!(repo.latest_release_tag, None);
    assert!(repo.recent_releases.is_empty());
}

#[test]
fn every_kind_is_described() {
    let d = describe_kind(&LinkKind::RepoRoot { owner: "o".into(), repo: "r".into() });
    assert_eq!(d, ("repo_root".into(), Some("o".into()), Some("r".into()), None));
    let d = describe_kind(&LinkKind::RepoFile {
        owner: "o".into(),
        repo: "r".into(),
        branch: "main".into(),
        path: "a/b.rs".into(),
    });
    assert_eq!(d, ("repo_file".into(), Some("o".into()), Some("r".into()), Some("a/b.rs".into())));
    let d = describe_kind(&LinkKind::Gist { owner: "o".into(), gist_id: "abc".into() });
    assert_eq!(d, ("gist".into(), Some("o".into()), Some("abc".into()), None));
    let d = describe_kind(&LinkKind::PagesSite {
        owner: "o".into(),
        path: "p".into(),
        candidates: vec![],
    });
    assert_eq!(d, ("pages_site".into(), Some("o".into()), None, Some("p".into())));
    let d = describe_kind(&LinkKind::UnsupportedGithubUrl);
    assert_eq!(d, ("unsupported_github_url".into(), None, None, None));
    let d = describe_kind(&LinkKind::Unknown);
    assert_eq!(d, ("unknown".into(), None, None, None));
}

#[test]
fn input_lists_skip_blank_and_comment_lines_and_trim() {
    let raw = "# my links\r\n  https://github.com/o/r  \r\n\n\t\nhttps://gist.github.com/o/x\n#https://github.com/skip/me\n";
    assert_eq!(
        parse_link_list(raw),
        vec!["https://github.com/o/r".to_string(), "https://gist.github.com/o/x".to_string()]
    );
    assert!(parse_link_list("").is_empty());
    assert_eq!(parse_link_list("a"), vec!["a".to_string()]);
}

#[test]
fn run_settings_must_all_be_positive() {
    assert_eq!(check_run_settings(3, 3, 30), Ok(()));
    assert_eq!(check_run_settings(0, 3, 30), Err("--concurrency must be at least 1"));
    assert_eq!(check_run_settings(3, 0, 30), Err("--max-retries must be at least 1"));
    assert_eq!(check_run_settings(3, 3, 0), Err("--timeout-secs must be at least 1"));
}

#[test]
fn run_aggregates_count_kinds_and_records_with_errors() {
    let record = |url: &str| {
        let (job, _) = LinkJob::new(url, true);
        job.into_record("0.0.0-test")
    };
    let records = vec![
        record("not a valid url at all"),
        record("https://github.com/owner/repo"),
        record("https://github.com/owner/repo2"),
        record("https://github.com/owner"),
    ];
    assert_eq!(records_with_errors(&records), 2);
    assert_eq!(
        count_link_kinds(&records),
        vec![
            ("unknown".to_string(), 1),
            ("repo_root".to_string(), 2),
            ("user_or_org_profile".to_string(), 1),
        ]
    );
}
