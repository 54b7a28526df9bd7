use ghlinks::classify::{canonicalize, classify, LinkKind};

#[test]
fn normalizes_common_repository_root_forms() {
    for url in [
        "https://github.com/Owner/Repo/",
        "http://www.github.com/Owner/Repo.git",
    ] {
        assert!(matches!(classify(url), LinkKind::RepoRoot { .. }));
    }
}

#[test]
fn does_not_misclassify_repository_subpages_as_roots() {
    assert!(matches!(
        classify("https://github.com/owner/repo/issues"),
        LinkKind::UnsupportedGithubUrl
    ));
}

#[test]
fn identifies_files_gists_and_pages() {
    assert!(matches!(
        classify("https://github.com/o/r/blob/main/src/lib.rs"),
        LinkKind::RepoFile { .. }
    ));
    assert!(matches!(
        classify("https://gist.github.com/o/abc123"),
        LinkKind::Gist { .. }
    ));
    assert!(matches!(
        classify("https://o.github.io/project"),
        LinkKind::PagesSite { .. }
    ));
}

#[test]
fn distinguishes_user_org_profile_from_genuinely_unknown() {
    assert!(matches!(
        classify("https://github.com/eugeneyan/"),
        LinkKind::UserOrOrgProfile { login } if login == "eugeneyan"
    ));
    assert!(matches!(
        classify("https://github.com/modelcontextprotocol"),
        LinkKind::UserOrOrgProfile { login } if login == "modelcontextprotocol"
    ));
    assert!(matches!(
        classify("https://github.blog/some/post/"),
        LinkKind::Unknown
    ));
}

#[test]
fn canonicalize_strips_query_fragment_git_suffix_and_trailing_slash() {
    assert_eq!(
        canonicalize("HTTPS://GitHub.com/Owner/Repo.git/?tab=readme#section"),
        Some("https://github.com/Owner/Repo".to_string())
    );
    assert_eq!(
        canonicalize("https://github.com/o/r/"),
        Some("https://github.com/o/r".to_string())
    );
}

#[test]
fn classify_ignores_query_string_and_fragment_on_repo_root_urls() {
    assert!(matches!(
        classify("https://github.com/owner/repo?tab=readme#readme"),
        LinkKind::RepoRoot { .. }
    ));
}

#[test]
fn trailing_dot_git_is_trimmed_even_when_repeated() {
    assert!(matches!(
        classify("https://github.com/owner/repo.git.git"),
        LinkKind::RepoRoot { repo, .. } if repo == "repo"
    ));
}

#[test]
fn dot_git_substring_in_the_middle_of_a_repo_name_is_left_alone() {
    assert!(matches!(
        classify("https://github.com/owner/my.github.repo"),
        LinkKind::RepoRoot { repo, .. } if repo == "my.github.repo"
    ));
}

#[test]
fn github_enterprise_style_custom_domains_are_unknown_not_repo_root() {
    assert!(matches!(
        classify("https://github.mycompany.com/owner/repo"),
        LinkKind::Unknown
    ));
}

#[test]
fn pages_candidates_can_duplicate_when_the_first_path_segment_matches_the_owner_repo() {
    if let LinkKind::PagesSite { candidates, .. } =
        classify("https://owner.github.io/owner.github.io")
    {
        assert_eq!(
            candidates,
            vec![
                ("owner".to_string(), "owner.github.io".to_string()),
                ("owner".to_string(), "owner.github.io".to_string()),
            ]
        );
    } else {
        panic!("expected a PagesSite classification");
    }
}

#[test]
fn blob_ref_names_containing_a_slash_are_misparsed_into_kind_repo_file() {
    let kind = classify("https://github.com/owner/repo/blob/feature/foo/src/lib.rs");
    assert!(matches!(
        kind,
        LinkKind::RepoFile { ref branch, ref path, .. }
            if branch == "feature" && path == "foo/src/lib.rs"
    ));
}

#[test]
fn percent_encoded_path_segments_are_preserved_not_decoded() {
    let kind = classify("https://github.com/owner/repo/blob/main/a%20file.rs");
    assert!(matches!(
        kind,
        LinkKind::RepoFile { ref path, .. } if path == "a%20file.rs"
    ));
}

// ---- further cases -------------------------------------------------------

#[test]
fn repo_root_fields_and_canonical_form_agree() {
    let url = "https://GitHub.com/Owner/Repo.git/";
    match classify(url) {
        LinkKind::RepoRoot { owner, repo } => {
            assert_eq!(owner, "Owner");
            assert_eq!(repo, "Repo");
            assert_eq!(
                canonicalize(url),
                Some(format!("https://github.com/{owner}/{repo}"))
            );
        }
        other => panic!("unexpected kind {other:?}"),
    }
}

#[test]
fn repo_file_canonical_form_keeps_blob_branch_and_path() {
    let url = "https://github.com/o/r.git/blob/main/src/lib.rs?plain=1";
    match classify(url) {
        LinkKind::RepoFile { owner, repo, branch, path } => {
            assert_eq!((owner.as_str(), repo.as_str()), ("o", "r"));
            assert_eq!((branch.as_str(), path.as_str()), ("main", "src/lib.rs"));
        }
        other => panic!("unexpected kind {other:?}"),
    }
    assert_eq!(
        canonicalize(url),
        Some("https://github.com/o/r/blob/main/src/lib.rs".to_string())
    );
}

#[test]
fn unparsable_urls_are_unknown_and_have_no_canonical_form() {
    assert!(matches!(classify("not a valid url at all"), LinkKind::Unknown));
    assert_eq!(canonicalize("not a valid url at all"), None);
}

#[test]
fn a_url_without_a_host_keeps_its_scheme_and_path() {
    assert!(matches!(classify("mailto:someone@example.com"), LinkKind::Unknown));
    assert_eq!(
        canonicalize("mailto:someone@example.com"),
        Some("mailto:someone@example.com".to_string())
    );
}

#[test]
fn an_out_of_scope_profile_url_still_has_a_canonical_form() {
    assert!(matches!(classify("https://github.com/octocat"), LinkKind::UserOrOrgProfile { .. }));
    assert_eq!(
        canonicalize("https://github.com/octocat"),
        Some("https://github.com/octocat".to_string())
    );
}

#[test]
fn host_only_urls_canonicalize_without_a_trailing_slash() {
    assert_eq!(
        canonicalize("https://Example.COM/"),
        Some("https://example.com".to_string())
    );
    assert!(matches!(classify("https://github.com/"), LinkKind::Unknown));
}

#[test]
fn a_repo_segment_that_is_only_dot_git_is_unknown() {
    assert!(matches!(classify("https://github.com/owner/.git"), LinkKind::Unknown));
}

#[test]
fn a_gist_needs_owner_and_id() {
    match classify("https://gist.github.com/octocat/abc123/raw") {
        LinkKind::Gist { owner, gist_id } => {
            assert_eq!(owner, "octocat");
            assert_eq!(gist_id, "abc123");
        }
        other => panic!("unexpected kind {other:?}"),
    }
    assert!(matches!(classify("https://gist.github.com/octocat"), LinkKind::Unknown));
}

#[test]
fn pages_sites_list_the_user_site_and_the_project_repo() {
    match classify("https://Owner.GitHub.io/project/docs/") {
        LinkKind::PagesSite { owner, path, candidates } => {
            assert_eq!(owner, "owner");
            assert_eq!(path, "project/docs");
            assert_eq!(
                candidates,
                vec![
                    ("owner".to_string(), "owner.github.io".to_string()),
                    ("owner".to_string(), "project".to_string()),
                ]
            );
        }
        other => panic!("unexpected kind {other:?}"),
    }
    match classify("https://owner.github.io/") {
        LinkKind::PagesSite { path, candidates, .. } => {
            assert_eq!(path, "");
            assert_eq!(candidates.len(), 1);
        }
        other => panic!("unexpected kind {other:?}"),
    }
}
