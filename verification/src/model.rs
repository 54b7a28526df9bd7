//! The `report.json` schema. These are the library's own types; the
//! serialized form (field names, nesting) is produced from them by the
//! program around the library. No field is computed from another at
//! construction time: the collection logic builds them.

use vstd::prelude::*;

use std::collections::BTreeMap;

verus! {

/// Bumped whenever the shape of the JSON this tool writes changes in a way
/// that could break a consumer. 2 is the wrapped
/// `{schema_version, run_summary, records}` shape.
pub const SCHEMA_VERSION: u32 = 2;

#[derive(Debug)]
pub struct ReleaseEntry {
    pub tag_name: Option<String>,
    pub name: Option<String>,
    pub published_at: Option<String>,
}

#[derive(Debug)]
pub struct RepoData {
    pub description: Option<String>,
    pub homepage: Option<String>,
    pub license_key: Option<String>,
    pub license_name: Option<String>,
    pub stargazers_count: Option<i64>,
    pub forks_count: Option<i64>,
    pub watchers_count: Option<i64>,
    pub open_issues_count: Option<i64>,
    pub closed_issues_count: Option<i64>,
    pub primary_language: Option<String>,
    pub languages_bytes: BTreeMap<String, i64>,
    pub created_at: Option<String>,
    pub pushed_at: Option<String>,
    pub default_branch: Option<String>,
    pub commit_count_default_branch: Option<i64>,
    pub topics: Vec<String>,
    pub github_contributors_count: Option<i64>,
    pub github_contributors_count_semantics: &'static str,
    pub releases_total_count: Option<i64>,
    /// Count of releases whose `published_at` falls within the last 365
    /// days of when this record was fetched; independent of
    /// `recent_releases`' ordering and bound.
    pub releases_last_12_months: Option<i64>,
    /// The `tag_name` of `recent_releases[0]`, i.e. the first entry in
    /// GitHub's `CREATED_AT DESC` release ordering.
    pub latest_release_tag: Option<String>,
    /// `published_at` of `recent_releases[0]`.
    pub latest_release_published_at: Option<String>,
    /// Up to 100 releases, in the order GitHub returned them: a bounded
    /// recent-release listing, not a 12-month subset.
    pub recent_releases: Vec<ReleaseEntry>,
}

#[derive(Debug)]
pub struct GistData {
    pub description: Option<String>,
    pub owner_login: Option<String>,
    pub created_at: Option<String>,
    pub updated_at: Option<String>,
    pub comments: Option<i64>,
    pub revision_count: Option<i64>,
    pub files: Vec<String>,
    pub note: Option<String>,
}

#[derive(Debug)]
pub struct ExternalMention {
    /// "hacker_news"
    pub source: String,
    pub title: String,
    pub url: String,
    pub score: Option<i64>,
    pub num_comments: Option<i64>,
    pub created_at: Option<String>,
}

/// Per-source discovery status, distinguishing "the search ran and found
/// nothing" (`"ok"` with a count of 0) from "the search failed"
/// (`"error"`, with the reason in the record's `fetch_errors`).
#[derive(Debug)]
pub struct ExternalDiscovery {
    pub skipped: bool,
    pub sources: Vec<&'static str>,
    pub coverage: &'static str,
    pub hacker_news_query: &'static str,
    /// "ok" | "error" | "skipped"
    pub hacker_news_status: &'static str,
    pub hacker_news_mention_count: usize,
}

#[derive(Debug)]
pub struct LinkRecord {
    pub input_url: String,
    /// Normalized form for cross-run comparison; `None` only when the URL
    /// could not be parsed (see `classify::canonicalize`).
    pub canonical_url: Option<String>,
    pub link_kind: String,
    pub owner: Option<String>,
    pub repo: Option<String>,
    pub file_path: Option<String>,
    pub repo_data: Option<RepoData>,
    pub gist_data: Option<GistData>,
    pub pages_candidates_checked: Vec<String>,
    pub pages_resolved_repo: Option<String>,
    pub external_mentions: Vec<ExternalMention>,
    pub external_discovery: ExternalDiscovery,
    pub fetch_errors: Vec<String>,
    pub fetched_at: String,
    pub collector_version: &'static str,
}

/// One run's provenance: which tool and API versions produced the report,
/// under what settings, with aggregate counts.
#[derive(Debug)]
pub struct RunSummary {
    pub ghlinks_version: &'static str,
    pub github_api_version: &'static str,
    pub hacker_news_api: String,
    pub reddit_note: &'static str,
    pub started_at: String,
    pub finished_at: String,
    pub input_file: String,
    pub total_urls: usize,
    pub link_kind_counts: BTreeMap<String, usize>,
    pub records_with_errors: usize,
    pub concurrency: usize,
    pub delay_ms: u64,
    pub timeout_secs: u64,
    pub max_retries: u32,
    pub skip_external: bool,
}

#[derive(Debug)]
pub struct Report {
    pub schema_version: u32,
    pub run_summary: RunSummary,
    pub records: Vec<LinkRecord>,
}

} // verus!
