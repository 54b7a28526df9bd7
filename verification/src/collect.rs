//! Building report records from API responses: the `RepoData` of a
//! repository, its release rollup, the `GistData` of a gist, the
//! description of a link kind, the Pages candidate-selection policy, the
//! run-level aggregates, and the reading of the input link list.

use vstd::prelude::*;

use std::collections::BTreeMap;

use crate::classify::{LinkKind, LinkKindView};
use crate::discovery::{keys_ordered, opt_view};
use crate::github::{GistResponse, ReleaseNode, RepositoryNode, TopicNode};
use crate::retry::current_instant;
use crate::model::{GistData, LinkRecord, ReleaseEntry, RepoData};
use crate::text::{
    chars_of, copy_str, split_chars, split_on, string_of, trim_bounds, trim_ws, views,
};

verus! {

/// A copy of an optional string.
pub fn clone_opt(o: &Option<String>) -> (r: Option<String>)
    ensures
        r == *o,
{
    match o {
        Some(s) => Some(s.clone()),
        None => None,
    }
}

// ---- describe_kind -------------------------------------------------------

/// The `link_kind` name, owner, repo and file path recorded for a kind.
pub open spec fn describe_spec(k: LinkKindView) -> (
    Seq<char>,
    Option<Seq<char>>,
    Option<Seq<char>>,
    Option<Seq<char>>,
) {
    match k {
        LinkKindView::RepoRoot { owner, repo } => ("repo_root"@, Some(owner), Some(repo), None),
        LinkKindView::RepoFile { owner, repo, path, .. } => (
            "repo_file"@,
            Some(owner),
            Some(repo),
            Some(path),
        ),
        LinkKindView::Gist { owner, gist_id } => ("gist"@, Some(owner), Some(gist_id), None),
        LinkKindView::PagesSite { owner, path, .. } => (
            "pages_site"@,
            Some(owner),
            None,
            Some(path),
        ),
        LinkKindView::UserOrOrgProfile { login } => (
            "user_or_org_profile"@,
            Some(login),
            None,
            None,
        ),
        LinkKindView::UnsupportedGithubUrl => ("unsupported_github_url"@, None, None, None),
        LinkKindView::Unknown => ("unknown"@, None, None, None),
    }
}

/// The `link_kind` name and the owner, repo and file path that a record
/// shows for a kind: a gist's id stands in the repo column, a Pages
/// site's path in the file column, a profile's login in the owner column.
pub fn describe_kind(kind: &LinkKind) -> (r: (String, Option<String>, Option<String>, Option<String>))
    ensures
        (r.0@, opt_view(r.1), opt_view(r.2), opt_view(r.3)) == describe_spec(kind@),
{
    match kind {
        LinkKind::RepoRoot { owner, repo } => (
            copy_str("repo_root"),
            Some(owner.clone()),
            Some(repo.clone()),
            None,
        ),
        LinkKind::RepoFile { owner, repo, path, .. } => (
            copy_str("repo_file"),
            Some(owner.clone()),
            Some(repo.clone()),
            Some(path.clone()),
        ),
        LinkKind::Gist { owner, gist_id } => (
            copy_str("gist"),
            Some(owner.clone()),
            Some(gist_id.clone()),
            None,
        ),
        LinkKind::PagesSite { owner, path, .. } => (
            copy_str("pages_site"),
            Some(owner.clone()),
            None,
            Some(path.clone()),
        ),
        LinkKind::UserOrOrgProfile { login } => (
            copy_str("user_or_org_profile"),
            Some(login.clone()),
            None,
            None,
        ),
        LinkKind::UnsupportedGithubUrl => (copy_str("unsupported_github_url"), None, None, None),
        LinkKind::Unknown => (copy_str("unknown"), None, None, None),
    }
}

// ---- build_repo_data -----------------------------------------------------

/// The names of the topics that have one, in order.
pub open spec fn named_topics(nodes: Seq<TopicNode>) -> Seq<Seq<char>>
    decreases nodes.len(),
{
    if nodes.len() == 0 {
        Seq::empty()
    } else {
        let rest = named_topics(nodes.drop_last());
        match nodes.last().topic {
            Some(t) => match t.name {
                Some(n) => rest.push(n@),
                None => rest,
            },
            None => rest,
        }
    }
}

/// How the reported contributor count is to be read: entries of the
/// contributors endpoint, anonymous ones included, not distinct people.
pub const GITHUB_CONTRIBUTORS_COUNT_SEMANTICS: &'static str =
    "GitHub contributors endpoint entries; anon=true; not unique humans";

/// Whether `d` holds the repository facts of `node` as `build_repo_data`
/// makes them.
pub open spec fn repo_data_of(d: RepoData, node: RepositoryNode) -> bool {
    &&& d.description == node.description
    &&& d.homepage == node.homepage_url
    &&& d.license_key == match node.license_info {
        Some(l) => l.key,
        None => None,
    }
    &&& d.license_name == match node.license_info {
        Some(l) => l.name,
        None => None,
    }
    &&& d.stargazers_count == node.stargazer_count
    &&& d.forks_count == node.fork_count
    &&& d.watchers_count == match node.watchers {
        Some(w) => w.total_count,
        None => None,
    }
    &&& d.open_issues_count == match node.open_issues {
        Some(w) => w.total_count,
        None => None,
    }
    &&& d.closed_issues_count == match node.closed_issues {
        Some(w) => w.total_count,
        None => None,
    }
    &&& d.primary_language == match node.primary_language {
        Some(l) => l.name,
        None => None,
    }
    &&& d.languages_bytes@ == Map::<String, i64>::empty()
    &&& d.created_at == node.created_at
    &&& d.pushed_at == node.pushed_at
    &&& d.default_branch == match node.default_branch_ref {
        Some(b) => b.name,
        None => None,
    }
    &&& d.commit_count_default_branch == match node.default_branch_ref {
        Some(b) => match b.target {
            Some(t) => match t.history {
                Some(h) => h.total_count,
                None => None,
            },
            None => None,
        },
        None => None,
    }
    &&& views(d.topics@) == match node.repository_topics {
        Some(t) => named_topics(t.nodes@),
        None => Seq::empty(),
    }
    &&& d.github_contributors_count is None
    &&& d.github_contributors_count_semantics == GITHUB_CONTRIBUTORS_COUNT_SEMANTICS
    &&& d.releases_total_count == match node.releases {
        Some(r) => r.total_count,
        None => None,
    }
    &&& d.releases_last_12_months is None
    &&& d.latest_release_tag is None
    &&& d.latest_release_published_at is None
    &&& d.recent_releases@.len() == 0
}

/// The repository facts of a GraphQL repository node: each field read as
/// the query returned it (absent stays absent), the topic names that
/// exist, no languages yet, and no contributor or release rollup yet.
pub fn build_repo_data(node: &RepositoryNode) -> (d: RepoData)
    ensures
        repo_data_of(d, *node),
        d.description == node.description,
        d.homepage == node.homepage_url,
        d.license_key == match node.license_info {
            Some(l) => l.key,
            None => None,
        },
        d.license_name == match node.license_info {
            Some(l) => l.name,
            None => None,
        },
        d.stargazers_count == node.stargazer_count,
        d.forks_count == node.fork_count,
        d.watchers_count == match node.watchers {
            Some(w) => w.total_count,
            None => None,
        },
        d.open_issues_count == match node.open_issues {
            Some(w) => w.total_count,
            None => None,
        },
        d.closed_issues_count == match node.closed_issues {
            Some(w) => w.total_count,
            None => None,
        },
        d.primary_language == match node.primary_language {
            Some(l) => l.name,
            None => None,
        },
        d.languages_bytes@ == Map::<String, i64>::empty(),
        d.created_at == node.created_at,
        d.pushed_at == node.pushed_at,
        d.default_branch == match node.default_branch_ref {
            Some(b) => b.name,
            None => None,
        },
        d.commit_count_default_branch == match node.default_branch_ref {
            Some(b) => match b.target {
                Some(t) => match t.history {
                    Some(h) => h.total_count,
                    None => None,
                },
                None => None,
            },
            None => None,
        },
        views(d.topics@) == match node.repository_topics {
            Some(t) => named_topics(t.nodes@),
            None => Seq::empty(),
        },
        d.github_contributors_count is None,
        d.github_contributors_count_semantics == GITHUB_CONTRIBUTORS_COUNT_SEMANTICS,
        d.releases_total_count == match node.releases {
            Some(r) => r.total_count,
            None => None,
        },
        d.releases_last_12_months is None,
        d.latest_release_tag is None,
        d.latest_release_published_at is None,
        d.recent_releases@.len() == 0,
{
    let (license_key, license_name) = match &node.license_info {
        Some(l) => (clone_opt(&l.key), clone_opt(&l.name)),
        None => (None, None),
    };
    let (default_branch, commit_count_default_branch) = match &node.default_branch_ref {
        Some(b) => (
            clone_opt(&b.name),
            match &b.target {
                Some(t) => match &t.history {
                    Some(h) => h.total_count,
                    None => None,
                },
                None => None,
            },
        ),
        None => (None, None),
    };
    let topics = match &node.repository_topics {
        Some(t) => topic_names(&t.nodes),
        None => {
            let v: Vec<String> = Vec::new();
            assert(views(v@) =~= Seq::<Seq<char>>::empty());
            v
        },
    };
    RepoData {
        description: clone_opt(&node.description),
        homepage: clone_opt(&node.homepage_url),
        license_key,
        license_name,
        stargazers_count: node.stargazer_count,
        forks_count: node.fork_count,
        watchers_count: match &node.watchers {
            Some(w) => w.total_count,
            None => None,
        },
        open_issues_count: match &node.open_issues {
            Some(w) => w.total_count,
            None => None,
        },
        closed_issues_count: match &node.closed_issues {
            Some(w) => w.total_count,
            None => None,
        },
        primary_language: match &node.primary_language {
            Some(l) => clone_opt(&l.name),
            None => None,
        },
        languages_bytes: BTreeMap::new(),
        created_at: clone_opt(&node.created_at),
        pushed_at: clone_opt(&node.pushed_at),
        default_branch,
        commit_count_default_branch,
        topics,
        github_contributors_count: None,
        github_contributors_count_semantics: GITHUB_CONTRIBUTORS_COUNT_SEMANTICS,
        releases_total_count: match &node.releases {
            Some(r) => r.total_count,
            None => None,
        },
        releases_last_12_months: None,
        latest_release_tag: None,
        latest_release_published_at: None,
        recent_releases: Vec::new(),
    }
}

/// The topic names of `nodes` that exist, in order.
fn topic_names(nodes: &Vec<TopicNode>) -> (r: Vec<String>)
    ensures
        views(r@) == named_topics(nodes@),
{
    let mut r: Vec<String> = Vec::new();
    let mut i: usize = 0;
    while i < nodes.len()
        invariant
            i <= nodes@.len(),
            views(r@) == named_topics(nodes@.subrange(0, i as int)),
        decreases nodes@.len() - i,
    {
        let ghost next = nodes@.subrange(0, i as int + 1);
        assert(next.drop_last() =~= nodes@.subrange(0, i as int));
        match &nodes[i].topic {
            Some(t) => match &t.name {
                Some(n) => {
                    r.push(n.clone());
                    assert(views(r@) =~= named_topics(next));
                },
                None => {},
            },
            None => {},
        }
        i = i + 1;
    }
    assert(nodes@.subrange(0, nodes@.len() as int) =~= nodes@);
    r
}

// ---- apply_releases -------------------------------------------------------

/// What `chrono::DateTime::parse_from_rfc3339` makes of a string: `None`
/// where it refuses it, else the instant as Unix seconds and the
/// sub-second nanoseconds.
pub uninterp spec fn rfc3339_instant(text: Seq<char>) -> Option<(i64, u32)>;

/// Calls `chrono::DateTime::parse_from_rfc3339` and reads the parsed
/// instant's `timestamp()` and `timestamp_subsec_nanos()`. The contract
/// claims only that the outcome is a function of the text
/// (`rfc3339_instant`); RFC 3339 syntax is chrono's own work.
#[verifier::external_body]
fn parse_rfc3339(text: &str) -> (r: Option<(i64, u32)>)
    ensures
        r == rfc3339_instant(text@),
{
    chrono::DateTime::parse_from_rfc3339(text).ok().map(
        |d| (d.timestamp(), d.timestamp_subsec_nanos()),
    )
}

/// Seconds in the 365 days that make up the release window.
pub const RELEASE_WINDOW_SECS: i64 = 31_536_000;

/// Whether a release was published at or after the instant
/// `(cutoff_secs, cutoff_nanos)`; a missing or unparsable date is not.
pub open spec fn published_since(r: ReleaseNode, cutoff_secs: int, cutoff_nanos: u32) -> bool {
    match r.published_at {
        Some(p) => match rfc3339_instant(p@) {
            Some(t) => t.0 > cutoff_secs || (t.0 == cutoff_secs && t.1 >= cutoff_nanos),
            None => false,
        },
        None => false,
    }
}

/// How many of `releases` were published at or after the cutoff.
pub open spec fn count_published_since(
    releases: Seq<ReleaseNode>,
    cutoff_secs: int,
    cutoff_nanos: u32,
) -> nat
    decreases releases.len(),
{
    if releases.len() == 0 {
        0
    } else {
        count_published_since(releases.drop_last(), cutoff_secs, cutoff_nanos) + if published_since(
            releases.last(),
            cutoff_secs,
            cutoff_nanos,
        ) {
            1nat
        } else {
            0nat
        }
    }
}

/// Whether `e` lists the same release as `n`.
pub open spec fn entry_of(e: ReleaseEntry, n: ReleaseNode) -> bool {
    e.tag_name == n.tag_name && e.name == n.name && e.published_at == n.published_at
}

/// The release rollup of `repo` from `releases` (in GitHub's order), as of
/// the instant `now`: the count of releases published in the 365 days
/// before `now` (every release counted, however many pages); the first 100
/// releases as the recent listing; the latest tag and date from the first
/// release. Every other field is left as it was.
pub open spec fn releases_applied(
    old_repo: RepoData,
    new_repo: RepoData,
    releases: Seq<ReleaseNode>,
    now: (i64, u32),
) -> bool {
    let shown = if releases.len() < 100 { releases.len() } else { 100 };
    &&& new_repo.releases_last_12_months == Some(
        count_published_since(releases, now.0 - RELEASE_WINDOW_SECS, now.1) as i64,
    )
    &&& new_repo.recent_releases@.len() == shown
    &&& forall|i: int|
        0 <= i < shown ==> entry_of(#[trigger] new_repo.recent_releases@[i], releases[i])
    &&& new_repo.latest_release_tag == if releases.len() > 0 {
        releases[0].tag_name
    } else {
        None
    }
    &&& new_repo.latest_release_published_at == if releases.len() > 0 {
        releases[0].published_at
    } else {
        None
    }
    &&& new_repo.description == old_repo.description
    &&& new_repo.homepage == old_repo.homepage
    &&& new_repo.license_key == old_repo.license_key
    &&& new_repo.license_name == old_repo.license_name
    &&& new_repo.stargazers_count == old_repo.stargazers_count
    &&& new_repo.forks_count == old_repo.forks_count
    &&& new_repo.watchers_count == old_repo.watchers_count
    &&& new_repo.open_issues_count == old_repo.open_issues_count
    &&& new_repo.closed_issues_count == old_repo.closed_issues_count
    &&& new_repo.primary_language == old_repo.primary_language
    &&& new_repo.languages_bytes == old_repo.languages_bytes
    &&& new_repo.created_at == old_repo.created_at
    &&& new_repo.pushed_at == old_repo.pushed_at
    &&& new_repo.default_branch == old_repo.default_branch
    &&& new_repo.commit_count_default_branch == old_repo.commit_count_default_branch
    &&& new_repo.topics == old_repo.topics
    &&& new_repo.github_contributors_count == old_repo.github_contributors_count
    &&& new_repo.github_contributors_count_semantics == old_repo.github_contributors_count_semantics
    &&& new_repo.releases_total_count == old_repo.releases_total_count
}

/// Applies the release rollup as of the instant `now` (Unix seconds and
/// nanoseconds).
pub fn apply_releases_at(repo: &mut RepoData, releases: &Vec<ReleaseNode>, now: (i64, u32))
    ensures
        releases_applied(*old(repo), *final(repo), releases@, now),
{
    let cutoff_secs: i128 = now.0 as i128 - RELEASE_WINDOW_SECS as i128;
    let cutoff_nanos: u32 = now.1;
    let mut count: usize = 0;
    let mut i: usize = 0;
    while i < releases.len()
        invariant
            i <= releases@.len(),
            count <= i,
            count == count_published_since(
                releases@.subrange(0, i as int),
                cutoff_secs as int,
                cutoff_nanos,
            ),
        decreases releases@.len() - i,
    {
        let ghost next = releases@.subrange(0, i as int + 1);
        assert(next.drop_last() =~= releases@.subrange(0, i as int));
        let recent = match &releases[i].published_at {
            Some(p) => match parse_rfc3339(p.as_str()) {
                Some((secs, nanos)) => (secs as i128) > cutoff_secs || ((secs as i128)
                    == cutoff_secs && nanos >= cutoff_nanos),
                None => false,
            },
            None => false,
        };
        if recent {
            count = count + 1;
        }
        i = i + 1;
    }
    assert(releases@.subrange(0, releases@.len() as int) =~= releases@);
    let shown: usize = if releases.len() < 100 {
        releases.len()
    } else {
        100
    };
    let mut entries: Vec<ReleaseEntry> = Vec::new();
    let mut j: usize = 0;
    while j < shown
        invariant
            shown <= releases@.len(),
            j <= shown,
            entries@.len() == j,
            forall|k: int| 0 <= k < j ==> entry_of(#[trigger] entries@[k], releases@[k]),
        decreases shown - j,
    {
        let r = &releases[j];
        entries.push(
            ReleaseEntry {
                tag_name: clone_opt(&r.tag_name),
                name: clone_opt(&r.name),
                published_at: clone_opt(&r.published_at),
            },
        );
        j = j + 1;
    }
    let (latest_tag, latest_published) = if releases.len() > 0 {
        (clone_opt(&releases[0].tag_name), clone_opt(&releases[0].published_at))
    } else {
        (None, None)
    };
    repo.releases_last_12_months = Some(count as i64);
    repo.recent_releases = entries;
    repo.latest_release_tag = latest_tag;
    repo.latest_release_published_at = latest_published;
}

/// Applies the release rollup as of the current time (read here from the
/// system clock; a clock before the epoch counts as the epoch).
pub fn apply_releases(repo: &mut RepoData, releases: &Vec<ReleaseNode>)
    ensures
        exists|now: (i64, u32)|
            now.0 >= 0 && now.1 < 1_000_000_000 && releases_applied(
                *old(repo),
                *final(repo),
                releases@,
                now,
            ),
{
    let now = current_instant();
    apply_releases_at(repo, releases, now);
}

// ---- build_gist_data ------------------------------------------------------

/// The note that every gist record carries.
pub const GIST_COUNTS_NOTE: &'static str =
    "GitHub's REST API does not expose gist star/fork counts; read those from the gist's HTML page if needed.";

/// Whether `d` holds the gist facts of `g` as `build_gist_data` makes them.
pub open spec fn gist_data_of(d: GistData, g: GistResponse) -> bool {
    &&& d.description == g.description
    &&& d.owner_login == match g.owner {
        Some(o) => o.login,
        None => None,
    }
    &&& d.created_at == g.created_at
    &&& d.updated_at == g.updated_at
    &&& d.comments == g.comments
    &&& d.revision_count == Some(g.history@.len() as i64)
    &&& views(d.files@) == g.files@.map_values(|f: (String, crate::discovery::JsonValue)| f.0@)
    &&& opt_view(d.note) == Some(GIST_COUNTS_NOTE@)
}

/// A gist record copies each response field into the field of the same
/// name (the creation date stays the creation date, the update date the
/// update date), counts the revisions, and lists every file name in order.
pub proof fn lemma_gist_record_copies_its_fields(d: GistData, g: GistResponse)
    requires
        gist_data_of(d, g),
    ensures
        d.description == g.description,
        d.created_at == g.created_at,
        d.updated_at == g.updated_at,
        d.comments == g.comments,
        d.revision_count == Some(g.history@.len() as i64),
        d.files@.len() == g.files@.len(),
        forall|i: int| 0 <= i < g.files@.len() ==> (#[trigger] d.files@[i])@ == g.files@[i].0@,
{
    let names = g.files@.map_values(|f: (String, crate::discovery::JsonValue)| f.0@);
    assert(views(d.files@).len() == d.files@.len());
    assert(names.len() == g.files@.len());
    assert forall|i: int| 0 <= i < g.files@.len() implies (#[trigger] d.files@[i])@
        == g.files@[i].0@ by {
        assert(views(d.files@)[i] == d.files@[i]@);
        assert(names[i] == g.files@[i].0@);
    }
}

/// The gist facts of a gist response: its fields as returned, the number
/// of revisions, the file names in order, and the note that star and fork
/// counts are not available.
pub fn build_gist_data(g: &GistResponse) -> (d: GistData)
    requires
        keys_ordered(g.files@),
    ensures
        gist_data_of(d, *g),
        d.description == g.description,
        d.owner_login == match g.owner {
            Some(o) => o.login,
            None => None,
        },
        d.created_at == g.created_at,
        d.updated_at == g.updated_at,
        d.comments == g.comments,
        d.revision_count == Some(g.history@.len() as i64),
        d.files@.len() == g.files@.len(),
        forall|i: int| 0 <= i < g.files@.len() ==> (#[trigger] d.files@[i])@ == g.files@[i].0@,
{
    let mut files: Vec<String> = Vec::new();
    let mut i: usize = 0;
    while i < g.files.len()
        invariant
            i <= g.files@.len(),
            files@.len() == i,
            forall|k: int| 0 <= k < i ==> (#[trigger] files@[k])@ == g.files@[k].0@,
        decreases g.files@.len() - i,
    {
        files.push(g.files[i].0.clone());
        i = i + 1;
    }
    assert(views(files@) =~= g.files@.map_values(
        |f: (String, crate::discovery::JsonValue)| f.0@,
    ));
    GistData {
        description: clone_opt(&g.description),
        owner_login: match &g.owner {
            Some(o) => clone_opt(&o.login),
            None => None,
        },
        created_at: clone_opt(&g.created_at),
        updated_at: clone_opt(&g.updated_at),
        comments: g.comments,
        revision_count: Some(g.history.len() as i64),
        files,
        note: Some(copy_str(GIST_COUNTS_NOTE)),
    }
}

// ---- Pages candidate selection ---------------------------------------------

/// The Pages candidate-selection policy: given each candidate's existence
/// result in the order they were checked, the index of the first existing
/// candidate, or `None` if none exists.
pub fn select_pages_candidate_index(existence_results: &[bool]) -> (r: Option<usize>)
    ensures
        match r {
            Some(i) => i < existence_results@.len() && existence_results@[i as int] && forall|
                j: int,
            |
                0 <= j < i ==> !existence_results@[j],
            None => forall|j: int|
                0 <= j < existence_results@.len() ==> !existence_results@[j],
        },
{
    let mut i: usize = 0;
    while i < existence_results.len()
        invariant
            i <= existence_results@.len(),
            forall|j: int| 0 <= j < i ==> !existence_results@[j],
        decreases existence_results@.len() - i,
    {
        if existence_results[i] {
            return Some(i);
        }
        i = i + 1;
    }
    None
}

// ---- Run aggregates ---------------------------------------------------------

/// How many records carry at least one fetch error.
pub open spec fn count_with_errors(records: Seq<LinkRecord>) -> nat
    decreases records.len(),
{
    if records.len() == 0 {
        0
    } else {
        count_with_errors(records.drop_last()) + if records.last().fetch_errors@.len() > 0 {
            1nat
        } else {
            0nat
        }
    }
}

/// The records counted as having errors are exactly those with a
/// non-empty `fetch_errors`: a run whose records all have none counts 0,
/// and each record with at least one error adds one.
pub proof fn lemma_errors_counted_are_the_failed_records(records: Seq<LinkRecord>)
    ensures
        count_with_errors(records) == records.filter(
            |r: LinkRecord| r.fetch_errors@.len() > 0,
        ).len(),
        (forall|i: int| 0 <= i < records.len() ==> (#[trigger] records[i]).fetch_errors@.len() == 0)
            ==> count_with_errors(records) == 0,
    decreases records.len(),
{
    reveal(Seq::filter);
    let pred = |r: LinkRecord| r.fetch_errors@.len() > 0;
    if records.len() > 0 {
        lemma_errors_counted_are_the_failed_records(records.drop_last());
        if forall|i: int| 0 <= i < records.len() ==> (#[trigger] records[i]).fetch_errors@.len()
            == 0 {
            assert forall|i: int| 0 <= i < records.drop_last().len() implies (
            #[trigger] records.drop_last()[i]).fetch_errors@.len() == 0 by {
                assert(records.drop_last()[i] == records[i]);
            }
            assert(records.last() == records[records.len() - 1]);
        }
    }
}

/// The number of records with at least one fetch error.
pub fn records_with_errors(records: &Vec<LinkRecord>) -> (n: usize)
    ensures
        n == count_with_errors(records@),
        n == records@.filter(|r: LinkRecord| r.fetch_errors@.len() > 0).len(),
{
    proof {
        lemma_errors_counted_are_the_failed_records(records@);
    }
    let mut n: usize = 0;
    let mut i: usize = 0;
    while i < records.len()
        invariant
            i <= records@.len(),
            n <= i,
            n == count_with_errors(records@.subrange(0, i as int)),
        decreases records@.len() - i,
    {
        assert(records@.subrange(0, i as int + 1).drop_last() =~= records@.subrange(0, i as int));
        if records[i].fetch_errors.len() > 0 {
            n = n + 1;
        }
        i = i + 1;
    }
    assert(records@.subrange(0, records@.len() as int) =~= records@);
    n
}

/// How many of `kinds` equal `k`.
pub open spec fn occurrences(kinds: Seq<Seq<char>>, k: Seq<char>) -> nat
    decreases kinds.len(),
{
    if kinds.len() == 0 {
        0
    } else {
        occurrences(kinds.drop_last(), k) + if kinds.last() == k {
            1nat
        } else {
            0nat
        }
    }
}

/// The `link_kind` of each record.
pub open spec fn record_kinds(records: Seq<LinkRecord>) -> Seq<Seq<char>> {
    records.map_values(|r: LinkRecord| r.link_kind@)
}

/// Whether some record is of kind `k`.
pub open spec fn kind_occurs(records: Seq<LinkRecord>, k: Seq<char>) -> bool {
    exists|i: int| 0 <= i < records.len() && (#[trigger] records[i]).link_kind@ == k
}

/// Per-kind record counts: each kind that occurs once, in order of first
/// occurrence, with the number of records of that kind.
pub fn count_link_kinds(records: &Vec<LinkRecord>) -> (counts: Vec<(String, usize)>)
    ensures
        forall|a: int, b: int|
            0 <= a < b < counts@.len() ==> counts@[a].0@ != counts@[b].0@,
        forall|a: int|
            0 <= a < counts@.len() ==> counts@[a].1 == occurrences(
                record_kinds(records@),
                #[trigger] counts@[a].0@,
            ),
        forall|i: int|
            0 <= i < records@.len() ==> exists|a: int|
                0 <= a < counts@.len() && #[trigger] counts@[a].0@ == (#[trigger] records@[i]).link_kind@,
        forall|a: int| 0 <= a < counts@.len() ==> kind_occurs(records@, #[trigger] counts@[a].0@),
        forall|a: int|
            0 <= a < counts@.len() ==> #[trigger] counts@[a].1 == records@.filter(
                |r: LinkRecord| r.link_kind@ == counts@[a].0@,
            ).len(),
{
    let mut counts: Vec<(String, usize)> = Vec::new();
    let mut i: usize = 0;
    while i < records.len()
        invariant
            i <= records@.len(),
            forall|a: int, b: int|
                0 <= a < b < counts@.len() ==> counts@[a].0@ != counts@[b].0@,
            forall|a: int|
                0 <= a < counts@.len() ==> counts@[a].1 == occurrences(
                    record_kinds(records@.subrange(0, i as int)),
                    #[trigger] counts@[a].0@,
                ),
            forall|a: int|
                0 <= a < counts@.len() ==> counts@[a].1 <= i,
            forall|j: int|
                0 <= j < i ==> exists|a: int|
                    0 <= a < counts@.len() && #[trigger] counts@[a].0@ == (
                    #[trigger] records@[j]).link_kind@,
            forall|a: int| 0 <= a < counts@.len() ==> #[trigger] counts@[a].1 >= 1,
        decreases records@.len() - i,
    {
        let ghost before = record_kinds(records@.subrange(0, i as int));
        let ghost after = record_kinds(records@.subrange(0, i as int + 1));
        let kind = &records[i].link_kind;
        assert(after.drop_last() =~= before);
        assert(after.last() == kind@);
        let found_at = find_count(&counts, kind);
        let found: usize = match found_at {
            Some(a) => a,
            None => counts.len(),
        };
        let ghost old_counts = counts@;
        if found < counts.len() {
            let name = counts[found].0.clone();
            let n = counts[found].1;
            assert(name@ == old_counts[found as int].0@);
            counts.set(found, (name, n + 1));
            assert forall|b: int| 0 <= b < counts@.len() implies counts@[b].1 == occurrences(
                after,
                #[trigger] counts@[b].0@,
            ) by {
                assert(occurrences(after, counts@[b].0@) == occurrences(before, counts@[b].0@) + if kind@
                    == counts@[b].0@ {
                    1nat
                } else {
                    0nat
                });
                if b != found {
                    assert(counts@[b] == old_counts[b]);
                    assert(old_counts[b].0@ != old_counts[found as int].0@);
                }
            }
        } else {
            counts.push((kind.clone(), 1));
            assert forall|j: int| 0 <= j < before.len() implies before[j] != kind@ by {
                assert(before[j] == records@[j].link_kind@);
                let a0 = choose|a: int|
                    0 <= a < old_counts.len() && #[trigger] old_counts[a].0@ == (
                    #[trigger] records@[j]).link_kind@;
                assert(old_counts[a0].0@ != kind@);
            }
            proof {
                lemma_occurrences_absent(before, kind@);
            }
            assert forall|b: int| 0 <= b < counts@.len() implies counts@[b].1 == occurrences(
                after,
                #[trigger] counts@[b].0@,
            ) by {
                assert(occurrences(after, counts@[b].0@) == occurrences(before, counts@[b].0@) + if kind@
                    == counts@[b].0@ {
                    1nat
                } else {
                    0nat
                });
                if b < old_counts.len() {
                    assert(counts@[b] == old_counts[b]);
                }
            }
        }
        assert forall|j: int| 0 <= j < i + 1 implies exists|a: int|
            0 <= a < counts@.len() && #[trigger] counts@[a].0@ == (
            #[trigger] records@[j]).link_kind@ by {
            if j < i {
                let a0 = choose|a: int|
                    0 <= a < old_counts.len() && #[trigger] old_counts[a].0@ == records@[j].link_kind@;
                assert(counts@[a0].0@ == old_counts[a0].0@);
            } else if found < old_counts.len() {
                assert(counts@[found as int].0@ == records@[j].link_kind@);
            } else {
                assert(counts@[old_counts.len() as int].0@ == records@[j].link_kind@);
            }
        }
        i = i + 1;
    }
    assert(records@.subrange(0, records@.len() as int) =~= records@);
    assert forall|a: int| 0 <= a < counts@.len() implies #[trigger] counts@[a].1 == records@.filter(
        |r: LinkRecord| r.link_kind@ == counts@[a].0@,
    ).len() by {
        let k = counts@[a].0@;
        lemma_occurrences_are_the_records_of_that_kind(records@, k);
        assert(record_kinds(records@.subrange(0, records@.len() as int)) == record_kinds(records@));
        assert(counts@[a].1 == occurrences(record_kinds(records@), k));
        assert((|r: LinkRecord| r.link_kind@ == k) =~= (|r: LinkRecord| r.link_kind@
            == counts@[a].0@));
    }
    proof {
        let kinds = record_kinds(records@);
        assert forall|a: int| 0 <= a < counts@.len() implies kind_occurs(
            records@,
            #[trigger] counts@[a].0@,
        ) by {
            assert(counts@[a].1 >= 1);
            assert(counts@[a].1 == occurrences(kinds, counts@[a].0@));
            lemma_occurrences_present(kinds, counts@[a].0@);
            let j = choose|j: int| 0 <= j < kinds.len() && kinds[j] == counts@[a].0@;
            assert(records@[j].link_kind@ == counts@[a].0@);
        }
    }
    counts
}

/// The number of occurrences of a kind is the number of records of that
/// kind.
pub proof fn lemma_occurrences_are_the_records_of_that_kind(records: Seq<LinkRecord>, k: Seq<char>)
    ensures
        occurrences(record_kinds(records), k) == records.filter(
            |r: LinkRecord| r.link_kind@ == k,
        ).len(),
    decreases records.len(),
{
    reveal(Seq::filter);
    if records.len() > 0 {
        lemma_occurrences_are_the_records_of_that_kind(records.drop_last(), k);
        assert(record_kinds(records).drop_last() =~= record_kinds(records.drop_last()));
        assert(record_kinds(records).last() == records.last().link_kind@);
    }
}

/// A kind that occurs at least once equals some element.
proof fn lemma_occurrences_present(kinds: Seq<Seq<char>>, k: Seq<char>)
    requires
        occurrences(kinds, k) > 0,
    ensures
        exists|j: int| 0 <= j < kinds.len() && kinds[j] == k,
    decreases kinds.len(),
{
    if kinds.last() == k {
        assert(kinds[kinds.len() - 1] == k);
    } else {
        lemma_occurrences_present(kinds.drop_last(), k);
        let j = choose|j: int| 0 <= j < kinds.drop_last().len() && kinds.drop_last()[j] == k;
        assert(kinds[j] == k);
    }
}

/// A kind that no element equals occurs zero times.
proof fn lemma_occurrences_absent(kinds: Seq<Seq<char>>, k: Seq<char>)
    requires
        forall|j: int| 0 <= j < kinds.len() ==> kinds[j] != k,
    ensures
        occurrences(kinds, k) == 0,
    decreases kinds.len(),
{
    if kinds.len() > 0 {
        lemma_occurrences_absent(kinds.drop_last(), k);
    }
}

/// The position of `kind` among the counts, if it has one.
fn find_count(counts: &Vec<(String, usize)>, kind: &String) -> (r: Option<usize>)
    ensures
        match r {
            Some(a) => a < counts@.len() && counts@[a as int].0@ == kind@,
            None => forall|b: int| 0 <= b < counts@.len() ==> counts@[b].0@ != kind@,
        },
{
    let mut a: usize = 0;
    while a < counts.len()
        invariant
            a <= counts@.len(),
            forall|b: int| 0 <= b < a ==> counts@[b].0@ != kind@,
        decreases counts@.len() - a,
    {
        if counts[a].0 == *kind {
            return Some(a);
        }
        a = a + 1;
    }
    None
}

// ---- The input link list ---------------------------------------------------

/// The links of an input file's lines: each line trimmed, and blank lines
/// and `#` comment lines left out.
pub open spec fn kept_lines(lines: Seq<Seq<char>>) -> Seq<Seq<char>>
    decreases lines.len(),
{
    if lines.len() == 0 {
        Seq::empty()
    } else {
        let t = trim_ws(lines.last());
        let rest = kept_lines(lines.drop_last());
        if t.len() > 0 && t[0] != '#' {
            rest.push(t)
        } else {
            rest
        }
    }
}

/// The lines kept are every line, trimmed, that is not blank and does not
/// start with `#`, in order; a `#` anywhere else in a line (a URL's
/// fragment) does not drop it.
pub proof fn lemma_kept_lines_are_the_url_lines(lines: Seq<Seq<char>>)
    ensures
        kept_lines(lines) == lines.map_values(|l: Seq<char>| trim_ws(l)).filter(
            |t: Seq<char>| t.len() > 0 && t[0] != '#',
        ),
    decreases lines.len(),
{
    reveal(Seq::filter);
    if lines.len() > 0 {
        lemma_kept_lines_are_the_url_lines(lines.drop_last());
        let trimmed = lines.map_values(|l: Seq<char>| trim_ws(l));
        assert(trimmed.drop_last() =~= lines.drop_last().map_values(|l: Seq<char>| trim_ws(l)));
        assert(trimmed.last() == trim_ws(lines.last()));
    }
}

/// The URLs of an input file: one per line, trimmed; blank lines and lines
/// starting with `#` are ignored. (Splitting at `\n` and trimming gives the
/// same lines as `str::lines` followed by trimming: a trailing `\r` and a
/// final empty line are both removed by the trim and the blank-line rule.)
pub fn parse_link_list(raw: &str) -> (urls: Vec<String>)
    ensures
        views(urls@) == kept_lines(split_on(raw@, '\n')),
        views(urls@) == split_on(raw@, '\n').map_values(|l: Seq<char>| trim_ws(l)).filter(
            |t: Seq<char>| t.len() > 0 && t[0] != '#',
        ),
{
    proof {
        lemma_kept_lines_are_the_url_lines(split_on(raw@, '\n'));
    }
    let chars = chars_of(raw);
    let lines = split_chars(&chars, '\n');
    let ghost all = lines@.map_values(|p: Vec<char>| p@);
    let mut urls: Vec<String> = Vec::new();
    let mut i: usize = 0;
    while i < lines.len()
        invariant
            all == lines@.map_values(|p: Vec<char>| p@),
            all == split_on(raw@, '\n'),
            i <= lines@.len(),
            views(urls@) == kept_lines(all.subrange(0, i as int)),
        decreases lines@.len() - i,
    {
        let ghost next = all.subrange(0, i as int + 1);
        assert(next.drop_last() =~= all.subrange(0, i as int));
        let line = &lines[i];
        assert(next.last() == line@);
        let (lo, hi) = trim_bounds(line, line.len());
        assert(line@.subrange(0, line@.len() as int) =~= line@);
        if lo < hi && line[lo] != '#' {
            let url = string_of(line, lo, hi);
            urls.push(url);
            assert(views(urls@) =~= kept_lines(next));
        }
        i = i + 1;
    }
    assert(all.subrange(0, all.len() as int) =~= all);
    urls
}

/// The run settings a collection needs: at least one link at a time, one
/// attempt per call, one second per request. The message of the first
/// setting that is out of range, if any.
pub fn check_run_settings(concurrency: usize, max_retries: u32, timeout_secs: u64) -> (r: Result<
    (),
    &'static str,
>)
    ensures
        concurrency == 0 ==> r == Err::<(), &'static str>("--concurrency must be at least 1"),
        concurrency != 0 && max_retries == 0 ==> r == Err::<(), &'static str>(
            "--max-retries must be at least 1",
        ),
        concurrency != 0 && max_retries != 0 && timeout_secs == 0 ==> r == Err::<
            (),
            &'static str,
        >("--timeout-secs must be at least 1"),
        concurrency != 0 && max_retries != 0 && timeout_secs != 0 ==> r is Ok,
{
    if concurrency == 0 {
        return Err("--concurrency must be at least 1");
    }
    if max_retries == 0 {
        return Err("--max-retries must be at least 1");
    }
    if timeout_secs == 0 {
        return Err("--timeout-secs must be at least 1");
    }
    Ok(())
}

} // verus!
