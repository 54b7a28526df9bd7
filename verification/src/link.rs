//! The per-link collection as a state machine: the decisions of processing
//! one link — which GitHub calls it needs, in what order, what each
//! outcome changes in the record, when to check the next Pages candidate,
//! and when to search Hacker News — made from state and event to next
//! state and action. The program around the library performs each action
//! (an HTTP call, after the given number of pauses) and hands the outcome
//! back as the next event.
//!
//! Failures are captured in the record's `fetch_errors` and never stop the
//! machine early: every outcome, success or failure, leads on to the next
//! call, and the machine always reaches `Finish` (see
//! `lemma_every_step_makes_progress`).

use vstd::prelude::*;

use std::collections::BTreeMap;

use crate::classify::{
    canonicalize, classify, canonicalize_spec, classify_spec, pair_views, url_parse, LinkKind,
};
use crate::collect::{
    apply_releases, build_gist_data, build_repo_data, describe_kind, describe_spec, gist_data_of,
    releases_applied, repo_data_of, select_pages_candidate_index,
};
use crate::discovery::{keys_in_order, keys_ordered, opt_view};
use crate::github::{GistResponse, ReleaseNode, RepositoryNode};
use crate::model::{ExternalDiscovery, ExternalMention, GistData, LinkRecord, RepoData};
use crate::retry::{instant_of_reading, reading_instant, system_clock};
use crate::text::{concat2, concat3, copy_str, join_from, join_parts, views};

verus! {

/// The opening words of the error of a Pages site whose candidates all
/// turned out missing.
pub const UNRESOLVED_PAGES_ERROR: &'static str =
    "no candidate repo resolved automatically for this Pages site";

pub const PROFILE_NOT_COLLECTED_ERROR: &'static str =
    "recognized as a GitHub user/organization profile page, not a repository; it was not collected";

pub const UNKNOWN_URL_ERROR: &'static str = "could not classify URL (unrecognized host/path shape)";

pub const UNSUPPORTED_URL_ERROR: &'static str =
    "recognized GitHub subpage is not a repository root or file link; it was not collected";

pub const DISCOVERY_COVERAGE: &'static str =
    "Discovery signals only: HN stories linking to the exact URL. Comments and other sites are not searched by ghlinks — Reddit mentions are discovered during the downstream LLM synthesis pass instead (see ADRs/reddit-mention-discovery-moves-to-synthesis-pass.md).";

pub const HACKER_NEWS_QUERY: &'static str = "exact URL; stories only";

/// The error of a Pages site `url` for which no candidate repository
/// exists: the site, every candidate ruled out (`owner/repo`, in the order
/// checked), and the shape of a web search to find the backing repository
/// by hand.
pub open spec fn unresolved_pages_text(url: Seq<char>, ruled_out: Seq<Seq<char>>) -> Seq<char> {
    UNRESOLVED_PAGES_ERROR@ + " "@ + url + "; ruled out: "@ + (if ruled_out.len() == 0 {
        "none"@
    } else {
        join_parts(ruled_out, ", "@)
    }) + "; manual lookup needed, e.g. a web search for \""@ + url + "\" site:github.com"@
}

/// `unresolved_pages_text`, built.
pub fn unresolved_pages_message(url: &str, ruled_out: &Vec<String>) -> (m: String)
    ensures
        m@ == unresolved_pages_text(url@, views(ruled_out@)),
{
    let mut m = copy_str(UNRESOLVED_PAGES_ERROR);
    m.append(" ");
    m.append(url);
    m.append("; ruled out: ");
    if ruled_out.len() == 0 {
        m.append("none");
    } else {
        let joined = join_from(ruled_out, 0, ", ");
        assert(views(ruled_out@).skip(0) =~= views(ruled_out@));
        m.append(joined.as_str());
    }
    m.append("; manual lookup needed, e.g. a web search for \"");
    m.append(url);
    m.append("\" site:github.com");
    m
}

/// A call the program around the library makes on the machine's behalf.
#[derive(Debug)]
pub enum LinkAction {
    /// GraphQL repository facts.
    QueryRepository { owner: String, repo: String },
    /// `GET /repos/{owner}/{repo}/languages`.
    QueryLanguages { owner: String, repo: String },
    /// The contributor count.
    QueryContributors { owner: String, repo: String },
    /// Every release page.
    QueryReleases { owner: String, repo: String },
    /// `GET /gists/{gist_id}`.
    QueryGist { gist_id: String },
    /// Whether `owner/repo` exists.
    CheckRepoExists { owner: String, repo: String },
    /// Hacker News stories linking to `url`.
    SearchHackerNews { url: String },
    /// Nothing more: the record is complete.
    Finish,
}

/// The next action, preceded by `pauses` waits of the run's delay.
#[derive(Debug)]
pub struct LinkStep {
    pub pauses: u32,
    pub action: LinkAction,
}

/// The outcome of an action; an error is the failure's text.
#[derive(Debug)]
pub enum LinkEvent {
    Repository(Result<RepositoryNode, String>),
    Languages(Result<BTreeMap<String, i64>, String>),
    Contributors(Result<Option<i64>, String>),
    Releases(Result<Vec<ReleaseNode>, String>),
    Gist(Result<GistResponse, String>),
    RepoExists(Result<bool, String>),
    HackerNews(Result<Vec<ExternalMention>, String>),
}

/// Which outcome the machine waits for.
#[derive(Debug)]
pub enum Stage {
    AwaitRepository { owner: String, repo: String },
    AwaitLanguages { owner: String, repo: String },
    AwaitContributors { owner: String, repo: String },
    AwaitReleases { owner: String, repo: String },
    AwaitGist { gist_id: String },
    /// Checking Pages candidate number `index`, `owner/repo`.
    AwaitRepoExists { index: usize, owner: String, repo: String },
    AwaitHackerNews,
    Finished,
}

/// The collection of one link in progress.
#[derive(Debug)]
pub struct LinkJob {
    pub url: String,
    pub kind: LinkKind,
    pub canonical_url: Option<String>,
    pub skip_external: bool,
    pub stage: Stage,
    pub repo_data: Option<RepoData>,
    pub gist_data: Option<GistData>,
    pub pages_checked: Vec<String>,
    pub existence_results: Vec<bool>,
    pub pages_resolved: Option<String>,
    pub errors: Vec<String>,
    pub mentions: Vec<ExternalMention>,
    pub hn_status: &'static str,
}

/// The action that a stage waits on.
pub open spec fn pending_action(job: LinkJob) -> LinkAction {
    match job.stage {
        Stage::AwaitRepository { owner, repo } => LinkAction::QueryRepository { owner, repo },
        Stage::AwaitLanguages { owner, repo } => LinkAction::QueryLanguages { owner, repo },
        Stage::AwaitContributors { owner, repo } => LinkAction::QueryContributors { owner, repo },
        Stage::AwaitReleases { owner, repo } => LinkAction::QueryReleases { owner, repo },
        Stage::AwaitGist { gist_id } => LinkAction::QueryGist { gist_id },
        Stage::AwaitRepoExists { owner, repo, .. } => LinkAction::CheckRepoExists { owner, repo },
        Stage::AwaitHackerNews => LinkAction::SearchHackerNews { url: job.url },
        Stage::Finished => LinkAction::Finish,
    }
}

/// Whether `event` answers the action the job waits on.
pub open spec fn answers(stage: Stage, event: LinkEvent) -> bool {
    match (stage, event) {
        (Stage::AwaitRepository { .. }, LinkEvent::Repository(_)) => true,
        (Stage::AwaitLanguages { .. }, LinkEvent::Languages(_)) => true,
        (Stage::AwaitContributors { .. }, LinkEvent::Contributors(_)) => true,
        (Stage::AwaitReleases { .. }, LinkEvent::Releases(_)) => true,
        (Stage::AwaitGist { .. }, LinkEvent::Gist(_)) => true,
        (Stage::AwaitRepoExists { .. }, LinkEvent::RepoExists(_)) => true,
        (Stage::AwaitHackerNews, LinkEvent::HackerNews(_)) => true,
        _ => false,
    }
}

/// An event as the program around the library hands it over: a gist's
/// files by name in key order, each name once.
pub open spec fn event_well_formed(event: LinkEvent) -> bool {
    event matches LinkEvent::Gist(Ok(g)) ==> keys_ordered(g.files@)
}

/// Whether an event is well formed (`event_well_formed`), to be tested
/// before handing it to `advance`.
pub fn event_is_well_formed(event: &LinkEvent) -> (r: bool)
    ensures
        r == event_well_formed(*event),
{
    match event {
        LinkEvent::Gist(Ok(g)) => keys_in_order(&g.files),
        _ => true,
    }
}

/// The Pages candidates of a kind (none for other kinds).
pub open spec fn candidates_of(kind: LinkKind) -> Seq<(String, String)> {
    match kind {
        LinkKind::PagesSite { candidates, .. } => candidates@,
        _ => Seq::empty(),
    }
}

/// `owner/repo`.
pub open spec fn slug(owner: Seq<char>, repo: Seq<char>) -> Seq<char> {
    owner + "/"@ + repo
}

/// The job's invariant: while a Pages candidate is being checked, it is
/// candidate `index` of the link's candidates, every earlier candidate was
/// checked and found missing, and each checked candidate is recorded.
pub open spec fn well_formed(job: LinkJob) -> bool {
    match job.stage {
        Stage::AwaitRepoExists { index, owner, repo } => {
            let cands = candidates_of(job.kind);
            &&& index < cands.len()
            &&& cands[index as int].0 == owner
            &&& cands[index as int].1 == repo
            &&& job.existence_results@.len() == index
            &&& forall|j: int| 0 <= j < index ==> !job.existence_results@[j]
            &&& views(job.pages_checked@) == pair_views(cands).take(index + 1).map_values(
                |c: (Seq<char>, Seq<char>)| slug(c.0, c.1),
            )
        },
        _ => true,
    }
}

/// How far the job is from finishing: every answered step lowers it.
pub open spec fn remaining_work(job: LinkJob) -> nat {
    match job.stage {
        Stage::Finished => 0,
        Stage::AwaitHackerNews => 1,
        Stage::AwaitReleases { .. } => 2,
        Stage::AwaitGist { .. } => 2,
        Stage::AwaitContributors { .. } => 3,
        Stage::AwaitLanguages { .. } => 4,
        Stage::AwaitRepository { .. } => 5,
        Stage::AwaitRepoExists { index, .. } => (6 + candidates_of(job.kind).len() - index) as nat,
    }
}

/// The fields that no step changes.
pub open spec fn kept_fields(o: LinkJob, n: LinkJob) -> bool {
    &&& n.url == o.url
    &&& n.kind == o.kind
    &&& n.canonical_url == o.canonical_url
    &&& n.skip_external == o.skip_external
}

/// The collected results left as they were.
pub open spec fn results_kept(o: LinkJob, n: LinkJob) -> bool {
    &&& n.repo_data == o.repo_data
    &&& n.gist_data == o.gist_data
    &&& n.pages_checked == o.pages_checked
    &&& n.existence_results == o.existence_results
    &&& n.pages_resolved == o.pages_resolved
    &&& n.mentions == o.mentions
    &&& n.hn_status == o.hn_status
}

/// One more fetch error, `msg`.
pub open spec fn error_added(o: LinkJob, n: LinkJob, msg: Seq<char>) -> bool {
    views(n.errors@) == views(o.errors@).push(msg)
}

/// After a link's GitHub work, with `pauses` waits: the Hacker News search,
/// or the end where external discovery is skipped.
pub open spec fn goes_to_discovery(o: LinkJob, n: LinkJob, step: LinkStep, pauses: u32) -> bool {
    &&& step.pauses == pauses
    &&& if o.skip_external {
        n.stage is Finished && step.action is Finish
    } else {
        n.stage is AwaitHackerNews && step.action == LinkAction::SearchHackerNews { url: o.url }
    }
}

/// A repository field update applied to `o.repo_data` where it is present.
pub open spec fn repo_updated(o: Option<RepoData>, n: Option<RepoData>, f: spec_fn(RepoData) -> RepoData) -> bool {
    match o {
        Some(d) => n == Some(f(d)),
        None => n is None,
    }
}

/// The transition of an answered step.
pub open spec fn transition(o: LinkJob, n: LinkJob, event: LinkEvent, step: LinkStep) -> bool {
    &&& kept_fields(o, n)
    &&& match (o.stage, event) {
        (Stage::AwaitRepository { owner, repo }, LinkEvent::Repository(res)) => match res {
            Ok(node) => {
                &&& n.repo_data matches Some(d) && repo_data_of(d, node)
                &&& n.gist_data == o.gist_data
                &&& n.pages_checked == o.pages_checked
                &&& n.existence_results == o.existence_results
                &&& n.pages_resolved == o.pages_resolved
                &&& n.mentions == o.mentions
                &&& n.hn_status == o.hn_status
                &&& n.errors == o.errors
                &&& n.stage == Stage::AwaitLanguages { owner, repo }
                &&& step == LinkStep {
                    pauses: 1,
                    action: LinkAction::QueryLanguages { owner, repo },
                }
            },
            Err(e) => {
                &&& results_kept(o, n)
                &&& error_added(o, n, "graphql_repo: "@ + e@)
                &&& goes_to_discovery(o, n, step, 1)
            },
        },
        (Stage::AwaitLanguages { owner, repo }, LinkEvent::Languages(res)) => {
            &&& match res {
                Ok(langs) => {
                    &&& repo_updated(
                        o.repo_data,
                        n.repo_data,
                        |d: RepoData| RepoData { languages_bytes: langs, ..d },
                    )
                    &&& n.errors == o.errors
                },
                Err(e) => n.repo_data == o.repo_data && error_added(o, n, "languages: "@ + e@),
            }
            &&& n.gist_data == o.gist_data
            &&& n.pages_checked == o.pages_checked
            &&& n.existence_results == o.existence_results
            &&& n.pages_resolved == o.pages_resolved
            &&& n.mentions == o.mentions
            &&& n.hn_status == o.hn_status
            &&& n.stage == Stage::AwaitContributors { owner, repo }
            &&& step == LinkStep { pauses: 1, action: LinkAction::QueryContributors { owner, repo } }
        },
        (Stage::AwaitContributors { owner, repo }, LinkEvent::Contributors(res)) => {
            &&& match res {
                Ok(count) => {
                    &&& repo_updated(
                        o.repo_data,
                        n.repo_data,
                        |d: RepoData| RepoData { github_contributors_count: count, ..d },
                    )
                    &&& n.errors == o.errors
                },
                Err(e) => n.repo_data == o.repo_data && error_added(
                    o,
                    n,
                    "contributors_count: "@ + e@,
                ),
            }
            &&& n.gist_data == o.gist_data
            &&& n.pages_checked == o.pages_checked
            &&& n.existence_results == o.existence_results
            &&& n.pages_resolved == o.pages_resolved
            &&& n.mentions == o.mentions
            &&& n.hn_status == o.hn_status
            &&& n.stage == Stage::AwaitReleases { owner, repo }
            &&& step == LinkStep { pauses: 1, action: LinkAction::QueryReleases { owner, repo } }
        },
        (Stage::AwaitReleases { .. }, LinkEvent::Releases(res)) => {
            &&& match res {
                Ok(releases) => {
                    &&& match o.repo_data {
                        Some(d) => n.repo_data matches Some(nd) && exists|now: (i64, u32)|
                            releases_applied(d, nd, releases@, now),
                        None => n.repo_data is None,
                    }
                    &&& n.errors == o.errors
                },
                Err(e) => n.repo_data == o.repo_data && error_added(o, n, "releases: "@ + e@),
            }
            &&& n.gist_data == o.gist_data
            &&& n.pages_checked == o.pages_checked
            &&& n.existence_results == o.existence_results
            &&& n.pages_resolved == o.pages_resolved
            &&& n.mentions == o.mentions
            &&& n.hn_status == o.hn_status
            &&& goes_to_discovery(o, n, step, 1)
        },
        (Stage::AwaitGist { .. }, LinkEvent::Gist(res)) => {
            &&& match res {
                Ok(g) => n.gist_data matches Some(gd) && gist_data_of(gd, g) && n.errors
                    == o.errors,
                Err(e) => n.gist_data == o.gist_data && error_added(o, n, "gist: "@ + e@),
            }
            &&& n.repo_data == o.repo_data
            &&& n.pages_checked == o.pages_checked
            &&& n.existence_results == o.existence_results
            &&& n.pages_resolved == o.pages_resolved
            &&& n.mentions == o.mentions
            &&& n.hn_status == o.hn_status
            &&& goes_to_discovery(o, n, step, 1)
        },
        (Stage::AwaitRepoExists { index, owner, repo }, LinkEvent::RepoExists(res)) => {
            let exists = res == Ok::<bool, String>(true);
            let cands = candidates_of(o.kind);
            &&& n.existence_results@ == o.existence_results@.push(exists)
            &&& n.repo_data == o.repo_data
            &&& n.gist_data == o.gist_data
            &&& n.mentions == o.mentions
            &&& n.hn_status == o.hn_status
            &&& if exists {
                // the first candidate that exists is the one resolved
                &&& n.errors == o.errors
                &&& n.pages_checked == o.pages_checked
                &&& opt_view(n.pages_resolved) == Some(slug(owner@, repo@))
                &&& n.stage == Stage::AwaitRepository { owner, repo }
                &&& step == LinkStep {
                    pauses: 0,
                    action: LinkAction::QueryRepository { owner, repo },
                }
            } else {
                let errors_after = match res {
                    Err(e) => views(o.errors@).push(
                        "repo_exists("@ + slug(owner@, repo@) + "): "@ + e@,
                    ),
                    Ok(_) => views(o.errors@),
                };
                &&& n.pages_resolved == o.pages_resolved
                &&& if index + 1 < cands.len() {
                    let next = cands[index + 1];
                    &&& views(n.errors@) == errors_after
                    &&& views(n.pages_checked@) == views(o.pages_checked@).push(
                        slug(next.0@, next.1@),
                    )
                    &&& n.stage matches Stage::AwaitRepoExists {
                        index: next_index,
                        owner: next_owner,
                        repo: next_repo,
                    } && next_index == index + 1 && next_owner == next.0 && next_repo == next.1
                    &&& step == LinkStep {
                        pauses: 1,
                        action: LinkAction::CheckRepoExists { owner: next.0, repo: next.1 },
                    }
                } else {
                    &&& views(n.errors@) == errors_after.push(
                        unresolved_pages_text(o.url@, views(o.pages_checked@)),
                    )
                    &&& n.pages_checked == o.pages_checked
                    &&& goes_to_discovery(o, n, step, 2)
                }
            }
        },
        (Stage::AwaitHackerNews, LinkEvent::HackerNews(res)) => {
            &&& n.repo_data == o.repo_data
            &&& n.gist_data == o.gist_data
            &&& n.pages_checked == o.pages_checked
            &&& n.existence_results == o.existence_results
            &&& n.pages_resolved == o.pages_resolved
            &&& match res {
                Ok(found) => n.hn_status == "ok" && n.mentions == found && n.errors == o.errors,
                Err(e) => n.hn_status == "error" && n.mentions == o.mentions && error_added(
                    o,
                    n,
                    "hacker_news: "@ + e@,
                ),
            }
            &&& n.stage is Finished
            &&& step == LinkStep { pauses: 0, action: LinkAction::Finish }
        },
        _ => false,
    }
}

/// The first step of a link of kind `kind`.
pub open spec fn first_transition(n: LinkJob, step: LinkStep) -> bool {
    match n.kind {
        LinkKind::RepoRoot { owner, repo } | LinkKind::RepoFile { owner, repo, .. } => {
            &&& n.errors@.len() == 0
            &&& n.pages_checked@.len() == 0
            &&& n.stage == Stage::AwaitRepository { owner, repo }
            &&& step == LinkStep {
                pauses: 0,
                action: LinkAction::QueryRepository { owner, repo },
            }
        },
        LinkKind::Gist { gist_id, .. } => {
            &&& n.errors@.len() == 0
            &&& n.pages_checked@.len() == 0
            &&& n.stage == Stage::AwaitGist { gist_id }
            &&& step == LinkStep { pauses: 0, action: LinkAction::QueryGist { gist_id } }
        },
        LinkKind::PagesSite { candidates, .. } => if candidates@.len() > 0 {
            let first = candidates@[0];
            &&& n.errors@.len() == 0
            &&& views(n.pages_checked@) == seq![slug(first.0@, first.1@)]
            &&& n.stage == Stage::AwaitRepoExists { index: 0, owner: first.0, repo: first.1 }
            &&& step == LinkStep {
                pauses: 0,
                action: LinkAction::CheckRepoExists { owner: first.0, repo: first.1 },
            }
        } else {
            &&& views(n.errors@) == seq![unresolved_pages_text(n.url@, Seq::empty())]
            &&& n.pages_checked@.len() == 0
            &&& goes_to_discovery(n, n, step, 1)
        },
        LinkKind::UserOrOrgProfile { .. } => {
            &&& views(n.errors@) == seq![PROFILE_NOT_COLLECTED_ERROR@]
            &&& n.pages_checked@.len() == 0
            &&& goes_to_discovery(n, n, step, 1)
        },
        LinkKind::UnsupportedGithubUrl => {
            &&& views(n.errors@) == seq![UNSUPPORTED_URL_ERROR@]
            &&& n.pages_checked@.len() == 0
            &&& goes_to_discovery(n, n, step, 1)
        },
        LinkKind::Unknown => {
            &&& views(n.errors@) == seq![UNKNOWN_URL_ERROR@]
            &&& n.pages_checked@.len() == 0
            &&& goes_to_discovery(n, n, step, 1)
        },
    }
}

/// The step that goes on to external discovery after `pauses` waits.
fn discovery_step(url: &String, skip_external: bool, pauses: u32) -> (r: (Stage, LinkStep))
    ensures
        r.1.pauses == pauses,
        skip_external ==> (r.0 is Finished && r.1.action is Finish),
        !skip_external ==> (r.0 is AwaitHackerNews && r.1.action == (LinkAction::SearchHackerNews {
            url: *url,
        })),
{
    if skip_external {
        (Stage::Finished, LinkStep { pauses, action: LinkAction::Finish })
    } else {
        (
            Stage::AwaitHackerNews,
            LinkStep { pauses, action: LinkAction::SearchHackerNews { url: url.clone() } },
        )
    }
}

/// `owner/repo` as a string.
fn slug_of(owner: &String, repo: &String) -> (s: String)
    ensures
        s@ == slug(owner@, repo@),
{
    concat3(owner.as_str(), "/", repo.as_str())
}

impl LinkJob {
    /// Starts the collection of `url`: classifies and canonicalizes it,
    /// and decides the first action from its kind — the repository query
    /// for a repository root or file, the gist query for a gist, the first
    /// candidate check for a Pages site; a profile, an unsupported GitHub
    /// URL or an unknown URL records why it is not collected and goes on to
    /// discovery.
    pub fn new(url: &str, skip_external: bool) -> (r: (LinkJob, LinkStep))
        ensures
            r.0.url@ == url@,
            r.0.kind@ == classify_spec(url_parse(url@)),
            opt_view(r.0.canonical_url) == canonicalize_spec(url_parse(url@)),
            r.0.skip_external == skip_external,
            r.0.repo_data is None,
            r.0.gist_data is None,
            r.0.existence_results@.len() == 0,
            r.0.pages_resolved is None,
            r.0.mentions@.len() == 0,
            r.0.hn_status == "skipped",
            started(r.0),
            first_transition(r.0, r.1),
            well_formed(r.0),
    {
        let kind = classify(url);
        let canonical_url = canonicalize(url);
        let url_s = copy_str(url);
        let mut errors: Vec<String> = Vec::new();
        let mut pages_checked: Vec<String> = Vec::new();
        let (stage, step) = match &kind {
            LinkKind::RepoRoot { owner, repo } | LinkKind::RepoFile { owner, repo, .. } => (
                Stage::AwaitRepository { owner: owner.clone(), repo: repo.clone() },
                LinkStep {
                    pauses: 0,
                    action: LinkAction::QueryRepository { owner: owner.clone(), repo: repo.clone() },
                },
            ),
            LinkKind::Gist { gist_id, .. } => (
                Stage::AwaitGist { gist_id: gist_id.clone() },
                LinkStep { pauses: 0, action: LinkAction::QueryGist { gist_id: gist_id.clone() } },
            ),
            LinkKind::PagesSite { candidates, .. } => {
                if candidates.len() > 0 {
                    let owner = candidates[0].0.clone();
                    let repo = candidates[0].1.clone();
                    pages_checked.push(slug_of(&owner, &repo));
                    assert(views(pages_checked@) =~= seq![slug(owner@, repo@)]);
                    (
                        Stage::AwaitRepoExists { index: 0, owner: owner.clone(), repo: repo.clone() },
                        LinkStep { pauses: 0, action: LinkAction::CheckRepoExists { owner, repo } },
                    )
                } else {
                    errors.push(unresolved_pages_message(url_s.as_str(), &pages_checked));
                    assert(views(pages_checked@) =~= Seq::<Seq<char>>::empty());
                    assert(views(errors@) =~= seq![unresolved_pages_text(url_s@, Seq::empty())]);
                    discovery_step(&url_s, skip_external, 1)
                }
            },
            LinkKind::UserOrOrgProfile { .. } => {
                errors.push(copy_str(PROFILE_NOT_COLLECTED_ERROR));
                assert(views(errors@) =~= seq![PROFILE_NOT_COLLECTED_ERROR@]);
                discovery_step(&url_s, skip_external, 1)
            },
            LinkKind::UnsupportedGithubUrl => {
                errors.push(copy_str(UNSUPPORTED_URL_ERROR));
                assert(views(errors@) =~= seq![UNSUPPORTED_URL_ERROR@]);
                discovery_step(&url_s, skip_external, 1)
            },
            LinkKind::Unknown => {
                errors.push(copy_str(UNKNOWN_URL_ERROR));
                assert(views(errors@) =~= seq![UNKNOWN_URL_ERROR@]);
                discovery_step(&url_s, skip_external, 1)
            },
        };
        let job = LinkJob {
            url: url_s,
            kind,
            canonical_url,
            skip_external,
            stage,
            repo_data: None,
            gist_data: None,
            pages_checked,
            existence_results: Vec::new(),
            pages_resolved: None,
            errors,
            mentions: Vec::new(),
            hn_status: "skipped",
        };
        proof {
            if let Stage::AwaitRepoExists { .. } = job.stage {
                let cands = candidates_of(job.kind);
                assert(pair_views(cands).take(1).map_values(
                    |c: (Seq<char>, Seq<char>)| slug(c.0, c.1),
                ) =~= seq![slug(cands[0].0@, cands[0].1@)]);
            }
        }
        (job, step)
    }

    /// The action the job waits on, repeated.
    fn pending(&self) -> (step: LinkStep)
        ensures
            step == (LinkStep { pauses: 0, action: pending_action(*self) }),
    {
        let action = match &self.stage {
            Stage::AwaitRepository { owner, repo } => LinkAction::QueryRepository {
                owner: owner.clone(),
                repo: repo.clone(),
            },
            Stage::AwaitLanguages { owner, repo } => LinkAction::QueryLanguages {
                owner: owner.clone(),
                repo: repo.clone(),
            },
            Stage::AwaitContributors { owner, repo } => LinkAction::QueryContributors {
                owner: owner.clone(),
                repo: repo.clone(),
            },
            Stage::AwaitReleases { owner, repo } => LinkAction::QueryReleases {
                owner: owner.clone(),
                repo: repo.clone(),
            },
            Stage::AwaitGist { gist_id } => LinkAction::QueryGist { gist_id: gist_id.clone() },
            Stage::AwaitRepoExists { owner, repo, .. } => LinkAction::CheckRepoExists {
                owner: owner.clone(),
                repo: repo.clone(),
            },
            Stage::AwaitHackerNews => LinkAction::SearchHackerNews { url: self.url.clone() },
            Stage::Finished => LinkAction::Finish,
        };
        LinkStep { pauses: 0, action }
    }

    /// Takes the outcome of the action the job waited on and decides the
    /// next one. An outcome that does not answer that action changes
    /// nothing and the same action is asked for again.
    pub fn advance(&mut self, event: LinkEvent) -> (step: LinkStep)
        requires
            well_formed(*old(self)),
            event_well_formed(event),
        ensures
            well_formed(*final(self)),
            answers(old(self).stage, event) ==> transition(*old(self), *final(self), event, step),
            !answers(old(self).stage, event) ==> *final(self) == *old(self) && step == (LinkStep {
                pauses: 0,
                action: pending_action(*old(self)),
            }),
    {
        let ghost o = *self;
        match event {
            LinkEvent::Repository(res) => {
                let (owner, repo) = match &self.stage {
                    Stage::AwaitRepository { owner, repo } => (owner.clone(), repo.clone()),
                    _ => {
                        return self.pending();
                    },
                };
                match res {
                    Ok(node) => {
                        self.repo_data = Some(build_repo_data(&node));
                        self.stage = Stage::AwaitLanguages {
                            owner: owner.clone(),
                            repo: repo.clone(),
                        };
                        LinkStep { pauses: 1, action: LinkAction::QueryLanguages { owner, repo } }
                    },
                    Err(e) => {
                        self.errors.push(concat2("graphql_repo: ", e.as_str()));
                        let (stage, step) = discovery_step(&self.url, self.skip_external, 1);
                        self.stage = stage;
                        assert(views(self.errors@) =~= views(o.errors@).push(
                            "graphql_repo: "@ + e@,
                        ));
                        step
                    },
                }
            },
            LinkEvent::Languages(res) => {
                let (owner, repo) = match &self.stage {
                    Stage::AwaitLanguages { owner, repo } => (owner.clone(), repo.clone()),
                    _ => {
                        return self.pending();
                    },
                };
                match res {
                    Ok(langs) => {
                        match &mut self.repo_data {
                            Some(d) => {
                                d.languages_bytes = langs;
                            },
                            None => {},
                        }
                    },
                    Err(e) => {
                        self.errors.push(concat2("languages: ", e.as_str()));
                        assert(views(self.errors@) =~= views(o.errors@).push(
                            "languages: "@ + e@,
                        ));
                    },
                }
                self.stage = Stage::AwaitContributors { owner: owner.clone(), repo: repo.clone() };
                LinkStep { pauses: 1, action: LinkAction::QueryContributors { owner, repo } }
            },
            LinkEvent::Contributors(res) => {
                let (owner, repo) = match &self.stage {
                    Stage::AwaitContributors { owner, repo } => (owner.clone(), repo.clone()),
                    _ => {
                        return self.pending();
                    },
                };
                match res {
                    Ok(count) => {
                        match &mut self.repo_data {
                            Some(d) => {
                                d.github_contributors_count = count;
                            },
                            None => {},
                        }
                    },
                    Err(e) => {
                        self.errors.push(concat2("contributors_count: ", e.as_str()));
                        assert(views(self.errors@) =~= views(o.errors@).push(
                            "contributors_count: "@ + e@,
                        ));
                    },
                }
                self.stage = Stage::AwaitReleases { owner: owner.clone(), repo: repo.clone() };
                LinkStep { pauses: 1, action: LinkAction::QueryReleases { owner, repo } }
            },
            LinkEvent::Releases(res) => {
                match &self.stage {
                    Stage::AwaitReleases { .. } => {},
                    _ => {
                        return self.pending();
                    },
                }
                match res {
                    Ok(releases) => {
                        match &mut self.repo_data {
                            Some(d) => {
                                apply_releases(d, &releases);
                            },
                            None => {},
                        }
                    },
                    Err(e) => {
                        self.errors.push(concat2("releases: ", e.as_str()));
                        assert(views(self.errors@) =~= views(o.errors@).push(
                            "releases: "@ + e@,
                        ));
                    },
                }
                let (stage, step) = discovery_step(&self.url, self.skip_external, 1);
                self.stage = stage;
                step
            },
            LinkEvent::Gist(res) => {
                match &self.stage {
                    Stage::AwaitGist { .. } => {},
                    _ => {
                        return self.pending();
                    },
                }
                match res {
                    Ok(g) => {
                        self.gist_data = Some(build_gist_data(&g));
                    },
                    Err(e) => {
                        self.errors.push(concat2("gist: ", e.as_str()));
                        assert(views(self.errors@) =~= views(o.errors@).push("gist: "@ + e@));
                    },
                }
                let (stage, step) = discovery_step(&self.url, self.skip_external, 1);
                self.stage = stage;
                step
            },
            LinkEvent::RepoExists(res) => {
                let (index, owner, repo) = match &self.stage {
                    Stage::AwaitRepoExists { index, owner, repo } => (
                        *index,
                        owner.clone(),
                        repo.clone(),
                    ),
                    _ => {
                        return self.pending();
                    },
                };
                self.check_candidate(index, owner, repo, res)
            },
            LinkEvent::HackerNews(res) => {
                match &self.stage {
                    Stage::AwaitHackerNews => {},
                    _ => {
                        return self.pending();
                    },
                }
                match res {
                    Ok(found) => {
                        self.hn_status = "ok";
                        self.mentions = found;
                    },
                    Err(e) => {
                        self.hn_status = "error";
                        self.errors.push(concat2("hacker_news: ", e.as_str()));
                        assert(views(self.errors@) =~= views(o.errors@).push(
                            "hacker_news: "@ + e@,
                        ));
                    },
                }
                self.stage = Stage::Finished;
                LinkStep { pauses: 0, action: LinkAction::Finish }
            },
        }
    }

    /// The outcome of checking Pages candidate `index`.
    fn check_candidate(&mut self, index: usize, owner: String, repo: String, res: Result<
        bool,
        String,
    >) -> (step: LinkStep)
        requires
            well_formed(*old(self)),
            old(self).stage == (Stage::AwaitRepoExists { index, owner, repo }),
        ensures
            well_formed(*final(self)),
            transition(*old(self), *final(self), LinkEvent::RepoExists(res), step),
    {
        let ghost o = *self;
        let ghost cands = candidates_of(self.kind);
        let exists = match &res {
            Ok(b) => *b,
            Err(e) => {
                let label = slug_of(&owner, &repo);
                self.errors.push(concat3("repo_exists(", label.as_str(), "): ").concat(e.as_str()));
                false
            },
        };
        assert(exists == (res == Ok::<bool, String>(true)));
        let ghost errors_after = views(self.errors@);
        proof {
            match res {
                Err(e) => {
                    assert(errors_after =~= views(o.errors@).push(
                        "repo_exists("@ + slug(owner@, repo@) + "): "@ + e@,
                    ));
                },
                Ok(_) => {},
            }
        }
        self.existence_results.push(exists);
        let n = self.existence_results.len();
        let selected = select_pages_candidate_index(self.existence_results.as_slice());
        if selected == Some(n - 1) {
            self.pages_resolved = Some(slug_of(&owner, &repo));
            self.stage = Stage::AwaitRepository { owner: owner.clone(), repo: repo.clone() };
            return LinkStep { pauses: 0, action: LinkAction::QueryRepository { owner, repo } };
        }
        proof {
            let ex = self.existence_results@;
            assert(ex.len() == index + 1);
            assert forall|j: int| 0 <= j < index implies !ex[j] by {
                assert(ex[j] == o.existence_results@[j]);
            }
            match selected {
                Some(i) => {
                    assert(ex[i as int]);
                    assert(i != n - 1);
                    assert(i < index);
                    assert(false);
                },
                None => {
                    assert(!ex[index as int]);
                },
            }
        }
        assert(!exists);
        let next = match &self.kind {
            LinkKind::PagesSite { candidates, .. } => {
                if index + 1 < candidates.len() {
                    Some((candidates[index + 1].0.clone(), candidates[index + 1].1.clone()))
                } else {
                    None
                }
            },
            _ => None,
        };
        if let Some((next_owner, next_repo)) = next {
            let ghost checked_before = views(self.pages_checked@);
            self.pages_checked.push(slug_of(&next_owner, &next_repo));
            proof {
                let pv = pair_views(cands);
                assert(views(self.pages_checked@) =~= checked_before.push(
                    slug(next_owner@, next_repo@),
                ));
                assert(pv.take(index + 2).map_values(|c: (Seq<char>, Seq<char>)| slug(c.0, c.1))
                    =~= pv.take(index + 1).map_values(
                    |c: (Seq<char>, Seq<char>)| slug(c.0, c.1),
                ).push(slug(next_owner@, next_repo@)));
            }
            self.stage = Stage::AwaitRepoExists {
                index: index + 1,
                owner: next_owner.clone(),
                repo: next_repo.clone(),
            };
            return LinkStep {
                pauses: 1,
                action: LinkAction::CheckRepoExists { owner: next_owner, repo: next_repo },
            };
        }
        // every candidate was checked and none exists
        assert(selected is None);
        let message = unresolved_pages_message(self.url.as_str(), &self.pages_checked);
        self.errors.push(message);
        assert(views(self.errors@) =~= errors_after.push(
            unresolved_pages_text(self.url@, views(self.pages_checked@)),
        ));
        let (stage, step) = discovery_step(&self.url, self.skip_external, 2);
        self.stage = stage;
        step
    }

    /// The record of the collection: the link's kind description, the
    /// collected data and errors, the discovery status (`skipped` with no
    /// sources where external discovery was skipped, else `hacker_news` with
    /// the status and mention count of the search), the fetch time, and the
    /// collector's version.
    pub fn into_record(self, collector_version: &'static str) -> (r: LinkRecord)
        ensures
            r.input_url == self.url,
            r.canonical_url == self.canonical_url,
            (r.link_kind@, opt_view(r.owner), opt_view(r.repo), opt_view(r.file_path))
                == describe_spec(self.kind@),
            r.repo_data == self.repo_data,
            r.gist_data == self.gist_data,
            r.pages_candidates_checked == self.pages_checked,
            r.pages_resolved_repo == self.pages_resolved,
            r.external_mentions == self.mentions,
            r.external_discovery.skipped == self.skip_external,
            r.external_discovery.sources@ == if self.skip_external {
                Seq::<&'static str>::empty()
            } else {
                seq!["hacker_news"]
            },
            r.external_discovery.coverage == DISCOVERY_COVERAGE,
            r.external_discovery.hacker_news_query == HACKER_NEWS_QUERY,
            r.external_discovery.hacker_news_status == self.hn_status,
            r.external_discovery.hacker_news_mention_count == self.mentions@.len(),
            r.fetch_errors == self.errors,
            r.collector_version == collector_version,
            exists|reading: Option<(u64, u32)>|
                (reading matches Some(x) ==> x.1 < 1_000_000_000) && r.fetched_at@
                    == timestamp_spec(reading),
    {
        let (kind_name, owner, repo, file_path) = describe_kind(&self.kind);
        let mut sources: Vec<&'static str> = Vec::new();
        if !self.skip_external {
            sources.push("hacker_news");
        }
        let count = self.mentions.len();
        let fetched_at = now_rfc3339();
        LinkRecord {
            input_url: self.url,
            canonical_url: self.canonical_url,
            link_kind: kind_name,
            owner,
            repo,
            file_path,
            repo_data: self.repo_data,
            gist_data: self.gist_data,
            pages_candidates_checked: self.pages_checked,
            pages_resolved_repo: self.pages_resolved,
            external_mentions: self.mentions,
            external_discovery: ExternalDiscovery {
                skipped: self.skip_external,
                sources,
                coverage: DISCOVERY_COVERAGE,
                hacker_news_query: HACKER_NEWS_QUERY,
                hacker_news_status: self.hn_status,
                hacker_news_mention_count: count,
            },
            fetch_errors: self.errors,
            fetched_at,
            collector_version,
        }
    }
}

/// What `chrono::DateTime::from_timestamp(secs, nanos)` followed by
/// `to_rfc3339()` makes of an instant: `None` where chrono cannot represent
/// it, else its RFC 3339 text in UTC.
pub uninterp spec fn rfc3339_of_instant(secs: i64, nanos: u32) -> Option<Seq<char>>;

/// Calls `chrono::DateTime::from_timestamp` and formats the result with
/// `to_rfc3339`. The contract claims only that the outcome is a function
/// of the instant (`rfc3339_of_instant`); the calendar arithmetic and the
/// format are chrono's own work. Neither call panics: `from_timestamp`
/// answers `None` out of range, and every field it writes fits the format.
#[verifier::external_body]
fn format_rfc3339(secs: i64, nanos: u32) -> (r: Option<String>)
    ensures
        match r {
            Some(t) => rfc3339_of_instant(secs, nanos) == Some(t@),
            None => rfc3339_of_instant(secs, nanos) is None,
        },
{
    chrono::DateTime::from_timestamp(secs, nanos).map(|d| d.to_rfc3339())
}

/// The text of a clock reading: the RFC 3339 form of its instant
/// (`reading_instant`), empty where chrono cannot represent the instant.
pub open spec fn timestamp_spec(reading: Option<(u64, u32)>) -> Seq<char> {
    let i = reading_instant(reading);
    match rfc3339_of_instant(i.0, i.1) {
        Some(t) => t,
        None => Seq::empty(),
    }
}

/// `timestamp_spec`, computed.
pub fn timestamp_text(reading: Option<(u64, u32)>) -> (t: String)
    ensures
        t@ == timestamp_spec(reading),
{
    let (secs, nanos) = instant_of_reading(reading);
    match format_rfc3339(secs, nanos) {
        Some(text) => text,
        None => String::new(),
    }
}

/// The current time as RFC 3339 text, read from the system clock (a clock
/// before the epoch reads as the epoch).
pub fn now_rfc3339() -> (t: String)
    ensures
        exists|reading: Option<(u64, u32)>|
            (reading matches Some(x) ==> x.1 < 1_000_000_000) && t@ == timestamp_spec(reading),
{
    let reading = system_clock();
    timestamp_text(reading)
}

// ---------------------------------------------------------------------
// Laws
// ---------------------------------------------------------------------

/// Every answered step brings the job strictly closer to its end, so the
/// collection of a link always finishes, after at most
/// `remaining_work` answered steps.
pub proof fn lemma_every_step_makes_progress(o: LinkJob, n: LinkJob, event: LinkEvent, step: LinkStep)
    requires
        well_formed(o),
        answers(o.stage, event),
        transition(o, n, event, step),
    ensures
        remaining_work(n) < remaining_work(o),
        step.action is Finish <==> n.stage is Finished,
{
    assert(n.kind == o.kind);
    match o.stage {
        Stage::AwaitRepoExists { index, .. } => {
            let cands = candidates_of(o.kind);
            assert(index < cands.len());
            assert(remaining_work(o) == 6 + cands.len() - index);
            if let LinkEvent::RepoExists(res) = event {
                if res != Ok::<bool, String>(true) && index + 1 < cands.len() {
                    assert(remaining_work(n) == 6 + cands.len() - (index + 1));
                }
            }
        },
        _ => {},
    }
}

/// The outcome of the Hacker News search touches nothing that GitHub
/// collection produced: repository, gist and Pages results stay as they
/// were, whether the search succeeded or failed. A success with zero hits
/// is status `ok` and adds no error; a failure is status `error` and adds
/// exactly one error naming `hacker_news`.
pub proof fn lemma_discovery_outcome_is_isolated(
    o: LinkJob,
    n: LinkJob,
    res: Result<Vec<ExternalMention>, String>,
    step: LinkStep,
)
    requires
        o.stage is AwaitHackerNews,
        transition(o, n, LinkEvent::HackerNews(res), step),
    ensures
        n.repo_data == o.repo_data,
        n.gist_data == o.gist_data,
        n.pages_resolved == o.pages_resolved,
        n.pages_checked == o.pages_checked,
        res is Ok ==> n.hn_status == "ok" && n.errors == o.errors,
        res matches Ok(found) && found@.len() == 0 ==> n.mentions@.len() == 0,
        res matches Err(e) ==> n.hn_status == "error" && views(n.errors@) == views(o.errors@).push(
            "hacker_news: "@ + e@,
        ),
{
}

/// A failing repository sub-call (languages, contributors, releases)
/// costs only its own field: the collected repository facts survive, one
/// error is recorded, and collection goes on to the next call.
pub proof fn lemma_sub_call_failure_is_isolated(o: LinkJob, n: LinkJob, event: LinkEvent, step: LinkStep)
    requires
        answers(o.stage, event),
        transition(o, n, event, step),
        match event {
            LinkEvent::Languages(Err(_)) | LinkEvent::Contributors(Err(_)) | LinkEvent::Releases(
                Err(_),
            ) => true,
            _ => false,
        },
    ensures
        n.repo_data == o.repo_data,
        views(n.errors@).len() == views(o.errors@).len() + 1,
        !(step.action is Finish) || o.skip_external,
{
}

/// Pages resolution: the first candidate found to exist is the one
/// resolved, and no later candidate is checked (the next action collects
/// it); a candidate found missing leads to the next candidate, or, after
/// the last, to the recorded "no candidate resolved" error.
pub proof fn lemma_first_existing_candidate_wins(
    o: LinkJob,
    n: LinkJob,
    res: Result<bool, String>,
    step: LinkStep,
)
    requires
        well_formed(o),
        o.stage is AwaitRepoExists,
        transition(o, n, LinkEvent::RepoExists(res), step),
    ensures
        res == Ok::<bool, String>(true) ==> n.pages_checked == o.pages_checked && n.stage
            is AwaitRepository && step.action is QueryRepository,
        res != Ok::<bool, String>(true) ==> n.pages_resolved == o.pages_resolved,
        forall|j: int| 0 <= j < o.existence_results@.len() ==> !o.existence_results@[j],
{
}

// ---- Whole runs -----------------------------------------------------------

/// A job as `LinkJob::new` starts it: nothing collected yet, discovery
/// not run.
pub open spec fn started(job: LinkJob) -> bool {
    &&& job.repo_data is None
    &&& job.gist_data is None
    &&& job.existence_results@.len() == 0
    &&& job.pages_resolved is None
    &&& job.mentions@.len() == 0
    &&& job.hn_status == "skipped"
}

/// A run of one link's collection: `jobs[0]` is the job as `LinkJob::new`
/// starts it, with first step `steps[0]`; each later job is the one before
/// after `advance` with `events[i]`, an answer to its pending action, which
/// took step `steps[i + 1]`.
pub open spec fn is_run(jobs: Seq<LinkJob>, events: Seq<LinkEvent>, steps: Seq<LinkStep>) -> bool {
    &&& jobs.len() == events.len() + 1
    &&& steps.len() == jobs.len()
    &&& started(jobs[0])
    &&& first_transition(jobs[0], steps[0])
    &&& forall|i: int|
        #![trigger events[i]]
        0 <= i < events.len() ==> answers(jobs[i].stage, events[i]) && transition(
            jobs[i],
            jobs[i + 1],
            events[i],
            steps[i + 1],
        )
}

/// Whether an action is a call to GitHub.
pub open spec fn is_github_call(a: LinkAction) -> bool {
    !(a is SearchHackerNews || a is Finish)
}

/// The fixed error of a kind that is not collected.
pub open spec fn not_collected_error(kind: LinkKind) -> Seq<char> {
    match kind {
        LinkKind::UserOrOrgProfile { .. } => PROFILE_NOT_COLLECTED_ERROR@,
        LinkKind::UnsupportedGithubUrl => UNSUPPORTED_URL_ERROR@,
        _ => UNKNOWN_URL_ERROR@,
    }
}

/// The error that a repository sub-call's outcome adds (none for a
/// success).
pub open spec fn sub_call_errors(event: LinkEvent) -> Seq<Seq<char>> {
    match event {
        LinkEvent::Languages(Err(e)) => seq!["languages: "@ + e@],
        LinkEvent::Contributors(Err(e)) => seq!["contributors_count: "@ + e@],
        LinkEvent::Releases(Err(e)) => seq!["releases: "@ + e@],
        _ => Seq::empty(),
    }
}

/// Only the last event of a run can be the search's outcome: after it the
/// job is finished and answers nothing more.
proof fn lemma_search_outcome_is_last(
    jobs: Seq<LinkJob>,
    events: Seq<LinkEvent>,
    steps: Seq<LinkStep>,
    j: int,
)
    requires
        is_run(jobs, events, steps),
        0 <= j < events.len(),
        events[j] is HackerNews,
    ensures
        j == events.len() - 1,
        jobs[j].stage is AwaitHackerNews,
        jobs[j + 1].stage is Finished,
{
    assert(answers(jobs[j].stage, events[j]));
    if j + 1 < events.len() {
        assert(answers(jobs[j + 1].stage, events[j + 1]));
    }
}

/// Until the search's outcome arrives, discovery is untouched: status
/// `skipped`, no mentions; the job reaches the search only where external
/// discovery is on, and finishes only where it is off.
proof fn lemma_before_search(jobs: Seq<LinkJob>, events: Seq<LinkEvent>, steps: Seq<LinkStep>, i: int)
    requires
        is_run(jobs, events, steps),
        0 <= i < jobs.len(),
        forall|j: int| 0 <= j < i ==> !(#[trigger] events[j] is HackerNews),
    ensures
        jobs[i].hn_status == "skipped",
        jobs[i].mentions@.len() == 0,
        jobs[i].skip_external == jobs[0].skip_external,
        jobs[i].stage is Finished ==> jobs[0].skip_external,
        jobs[i].stage is AwaitHackerNews ==> !jobs[0].skip_external,
    decreases i,
{
    if i > 0 {
        lemma_before_search(jobs, events, steps, i - 1);
        assert(!(events[i - 1] is HackerNews));
        assert(answers(jobs[i - 1].stage, events[i - 1]));
        assert(transition(jobs[i - 1], jobs[i], events[i - 1], steps[i]));
    }
}

/// A link's run records its Hacker News outcome: where external discovery
/// is skipped, no search is made and the status stays `skipped` with no
/// mentions; otherwise the search is the run's last call, and its outcome
/// decides: status `ok` with exactly the mentions found, or status `error`
/// with the failure recorded as the last fetch error.
pub proof fn lemma_run_records_search_outcome(
    jobs: Seq<LinkJob>,
    events: Seq<LinkEvent>,
    steps: Seq<LinkStep>,
)
    requires
        is_run(jobs, events, steps),
        jobs.last().stage is Finished,
    ensures
        jobs[0].skip_external ==> {
            &&& jobs.last().hn_status == "skipped"
            &&& jobs.last().mentions@.len() == 0
            &&& forall|j: int| 0 <= j < events.len() ==> !(#[trigger] events[j] is HackerNews)
        },
        !jobs[0].skip_external ==> {
            &&& events.len() >= 1
            &&& forall|j: int| 0 <= j < events.len() - 1 ==> !(#[trigger] events[j] is HackerNews)
            &&& match events.last() {
                LinkEvent::HackerNews(Ok(found)) => jobs.last().hn_status == "ok"
                    && jobs.last().mentions == found,
                LinkEvent::HackerNews(Err(e)) => jobs.last().hn_status == "error" && views(
                    jobs.last().errors@,
                ).last() == "hacker_news: "@ + e@,
                _ => false,
            }
        },
{
    let last = events.len() - 1;
    assert forall|j: int| 0 <= j < last implies !(#[trigger] events[j] is HackerNews) by {
        if events[j] is HackerNews {
            lemma_search_outcome_is_last(jobs, events, steps, j);
        }
    }
    if events.len() == 0 {
        lemma_before_search(jobs, events, steps, 0);
    } else if events[last] is HackerNews {
        lemma_search_outcome_is_last(jobs, events, steps, last);
        lemma_before_search(jobs, events, steps, last);
        assert(transition(jobs[last], jobs[last + 1], events[last], steps[last + 1]));
        assert(jobs[last + 1] == jobs.last());
    } else {
        lemma_before_search(jobs, events, steps, jobs.len() - 1);
    }
}

/// A profile, an unsupported GitHub URL or an unknown URL is not
/// collected: its fixed error is the first fetch error, no GitHub request
/// is made (only the search, or nothing), and no repository or gist data
/// is recorded.
pub proof fn lemma_uncollected_kinds_make_no_github_request(
    jobs: Seq<LinkJob>,
    events: Seq<LinkEvent>,
    steps: Seq<LinkStep>,
)
    requires
        is_run(jobs, events, steps),
        jobs[0].kind is UserOrOrgProfile || jobs[0].kind is UnsupportedGithubUrl
            || jobs[0].kind is Unknown,
    ensures
        events.len() <= 1,
        forall|i: int| 0 <= i < steps.len() ==> !is_github_call(#[trigger] steps[i].action),
        forall|i: int|
            0 <= i < jobs.len() ==> {
                &&& (#[trigger] jobs[i]).repo_data is None
                &&& jobs[i].gist_data is None
                &&& views(jobs[i].errors@).len() >= 1
                &&& views(jobs[i].errors@)[0] == not_collected_error(jobs[0].kind)
            },
{
    if events.len() >= 1 {
        assert(answers(jobs[0].stage, events[0]));
        assert(transition(jobs[0], jobs[1], events[0], steps[1]));
        if events.len() >= 2 {
            assert(answers(jobs[1].stage, events[1]));
        }
        assert(views(jobs[1].errors@)[0] == views(jobs[0].errors@)[0]);
    }
}

/// After the GraphQL query's outcome `events[0]`: on failure, its error
/// alone and no repository data, and nothing but the search after it; on
/// success, the repository facts, then the languages, contributors and
/// releases outcomes in that order, each failure adding its own error.
pub open spec fn repository_calls_ordered(jobs: Seq<LinkJob>, events: Seq<LinkEvent>) -> bool {
    match events[0] {
        LinkEvent::Repository(Err(x)) => {
            &&& views(jobs[1].errors@) == seq!["graphql_repo: "@ + x@]
            &&& jobs[1].repo_data is None
            &&& forall|i: int| 1 <= i < events.len() ==> #[trigger] events[i] is HackerNews
        },
        LinkEvent::Repository(Ok(node)) => {
            &&& jobs[1].repo_data matches Some(d) && repo_data_of(d, node)
            &&& views(jobs[1].errors@).len() == 0
            &&& events.len() > 1 ==> events[1] is Languages
            &&& events.len() > 2 ==> events[2] is Contributors
            &&& events.len() > 3 ==> events[3] is Releases
            &&& forall|i: int|
                1 <= i < events.len() && i <= 3 ==> views(jobs[i + 1].errors@) == views(
                    jobs[i].errors@,
                ) + sub_call_errors(#[trigger] events[i])
            &&& forall|i: int| 4 <= i < events.len() ==> #[trigger] events[i] is HackerNews
        },
        _ => false,
    }
}

/// The repository calls of a repository link come in a fixed order:
/// the GraphQL query first; where it fails, its error alone is recorded
/// and no sub-call follows (only the search); where it succeeds, the
/// repository facts are recorded and the languages, contributors and
/// releases calls follow in that order, each failure adding its own error
/// in turn.
pub proof fn lemma_repository_calls_in_order(
    jobs: Seq<LinkJob>,
    events: Seq<LinkEvent>,
    steps: Seq<LinkStep>,
)
    requires
        is_run(jobs, events, steps),
        jobs[0].kind is RepoRoot || jobs[0].kind is RepoFile,
    ensures
        events.len() >= 1 ==> events[0] is Repository && repository_calls_ordered(jobs, events),
{
    if events.len() >= 1 {
        assert(answers(jobs[0].stage, events[0]));
        assert(transition(jobs[0], jobs[1], events[0], steps[1]));
        if events[0] is Repository {
            lemma_repository_tail(jobs, events, steps);
        }
    }
}

proof fn lemma_repository_tail(jobs: Seq<LinkJob>, events: Seq<LinkEvent>, steps: Seq<LinkStep>)
    requires
        is_run(jobs, events, steps),
        jobs[0].kind is RepoRoot || jobs[0].kind is RepoFile,
        events.len() >= 1,
        events[0] is Repository,
    ensures
        repository_calls_ordered(jobs, events),
{
    assert(answers(jobs[0].stage, events[0]));
    assert(transition(jobs[0], jobs[1], events[0], steps[1]));
    assert(views(jobs[0].errors@) =~= Seq::<Seq<char>>::empty());
    let n = events.len();
    if events[0] is Repository && n > 1 {
        assert(answers(jobs[1].stage, events[1]));
        assert(transition(jobs[1], jobs[2], events[1], steps[2]));
    }
    if n > 2 {
        assert(answers(jobs[2].stage, events[2]));
        assert(transition(jobs[2], jobs[3], events[2], steps[3]));
    }
    if n > 3 {
        assert(answers(jobs[3].stage, events[3]));
        assert(transition(jobs[3], jobs[4], events[3], steps[4]));
    }
    if n > 4 {
        assert(answers(jobs[4].stage, events[4]));
        assert(transition(jobs[4], jobs[5], events[4], steps[5]));
    }
    if n > 5 {
        assert(answers(jobs[5].stage, events[5]));
    }
    match events[0] {
        LinkEvent::Repository(Err(_)) => {
            if n > 2 {
                assert(answers(jobs[2].stage, events[2]));
            }
        },
        _ => {
            assert forall|i: int| 1 <= i < n && i <= 3 implies views(jobs[i + 1].errors@)
                == views(jobs[i].errors@) + sub_call_errors(#[trigger] events[i]) by {
                assert(answers(jobs[i].stage, events[i]));
                assert(transition(jobs[i], jobs[i + 1], events[i], steps[i + 1]));
            }
        },
    }
}

} // verus!
