//! The GitHub side of collection: the response types (a direct
//! transcription of the fields the GraphQL query and REST calls request),
//! and the decisions made on each response — what a GraphQL envelope
//! means, how release pages chain, how a contributor count is read from a
//! `Link` header, and when to pause for the rate limit.
//!
//! Sending the requests and decoding JSON into these types is done by the
//! program around the library; the decisions below are all it consults.

use vstd::prelude::*;

use crate::classify::{parse_url, parsed_view, url_parse};
use crate::discovery::JsonValue;
use crate::retry::{
    header_as_i64, header_i64, is_success, proactive_wait_secs, proactive_wait_spec,
    status_is_success, HeaderField,
    ResponseHeaders, STATUS_NOT_FOUND,
};
use crate::text::{
    chars_of, contains_chars, contains_seq, join_from, join_parts, parse_i64, parse_i64_spec,
    split_chars, split_on, str_is, string_of, trim_bounds, trim_end_char, trim_end_char_to,
    trim_start_char, trim_start_char_from, trim_ws, views,
};

verus! {

/// GitHub REST/GraphQL API version pinned on every request.
pub const GITHUB_API_VERSION: &'static str = "2022-11-28";

/// Pause proactively once no more than this many calls remain.
pub const RATE_LIMIT_FLOOR: i64 = 2;

/// Never pause longer than this waiting out a rate-limit window.
pub const MAX_PROACTIVE_WAIT_SECS: i64 = 900;

// ---- GraphQL response types -------------------------------------------

/// The envelope of every GraphQL response.
#[derive(Debug)]
pub struct GraphQlEnvelope<T> {
    pub data: Option<T>,
    pub errors: Option<Vec<GraphQlError>>,
}

#[derive(Debug)]
pub struct GraphQlError {
    pub message: String,
}

#[derive(Debug)]
pub struct RepoQueryData {
    pub repository: Option<RepositoryNode>,
}

#[derive(Debug)]
pub struct RepositoryNode {
    pub description: Option<String>,
    pub homepage_url: Option<String>,
    pub license_info: Option<LicenseInfo>,
    pub stargazer_count: Option<i64>,
    pub fork_count: Option<i64>,
    pub watchers: Option<CountWrapper>,
    pub open_issues: Option<CountWrapper>,
    pub closed_issues: Option<CountWrapper>,
    pub primary_language: Option<NameWrapper>,
    pub created_at: Option<String>,
    pub pushed_at: Option<String>,
    pub default_branch_ref: Option<DefaultBranchRef>,
    pub repository_topics: Option<TopicsConnection>,
    pub releases: Option<CountWrapper>,
}

impl Default for RepositoryNode {
    fn default() -> (n: RepositoryNode)
        ensures
            n.description is None,
            n.homepage_url is None,
            n.license_info is None,
            n.stargazer_count is None,
            n.fork_count is None,
            n.watchers is None,
            n.open_issues is None,
            n.closed_issues is None,
            n.primary_language is None,
            n.created_at is None,
            n.pushed_at is None,
            n.default_branch_ref is None,
            n.repository_topics is None,
            n.releases is None,
    {
        RepositoryNode {
            description: None,
            homepage_url: None,
            license_info: None,
            stargazer_count: None,
            fork_count: None,
            watchers: None,
            open_issues: None,
            closed_issues: None,
            primary_language: None,
            created_at: None,
            pushed_at: None,
            default_branch_ref: None,
            repository_topics: None,
            releases: None,
        }
    }
}

#[derive(Debug)]
pub struct LicenseInfo {
    pub key: Option<String>,
    pub name: Option<String>,
}

#[derive(Debug)]
pub struct CountWrapper {
    pub total_count: Option<i64>,
}

#[derive(Debug)]
pub struct NameWrapper {
    pub name: Option<String>,
}

#[derive(Debug)]
pub struct DefaultBranchRef {
    pub name: Option<String>,
    pub target: Option<CommitTarget>,
}

#[derive(Debug)]
pub struct CommitTarget {
    pub history: Option<CountWrapper>,
}

#[derive(Debug)]
pub struct TopicsConnection {
    pub nodes: Vec<TopicNode>,
}

#[derive(Debug)]
pub struct TopicNode {
    pub topic: Option<TopicName>,
}

#[derive(Debug)]
pub struct TopicName {
    pub name: Option<String>,
}

#[derive(Debug)]
pub struct ReleasesQueryData {
    pub repository: Option<RepositoryReleases>,
}

#[derive(Debug)]
pub struct RepositoryReleases {
    pub releases: Option<ReleasesConnection>,
}

#[derive(Debug)]
pub struct ReleasesConnection {
    pub nodes: Vec<ReleaseNode>,
    pub page_info: PageInfo,
}

#[derive(Debug)]
pub struct ReleaseNode {
    pub tag_name: Option<String>,
    pub name: Option<String>,
    pub published_at: Option<String>,
}

#[derive(Debug)]
pub struct PageInfo {
    pub has_next_page: bool,
    pub end_cursor: Option<String>,
}

// ---- REST response types ----------------------------------------------

/// A gist, as `GET /gists/{id}` returns it.
#[derive(Debug)]
pub struct GistResponse {
    pub description: Option<String>,
    pub owner: Option<GistOwner>,
    pub created_at: Option<String>,
    pub updated_at: Option<String>,
    pub comments: Option<i64>,
    /// The revisions, newest first.
    pub history: Vec<JsonValue>,
    /// The files by name, in key order, each name once
    /// (`keys_ordered`, as the response's JSON object holds them).
    pub files: Vec<(String, JsonValue)>,
}

impl Default for GistResponse {
    fn default() -> (g: GistResponse)
        ensures
            g.description is None,
            g.owner is None,
            g.created_at is None,
            g.updated_at is None,
            g.comments is None,
            g.history@.len() == 0,
            g.files@.len() == 0,
    {
        GistResponse {
            description: None,
            owner: None,
            created_at: None,
            updated_at: None,
            comments: None,
            history: Vec::new(),
            files: Vec::new(),
        }
    }
}

#[derive(Debug)]
pub struct GistOwner {
    pub login: Option<String>,
}

// ---- Decisions on GraphQL envelopes ------------------------------------

/// Why a GraphQL response yields no repository.
#[derive(Debug)]
pub enum GraphQlFailure {
    /// The response carried an `errors` array; its messages joined by `; `.
    Errors(String),
    /// No error, but no repository (or no releases connection) either.
    Missing,
}

/// The messages of a GraphQL `errors` array.
pub open spec fn error_messages(errors: Seq<GraphQlError>) -> Seq<Seq<char>> {
    errors.map_values(|e: GraphQlError| e.message@)
}

/// The messages of `errors` joined by `; `.
pub fn join_error_messages(errors: &Vec<GraphQlError>) -> (s: String)
    ensures
        s@ == join_parts(error_messages(errors@), "; "@),
{
    let mut messages: Vec<String> = Vec::new();
    let mut i: usize = 0;
    while i < errors.len()
        invariant
            i <= errors@.len(),
            messages@.len() == i,
            views(messages@) == error_messages(errors@.subrange(0, i as int)),
        decreases errors@.len() - i,
    {
        let m = errors[i].message.clone();
        let ghost before = messages@;
        assert(m@ == errors@[i as int].message@);
        messages.push(m);
        i = i + 1;
        assert forall|k: int| 0 <= k < i implies #[trigger] views(messages@)[k] == error_messages(
            errors@.subrange(0, i as int),
        )[k] by {
            if k < i - 1 {
                assert(views(before)[k] == error_messages(errors@.subrange(0, i - 1))[k]);
                assert(messages@[k] == before[k]);
            }
        }
        assert(views(messages@) =~= error_messages(errors@.subrange(0, i as int)));
    }
    assert(errors@.subrange(0, errors@.len() as int) =~= errors@);
    let s = join_from(&messages, 0, "; ");
    assert(views(messages@).skip(0) =~= views(messages@));
    s
}

/// The repository of a GraphQL response: an `errors` array (even an empty
/// one) is a failure carrying its joined messages, whatever `data` holds;
/// otherwise the response must hold a repository.
pub fn repository_from_envelope(envelope: GraphQlEnvelope<RepoQueryData>) -> (r: Result<
    RepositoryNode,
    GraphQlFailure,
>)
    ensures
        match envelope.errors {
            Some(errors) => r matches Err(GraphQlFailure::Errors(m)) && m@ == join_parts(
                error_messages(errors@),
                "; "@,
            ),
            None => match envelope.data {
                Some(RepoQueryData { repository: Some(node) }) => r == Ok::<
                    RepositoryNode,
                    GraphQlFailure,
                >(node),
                _ => r matches Err(GraphQlFailure::Missing),
            },
        },
{
    if let Some(errors) = &envelope.errors {
        return Err(GraphQlFailure::Errors(join_error_messages(errors)));
    }
    match envelope.data {
        Some(RepoQueryData { repository: Some(node) }) => Ok(node),
        _ => Err(GraphQlFailure::Missing),
    }
}

/// What the release-page loop does after one page.
#[derive(Debug)]
pub enum PageStep {
    /// Ask for the page after this cursor.
    Next(String),
    /// Every page has been read.
    Done,
    /// Stop with this failure.
    Failed(ReleasesFailure),
}

#[derive(Debug)]
pub enum ReleasesFailure {
    /// The page carried an `errors` array; its messages joined by `; `.
    Errors(String),
    /// The response holds no releases connection.
    MissingConnection,
    /// The page claims a next page but gives no cursor.
    MissingCursor,
    /// The response's status was not a success.
    Status(u16),
    /// The body of a successful response is not a releases page.
    BodyNotJson,
}

/// The releases connection of a releases-page response, if it has one.
pub open spec fn releases_connection(envelope: GraphQlEnvelope<ReleasesQueryData>) -> Option<
    ReleasesConnection,
> {
    match envelope.data {
        Some(ReleasesQueryData { repository: Some(RepositoryReleases { releases: Some(c) }) }) => Some(
            c,
        ),
        _ => None,
    }
}

/// Takes one page of releases: its nodes are appended to `collected` in the
/// order GitHub returned them (so order across pages is preserved, never
/// re-sorted), then the loop continues at the page's cursor or ends.
pub fn take_releases_page(
    collected: &mut Vec<ReleaseNode>,
    envelope: GraphQlEnvelope<ReleasesQueryData>,
) -> (step: PageStep)
    ensures
        match envelope.errors {
            Some(errors) => {
                &&& step matches PageStep::Failed(ReleasesFailure::Errors(m))
                &&& m@ == join_parts(error_messages(errors@), "; "@)
                &&& final(collected)@ == old(collected)@
            },
            None => match releases_connection(envelope) {
                None => step matches PageStep::Failed(ReleasesFailure::MissingConnection)
                    && final(collected)@ == old(collected)@,
                Some(c) => {
                    &&& final(collected)@ == old(collected)@ + c.nodes@
                    &&& if !c.page_info.has_next_page {
                        step is Done
                    } else {
                        match c.page_info.end_cursor {
                            Some(cursor) => step == PageStep::Next(cursor),
                            None => step matches PageStep::Failed(
                                ReleasesFailure::MissingCursor,
                            ),
                        }
                    }
                },
            },
        },
{
    if let Some(errors) = &envelope.errors {
        return PageStep::Failed(ReleasesFailure::Errors(join_error_messages(errors)));
    }
    let connection = match envelope.data {
        Some(ReleasesQueryData { repository: Some(RepositoryReleases { releases: Some(c) }) }) => c,
        _ => {
            return PageStep::Failed(ReleasesFailure::MissingConnection);
        },
    };
    let ReleasesConnection { nodes, page_info } = connection;
    let mut nodes = nodes;
    collected.append(&mut nodes);
    if !page_info.has_next_page {
        return PageStep::Done;
    }
    match page_info.end_cursor {
        Some(cursor) => PageStep::Next(cursor),
        None => PageStep::Failed(ReleasesFailure::MissingCursor),
    }
}

// ---- The release-page loop --------------------------------------------

/// One releases-page response, as the paging loop reads it.
pub type ReleasesPage = GraphQlEnvelope<ReleasesQueryData>;

/// The release-page loop in progress: the releases read so far, in order,
/// and the cursor that the next request passes as `after` (`None` for the
/// first page).
#[derive(Debug)]
pub struct ReleasesPaging {
    pub collected: Vec<ReleaseNode>,
    pub after: Option<String>,
}

/// Where the loop stands after a page.
#[derive(Debug)]
pub enum PagingResult {
    /// Request the next page, with the state's cursor.
    More(ReleasesPaging),
    /// Every page has been read: these are all the releases, in order.
    Finished(Vec<ReleaseNode>),
    /// The loop stops with this failure and no releases.
    Failed(ReleasesFailure),
}

/// `PagingResult` with the releases as sequences and the cursor as text.
pub enum PagingView {
    More { collected: Seq<ReleaseNode>, after: Option<Seq<char>> },
    Finished(Seq<ReleaseNode>),
    Failed,
}

pub open spec fn paging_view(r: PagingResult) -> PagingView {
    match r {
        PagingResult::More(p) => PagingView::More {
            collected: p.collected@,
            after: match p.after {
                Some(a) => Some(a@),
                None => None,
            },
        },
        PagingResult::Finished(v) => PagingView::Finished(v@),
        PagingResult::Failed(_) => PagingView::Failed,
    }
}

/// Where the loop stands after reading `page` with `collected` read before.
pub open spec fn paging_next(collected: Seq<ReleaseNode>, page: ReleasesPage) -> PagingView {
    match page.errors {
        Some(_) => PagingView::Failed,
        None => match releases_connection(page) {
            None => PagingView::Failed,
            Some(c) => if !c.page_info.has_next_page {
                PagingView::Finished(collected + c.nodes@)
            } else {
                match c.page_info.end_cursor {
                    Some(cursor) => PagingView::More {
                        collected: collected + c.nodes@,
                        after: Some(cursor@),
                    },
                    None => PagingView::Failed,
                }
            },
        },
    }
}

/// The state of the loop before any page: nothing read, no cursor.
pub open spec fn paging_start() -> PagingView {
    PagingView::More { collected: Seq::empty(), after: None }
}

/// Where the loop stands after reading `pages` in turn from `state`; a
/// finished or failed loop reads no further page.
pub open spec fn run_pages(state: PagingView, pages: Seq<ReleasesPage>) -> PagingView
    decreases pages.len(),
{
    if pages.len() == 0 {
        state
    } else {
        match state {
            PagingView::More { collected, .. } => run_pages(
                paging_next(collected, pages[0]),
                pages.skip(1),
            ),
            _ => state,
        }
    }
}

/// A page that leads on to another: no errors, a connection that claims a
/// next page, and the cursor for it.
pub open spec fn page_continues(page: ReleasesPage) -> bool {
    &&& page.errors is None
    &&& releases_connection(page) matches Some(c)
    &&& c.page_info.has_next_page
    &&& c.page_info.end_cursor is Some
}

/// The last page: no errors and a connection that claims no next page.
pub open spec fn page_ends(page: ReleasesPage) -> bool {
    &&& page.errors is None
    &&& releases_connection(page) matches Some(c)
    &&& !c.page_info.has_next_page
}

/// A page that stops the loop with a failure: an `errors` field, no
/// releases connection, or a claimed next page without a cursor.
pub open spec fn page_fails(page: ReleasesPage) -> bool {
    !page_continues(page) && !page_ends(page)
}

/// The releases of a page (none where it has no connection).
pub open spec fn page_nodes(page: ReleasesPage) -> Seq<ReleaseNode> {
    match releases_connection(page) {
        Some(c) => c.nodes@,
        None => Seq::empty(),
    }
}

/// The cursor a page gives for the next request.
pub open spec fn page_cursor(page: ReleasesPage) -> Option<Seq<char>> {
    match releases_connection(page) {
        Some(c) => match c.page_info.end_cursor {
            Some(cursor) => Some(cursor@),
            None => None,
        },
        None => None,
    }
}

/// The releases of `pages`, page after page, each page in its own order.
pub open spec fn all_nodes(pages: Seq<ReleasesPage>) -> Seq<ReleaseNode>
    decreases pages.len(),
{
    if pages.len() == 0 {
        Seq::empty()
    } else {
        all_nodes(pages.drop_last()) + page_nodes(pages.last())
    }
}

/// The loop's state before page `i`: the releases of the earlier pages,
/// and the cursor of the page before (none before the first).
pub open spec fn state_before_page(pages: Seq<ReleasesPage>, i: int) -> PagingView {
    PagingView::More {
        collected: all_nodes(pages.take(i)),
        after: if i == 0 {
            None
        } else {
            page_cursor(pages[i - 1])
        },
    }
}

impl ReleasesPaging {
    /// The loop before its first request.
    pub fn start() -> (p: ReleasesPaging)
        ensures
            p.collected@ == Seq::<ReleaseNode>::empty(),
            p.after is None,
    {
        ReleasesPaging { collected: Vec::new(), after: None }
    }

    /// Reads one page: where it leads on, the next state carries every
    /// release so far and the page's cursor; on the last page, all the
    /// releases; on a failing page, the failure alone.
    pub fn take(self, page: ReleasesPage) -> (r: PagingResult)
        ensures
            paging_view(r) == paging_next(self.collected@, page),
            r matches PagingResult::Failed(f) ==> match page.errors {
                Some(errors) => f matches ReleasesFailure::Errors(m) && m@ == join_parts(
                    error_messages(errors@),
                    "; "@,
                ),
                None => match releases_connection(page) {
                    None => f is MissingConnection,
                    Some(_) => f is MissingCursor,
                },
            },
    {
        let mut collected = self.collected;
        match take_releases_page(&mut collected, page) {
            PageStep::Next(cursor) => PagingResult::More(
                ReleasesPaging { collected, after: Some(cursor) },
            ),
            PageStep::Done => PagingResult::Finished(collected),
            PageStep::Failed(f) => PagingResult::Failed(f),
        }
    }
}

impl ReleasesPaging {
    /// Reads one response of the loop: a status that is not a success, or
    /// a body that is not a releases page (`page` is `None`), ends the loop
    /// with that failure and no releases; otherwise the page is read as by
    /// `take`.
    pub fn take_response(self, status: u16, page: Option<ReleasesPage>) -> (r: PagingResult)
        ensures
            !is_success(status) ==> (r matches PagingResult::Failed(ReleasesFailure::Status(s))
                && s == status),
            is_success(status) && page is None ==> r matches PagingResult::Failed(
                ReleasesFailure::BodyNotJson,
            ),
            is_success(status) && page is Some ==> paging_view(r) == paging_next(
                self.collected@,
                page->0,
            ),
    {
        if !status_is_success(status) {
            return PagingResult::Failed(ReleasesFailure::Status(status));
        }
        match page {
            Some(p) => self.take(p),
            None => PagingResult::Failed(ReleasesFailure::BodyNotJson),
        }
    }
}

/// Release pages concatenate: reading pages p1..pk from the start, where
/// every page but the last leads on and the last ends, gives every
/// release of every page in page order, exactly k requests are made, the
/// first without a cursor and each later one with the cursor of the page
/// before it.
pub proof fn lemma_release_pages_concatenate(pages: Seq<ReleasesPage>)
    requires
        pages.len() >= 1,
        forall|i: int| 0 <= i < pages.len() - 1 ==> page_continues(#[trigger] pages[i]),
        page_ends(pages.last()),
    ensures
        run_pages(paging_start(), pages) == PagingView::Finished(all_nodes(pages)),
        forall|i: int|
            0 <= i < pages.len() ==> run_pages(paging_start(), #[trigger] pages.take(i))
                == state_before_page(pages, i),
{
    assert forall|i: int| 0 <= i < pages.len() implies run_pages(
        paging_start(),
        #[trigger] pages.take(i),
    ) == state_before_page(pages, i) by {
        lemma_pages_prefix(pages, i);
    }
    lemma_pages_prefix(pages, pages.len() - 1);
    let k = pages.len() - 1;
    let before = pages.take(k);
    lemma_run_pages_append(paging_start(), before, pages[k]);
    assert(before.push(pages[k]) =~= pages);
    assert(pages.drop_last() =~= before);
}

/// A failing page ends the loop with a failure and no releases: where
/// every page before page `i` leads on and page `i` fails, the loop has
/// failed after it, and reading further pages changes nothing (no request
/// follows).
pub proof fn lemma_failed_page_gives_no_releases(pages: Seq<ReleasesPage>, i: int)
    requires
        0 <= i < pages.len(),
        forall|j: int| 0 <= j < i ==> page_continues(#[trigger] pages[j]),
        page_fails(pages[i]),
    ensures
        run_pages(paging_start(), pages.take(i + 1)) == PagingView::Failed,
        run_pages(paging_start(), pages) == PagingView::Failed,
{
    lemma_pages_prefix(pages, i);
    lemma_run_pages_append(paging_start(), pages.take(i), pages[i]);
    assert(pages.take(i).push(pages[i]) =~= pages.take(i + 1));
    lemma_run_pages_split(paging_start(), pages.take(i + 1), pages.skip(i + 1));
    assert(pages.take(i + 1) + pages.skip(i + 1) =~= pages);
    lemma_run_pages_stays_failed(pages.skip(i + 1));
}

/// Reading one more page after `pages`.
proof fn lemma_run_pages_append(state: PagingView, pages: Seq<ReleasesPage>, page: ReleasesPage)
    ensures
        run_pages(state, pages.push(page)) == match run_pages(state, pages) {
            PagingView::More { collected, .. } => paging_next(collected, page),
            other => other,
        },
    decreases pages.len(),
{
    let pushed = pages.push(page);
    if pages.len() == 0 {
        assert(pushed.skip(1) =~= Seq::<ReleasesPage>::empty());
        assert(pushed[0] == page);
        match state {
            PagingView::More { collected, .. } => {
                let next = paging_next(collected, page);
                assert(run_pages(next, pushed.skip(1)) == next);
                assert(run_pages(state, pushed) == run_pages(next, pushed.skip(1)));
            },
            _ => {},
        }
    } else {
        assert(pushed.skip(1) =~= pages.skip(1).push(page));
        assert(pushed[0] == pages[0]);
        match state {
            PagingView::More { collected, .. } => {
                let next = paging_next(collected, pages[0]);
                lemma_run_pages_append(next, pages.skip(1), page);
                assert(run_pages(state, pushed) == run_pages(next, pushed.skip(1)));
                assert(run_pages(state, pages) == run_pages(next, pages.skip(1)));
            },
            _ => {},
        }
    }
}

/// Reading `a` then `b` is reading `a + b`.
proof fn lemma_run_pages_split(state: PagingView, a: Seq<ReleasesPage>, b: Seq<ReleasesPage>)
    ensures
        run_pages(state, a + b) == run_pages(run_pages(state, a), b),
    decreases a.len(),
{
    if a.len() == 0 {
        assert(a + b =~= b);
    } else {
        assert((a + b).skip(1) =~= a.skip(1) + b);
        assert((a + b)[0] == a[0]);
        match state {
            PagingView::More { collected, .. } => {
                lemma_run_pages_split(paging_next(collected, a[0]), a.skip(1), b);
            },
            _ => {
                lemma_run_pages_stays(state, b);
            },
        }
    }
}

/// A finished or failed loop reads nothing more.
proof fn lemma_run_pages_stays(state: PagingView, pages: Seq<ReleasesPage>)
    requires
        !(state is More),
    ensures
        run_pages(state, pages) == state,
{
}

proof fn lemma_run_pages_stays_failed(pages: Seq<ReleasesPage>)
    ensures
        run_pages(PagingView::Failed, pages) == PagingView::Failed,
{
}

/// Before page `i`, where every earlier page leads on, the loop holds the
/// releases of the earlier pages and the cursor of the page before.
proof fn lemma_pages_prefix(pages: Seq<ReleasesPage>, i: int)
    requires
        0 <= i < pages.len(),
        forall|j: int| 0 <= j < i ==> page_continues(#[trigger] pages[j]),
    ensures
        run_pages(paging_start(), pages.take(i)) == state_before_page(pages, i),
    decreases i,
{
    if i == 0 {
        assert(pages.take(0) =~= Seq::<ReleasesPage>::empty());
    } else {
        lemma_pages_prefix(pages, i - 1);
        let prev = pages.take(i - 1);
        lemma_run_pages_append(paging_start(), prev, pages[i - 1]);
        assert(prev.push(pages[i - 1]) =~= pages.take(i));
        assert(pages.take(i).drop_last() =~= prev);
        assert(page_continues(pages[i - 1]));
    }
}

/// What `repo_exists` makes of a status: 404 means the repository does not
/// exist (a valid answer, not an error), any success that it does, and
/// every other status is a failure (`None`).
pub fn repo_exists_from_status(status: u16) -> (r: Option<bool>)
    ensures
        r == if status == STATUS_NOT_FOUND {
            Some(false)
        } else if 200 <= status < 300 {
            Some(true)
        } else {
            None::<bool>
        },
{
    if status == STATUS_NOT_FOUND {
        Some(false)
    } else if 200 <= status && status < 300 {
        Some(true)
    } else {
        None
    }
}

// ---- The Link header ----------------------------------------------------

/// The value of the first query pair whose key is `page`.
pub open spec fn first_page_value(pairs: Seq<(Seq<char>, Seq<char>)>) -> Option<Seq<char>>
    decreases pairs.len(),
{
    if pairs.len() == 0 {
        None
    } else if pairs[0].0 == "page"@ {
        Some(pairs[0].1)
    } else {
        first_page_value(pairs.drop_first())
    }
}

/// The URL of one `Link` entry: the text before its first `;`, trimmed,
/// without the surrounding `<` and `>`.
pub open spec fn link_target(entry: Seq<char>) -> Seq<char> {
    trim_end_char(trim_start_char(trim_ws(split_on(entry, ';')[0]), '<'), '>')
}

/// The last page named by the `Link` entries `entries`: the first entry
/// containing `rel="last"` decides — `None` if its URL does not parse,
/// the number in its first `page` query pair if it has one (`None` if that
/// is not a number); an entry without a `page` pair is passed over.
pub open spec fn last_page_of_entries(entries: Seq<Seq<char>>) -> Option<i64>
    decreases entries.len(),
{
    if entries.len() == 0 {
        None
    } else if contains_seq(entries[0], "rel=\"last\""@) {
        match url_parse(link_target(entries[0])) {
            None => None,
            Some(u) => match first_page_value(u.3) {
                Some(v) => parse_i64_spec(v),
                None => last_page_of_entries(entries.drop_first()),
            },
        }
    } else {
        last_page_of_entries(entries.drop_first())
    }
}

/// The `page` of the `rel="last"` entry of an RFC 5988 `Link` header, as
/// GitHub sends on paginated REST endpoints.
pub open spec fn last_page_spec(link_header: Seq<char>) -> Option<i64> {
    last_page_of_entries(split_on(link_header, ','))
}

/// The value of the first `page` pair of `pairs`.
fn page_query_value(pairs: &Vec<(String, String)>) -> (r: Option<String>)
    ensures
        match r {
            Some(v) => first_page_value(crate::classify::pair_views(pairs@)) == Some(v@),
            None => first_page_value(crate::classify::pair_views(pairs@)) is None,
        },
{
    let ghost all = crate::classify::pair_views(pairs@);
    let mut i: usize = 0;
    assert(all.skip(0) =~= all);
    while i < pairs.len()
        invariant
            all == crate::classify::pair_views(pairs@),
            i <= pairs@.len(),
            first_page_value(all.skip(i as int)) == first_page_value(all),
        decreases pairs@.len() - i,
    {
        assert(all.skip(i as int).drop_first() =~= all.skip(i + 1));
        if str_is(pairs[i].0.as_str(), "page") {
            assert(all.skip(i as int)[0] == all[i as int]);
            return Some(pairs[i].1.clone());
        }
        i = i + 1;
    }
    assert(all.skip(i as int) =~= Seq::<(Seq<char>, Seq<char>)>::empty());
    None
}

/// The URL of one `Link` entry.
fn link_entry_target(entry: &Vec<char>) -> (r: String)
    ensures
        r@ == link_target(entry@),
{
    let pieces = split_chars(entry, ';');
    let first = &pieces[0];
    assert(first@ == split_on(entry@, ';')[0]);
    let (lo, hi) = trim_bounds(first, first.len());
    assert(first@.subrange(0, first@.len() as int) =~= first@);
    let lo2 = trim_start_char_from(first, lo, hi, '<');
    let hi2 = trim_end_char_to(first, lo2, hi, '>');
    string_of(first, lo2, hi2)
}

/// Parses an RFC 5988 `Link` header and returns the `page` query value of
/// its `rel="last"` entry, if present.
pub fn parse_last_page(link_header: &str) -> (r: Option<i64>)
    ensures
        r == last_page_spec(link_header@),
{
    let header = chars_of(link_header);
    let entries = split_chars(&header, ',');
    let rel_last = chars_of("rel=\"last\"");
    let ghost all = entries@.map_values(|p: Vec<char>| p@);
    let mut i: usize = 0;
    assert(all.skip(0) =~= all);
    while i < entries.len()
        invariant
            all == entries@.map_values(|p: Vec<char>| p@),
            all == split_on(link_header@, ','),
            rel_last@ == "rel=\"last\""@,
            i <= entries@.len(),
            last_page_of_entries(all.skip(i as int)) == last_page_of_entries(all),
        decreases entries@.len() - i,
    {
        let ghost rest = all.skip(i as int);
        assert(rest.drop_first() =~= all.skip(i + 1));
        assert(rest[0] == entries@[i as int]@);
        let entry = &entries[i];
        if contains_chars(entry, &rel_last) {
            let target = link_entry_target(entry);
            let parsed = parse_url(target.as_str());
            match parsed {
                None => {
                    return None;
                },
                Some(u) => {
                    match page_query_value(&u.query_pairs) {
                        Some(v) => {
                            return parse_i64(v.as_str());
                        },
                        None => {},
                    }
                },
            }
        }
        i = i + 1;
    }
    assert(all.skip(i as int) =~= Seq::<Seq<char>>::empty());
    None
}

/// The contributor count that a `Link` header gives (the page number of
/// its `rel="last"` entry, one contributor per page), if any.
pub fn contributors_from_link(link: &HeaderField) -> (r: Option<i64>)
    ensures
        r == match link.text() {
            Some(t) => last_page_spec(t),
            None => None,
        },
{
    match link {
        HeaderField::Text(t) => parse_last_page(t.as_str()),
        _ => None,
    }
}

/// The contributor count read from a one-page response body: the length of
/// the array, `None` for any other JSON value.
pub fn contributors_from_body(body: &JsonValue) -> (r: Option<i64>)
    ensures
        r == match body {
            JsonValue::Array(a) => Some(a@.len() as i64),
            _ => None::<i64>,
        },
{
    match body {
        JsonValue::Array(a) => Some(a.len() as i64),
        _ => None,
    }
}

/// What a successful contributors response says.
#[derive(Debug, PartialEq, Eq)]
pub enum ContributorsAnswer {
    /// The count, where the response gives one.
    Count(Option<i64>),
    /// The body had to be read and is not JSON.
    BodyNotJson,
}

/// The contributor count of a successful response: the `Link` header's
/// last page where it names one; else the length of the body's array
/// (`body` is `None` where the body is not JSON).
pub fn contributors_from_response(link: &HeaderField, body: &Option<JsonValue>) -> (r:
    ContributorsAnswer)
    ensures
        r == match link.text() {
            Some(t) if last_page_spec(t) is Some => ContributorsAnswer::Count(last_page_spec(t)),
            _ => match body {
                Some(JsonValue::Array(a)) => ContributorsAnswer::Count(Some(a@.len() as i64)),
                Some(_) => ContributorsAnswer::Count(None),
                None => ContributorsAnswer::BodyNotJson,
            },
        },
{
    match contributors_from_link(link) {
        Some(last) => ContributorsAnswer::Count(Some(last)),
        None => match body {
            Some(b) => ContributorsAnswer::Count(contributors_from_body(b)),
            None => ContributorsAnswer::BodyNotJson,
        },
    }
}

/// How long to pause before the next GitHub call, read from a response's
/// `X-RateLimit-Remaining` and `X-RateLimit-Reset` headers: a pause only
/// when at most `RATE_LIMIT_FLOOR` calls remain, never longer than
/// `MAX_PROACTIVE_WAIT_SECS`; the clock is read here.
pub fn throttle_pause_secs(headers: &ResponseHeaders) -> (w: Option<i64>)
    ensures
        exists|now: i64|
            w == proactive_wait_spec(
                header_i64(headers.ratelimit_remaining),
                header_i64(headers.ratelimit_reset),
                RATE_LIMIT_FLOOR,
                MAX_PROACTIVE_WAIT_SECS,
                now,
            ),
        w matches Some(secs) ==> 0 < secs <= MAX_PROACTIVE_WAIT_SECS,
{
    let remaining = header_as_i64(&headers.ratelimit_remaining);
    let reset_epoch = header_as_i64(&headers.ratelimit_reset);
    proactive_wait_secs(remaining, reset_epoch, RATE_LIMIT_FLOOR, MAX_PROACTIVE_WAIT_SECS)
}

} // verus!
