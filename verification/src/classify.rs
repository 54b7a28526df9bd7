//! Turns a raw URL string into a structured `LinkKind` so downstream code
//! knows which GitHub API calls are relevant, and produces the canonical
//! form of a URL recorded beside the input for provenance.
//!
//! Normalization is deliberate, not incidental: the host is lowercased, a
//! trailing `.git` on the repo segment is trimmed (every trailing
//! occurrence), empty path segments are dropped, and query strings and
//! fragments are ignored. `classify` and `canonicalize` apply the same
//! rules; the law `lemma_canonical_form_agrees_with_kind` below states how the
//! two agree.
//!
//! Parsing the URL itself (WHATWG URL syntax, IDNA, percent-encoding
//! rules) is the `url` crate's work: it is reached through `parse_url`,
//! whose result is named by `url_parse`. Everything after that call is
//! verified here, in `classify_parsed` and `canonicalize_parsed`.

use vstd::prelude::*;

use crate::text::{
    ascii_lowercase, chars_of, concat2, copy_str, has_suffix, join_from, join_parts,
    keep_nonempty, lemma_nonempty_parts_are_nonempty, lowercase_ascii, nonempty_parts, str_ends_with, str_is, string_of,
    trim_suffix_all, trim_suffix_all_str, views,
};

verus! {

/// The parts of a parsed URL that this library reads, as plain values.
pub struct ParsedUrl {
    /// The scheme, as the parser normalized it.
    pub scheme: String,
    /// The host as text, where the URL has one.
    pub host: Option<String>,
    /// The `/`-separated pieces of the path, where the URL has a
    /// hierarchical path; still percent-encoded.
    pub segments: Option<Vec<String>>,
    /// The decoded `key=value` pairs of the query string, in order.
    pub query_pairs: Vec<(String, String)>,
    /// The whole path as text, as the parser serialized it.
    pub path: String,
}

pub open spec fn pair_views(v: Seq<(String, String)>) -> Seq<(Seq<char>, Seq<char>)> {
    v.map_values(|p: (String, String)| (p.0@, p.1@))
}

impl View for ParsedUrl {
    type V = (Seq<char>, Option<Seq<char>>, Option<Seq<Seq<char>>>, Seq<(Seq<char>, Seq<char>)>, Seq<char>);

    open spec fn view(&self) -> Self::V {
        (
            self.scheme@,
            match self.host {
                Some(h) => Some(h@),
                None => None,
            },
            match self.segments {
                Some(s) => Some(views(s@)),
                None => None,
            },
            pair_views(self.query_pairs@),
            self.path@,
        )
    }
}

pub open spec fn parsed_view(p: Option<ParsedUrl>) -> Option<
    (Seq<char>, Option<Seq<char>>, Option<Seq<Seq<char>>>, Seq<(Seq<char>, Seq<char>)>, Seq<char>),
> {
    match p {
        Some(u) => Some(u@),
        None => None,
    }
}

/// What `url::Url::parse` makes of a string: `None` where it refuses the
/// input, else the scheme, the host, the path segments, the decoded
/// query pairs and the path text of the parsed URL.
pub uninterp spec fn url_parse(raw: Seq<char>) -> Option<
    (Seq<char>, Option<Seq<char>>, Option<Seq<Seq<char>>>, Seq<(Seq<char>, Seq<char>)>, Seq<char>),
>;

/// Calls `url::Url::parse` and reads `scheme()`, `host_str()`,
/// `path_segments()`, `query_pairs()` and `path()` of the result. The contract claims
/// only that the outcome is a function of the input string (`url_parse`):
/// WHATWG URL parsing is the `url` crate's own work and is not restated.
#[verifier::external_body]
pub(crate) fn parse_url(raw: &str) -> (r: Option<ParsedUrl>)
    ensures
        parsed_view(r) == url_parse(raw@),
{
    url::Url::parse(raw).ok().map(
        |u| ParsedUrl {
            scheme: u.scheme().to_string(),
            host: u.host_str().map(|h| h.to_string()),
            segments: u.path_segments().map(|s| s.map(|p| p.to_string()).collect()),
            query_pairs: u.query_pairs().map(|(k, v)| (k.into_owned(), v.into_owned())).collect(),
            path: u.path().to_string(),
        },
    )
}

/// The kind of GitHub-hosted resource a URL names.
#[derive(Debug)]
pub enum LinkKind {
    /// e.g. https://github.com/{owner}/{repo}
    RepoRoot { owner: String, repo: String },
    /// e.g. https://github.com/{owner}/{repo}/blob/{branch}/{path...}
    /// `branch` is whatever ref the URL used: a branch, tag or commit SHA.
    RepoFile { owner: String, repo: String, branch: String, path: String },
    /// e.g. https://gist.github.com/{owner}/{gist_id}
    Gist { owner: String, gist_id: String },
    /// e.g. https://{owner}.github.io/{path...}: GitHub Pages, with the
    /// candidate `(owner, repo)` pairs that may back the site.
    PagesSite { owner: String, path: String, candidates: Vec<(String, String)> },
    /// e.g. https://github.com/{login}: a user or organization profile,
    /// recognized and deliberately out of scope.
    UserOrOrgProfile { login: String },
    /// A GitHub URL that is recognized but is not a repository root or file
    /// link (e.g. .../issues).
    UnsupportedGithubUrl,
    /// A URL that could not be parsed, or whose host is not recognized.
    Unknown,
}

/// `LinkKind` with its strings taken as character sequences.
pub enum LinkKindView {
    RepoRoot { owner: Seq<char>, repo: Seq<char> },
    RepoFile { owner: Seq<char>, repo: Seq<char>, branch: Seq<char>, path: Seq<char> },
    Gist { owner: Seq<char>, gist_id: Seq<char> },
    PagesSite { owner: Seq<char>, path: Seq<char>, candidates: Seq<(Seq<char>, Seq<char>)> },
    UserOrOrgProfile { login: Seq<char> },
    UnsupportedGithubUrl,
    Unknown,
}

impl View for LinkKind {
    type V = LinkKindView;

    open spec fn view(&self) -> LinkKindView {
        match self {
            LinkKind::RepoRoot { owner, repo } => LinkKindView::RepoRoot {
                owner: owner@,
                repo: repo@,
            },
            LinkKind::RepoFile { owner, repo, branch, path } => LinkKindView::RepoFile {
                owner: owner@,
                repo: repo@,
                branch: branch@,
                path: path@,
            },
            LinkKind::Gist { owner, gist_id } => LinkKindView::Gist {
                owner: owner@,
                gist_id: gist_id@,
            },
            LinkKind::PagesSite { owner, path, candidates } => LinkKindView::PagesSite {
                owner: owner@,
                path: path@,
                candidates: pair_views(candidates@),
            },
            LinkKind::UserOrOrgProfile { login } => LinkKindView::UserOrOrgProfile {
                login: login@,
            },
            LinkKind::UnsupportedGithubUrl => LinkKindView::UnsupportedGithubUrl,
            LinkKind::Unknown => LinkKindView::Unknown,
        }
    }
}

/// The lowercased host of a parsed URL, empty where it has none.
pub open spec fn host_of(host: Option<Seq<char>>) -> Seq<char> {
    ascii_lowercase(
        match host {
            Some(h) => h,
            None => Seq::empty(),
        },
    )
}

/// The non-empty path segments of a parsed URL.
pub open spec fn segments_of(segments: Option<Seq<Seq<char>>>) -> Seq<Seq<char>> {
    nonempty_parts(
        match segments {
            Some(s) => s,
            None => Seq::empty(),
        },
    )
}

pub open spec fn is_github_host(host: Seq<char>) -> bool {
    host == "github.com"@ || host == "www.github.com"@
}

/// The classification of a parsed URL (`None`: the URL did not parse).
pub open spec fn classify_spec(
    parsed: Option<
        (Seq<char>, Option<Seq<char>>, Option<Seq<Seq<char>>>, Seq<(Seq<char>, Seq<char>)>, Seq<char>),
    >,
) -> LinkKindView {
    match parsed {
        None => LinkKindView::Unknown,
        Some(u) => {
            let host = host_of(u.1);
            let segs = segments_of(u.2);
            if host == "gist.github.com"@ {
                if segs.len() >= 2 {
                    LinkKindView::Gist { owner: segs[0], gist_id: segs[1] }
                } else {
                    LinkKindView::Unknown
                }
            } else if is_github_host(host) {
                if segs.len() == 1 {
                    LinkKindView::UserOrOrgProfile { login: segs[0] }
                } else if segs.len() >= 2 {
                    let repo = trim_suffix_all(segs[1], ".git"@);
                    if repo.len() == 0 {
                        LinkKindView::Unknown
                    } else if segs.len() >= 5 && segs[2] == "blob"@ {
                        LinkKindView::RepoFile {
                            owner: segs[0],
                            repo,
                            branch: segs[3],
                            path: join_parts(segs.skip(4), "/"@),
                        }
                    } else if segs.len() == 2 {
                        LinkKindView::RepoRoot { owner: segs[0], repo }
                    } else {
                        LinkKindView::UnsupportedGithubUrl
                    }
                } else {
                    LinkKindView::Unknown
                }
            } else if has_suffix(host, ".github.io"@) {
                let owner = trim_suffix_all(host, ".github.io"@);
                let own_site = seq![(owner, owner + ".github.io"@)];
                LinkKindView::PagesSite {
                    owner,
                    path: join_parts(segs, "/"@),
                    candidates: if segs.len() > 0 {
                        own_site.push((owner, segs[0]))
                    } else {
                        own_site
                    },
                }
            } else {
                LinkKindView::Unknown
            }
        },
    }
}

/// The path segments of the canonical form: `segs`, with every trailing
/// `.git` trimmed off the repo segment of a github.com URL.
pub open spec fn canonical_segments(host: Seq<char>, segs: Seq<Seq<char>>) -> Seq<Seq<char>> {
    if is_github_host(host) && segs.len() >= 2 {
        segs.update(1, trim_suffix_all(segs[1], ".git"@))
    } else {
        segs
    }
}

/// The canonical form of a parsed URL: `None` only where it did not
/// parse. A URL without a host keeps its scheme and its path as it stands
/// (`mailto:someone@example.com`).
pub open spec fn canonicalize_spec(
    parsed: Option<
        (Seq<char>, Option<Seq<char>>, Option<Seq<Seq<char>>>, Seq<(Seq<char>, Seq<char>)>, Seq<char>),
    >,
) -> Option<Seq<char>> {
    match parsed {
        None => None,
        Some(u) => match u.1 {
            None => Some(u.0 + ":"@ + u.4),
            Some(h) => {
                let host = ascii_lowercase(h);
                let path = join_parts(canonical_segments(host, segments_of(u.2)), "/"@);
                Some(
                    if path.len() == 0 {
                        u.0 + "://"@ + host
                    } else {
                        u.0 + "://"@ + host + "/"@ + path
                    },
                )
            },
        },
    }
}

/// Joining two non-empty runs of parts is joining each and putting one
/// separator between them.
pub proof fn lemma_join_append(a: Seq<Seq<char>>, b: Seq<Seq<char>>, sep: Seq<char>)
    requires
        a.len() > 0,
        b.len() > 0,
    ensures
        join_parts(a + b, sep) == join_parts(a, sep) + sep + join_parts(b, sep),
    decreases b.len(),
{
    if b.len() == 1 {
        assert((a + b).drop_last() =~= a);
    } else {
        lemma_join_append(a, b.drop_last(), sep);
        assert((a + b).drop_last() =~= a + b.drop_last());
        assert(join_parts(a + b, sep) == join_parts(a + b.drop_last(), sep) + sep + b.last());
        assert(join_parts(b, sep) == join_parts(b.drop_last(), sep) + sep + b.last());
        assert(join_parts(a + b, sep) =~= join_parts(a, sep) + sep + join_parts(b, sep));
    }
}

proof fn proof_nonempty_first(segments: Option<Seq<Seq<char>>>)
    ensures
        segments_of(segments).len() > 0 ==> segments_of(segments)[0].len() > 0,
{
    let parts = match segments {
        Some(s) => s,
        None => Seq::empty(),
    };
    lemma_nonempty_parts_are_nonempty(parts);
}

proof fn lemma_join_two(x: Seq<char>, y: Seq<char>, sep: Seq<char>)
    ensures
        join_parts(seq![x, y], sep) == x + sep + y,
{
    assert(seq![x, y].drop_last() =~= seq![x]);
    assert(join_parts(seq![x], sep) == x);
}

/// The joined path of a repository link's segments once the repo segment
/// is replaced by `repo`.
proof fn lemma_repo_link_path(segs: Seq<Seq<char>>, repo: Seq<char>, sep: Seq<char>)
    requires
        segs.len() >= 2,
    ensures
        segs.len() == 2 ==> join_parts(segs.update(1, repo), sep) == segs[0] + sep + repo,
        segs.len() >= 5 ==> join_parts(segs.update(1, repo), sep) == segs[0] + sep + repo + sep
            + segs[2] + sep + segs[3] + sep + join_parts(segs.skip(4), sep),
{
    let cs = segs.update(1, repo);
    let first_two = seq![segs[0], repo];
    lemma_join_two(segs[0], repo, sep);
    if segs.len() == 2 {
        assert(cs =~= first_two);
    }
    if segs.len() >= 5 {
        let rest = segs.skip(4);
        let mid = seq![segs[2], segs[3]];
        assert(cs =~= first_two + mid + rest);
        lemma_join_append(first_two + mid, rest, sep);
        lemma_join_append(first_two, mid, sep);
        lemma_join_two(segs[2], segs[3], sep);
        assert(join_parts(cs, sep) =~= segs[0] + sep + repo + sep + segs[2] + sep + segs[3] + sep
            + join_parts(rest, sep));
    }
}

/// `classify` and `canonicalize` apply the same normalization: where a URL
/// classifies as a repository root, its canonical form is
/// `{scheme}://{lowercased host}/{owner}/{repo}`; as a file in a
/// repository, `{scheme}://{host}/{owner}/{repo}/blob/{branch}/{path}`; as
/// a user or organization profile, `{scheme}://{host}/{login}`. So the
/// owner and repo that collection uses are exactly the ones the recorded
/// canonical URL shows, with the same `.git` trimming.
#[verifier::rlimit(40)]
pub proof fn lemma_canonical_form_agrees_with_kind(
    parsed: Option<
        (Seq<char>, Option<Seq<char>>, Option<Seq<Seq<char>>>, Seq<(Seq<char>, Seq<char>)>, Seq<char>),
    >,
)
    ensures
        parsed matches Some(u) ==> {
            let prefix = u.0 + "://"@ + host_of(u.1) + "/"@;
            match classify_spec(parsed) {
                LinkKindView::RepoRoot { owner, repo } => canonicalize_spec(parsed) == Some(
                    prefix + owner + "/"@ + repo,
                ),
                LinkKindView::RepoFile { owner, repo, branch, path } => canonicalize_spec(parsed)
                    == Some(prefix + owner + "/"@ + repo + "/"@ + "blob"@ + "/"@ + branch + "/"@
                    + path),
                LinkKindView::UserOrOrgProfile { login } => canonicalize_spec(parsed) == Some(
                    prefix + login,
                ),
                _ => true,
            }
        },
{
    reveal_strlit("github.com");
    reveal_strlit("www.github.com");
    reveal_strlit("gist.github.com");
    if let Some(u) = parsed {
        let host = host_of(u.1);
        let segs = segments_of(u.2);
        let sep = "/"@;
        if is_github_host(host) && segs.len() >= 1 {
            assert(host != "gist.github.com"@);
            assert(u.1 is Some);
            assert(ascii_lowercase(u.1->0) == host);
            let cs = canonical_segments(host, segs);
            proof_nonempty_first(u.2);
            if segs.len() == 1 {
                assert(cs == segs);
                assert(join_parts(cs, sep) == segs[0]);
                assert(canonicalize_spec(parsed) == Some(u.0 + "://"@ + host + "/"@ + segs[0]));
            } else {
                let repo = trim_suffix_all(segs[1], ".git"@);
                lemma_repo_link_path(segs, repo, sep);
                assert(cs == segs.update(1, repo));
            }
        }
    }
}

/// A canonical form keeps the whole path, for every host: it is the
/// scheme, `://`, the lowercased host, then `/` and every non-empty path
/// segment joined by `/` where there is at least one. Only the repository
/// segment of a github.com URL changes, losing its trailing `.git`; a
/// Pages or gist URL keeps its path as it is.
pub proof fn lemma_canonical_form_keeps_the_path(parsed: Option<
    (Seq<char>, Option<Seq<char>>, Option<Seq<Seq<char>>>, Seq<(Seq<char>, Seq<char>)>, Seq<char>),
>)
    requires
        parsed matches Some(u) && u.1 is Some,
    ensures
        ({
            let u = parsed->0;
            let host = host_of(u.1);
            let segs = segments_of(u.2);
            let github_repo = (host == "github.com"@ || host == "www.github.com"@) && segs.len()
                >= 2;
            let kept = if github_repo {
                segs.update(1, trim_suffix_all(segs[1], ".git"@))
            } else {
                segs
            };
            &&& kept.len() == segs.len()
            &&& forall|i: int| 0 <= i < segs.len() && i != 1 ==> kept[i] == segs[i]
            &&& !github_repo ==> kept == segs
            &&& canonicalize_spec(parsed) == Some(
                u.0 + "://"@ + host + (if segs.len() == 0 {
                    Seq::<char>::empty()
                } else {
                    "/"@ + join_parts(kept, "/"@)
                }),
            )
        }),
{
    let u = parsed->0;
    let host = host_of(u.1);
    let segs = segments_of(u.2);
    let cs = canonical_segments(host, segs);
    reveal_strlit("/");
    assert(ascii_lowercase(u.1->0) == host);
    if segs.len() == 1 {
        proof_nonempty_first(u.2);
        assert(cs == segs);
        assert(join_parts(cs, "/"@) == segs[0]);
    } else if segs.len() >= 2 {
        assert(join_parts(cs, "/"@) == join_parts(cs.drop_last(), "/"@) + "/"@ + cs.last());
        assert(join_parts(cs, "/"@).len() > 0);
    }
}

/// The lowercased host of `u` as a string (empty where it has none).
fn lowered_host(u: &ParsedUrl) -> (h: String)
    ensures
        h@ == host_of(u@.1),
{
    match &u.host {
        Some(h) => {
            let lowered = lowercase_ascii(&chars_of(h.as_str()));
            string_of(&lowered, 0, lowered.len())
        },
        None => {
            assert(ascii_lowercase(Seq::<char>::empty()) =~= Seq::<char>::empty());
            String::new()
        },
    }
}

/// The non-empty path segments of `u`.
fn nonempty_segments(u: &ParsedUrl) -> (s: Vec<String>)
    ensures
        views(s@) == segments_of(u@.2),
{
    match &u.segments {
        Some(s) => keep_nonempty(s),
        None => {
            let r: Vec<String> = Vec::new();
            assert(views(r@) =~= Seq::<Seq<char>>::empty());
            r
        },
    }
}

/// Classifies an already parsed URL (`None`: it did not parse).
pub fn classify_parsed(parsed: &Option<ParsedUrl>) -> (k: LinkKind)
    ensures
        k@ == classify_spec(parsed_view(*parsed)),
{
    let u = match parsed {
        None => {
            return LinkKind::Unknown;
        },
        Some(u) => u,
    };
    let host = lowered_host(u);
    let segs = nonempty_segments(u);
    let ghost sv = views(segs@);
    if str_is(host.as_str(), "gist.github.com") {
        if segs.len() >= 2 {
            return LinkKind::Gist { owner: segs[0].clone(), gist_id: segs[1].clone() };
        }
        return LinkKind::Unknown;
    }
    if str_is(host.as_str(), "github.com") || str_is(host.as_str(), "www.github.com") {
        if segs.len() == 1 {
            return LinkKind::UserOrOrgProfile { login: segs[0].clone() };
        }
        if segs.len() >= 2 {
            let owner = segs[0].clone();
            let repo = trim_suffix_all_str(segs[1].as_str(), ".git");
            if repo.unicode_len() == 0 {
                return LinkKind::Unknown;
            }
            if segs.len() >= 5 && str_is(segs[2].as_str(), "blob") {
                let branch = segs[3].clone();
                let path = join_from(&segs, 4, "/");
                return LinkKind::RepoFile { owner, repo, branch, path };
            }
            if segs.len() == 2 {
                return LinkKind::RepoRoot { owner, repo };
            }
            return LinkKind::UnsupportedGithubUrl;
        }
        return LinkKind::Unknown;
    }
    if str_ends_with(host.as_str(), ".github.io") {
        let owner = trim_suffix_all_str(host.as_str(), ".github.io");
        let path = join_from(&segs, 0, "/");
        assert(sv.skip(0) =~= sv);
        let mut candidates: Vec<(String, String)> = Vec::new();
        candidates.push((owner.clone(), concat2(owner.as_str(), ".github.io")));
        if segs.len() > 0 {
            candidates.push((owner.clone(), segs[0].clone()));
        }
        proof {
            let own_site = seq![(owner@, owner@ + ".github.io"@)];
            if segs.len() > 0 {
                assert(pair_views(candidates@) =~= own_site.push((owner@, sv[0])));
            } else {
                assert(pair_views(candidates@) =~= own_site);
            }
        }
        return LinkKind::PagesSite { owner, path, candidates };
    }
    LinkKind::Unknown
}

/// The kind of resource `raw_url` names. Parsing is `url::Url::parse`
/// (named `url_parse`); the classification of its result is
/// `classify_spec`.
pub fn classify(raw_url: &str) -> (k: LinkKind)
    ensures
        k@ == classify_spec(url_parse(raw_url@)),
{
    let parsed = parse_url(raw_url);
    classify_parsed(&parsed)
}

/// The canonical form of an already parsed URL.
pub fn canonicalize_parsed(parsed: &Option<ParsedUrl>) -> (c: Option<String>)
    ensures
        match c {
            Some(s) => canonicalize_spec(parsed_view(*parsed)) == Some(s@),
            None => canonicalize_spec(parsed_view(*parsed)) is None,
        },
        c is None <==> parsed is None,
        parsed is Some && parsed->0.host is Some && segments_of(parsed->0@.2).len() > 0
            && !is_github_host(host_of(parsed->0@.1)) ==> (c matches Some(s) && s@ == parsed->0@.0
            + "://"@ + host_of(parsed->0@.1) + "/"@ + join_parts(segments_of(parsed->0@.2), "/"@)),
{
    proof {
        if let Some(u) = parsed {
            if u.host is Some {
                lemma_canonical_form_keeps_the_path(parsed_view(*parsed));
            }
        }
    }
    let u = match parsed {
        None => {
            return None;
        },
        Some(u) => u,
    };
    if u.host.is_none() {
        let mut bare = copy_str(u.scheme.as_str());
        bare.append(":");
        bare.append(u.path.as_str());
        return Some(bare);
    }
    let host = lowered_host(u);
    let mut segs = nonempty_segments(u);
    let ghost before = views(segs@);
    if (str_is(host.as_str(), "github.com") || str_is(host.as_str(), "www.github.com"))
        && segs.len() >= 2 {
        let trimmed = trim_suffix_all_str(segs[1].as_str(), ".git");
        segs.set(1, trimmed);
        assert(views(segs@) =~= before.update(1, trim_suffix_all(before[1], ".git"@)));
    }
    let path = join_from(&segs, 0, "/");
    assert(views(segs@).skip(0) =~= views(segs@));
    let mut out = copy_str(u.scheme.as_str());
    out.append("://");
    out.append(host.as_str());
    if path.unicode_len() > 0 {
        out.append("/");
        out.append(path.as_str());
    }
    Some(out)
}

/// The normalized string form of `raw_url`: scheme and lowercased host,
/// then the non-empty path segments (with a github.com repo segment's
/// trailing `.git` trimmed) joined by `/`; query and fragment dropped. A
/// URL without a host is its scheme, `:` and its path. `None` only where
/// the URL does not parse.
pub fn canonicalize(raw_url: &str) -> (c: Option<String>)
    ensures
        match c {
            Some(s) => canonicalize_spec(url_parse(raw_url@)) == Some(s@),
            None => canonicalize_spec(url_parse(raw_url@)) is None,
        },
        c is None <==> url_parse(raw_url@) is None,
{
    let parsed = parse_url(raw_url);
    canonicalize_parsed(&parsed)
}

} // verus!
