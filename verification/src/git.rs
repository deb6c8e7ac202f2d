use vstd::prelude::*;
use vstd::string::StrSliceExecFns;
use vstd::string::StringExecFns;
use crate::text::{
    dot_git, ends_with, first_idx, lines_of, push_char, replace_char, replaced, split_chars,
    split_lines, split_on_char, starts_with, str_eq, str_starts_with, trim_dot_git,
    trim_dot_git_suffix,
};
use crate::version::{spec_render, spec_render_no_build, SemVersion};

verus! {

// ---------------------------------------------------------------------------
// Parsed URL parts and their normal form.
// ---------------------------------------------------------------------------

/// The parts of a parsed absolute URL that the normalizer reads.
pub struct UrlParts {
    pub scheme: String,
    pub host: Option<String>,
    pub path: String,
}

/// What `url::Url::parse` extracts from a string: scheme, host, and path,
/// or `None` when the string is not a valid absolute URL.
pub uninterp spec fn url_parts_of(s: Seq<char>) -> Option<(Seq<char>, Option<Seq<char>>, Seq<char>)>;

/// Relies on `url::Url::parse` together with `Url::scheme`, `Url::host_str`
/// and `Url::path`: parses an absolute URL and hands back those three parts.
#[verifier::external_body]
pub(crate) fn parse_url_parts(s: &str) -> (r: Option<UrlParts>)
    ensures
        match r {
            Some(p) => url_parts_of(s@) == Some(
                (
                    p.scheme@,
                    match p.host {
                        Some(h) => Some(h@),
                        None => None::<Seq<char>>,
                    },
                    p.path@,
                ),
            ),
            None => url_parts_of(s@) is None,
        },
{
    match url::Url::parse(s) {
        Ok(u) => Some(
            UrlParts {
                scheme: u.scheme().to_owned(),
                host: u.host_str().map(|h| h.to_owned()),
                path: u.path().to_owned(),
            },
        ),
        Err(_) => None,
    }
}

pub open spec fn http_chars() -> Seq<char> {
    seq!['h', 't', 't', 'p']
}

pub open spec fn https_chars() -> Seq<char> {
    seq!['h', 't', 't', 'p', 's']
}

pub open spec fn github_chars() -> Seq<char> {
    seq!['g', 'i', 't', 'h', 'u', 'b', '.', 'c', 'o', 'm']
}

pub open spec fn gitlab_prefix_chars() -> Seq<char> {
    seq!['g', 'i', 't', 'l', 'a', 'b', '.']
}

pub open spec fn is_http_scheme(s: Seq<char>) -> bool {
    s == http_chars() || s == https_chars()
}

/// A host whose path is collapsed to owner and repository: the primary
/// forge host, or any host under the multi-tenant forge prefix.
pub open spec fn is_forge_host(h: Seq<char>) -> bool {
    h == github_chars() || starts_with(h, gitlab_prefix_chars())
}

pub open spec fn strip_leading_slash(p: Seq<char>) -> Seq<char> {
    if starts_with(p, seq!['/']) {
        p.skip(1)
    } else {
        p
    }
}

/// The owner/repository segments of a forge path.
pub open spec fn forge_segments(p: Seq<char>) -> Seq<Seq<char>> {
    split_chars(strip_leading_slash(p), '/')
}

/// A forge path collapsed to exactly `/{owner}/{repo}.git`, the repository
/// segment first stripped of any `.git` suffixes; `None` when the path has
/// no repository segment.
pub open spec fn collapsed_path(p: Seq<char>) -> Option<Seq<char>> {
    let segs = forge_segments(p);
    if segs.len() < 2 {
        None
    } else {
        Some(seq!['/'] + segs[0] + seq!['/'] + trim_dot_git(segs[1]) + dot_git())
    }
}

/// The path a URL keeps after normalization: collapsed on forge hosts,
/// untouched elsewhere.
pub open spec fn normalized_path(host: Seq<char>, path: Seq<char>) -> Option<Seq<char>> {
    if is_forge_host(host) {
        collapsed_path(path)
    } else {
        Some(path)
    }
}

/// Why a repository URL was rejected.
#[derive(Debug)]
pub enum UrlError {
    /// The URL did not parse at all.
    Unparsable,
    /// The scheme is neither `http` nor `https`.
    BadScheme,
    /// The URL has no host.
    NoHost,
    /// A forge URL whose path has no repository segment.
    MissingRepoName,
}

/// A normalized repository URL; equal keys denote the same repository.
pub struct GitUrl {
    pub scheme: String,
    pub host: String,
    pub path: String,
}

/// The three parts that normalization would leave unchanged.
pub open spec fn spec_normal_form(scheme: Seq<char>, host: Seq<char>, path: Seq<char>) -> bool {
    is_http_scheme(scheme) && normalized_path(host, path) == Some(path)
}

pub open spec fn spec_url_string(u: GitUrl) -> Seq<char> {
    u.scheme@ + seq![':', '/', '/'] + u.host@ + u.path@
}

impl GitUrl {
    /// What normalization promises of every key it produces.
    pub open spec fn wf(self) -> bool {
        spec_normal_form(self.scheme@, self.host@, self.path@)
    }

    /// Normalizes parsed URL parts into a repository key. Rejects a scheme
    /// other than http/https and a URL without a host; on a forge host the
    /// path is collapsed to `/{owner}/{repo}.git`, anywhere else it passes
    /// through unchanged.
    pub fn try_from_parts(parts: UrlParts) -> (r: Result<GitUrl, UrlError>)
        ensures
            match r {
                Ok(u) => {
                    &&& is_http_scheme(parts.scheme@)
                    &&& parts.host matches Some(h) && u.host@ == h@
                    &&& u.scheme@ == parts.scheme@
                    &&& normalized_path(u.host@, parts.path@) == Some(u.path@)
                    &&& u.wf()
                },
                Err(e) => {
                    &&& !(e is Unparsable)
                    &&& (e is BadScheme <==> !is_http_scheme(parts.scheme@))
                    &&& (e is NoHost <==> is_http_scheme(parts.scheme@) && parts.host is None)
                    &&& (e is MissingRepoName <==> is_http_scheme(parts.scheme@) && (
                    parts.host matches Some(h) && normalized_path(h@, parts.path@) is None))
                },
            },
    {
        proof {
            reveal_strlit("http");
            reveal_strlit("https");
            reveal_strlit("github.com");
            reveal_strlit("gitlab.");
            assert("http"@ =~= http_chars());
            assert("https"@ =~= https_chars());
            assert("github.com"@ =~= github_chars());
            assert("gitlab."@ =~= gitlab_prefix_chars());
        }
        let scheme_ok = str_eq(parts.scheme.as_str(), "http") || str_eq(
            parts.scheme.as_str(),
            "https",
        );
        if !scheme_ok {
            return Err(UrlError::BadScheme);
        }
        let host = match parts.host {
            Some(h) => h,
            None => {
                return Err(UrlError::NoHost);
            },
        };
        let forge = str_eq(host.as_str(), "github.com") || str_starts_with(
            host.as_str(),
            "gitlab.",
        );
        if forge {
            let p = parts.path.as_str();
            let n = p.unicode_len();
            let stripped = if n >= 1 && str_starts_with(p, "/") {
                p.substring_char(1, n)
            } else {
                p
            };
            proof {
                reveal_strlit("/");
                assert("/"@ =~= seq!['/']);
                assert(stripped@ == strip_leading_slash(parts.path@));
            }
            let segs = split_on_char(stripped, '/');
            if segs.len() < 2 {
                return Err(UrlError::MissingRepoName);
            }
            let repo = trim_dot_git_suffix(segs[1].as_str());
            let mut path = String::new();
            push_char(&mut path, '/');
            path.append(segs[0].as_str());
            push_char(&mut path, '/');
            path.append(repo.as_str());
            push_char(&mut path, '.');
            push_char(&mut path, 'g');
            push_char(&mut path, 'i');
            push_char(&mut path, 't');
            proof {
                assert(segs.deep_view()[0] == segs@[0]@);
                assert(segs.deep_view()[1] == segs@[1]@);
                assert(path@ =~= seq!['/'] + segs.deep_view()[0] + seq!['/'] + trim_dot_git(
                    segs.deep_view()[1],
                ) + dot_git());
            }
            let u = GitUrl { scheme: parts.scheme, host, path };
            proof {
                lemma_collapsed_path_normal(parts.path@);
            }
            Ok(u)
        } else {
            let u = GitUrl { scheme: parts.scheme, host, path: parts.path };
            Ok(u)
        }
    }

    /// The key rendered back as a URL string, `scheme://host path`.
    pub fn url_string(&self) -> (r: String)
        ensures
            r@ == spec_url_string(*self),
    {
        let mut r = self.scheme.clone();
        push_char(&mut r, ':');
        push_char(&mut r, '/');
        push_char(&mut r, '/');
        r.append(self.host.as_str());
        r.append(self.path.as_str());
        proof {
            assert(r@ =~= spec_url_string(*self));
        }
        r
    }
}

/// Parses a repository URL string and normalizes it in one step.
pub fn parse_and_normalize(s: &str) -> (r: Result<GitUrl, UrlError>)
    ensures
        match r {
            Ok(u) => {
                &&& url_parts_of(s@) matches Some((scheme, host, path))
                &&& u.scheme@ == scheme
                &&& host == Some(u.host@)
                &&& normalized_path(u.host@, path) == Some(u.path@)
                &&& u.wf()
            },
            Err(e) => {
                &&& (e is Unparsable <==> url_parts_of(s@) is None)
                &&& (url_parts_of(s@) matches Some((scheme, host, path)) ==> {
                    &&& (e is BadScheme <==> !is_http_scheme(scheme))
                    &&& (e is NoHost <==> is_http_scheme(scheme) && host is None)
                    &&& (e is MissingRepoName <==> is_http_scheme(scheme) && (host matches Some(h)
                        && normalized_path(h, path) is None))
                })
            },
        },
{
    match parse_url_parts(s) {
        None => Err(UrlError::Unparsable),
        Some(parts) => GitUrl::try_from_parts(parts),
    }
}

// ---------------------------------------------------------------------------
// Lemmas: the normal form really is a fixed point, and which parts of a
// raw URL the key depends on.
// ---------------------------------------------------------------------------

/// No piece that `split_chars` yields contains the separator.
pub proof fn lemma_split_no_sep(s: Seq<char>, c: char)
    ensures
        forall|k: int|
            0 <= k < split_chars(s, c).len() ==> !(#[trigger] split_chars(s, c)[k]).contains(c),
    decreases s.len(),
{
    crate::text::lemma_first_idx(s, c);
    let i = first_idx(s, c);
    if 0 <= i < s.len() {
        lemma_split_no_sep(s.skip(i + 1), c);
        assert forall|k: int|
            0 <= k < split_chars(s, c).len() implies !(#[trigger] split_chars(s, c)[k]).contains(
            c,
        ) by {
            if k == 0 {
                assert(forall|j: int| 0 <= j < i ==> s.take(i)[j] == s[j]);
            } else {
                assert(split_chars(s, c)[k] == split_chars(s.skip(i + 1), c)[k - 1]);
            }
        }
    } else {
        assert forall|k: int|
            0 <= k < split_chars(s, c).len() implies !(#[trigger] split_chars(s, c)[k]).contains(
            c,
        ) by {
            assert(split_chars(s, c)[k] == s);
            assert(forall|j: int| 0 <= j < s.len() ==> s[j] != c);
        }
    }
}

/// Splitting a string that opens with a separator-free piece yields that
/// piece and then the split of the remainder.
pub proof fn lemma_split_prepend(a: Seq<char>, b: Seq<char>, c: char)
    requires
        !a.contains(c),
    ensures
        split_chars(a + seq![c] + b, c) == seq![a] + split_chars(b, c),
{
    let s = a + seq![c] + b;
    assert(s[a.len() as int] == c);
    assert(forall|j: int| 0 <= j < a.len() ==> s[j] == a[j]);
    crate::text::lemma_first_idx_unique(s, c, a.len() as int);
    assert(s.take(a.len() as int) =~= a);
    assert(s.skip(a.len() as int + 1) =~= b);
    assert(split_chars(s, c) =~= seq![a] + split_chars(b, c));
}

/// A separator-free string splits to just itself.
pub proof fn lemma_split_whole(a: Seq<char>, c: char)
    requires
        !a.contains(c),
    ensures
        split_chars(a, c) == seq![a],
{
    assert(forall|j: int| 0 <= j < a.len() ==> a[j] != c);
    crate::text::lemma_first_idx_unique(a, c, a.len() as int);
}

/// The trimmed form has no `.git` suffix left, so trimming twice is
/// trimming once.
pub proof fn lemma_trim_dot_git_fixed(s: Seq<char>)
    ensures
        !ends_with(trim_dot_git(s), dot_git()),
        trim_dot_git(trim_dot_git(s)) == trim_dot_git(s),
    decreases s.len(),
{
    if ends_with(s, dot_git()) && s.len() >= 4 {
        lemma_trim_dot_git_fixed(s.take(s.len() - 4));
    }
}

/// Appending `.git` and trimming gives the plain trim back.
pub proof fn lemma_trim_dot_git_append(s: Seq<char>)
    ensures
        trim_dot_git(s + dot_git()) == trim_dot_git(s),
{
    let t = s + dot_git();
    assert(t.subrange(t.len() - 4, t.len() as int) =~= dot_git());
    assert(ends_with(t, dot_git()));
    assert(t.take(t.len() - 4) =~= s);
}

/// Trimming only shortens, so it cannot introduce a character.
pub proof fn lemma_trim_dot_git_no_new_char(s: Seq<char>, c: char)
    requires
        !s.contains(c),
    ensures
        !trim_dot_git(s).contains(c),
    decreases s.len(),
{
    if ends_with(s, dot_git()) && s.len() >= 4 {
        assert(forall|j: int| 0 <= j < s.len() - 4 ==> s.take(s.len() - 4)[j] == s[j]);
        assert(!s.take(s.len() - 4).contains(c)) by {
            if s.take(s.len() - 4).contains(c) {
                let j = choose|j: int| 0 <= j < s.len() - 4 && #[trigger] s.take(s.len() - 4)[j]
                    == c;
                assert(s[j] == c);
            }
        }
        lemma_trim_dot_git_no_new_char(s.take(s.len() - 4), c);
    }
}

/// A collapsed path is already in normal form: collapsing it again changes
/// nothing.
pub proof fn lemma_collapsed_path_normal(p: Seq<char>)
    ensures
        collapsed_path(p) matches Some(q) ==> collapsed_path(q) == Some(q),
{
    if collapsed_path(p) is Some {
        let segs = forge_segments(p);
        let owner = segs[0];
        let repo = trim_dot_git(segs[1]);
        let q = seq!['/'] + owner + seq!['/'] + repo + dot_git();
        lemma_split_no_sep(strip_leading_slash(p), '/');
        assert(!owner.contains('/'));
        assert(!segs[1].contains('/'));
        lemma_trim_dot_git_no_new_char(segs[1], '/');
        assert(!repo.contains('/'));
        // `q` opens with a slash, so stripping it leaves owner/repo.git.
        assert(q[0] == '/');
        assert(q.subrange(0, 1) =~= seq!['/']);
        assert(starts_with(q, seq!['/']));
        let q1 = q.skip(1);
        assert(q1 =~= owner + seq!['/'] + (repo + dot_git()));
        assert(strip_leading_slash(q) == q1);
        assert(!dot_git().contains('/')) by {
            assert(forall|j: int| 0 <= j < dot_git().len() ==> dot_git()[j] != '/');
        }
        assert(!(repo + dot_git()).contains('/')) by {
            if (repo + dot_git()).contains('/') {
                let j = choose|j: int|
                    0 <= j < (repo + dot_git()).len() && (repo + dot_git())[j] == '/';
                if j < repo.len() {
                    assert(repo[j] == '/');
                } else {
                    assert(dot_git()[j - repo.len()] == '/');
                }
            }
        }
        lemma_split_prepend(owner, repo + dot_git(), '/');
        lemma_split_whole(repo + dot_git(), '/');
        let qsegs = forge_segments(q);
        assert(qsegs =~= seq![owner, repo + dot_git()]);
        lemma_trim_dot_git_append(repo);
        lemma_trim_dot_git_fixed(segs[1]);
        assert(trim_dot_git(repo + dot_git()) == repo);
        assert(collapsed_path(q) == Some(q));
    }
}

/// Normalization is idempotent: a key it produces it reproduces.
pub proof fn lemma_normalize_idempotent(scheme: Seq<char>, host: Seq<char>, path: Seq<char>)
    requires
        is_http_scheme(scheme),
        normalized_path(host, path) matches Some(q),
    ensures
        normalized_path(host, path) matches Some(q) ==> normalized_path(host, q) == Some(q),
{
    if is_forge_host(host) {
        lemma_collapsed_path_normal(path);
    }
}

/// On a forge host the key reads nothing but the owner segment and the
/// trimmed repository segment: a trailing `.git`, a trailing slash, or
/// extra path segments never change it.
pub proof fn lemma_forge_key_depends_on_owner_repo(p1: Seq<char>, p2: Seq<char>)
    requires
        forge_segments(p1).len() >= 2,
        forge_segments(p2).len() >= 2,
        forge_segments(p1)[0] == forge_segments(p2)[0],
        trim_dot_git(forge_segments(p1)[1]) == trim_dot_git(forge_segments(p2)[1]),
    ensures
        collapsed_path(p1) == collapsed_path(p2),
{
}

/// The concrete shape of that independence: for owner and repository
/// segments, the raw paths `/o/r`, `/o/r.git`, and `/o/r/anything` all
/// collapse to `/o/{r trimmed}.git`.
pub proof fn lemma_forge_variants_collapse(o: Seq<char>, r: Seq<char>, rest: Seq<char>)
    requires
        !o.contains('/'),
        !r.contains('/'),
    ensures
        collapsed_path(seq!['/'] + o + seq!['/'] + r) == Some(
            seq!['/'] + o + seq!['/'] + trim_dot_git(r) + dot_git(),
        ),
        collapsed_path(seq!['/'] + o + seq!['/'] + r + dot_git()) == Some(
            seq!['/'] + o + seq!['/'] + trim_dot_git(r) + dot_git(),
        ),
        collapsed_path(seq!['/'] + o + seq!['/'] + r + seq!['/'] + rest) == Some(
            seq!['/'] + o + seq!['/'] + trim_dot_git(r) + dot_git(),
        ),
{
    assert(!dot_git().contains('/')) by {
        assert(forall|j: int| 0 <= j < dot_git().len() ==> dot_git()[j] != '/');
    }

    // Case one: `/o/r`.
    let p1 = seq!['/'] + o + seq!['/'] + r;
    assert(p1[0] == '/');
    assert(p1.subrange(0, 1) =~= seq!['/']);
    assert(starts_with(p1, seq!['/']));
    assert(strip_leading_slash(p1) =~= o + seq!['/'] + r);
    lemma_split_prepend(o, r, '/');
    lemma_split_whole(r, '/');
    assert(forge_segments(p1) =~= seq![o, r]);

    // Case two: `/o/r.git`.
    let p2 = seq!['/'] + o + seq!['/'] + r + dot_git();
    assert(p2[0] == '/');
    assert(p2.subrange(0, 1) =~= seq!['/']);
    assert(starts_with(p2, seq!['/']));
    assert(p2.skip(1) =~= o + seq!['/'] + (r + dot_git()));
    assert(strip_leading_slash(p2) == p2.skip(1));
    assert(!(r + dot_git()).contains('/')) by {
        if (r + dot_git()).contains('/') {
            let j = choose|j: int| 0 <= j < (r + dot_git()).len() && (r + dot_git())[j] == '/';
            if j < r.len() {
                assert(r[j] == '/');
            } else {
                assert(dot_git()[j - r.len()] == '/');
            }
        }
    }
    lemma_split_prepend(o, r + dot_git(), '/');
    lemma_split_whole(r + dot_git(), '/');
    assert(forge_segments(p2) =~= seq![o, r + dot_git()]);
    lemma_trim_dot_git_append(r);

    // Case three: `/o/r/rest`.
    let p3 = seq!['/'] + o + seq!['/'] + r + seq!['/'] + rest;
    assert(p3[0] == '/');
    assert(p3.subrange(0, 1) =~= seq!['/']);
    assert(starts_with(p3, seq!['/']));
    assert(p3.skip(1) =~= o + seq!['/'] + (r + seq!['/'] + rest));
    assert(strip_leading_slash(p3) == p3.skip(1));
    lemma_split_prepend(o, r + seq!['/'] + rest, '/');
    lemma_split_prepend(r, rest, '/');
    assert(forge_segments(p3) =~= seq![o] + (seq![r] + split_chars(rest, '/')));
    assert(forge_segments(p3)[0] == o);
    assert(forge_segments(p3)[1] == r);
    assert(forge_segments(p3).len() >= 2);
}

// ---------------------------------------------------------------------------
// Local clones and the subprocess plans that drive them.
// ---------------------------------------------------------------------------

/// The directory name a clone lives under: the host, a dash, and the path
/// with its slashes turned to dashes.
pub open spec fn spec_repo_dir_name(u: GitUrl) -> Seq<char> {
    u.host@ + seq!['-'] + replaced(u.path@, '/', '-')
}

/// A local clone of one normalized repository URL, named by the directory
/// it lives in.
pub struct GitRepository {
    pub repo_dir: String,
}

/// One version-control subprocess of a checkout sequence: the step's name
/// for diagnostics, and its argument list.
pub struct GitStep {
    pub name: String,
    pub args: Vec<String>,
}

impl GitRepository {
    pub fn new(repo_dir: String) -> (r: Self)
        ensures
            r.repo_dir == repo_dir,
    {
        GitRepository { repo_dir }
    }

    /// The clone directory for `url`.
    pub fn dir_name_for(url: &GitUrl) -> (r: String)
        ensures
            r@ == spec_repo_dir_name(*url),
    {
        let mut r = url.host.clone();
        push_char(&mut r, '-');
        let p = replace_char(url.path.as_str(), '/', '-');
        r.append(p.as_str());
        r
    }

    /// The clone invocation: a blob-less partial clone of the normalized
    /// URL into this repository's directory.
    pub fn clone_args(&self, url: &GitUrl) -> (r: Vec<String>)
        ensures
            r.deep_view() == seq![
                "clone"@,
                "--filter=blob:none"@,
                "--"@,
                spec_url_string(*url),
                self.repo_dir@,
            ],
    {
        let mut r: Vec<String> = Vec::new();
        r.push("clone".to_owned());
        r.push("--filter=blob:none".to_owned());
        r.push("--".to_owned());
        r.push(url.url_string());
        r.push(self.repo_dir.clone());
        proof {
            assert(r.deep_view() =~= seq![
                "clone"@,
                "--filter=blob:none"@,
                "--"@,
                spec_url_string(*url),
                self.repo_dir@,
            ]);
        }
        r
    }

    /// The tag-listing invocation.
    pub fn tags_args(&self) -> (r: Vec<String>)
        ensures
            r.deep_view() == seq!["tag"@],
    {
        let mut r: Vec<String> = Vec::new();
        r.push("tag".to_owned());
        proof {
            assert(r.deep_view() =~= seq!["tag"@]);
        }
        r
    }

    /// The checkout sequence for `commit`: the checkout itself, then
    /// submodule init, sync, and update, in that order, each step named for
    /// failure reporting.
    pub fn checkout_steps(&self, commit: &str) -> (r: Vec<GitStep>)
        ensures
            r@.len() == 4,
            r@[0].name@ == "checkout the commit"@,
            r@[0].args.deep_view() == seq!["checkout"@, commit@],
            r@[1].name@ == "init submodules"@,
            r@[1].args.deep_view() == seq!["submodule"@, "init"@],
            r@[2].name@ == "sync submodules"@,
            r@[2].args.deep_view() == seq!["submodule"@, "sync"@],
            r@[3].name@ == "update submodules"@,
            r@[3].args.deep_view() == seq!["submodule"@, "update"@],
    {
        let mut a0: Vec<String> = Vec::new();
        a0.push("checkout".to_owned());
        a0.push(commit.to_owned());
        let mut a1: Vec<String> = Vec::new();
        a1.push("submodule".to_owned());
        a1.push("init".to_owned());
        let mut a2: Vec<String> = Vec::new();
        a2.push("submodule".to_owned());
        a2.push("sync".to_owned());
        let mut a3: Vec<String> = Vec::new();
        a3.push("submodule".to_owned());
        a3.push("update".to_owned());
        let mut r: Vec<GitStep> = Vec::new();
        r.push(GitStep { name: "checkout the commit".to_owned(), args: a0 });
        r.push(GitStep { name: "init submodules".to_owned(), args: a1 });
        r.push(GitStep { name: "sync submodules".to_owned(), args: a2 });
        r.push(GitStep { name: "update submodules".to_owned(), args: a3 });
        proof {
            assert(r@[0].args.deep_view() =~= seq!["checkout"@, commit@]);
            assert(r@[1].args.deep_view() =~= seq!["submodule"@, "init"@]);
            assert(r@[2].args.deep_view() =~= seq!["submodule"@, "sync"@]);
            assert(r@[3].args.deep_view() =~= seq!["submodule"@, "update"@]);
        }
        r
    }
}

/// A successfully checked-out working copy, ready for the build tool.
pub struct GitRepositoryCheckout {
    pub repo_dir: String,
}

impl GitRepositoryCheckout {
    pub fn new(repo_dir: String) -> (r: Self)
        ensures
            r.repo_dir == repo_dir,
    {
        GitRepositoryCheckout { repo_dir }
    }

    /// Where the build tool leaves the package archive, relative to the
    /// working copy.
    pub fn package_rel_path(&self, name: &str, version: &SemVersion) -> (r: String)
        ensures
            r@ == "target/package/"@ + name@ + seq!['-'] + spec_render(*version) + ".crate"@,
    {
        let mut r = String::from_str("target/package/");
        r.append(name);
        push_char(&mut r, '-');
        let v = version.render();
        r.append(v.as_str());
        r.append(".crate");
        proof {
            assert(r@ =~= "target/package/"@ + name@ + seq!['-'] + spec_render(*version)
                + ".crate"@);
        }
        r
    }

    /// The build invocation: package exactly the named crate as a
    /// distributable archive, skipping the pre-publish verification.
    pub fn package_args(&self, name: &str) -> (r: Vec<String>)
        ensures
            r.deep_view() == seq!["publish"@, "--dry-run"@, "--no-verify"@, "--package"@, name@],
    {
        let mut r: Vec<String> = Vec::new();
        r.push("publish".to_owned());
        r.push("--dry-run".to_owned());
        r.push("--no-verify".to_owned());
        r.push("--package".to_owned());
        r.push(name.to_owned());
        proof {
            assert(r.deep_view() =~= seq![
                "publish"@,
                "--dry-run"@,
                "--no-verify"@,
                "--package"@,
                name@,
            ]);
        }
        r
    }
}

// ---------------------------------------------------------------------------
// Tags and the tag-matching heuristic.
// ---------------------------------------------------------------------------

/// One version-control tag.
pub struct GitTag {
    pub tag: String,
}

impl GitTag {
    /// The invocation that resolves this tag to a commit id (the first line
    /// of its output).
    pub fn rev_list_args(&self) -> (r: Vec<String>)
        ensures
            r.deep_view() == seq!["rev-list"@, "-n"@, "1"@, self.tag@],
    {
        let mut r: Vec<String> = Vec::new();
        r.push("rev-list".to_owned());
        r.push("-n".to_owned());
        r.push("1".to_owned());
        r.push(self.tag.clone());
        proof {
            assert(r.deep_view() =~= seq!["rev-list"@, "-n"@, "1"@, self.tag@]);
        }
        r
    }
}

/// The distinct elements of `s` in first-occurrence order.
pub open spec fn dedup_first(s: Seq<Seq<char>>) -> Seq<Seq<char>>
    decreases s.len(),
{
    if s.len() == 0 {
        Seq::empty()
    } else {
        let d = dedup_first(s.drop_last());
        if d.contains(s.last()) {
            d
        } else {
            d.push(s.last())
        }
    }
}

/// The set of tag names on one repository, fetched once per run.
pub struct GitTags(pub Vec<GitTag>);

impl View for GitTags {
    type V = Seq<Seq<char>>;

    open spec fn view(&self) -> Seq<Seq<char>> {
        Seq::new(self.0@.len(), |i: int| self.0@[i].tag@)
    }
}

/// The ordered candidate tag strings for a package name and version, the
/// version rendered without its build metadata: the name-prefixed forms
/// under every separator convention first, the bare-version forms last.
pub open spec fn tag_candidates(name: Seq<char>, v: SemVersion) -> Seq<Seq<char>> {
    let vr = spec_render_no_build(v);
    seq![
        name + seq!['-', 'v'] + vr,
        name + seq!['-'] + vr,
        name + seq!['_', 'v'] + vr,
        name + seq!['_'] + vr,
        name + seq!['/', 'v'] + vr,
        name + seq!['v', '/'] + vr,
        name + seq!['/'] + vr,
        name + seq!['@', 'v'] + vr,
        name + seq!['@'] + vr,
        seq!['v'] + vr,
        vr,
        seq!['v', '/'] + vr,
    ]
}

/// The first candidate that is present in the tag set, scanned in candidate
/// order.
pub open spec fn first_match(tags: Seq<Seq<char>>, cands: Seq<Seq<char>>) -> Option<Seq<char>>
    decreases cands.len(),
{
    if cands.len() == 0 {
        None
    } else if tags.contains(cands[0]) {
        Some(cands[0])
    } else {
        first_match(tags, cands.skip(1))
    }
}

/// `name + sep + vr`.
fn cand2(name: &str, sep: char, vr: &str) -> (r: String)
    ensures
        r@ == name@ + seq![sep] + vr@,
{
    let mut r = name.to_owned();
    push_char(&mut r, sep);
    r.append(vr);
    proof {
        assert(r@ =~= name@ + seq![sep] + vr@);
    }
    r
}

/// `name + s1 + s2 + vr`.
fn cand3(name: &str, s1: char, s2: char, vr: &str) -> (r: String)
    ensures
        r@ == name@ + seq![s1, s2] + vr@,
{
    let mut r = name.to_owned();
    push_char(&mut r, s1);
    push_char(&mut r, s2);
    r.append(vr);
    proof {
        assert(r@ =~= name@ + seq![s1, s2] + vr@);
    }
    r
}

/// Builds the candidate list in matching order.
pub fn build_candidates(name: &str, version: &SemVersion) -> (r: Vec<String>)
    ensures
        r.deep_view() == tag_candidates(name@, *version),
{
    let vr = version.render_no_build();
    let v = vr.as_str();
    let mut r: Vec<String> = Vec::new();
    r.push(cand3(name, '-', 'v', v));
    r.push(cand2(name, '-', v));
    r.push(cand3(name, '_', 'v', v));
    r.push(cand2(name, '_', v));
    r.push(cand3(name, '/', 'v', v));
    r.push(cand3(name, 'v', '/', v));
    r.push(cand2(name, '/', v));
    r.push(cand3(name, '@', 'v', v));
    r.push(cand2(name, '@', v));
    r.push(cand2("", 'v', v));
    r.push(v.to_owned());
    r.push(cand3("", 'v', '/', v));
    proof {
        reveal_strlit("");
        assert(""@ =~= Seq::<char>::empty());
        assert(""@ + seq!['v'] + vr@ =~= seq!['v'] + vr@);
        assert(""@ + seq!['v', '/'] + vr@ =~= seq!['v', '/'] + vr@);
        assert(r.deep_view() =~= tag_candidates(name@, *version));
    }
    r
}

impl GitTags {
    /// Collects the distinct lines of a tag listing, first occurrence
    /// first.
    pub fn from_lines(s: &str) -> (r: GitTags)
        ensures
            r@ == dedup_first(lines_of(s@)),
    {
        let lines = split_lines(s);
        let mut r: Vec<GitTag> = Vec::new();
        let mut i: usize = 0;
        while i < lines.len()
            invariant
                0 <= i <= lines@.len(),
                Seq::new(r@.len(), |k: int| r@[k].tag@) == dedup_first(
                    lines.deep_view().take(i as int),
                ),
            decreases lines@.len() - i,
        {
            let ghost names = Seq::new(r@.len(), |k: int| r@[k].tag@);
            let line = &lines[i];
            let mut seen = false;
            let mut j: usize = 0;
            while j < r.len()
                invariant
                    0 <= j <= r@.len(),
                    names == Seq::new(r@.len(), |k: int| r@[k].tag@),
                    seen ==> names.contains(line@),
                    !seen ==> forall|k: int| 0 <= k < j ==> names[k] != line@,
                decreases r@.len() - j,
            {
                if !seen && str_eq(r[j].tag.as_str(), line.as_str()) {
                    seen = true;
                    proof {
                        assert(names[j as int] == line@);
                    }
                }
                j = j + 1;
            }
            if !seen {
                proof {
                    if names.contains(line@) {
                        let k = choose|k: int| 0 <= k < names.len() && names[k] == line@;
                    }
                    assert(!names.contains(line@));
                }
                r.push(GitTag { tag: line.clone() });
            }
            proof {
                assert(lines.deep_view().take((i + 1) as int).drop_last() =~= lines.deep_view()
                    .take(i as int));
                assert(lines.deep_view().take((i + 1) as int).last() == line@);
                assert(Seq::new(r@.len(), |k: int| r@[k].tag@) =~= dedup_first(
                    lines.deep_view().take((i + 1) as int),
                ));
            }
            i = i + 1;
        }
        proof {
            assert(lines.deep_view().take(lines@.len() as int) =~= lines.deep_view());
        }
        let tags = GitTags(r);
        proof {
            assert(tags@ =~= dedup_first(lines_of(s@)));
        }
        tags
    }

    /// How many distinct tags there are.
    pub fn len(&self) -> (r: usize)
        ensures
            r == self@.len(),
    {
        self.0.len()
    }

    /// Whether the repository has no tags at all.
    pub fn is_empty(&self) -> (r: bool)
        ensures
            r == (self@.len() == 0),
    {
        self.0.is_empty()
    }

    /// The position of `s` among the tags, when present.
    fn index_of_tag(&self, s: &str) -> (r: Option<usize>)
        ensures
            match r {
                Some(j) => j < self@.len() && self@[j as int] == s@,
                None => !self@.contains(s@),
            },
    {
        let mut j: usize = 0;
        while j < self.0.len()
            invariant
                0 <= j <= self.0@.len(),
                forall|k: int| 0 <= k < j ==> self@[k] != s@,
            decreases self.0@.len() - j,
        {
            if str_eq(self.0[j].tag.as_str(), s) {
                return Some(j);
            }
            j = j + 1;
        }
        proof {
            if self@.contains(s@) {
                let k = choose|k: int| 0 <= k < self@.len() && self@[k] == s@;
            }
        }
        None
    }

    /// The first candidate tag for this name and version that the
    /// repository has, name-prefixed forms taking precedence; `None` when
    /// no candidate is present, which is not an error.
    pub fn find_tag_for_version(&self, name: &str, version: &SemVersion) -> (r: Option<&GitTag>)
        ensures
            match r {
                Some(t) => first_match(self@, tag_candidates(name@, *version)) == Some(t.tag@),
                None => first_match(self@, tag_candidates(name@, *version)) is None,
            },
    {
        let cands = build_candidates(name, version);
        let ghost cv = cands.deep_view();
        proof {
            assert(cv.skip(0) =~= cv);
        }
        let mut i: usize = 0;
        while i < cands.len()
            invariant
                0 <= i <= cv.len(),
                cv == cands.deep_view(),
                cv == tag_candidates(name@, *version),
                first_match(self@, cv.skip(i as int)) == first_match(self@, cv),
            decreases cv.len() - i,
        {
            match self.index_of_tag(cands[i].as_str()) {
                Some(j) => {
                    proof {
                        assert(cv.skip(i as int)[0] == cv[i as int]);
                        assert(self@.contains(cv[i as int]));
                    }
                    return Some(&self.0[j]);
                },
                None => {
                    proof {
                        assert(cv.skip(i as int)[0] == cv[i as int]);
                        assert(cv.skip(i as int).skip(1) =~= cv.skip(i as int + 1));
                    }
                },
            }
            i = i + 1;
        }
        proof {
            assert(cv.skip(cv.len() as int) =~= Seq::<Seq<char>>::empty());
        }
        None
    }
}

/// The position of the first candidate present in the tag set, or the
/// candidate count when none is.
pub open spec fn first_match_idx(tags: Seq<Seq<char>>, cands: Seq<Seq<char>>) -> int
    decreases cands.len(),
{
    if cands.len() == 0 {
        0
    } else if tags.contains(cands[0]) {
        0
    } else {
        1 + first_match_idx(tags, cands.skip(1))
    }
}

/// What the matcher returns is the first candidate the tag set has: the
/// match is a tag, it stands in the candidate list, and every candidate
/// before it is absent from the tag set; with no candidate present there is
/// no match.
pub proof fn lemma_first_match_characterization(tags: Seq<Seq<char>>, cands: Seq<Seq<char>>)
    ensures
        0 <= first_match_idx(tags, cands) <= cands.len(),
        first_match_idx(tags, cands) < cands.len() ==> {
            &&& first_match(tags, cands) == Some(cands[first_match_idx(tags, cands)])
            &&& tags.contains(cands[first_match_idx(tags, cands)])
        },
        first_match_idx(tags, cands) == cands.len() ==> first_match(tags, cands) is None,
        forall|j: int| 0 <= j < first_match_idx(tags, cands) ==> !tags.contains(cands[j]),
    decreases cands.len(),
{
    if cands.len() == 0 {
    } else if tags.contains(cands[0]) {
    } else {
        lemma_first_match_characterization(tags, cands.skip(1));
        let rest = cands.skip(1);
        let i = first_match_idx(tags, rest);
        assert(forall|j: int| 0 <= j < rest.len() ==> #[trigger] rest[j] == cands[j + 1]);
        if i < rest.len() {
            assert(cands[i + 1] == rest[i]);
        }
        assert forall|j: int| 0 <= j < first_match_idx(tags, cands) implies !tags.contains(
            cands[j],
        ) by {
            if j > 0 {
                assert(rest[j - 1] == cands[j]);
            }
        }
    }
}

/// A repository without tags matches nothing, whatever the candidates are;
/// that is no error, only a fallback.
pub proof fn lemma_no_tags_no_match(tags: Seq<Seq<char>>, cands: Seq<Seq<char>>)
    requires
        tags.len() == 0,
    ensures
        first_match(tags, cands) is None,
    decreases cands.len(),
{
    if cands.len() > 0 {
        lemma_no_tags_no_match(tags, cands.skip(1));
    }
}

/// Candidate lists read nothing of the build metadata: versions that differ
/// only there produce identical candidate lists.
pub proof fn lemma_candidates_ignore_build(name: Seq<char>, a: SemVersion, b: SemVersion)
    requires
        a.major == b.major,
        a.minor == b.minor,
        a.patch == b.patch,
        a.pre@ == b.pre@,
    ensures
        tag_candidates(name, a) == tag_candidates(name, b),
{
    crate::version::lemma_render_ignores_build(a, b);
}

} // verus!
