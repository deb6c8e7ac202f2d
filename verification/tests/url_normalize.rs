use crates_check::git::{parse_and_normalize, GitUrl, UrlError, UrlParts};

fn key_of(s: &str) -> GitUrl {
    parse_and_normalize(s).unwrap()
}

#[test]
fn forge_url_with_and_without_dot_git() {
    let a = key_of("https://github.com/owner/repo");
    let b = key_of("https://github.com/owner/repo.git");
    assert_eq!(a.path, "/owner/repo.git");
    assert_eq!(b.path, "/owner/repo.git");
    assert_eq!(a.host, "github.com");
    assert_eq!(a.scheme, "https");
}

#[test]
fn forge_url_with_trailing_slash_and_extra_segments() {
    let a = key_of("https://github.com/owner/repo/");
    let b = key_of("https://github.com/owner/repo/tree/main/sub");
    let c = key_of("https://github.com/owner/repo");
    assert_eq!(a.path, c.path);
    assert_eq!(b.path, c.path);
    assert_eq!(c.path, "/owner/repo.git");
}

#[test]
fn gitlab_like_hosts_collapse_too() {
    let a = key_of("https://gitlab.example.org/grp/proj.git/");
    assert_eq!(a.host, "gitlab.example.org");
    assert_eq!(a.path, "/grp/proj.git");
}

#[test]
fn other_hosts_pass_through() {
    let a = key_of("https://git.sr.example/~owner/repo/extra");
    assert_eq!(a.host, "git.sr.example");
    assert_eq!(a.path, "/~owner/repo/extra");
}

#[test]
fn normalization_is_idempotent_at_the_string_level() {
    for s in [
        "https://github.com/owner/repo.git.git",
        "https://github.com/owner/repo/tree/main",
        "http://gitlab.com/a/b/c/d",
        "https://example.com/x/y",
    ] {
        let once = key_of(s);
        let twice = key_of(&once.url_string());
        assert_eq!(once.scheme, twice.scheme);
        assert_eq!(once.host, twice.host);
        assert_eq!(once.path, twice.path);
    }
}

#[test]
fn url_string_rendering() {
    let a = key_of("https://github.com/owner/repo");
    assert_eq!(a.url_string(), "https://github.com/owner/repo.git");
}

#[test]
fn rejects_bad_scheme() {
    assert!(matches!(
        parse_and_normalize("ftp://github.com/owner/repo"),
        Err(UrlError::BadScheme)
    ));
    assert!(matches!(parse_and_normalize("ssh://git@github.com/o/r"), Err(UrlError::BadScheme)));
}

#[test]
fn rejects_unparsable() {
    assert!(matches!(parse_and_normalize("not a url"), Err(UrlError::Unparsable)));
    assert!(matches!(parse_and_normalize(""), Err(UrlError::Unparsable)));
}

#[test]
fn rejects_forge_path_without_repo() {
    assert!(matches!(
        parse_and_normalize("https://github.com/onlyowner"),
        Err(UrlError::MissingRepoName)
    ));
    assert!(matches!(parse_and_normalize("https://github.com/"), Err(UrlError::MissingRepoName)));
}

#[test]
fn rejects_missing_host_parts() {
    let parts = UrlParts { scheme: "https".to_owned(), host: None, path: "/a/b".to_owned() };
    assert!(matches!(GitUrl::try_from_parts(parts), Err(UrlError::NoHost)));
}

#[test]
fn parsing_extracts_scheme_host_path() {
    let u = parse_and_normalize("https://example.com/a/b?query=1#frag").unwrap();
    assert_eq!(u.scheme, "https");
    assert_eq!(u.host, "example.com");
    assert_eq!(u.path, "/a/b");
    assert!(matches!(parse_and_normalize("::nonsense::"), Err(UrlError::Unparsable)));
}
