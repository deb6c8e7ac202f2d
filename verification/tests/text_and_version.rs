use crates_check::text::{
    basename, find_char, first_line, replace_char, split_lines, split_on_char, str_ends_with,
    str_eq, str_starts_with, trim_dot_git_suffix, u64_to_string,
};
use crates_check::version::SemVersion;

fn ver(major: u64, minor: u64, patch: u64, pre: &str, build: &str) -> SemVersion {
    SemVersion { major, minor, patch, pre: pre.to_owned(), build: build.to_owned() }
}

#[test]
fn u64_rendering() {
    assert_eq!(u64_to_string(0), "0");
    assert_eq!(u64_to_string(7), "7");
    assert_eq!(u64_to_string(10), "10");
    assert_eq!(u64_to_string(1234567890), "1234567890");
    assert_eq!(u64_to_string(u64::MAX), "18446744073709551615");
}

#[test]
fn version_rendering() {
    assert_eq!(ver(1, 2, 3, "", "").render(), "1.2.3");
    assert_eq!(ver(1, 2, 3, "alpha.1", "").render(), "1.2.3-alpha.1");
    assert_eq!(ver(1, 2, 3, "", "build5").render(), "1.2.3+build5");
    assert_eq!(ver(1, 2, 3, "rc.1", "abc").render(), "1.2.3-rc.1+abc");
    assert_eq!(ver(1, 2, 3, "rc.1", "abc").render_no_build(), "1.2.3-rc.1");
    assert_eq!(ver(0, 0, 1, "", "").render(), "0.0.1");
}

#[test]
fn version_without_build() {
    let v = ver(4, 5, 6, "beta", "xyz").without_build();
    assert_eq!(v.major, 4);
    assert_eq!(v.minor, 5);
    assert_eq!(v.patch, 6);
    assert_eq!(v.pre, "beta");
    assert_eq!(v.build, "");
    assert_eq!(v.render(), "4.5.6-beta");
}

#[test]
fn string_predicates() {
    assert!(str_eq("abc", "abc"));
    assert!(!str_eq("abc", "abd"));
    assert!(str_ends_with("repo.git", ".git"));
    assert!(!str_ends_with("git", ".git"));
    assert!(!str_ends_with("repo.gi", ".git"));
    assert!(str_starts_with("gitlab.example.com", "gitlab."));
    assert!(!str_starts_with("gitlab", "gitlab."));
    assert_eq!(find_char("a/b", '/'), 1);
    assert_eq!(find_char("ab", '/'), 2);
}

#[test]
fn splitting_on_char() {
    let parts = split_on_char("a/b/c", '/');
    assert_eq!(parts, vec!["a", "b", "c"]);
    assert_eq!(split_on_char("", '/'), vec![""]);
    assert_eq!(split_on_char("a/", '/'), vec!["a", ""]);
    assert_eq!(split_on_char("/a", '/'), vec!["", "a"]);
}

#[test]
fn splitting_lines() {
    assert_eq!(split_lines("a\nb"), vec!["a", "b"]);
    assert_eq!(split_lines("a\nb\n"), vec!["a", "b"]);
    assert_eq!(split_lines("a\r\nb\r\n"), vec!["a", "b"]);
    assert_eq!(split_lines(""), Vec::<String>::new());
    assert_eq!(split_lines("a\n\nb"), vec!["a", "", "b"]);
    assert_eq!(split_lines("a\r"), vec!["a\r"]);
}

#[test]
fn first_line_of_output() {
    assert_eq!(first_line("c0ffee\nrest"), Some("c0ffee".to_owned()));
    assert_eq!(first_line("c0ffee\r\nrest"), Some("c0ffee".to_owned()));
    assert_eq!(first_line("single"), Some("single".to_owned()));
    assert_eq!(first_line(""), None);
}

#[test]
fn basename_extraction() {
    assert_eq!(basename("a/b/c.txt"), "c.txt");
    assert_eq!(basename("c.txt"), "c.txt");
    assert_eq!(basename("a/b/"), "");
}

#[test]
fn char_replacement() {
    assert_eq!(replace_char("/a/b.git", '/', '-'), "-a-b.git");
    assert_eq!(replace_char("abc", 'x', 'y'), "abc");
}

#[test]
fn trimming_dot_git() {
    assert_eq!(trim_dot_git_suffix("repo.git"), "repo");
    assert_eq!(trim_dot_git_suffix("repo.git.git"), "repo");
    assert_eq!(trim_dot_git_suffix("repo"), "repo");
    assert_eq!(trim_dot_git_suffix(".git"), "");
    assert_eq!(trim_dot_git_suffix("git"), "git");
}
