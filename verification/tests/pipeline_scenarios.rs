use crates_check::git::UrlError;
use crates_check::package::PackageComparison;
use crates_check::pipeline::{
    group_by_key, Action, Diagnostic, PackageCheck, PackageRecord, Phase, SourceInfo, SourceKind,
};
use crates_check::version::SemVersion;
use sha2::Digest;

const CRATES_IO: &str = "https://github.com/rust-lang/crates.io-index";
const COMMIT: &str = "cccccccccccccccccccccccccccccccccccccccc";

fn gzip(data: &[u8]) -> Vec<u8> {
    let mut enc = flate2::write::GzEncoder::new(Vec::new(), flate2::Compression::default());
    std::io::Write::write_all(&mut enc, data).unwrap();
    enc.finish().unwrap()
}

fn make_tar_gz(files: &[(&str, &[u8])]) -> Vec<u8> {
    let mut builder = tar::Builder::new(Vec::new());
    for (path, data) in files {
        let mut header = tar::Header::new_gnu();
        header.set_size(data.len() as u64);
        header.set_mode(0o644);
        header.set_cksum();
        builder.append_data(&mut header, path, *data).unwrap();
    }
    gzip(&builder.into_inner().unwrap())
}

const MANIFEST: &[u8] = b"[package]\nname = \"foo\"\nversion = \"1.0.0\"\nrepository = \"https://github.com/owner/repo\"\n";

fn vcs_info() -> Vec<u8> {
    let mut j = String::new();
    j.push_str("{\"git\":{\"sha1\":\"");
    j.push_str(COMMIT);
    j.push_str("\"}}");
    j.into_bytes()
}

/// The registry archive for the scenarios: manifest, VCS hint, one source
/// file.
fn registry_archive() -> Vec<u8> {
    let vcs = vcs_info();
    make_tar_gz(&[
        ("foo-1.0.0/Cargo.toml", MANIFEST),
        ("foo-1.0.0/.cargo_vcs_info.json", vcs.as_slice()),
        ("foo-1.0.0/src/lib.rs", b"pub fn f() -> u32 { 1 }\n"),
    ])
}

/// The same archive without the VCS hint.
fn registry_archive_without_hint() -> Vec<u8> {
    make_tar_gz(&[
        ("foo-1.0.0/Cargo.toml", MANIFEST),
        ("foo-1.0.0/src/lib.rs", b"pub fn f() -> u32 { 1 }\n"),
    ])
}

fn record(checksum: Option<Vec<u8>>) -> PackageRecord {
    PackageRecord {
        name: "foo".to_owned(),
        version: SemVersion {
            major: 1,
            minor: 0,
            patch: 0,
            pre: String::new(),
            build: String::new(),
        },
        source: Some(SourceInfo { kind: SourceKind::Registry, url: CRATES_IO.to_owned() }),
        checksum,
    }
}

fn sha256(data: &[u8]) -> Vec<u8> {
    sha2::Sha256::digest(data).to_vec()
}

/// Drives a scenario up to the point where the archive bytes are delivered.
fn start_with_archive(archive: &[u8], checksum: Option<Vec<u8>>) -> (PackageCheck, Action, Vec<Diagnostic>) {
    let (check, action, diags) = PackageCheck::start(record(checksum));
    assert!(diags.is_empty());
    match &action {
        Action::FetchArchive { url, cache_rel_path } => {
            assert_eq!(url, "https://static.crates.io/crates/foo/foo-1.0.0.crate");
            assert_eq!(cache_rel_path, "foo/1.0.0.tar.gz");
        },
        _ => panic!("expected a fetch"),
    }
    let (check, action, diags) = check.archive_fetched(true);
    assert!(diags.is_empty());
    assert!(matches!(action, Action::ReadArchive { .. }));
    check.archive_bytes(Some(archive.to_vec()))
}

#[test]
fn scenario_full_verification_without_diagnostics() {
    let archive = registry_archive();
    let (check, action, diags) = start_with_archive(&archive, Some(sha256(&archive)));
    assert!(diags.is_empty(), "unexpected diagnostics: {}", diags.len());
    match &action {
        Action::CloneRepo { dir_name, clone_args } => {
            assert_eq!(dir_name, "github.com--owner-repo.git");
            assert_eq!(
                clone_args,
                &vec![
                    "clone".to_owned(),
                    "--filter=blob:none".to_owned(),
                    "--".to_owned(),
                    "https://github.com/owner/repo.git".to_owned(),
                    "github.com--owner-repo.git".to_owned(),
                ]
            );
        },
        _ => panic!("expected a clone"),
    }

    let (check, action, diags) = check.repo_ready(true);
    assert!(diags.is_empty());
    assert!(matches!(action, Action::ListTags { .. }));

    let (check, action, diags) = check.tags_output(Some("v1.0.0\nunrelated\n".to_owned()));
    assert!(diags.is_empty());
    match &action {
        Action::ResolveTag { rev_list_args, .. } => {
            assert_eq!(
                rev_list_args,
                &vec!["rev-list".to_owned(), "-n".to_owned(), "1".to_owned(), "v1.0.0".to_owned()]
            );
        },
        _ => panic!("expected tag resolution"),
    }

    let mut rev_out = String::new();
    rev_out.push_str(COMMIT);
    rev_out.push('\n');
    let (check, action, diags) = check.rev_list_output(Some(rev_out));
    assert!(diags.is_empty(), "hint agrees with the tag commit");
    match &action {
        Action::Checkout { steps, .. } => {
            assert_eq!(steps.len(), 4);
            assert_eq!(steps[0].args, vec!["checkout", COMMIT]);
        },
        _ => panic!("expected a checkout"),
    }

    let (check, action, diags) = check.checkout_done(None);
    assert!(diags.is_empty());
    match &action {
        Action::Build { package_args, package_rel_path, .. } => {
            assert_eq!(
                package_args,
                &vec![
                    "publish".to_owned(),
                    "--dry-run".to_owned(),
                    "--no-verify".to_owned(),
                    "--package".to_owned(),
                    "foo".to_owned(),
                ]
            );
            assert_eq!(package_rel_path, "target/package/foo-1.0.0.crate");
        },
        _ => panic!("expected a build"),
    }

    let (check, action, diags) = check.build_done(true);
    assert!(diags.is_empty());
    assert!(matches!(action, Action::ReadBuilt { .. }));

    // The rebuild differs only in the manifest (ignored) and in whitespace.
    let rebuilt = make_tar_gz(&[
        ("foo-1.0.0/Cargo.toml", b"[package]\nname = \"foo\"\n".as_slice()),
        ("foo-1.0.0/src/lib.rs", b"pub fn f() -> u32 {1}".as_slice()),
    ]);
    let (check, action, diags) = check.built_bytes(Some(rebuilt));
    assert!(matches!(action, Action::Done));
    assert!(matches!(check.phase, Phase::Done));
    assert!(diags.is_empty(), "a faithful rebuild yields no diagnostics");
}

#[test]
fn scenario_checksum_mismatch_stops_before_checkout() {
    let archive = registry_archive();
    let wrong = sha256(b"something else");
    let (check, action, diags) = start_with_archive(&archive, Some(wrong));
    assert_eq!(diags.len(), 1);
    assert!(matches!(diags[0], Diagnostic::ChecksumMismatch));
    assert!(matches!(action, Action::Done), "no checkout or build is attempted");
    assert!(matches!(check.phase, Phase::Done));
}

#[test]
fn scenario_no_tags_falls_back_to_hint() {
    let archive = registry_archive();
    let (check, action, diags) = start_with_archive(&archive, Some(sha256(&archive)));
    assert!(diags.is_empty());
    assert!(matches!(action, Action::CloneRepo { .. }));
    let (check, _action, diags) = check.repo_ready(true);
    assert!(diags.is_empty());
    let (_check, action, diags) = check.tags_output(Some(String::new()));
    assert_eq!(diags.len(), 1);
    assert!(matches!(diags[0], Diagnostic::NoTags));
    match &action {
        Action::Checkout { steps, .. } => {
            assert_eq!(steps[0].args, vec!["checkout", COMMIT]);
        },
        _ => panic!("expected fallback to the VCS hint"),
    }
}

#[test]
fn scenario_no_tags_and_no_hint_is_undeterminable() {
    let archive = registry_archive_without_hint();
    let (check, _action, diags) = start_with_archive(&archive, Some(sha256(&archive)));
    assert!(diags.is_empty());
    let (check, _action, diags) = check.repo_ready(true);
    assert!(diags.is_empty());
    let (check, action, diags) = check.tags_output(Some(String::new()));
    assert_eq!(diags.len(), 2);
    assert!(matches!(diags[0], Diagnostic::NoTags));
    assert!(matches!(diags[1], Diagnostic::CommitUndeterminable));
    assert!(matches!(action, Action::Done));
    assert!(matches!(check.phase, Phase::Done));
}

#[test]
fn scenario_tags_exist_but_none_match() {
    let archive = registry_archive();
    let (check, _action, diags) = start_with_archive(&archive, Some(sha256(&archive)));
    assert!(diags.is_empty());
    let (check, _action, _diags) = check.repo_ready(true);
    let (_check, _action, diags) = check.tags_output(Some("v9.9.9\n".to_owned()));
    assert!(matches!(diags[0], Diagnostic::NoTagMatched));
}

#[test]
fn scenario_extra_file_in_rebuild_is_reported_once() {
    let archive = registry_archive();
    let (check, _action, diags) = start_with_archive(&archive, Some(sha256(&archive)));
    assert!(diags.is_empty());
    let (check, _action, _d) = check.repo_ready(true);
    let (check, _action, _d) = check.tags_output(Some("v1.0.0\n".to_owned()));
    let mut rev_out = String::new();
    rev_out.push_str(COMMIT);
    rev_out.push('\n');
    let (check, _action, _d) = check.rev_list_output(Some(rev_out));
    let (check, _action, _d) = check.checkout_done(None);
    let (check, _action, _d) = check.build_done(true);

    let rebuilt = make_tar_gz(&[
        ("foo-1.0.0/Cargo.toml", MANIFEST),
        ("foo-1.0.0/src/lib.rs", b"pub fn f() -> u32 { 1 }\n".as_slice()),
        ("foo-1.0.0/extra.txt", b"surplus".as_slice()),
    ]);
    let (_check, action, diags) = check.built_bytes(Some(rebuilt));
    assert!(matches!(action, Action::Done));
    assert_eq!(diags.len(), 1, "exactly one verdict line");
    match &diags[0] {
        Diagnostic::Comparison(PackageComparison::OnlyLeft(p)) => {
            assert_eq!(p, "foo-1.0.0/extra.txt");
        },
        _ => panic!("expected a rebuild-only file verdict"),
    }
}

#[test]
fn hint_disagreement_is_reported() {
    let archive = registry_archive();
    let (check, _action, diags) = start_with_archive(&archive, Some(sha256(&archive)));
    assert!(diags.is_empty());
    let (check, _action, _d) = check.repo_ready(true);
    let (check, _action, _d) = check.tags_output(Some("v1.0.0\n".to_owned()));
    let (_check, action, diags) = check.rev_list_output(Some(
        "dddddddddddddddddddddddddddddddddddddddd\n".to_owned(),
    ));
    assert_eq!(diags.len(), 1);
    assert!(matches!(diags[0], Diagnostic::HintMismatch));
    match &action {
        Action::Checkout { steps, .. } => {
            assert_eq!(
                steps[0].args,
                vec!["checkout", "dddddddddddddddddddddddddddddddddddddddd"],
                "the tag-resolved commit wins over the hint"
            );
        },
        _ => panic!("expected a checkout"),
    }
}

#[test]
fn missing_checksum_is_informational() {
    let archive = registry_archive();
    let (_check, action, diags) = start_with_archive(&archive, None);
    assert_eq!(diags.len(), 1);
    assert!(matches!(diags[0], Diagnostic::MissingChecksum));
    assert!(matches!(action, Action::CloneRepo { .. }), "verification continues");
}

#[test]
fn record_without_source_is_reported() {
    let mut r = record(None);
    r.source = None;
    let (check, action, diags) = PackageCheck::start(r);
    assert_eq!(diags.len(), 1);
    assert!(matches!(diags[0], Diagnostic::MissingSource));
    assert!(matches!(action, Action::Done));
    assert!(matches!(check.phase, Phase::Done));
}

#[test]
fn record_from_other_source_kind_is_skipped_silently() {
    let mut r = record(None);
    r.source = Some(SourceInfo { kind: SourceKind::Other, url: "x".to_owned() });
    let (_check, action, diags) = PackageCheck::start(r);
    assert!(diags.is_empty());
    assert!(matches!(action, Action::Done));
}

#[test]
fn record_from_another_registry_is_reported() {
    let mut r = record(None);
    r.source = Some(SourceInfo {
        kind: SourceKind::Registry,
        url: "https://example.com/other-index".to_owned(),
    });
    let (_check, action, diags) = PackageCheck::start(r);
    assert_eq!(diags.len(), 1);
    assert!(matches!(diags[0], Diagnostic::NotCratesIo));
    assert!(matches!(action, Action::Done));
}

#[test]
fn download_failure_is_reported() {
    let (check, _action, _d) = PackageCheck::start(record(None));
    let (_check, action, diags) = check.archive_fetched(false);
    assert_eq!(diags.len(), 1);
    assert!(matches!(diags[0], Diagnostic::ObtainFailed));
    assert!(matches!(action, Action::Done));
}

#[test]
fn unreadable_archive_is_reported() {
    let (_check, action, diags) = start_with_archive(b"not gzip at all", None);
    assert_eq!(diags.len(), 2);
    assert!(matches!(diags[0], Diagnostic::MissingChecksum));
    assert!(matches!(diags[1], Diagnostic::ArchiveUnreadable));
    assert!(matches!(action, Action::Done));
}

#[test]
fn duplicated_vcs_info_is_a_hard_error() {
    let vcs = vcs_info();
    let archive = make_tar_gz(&[
        ("foo-1.0.0/.cargo_vcs_info.json", vcs.as_slice()),
        ("foo-1.0.0/Cargo.toml", MANIFEST),
        ("foo-1.0.0/sub/.cargo_vcs_info.json", vcs.as_slice()),
    ]);
    let (check, action, diags) = start_with_archive(&archive, Some(sha256(&archive)));
    assert_eq!(diags.len(), 1);
    assert!(matches!(diags[0], Diagnostic::DuplicateVcsInfo));
    assert!(matches!(action, Action::Done));
    assert!(matches!(check.phase, Phase::Done));
}

#[test]
fn duplicated_manifest_keeps_the_first() {
    let vcs = vcs_info();
    let second = b"[package]\nname = \"foo\"\nversion = \"1.0.0\"\n";
    let archive = make_tar_gz(&[
        ("foo-1.0.0/Cargo.toml", MANIFEST),
        ("foo-1.0.0/.cargo_vcs_info.json", vcs.as_slice()),
        ("foo-1.0.0/sub/Cargo.toml", second.as_slice()),
    ]);
    let (_check, action, diags) = start_with_archive(&archive, Some(sha256(&archive)));
    assert_eq!(diags.len(), 1);
    assert!(matches!(diags[0], Diagnostic::DuplicateManifest));
    assert!(matches!(action, Action::CloneRepo { .. }), "the first manifest's repository is used");
}

#[test]
fn missing_manifest_is_reported() {
    let archive = make_tar_gz(&[("foo-1.0.0/src/lib.rs", b"".as_slice())]);
    let (_check, action, diags) = start_with_archive(&archive, Some(sha256(&archive)));
    assert_eq!(diags.len(), 1);
    assert!(matches!(diags[0], Diagnostic::ManifestMissing));
    assert!(matches!(action, Action::Done));
}

#[test]
fn unparsable_manifest_is_reported() {
    let archive = make_tar_gz(&[("foo-1.0.0/Cargo.toml", b"= not toml [".as_slice())]);
    let (_check, action, diags) = start_with_archive(&archive, Some(sha256(&archive)));
    assert_eq!(diags.len(), 1);
    assert!(matches!(diags[0], Diagnostic::ManifestInvalid));
    assert!(matches!(action, Action::Done));
}

#[test]
fn manifest_without_repository_is_reported() {
    let archive = make_tar_gz(&[(
        "foo-1.0.0/Cargo.toml",
        b"[package]\nname = \"foo\"\nversion = \"1.0.0\"\n".as_slice(),
    )]);
    let (_check, action, diags) = start_with_archive(&archive, Some(sha256(&archive)));
    assert_eq!(diags.len(), 1);
    assert!(matches!(diags[0], Diagnostic::MissingRepository));
    assert!(matches!(action, Action::Done));
}

#[test]
fn bad_repository_scheme_is_reported() {
    let archive = make_tar_gz(&[(
        "foo-1.0.0/Cargo.toml",
        b"[package]\nname = \"foo\"\nversion = \"1.0.0\"\nrepository = \"ssh://git@github.com/o/r\"\n".as_slice(),
    )]);
    let (_check, action, diags) = start_with_archive(&archive, Some(sha256(&archive)));
    assert_eq!(diags.len(), 1);
    assert!(matches!(diags[0], Diagnostic::InvalidRepositoryUrl(UrlError::BadScheme)));
    assert!(matches!(action, Action::Done));
}

#[test]
fn clone_failure_is_reported() {
    let archive = registry_archive();
    let (check, _action, _d) = start_with_archive(&archive, Some(sha256(&archive)));
    let (_check, action, diags) = check.repo_ready(false);
    assert_eq!(diags.len(), 1);
    assert!(matches!(diags[0], Diagnostic::CloneFailed));
    assert!(matches!(action, Action::Done));
}

#[test]
fn tag_listing_failure_is_reported() {
    let archive = registry_archive();
    let (check, _action, _d) = start_with_archive(&archive, Some(sha256(&archive)));
    let (check, _action, _d) = check.repo_ready(true);
    let (_check, action, diags) = check.tags_output(None);
    assert_eq!(diags.len(), 1);
    assert!(matches!(diags[0], Diagnostic::TagListingFailed));
    assert!(matches!(action, Action::Done));
}

#[test]
fn checkout_failure_names_the_step() {
    let archive = registry_archive();
    let (check, _action, _d) = start_with_archive(&archive, Some(sha256(&archive)));
    let (check, _action, _d) = check.repo_ready(true);
    let (check, _action, _d) = check.tags_output(Some("v1.0.0\n".to_owned()));
    let mut rev_out = String::new();
    rev_out.push_str(COMMIT);
    rev_out.push('\n');
    let (check, _action, _d) = check.rev_list_output(Some(rev_out));
    let (_check, action, diags) = check.checkout_done(Some("sync submodules".to_owned()));
    assert_eq!(diags.len(), 1);
    match &diags[0] {
        Diagnostic::CheckoutFailed(step) => assert_eq!(step, "sync submodules"),
        _ => panic!("expected a checkout failure"),
    }
    assert!(matches!(action, Action::Done));
}

#[test]
fn build_failure_is_reported() {
    let archive = registry_archive();
    let (check, _action, _d) = start_with_archive(&archive, Some(sha256(&archive)));
    let (check, _action, _d) = check.repo_ready(true);
    let (check, _action, _d) = check.tags_output(Some("v1.0.0\n".to_owned()));
    let mut rev_out = String::new();
    rev_out.push_str(COMMIT);
    rev_out.push('\n');
    let (check, _action, _d) = check.rev_list_output(Some(rev_out));
    let (check, _action, _d) = check.checkout_done(None);
    let (_check, action, diags) = check.build_done(false);
    assert_eq!(diags.len(), 1);
    assert!(matches!(diags[0], Diagnostic::BuildFailed));
    assert!(matches!(action, Action::Done));
}

#[test]
fn changed_file_in_rebuild_is_reported_as_different() {
    let archive = registry_archive();
    let (check, _action, _d) = start_with_archive(&archive, Some(sha256(&archive)));
    let (check, _action, _d) = check.repo_ready(true);
    let (check, _action, _d) = check.tags_output(Some("v1.0.0\n".to_owned()));
    let mut rev_out = String::new();
    rev_out.push_str(COMMIT);
    rev_out.push('\n');
    let (check, _action, _d) = check.rev_list_output(Some(rev_out));
    let (check, _action, _d) = check.checkout_done(None);
    let (check, _action, _d) = check.build_done(true);
    let rebuilt = make_tar_gz(&[
        ("foo-1.0.0/Cargo.toml", MANIFEST),
        ("foo-1.0.0/src/lib.rs", b"pub fn f() -> u32 { 2 }\n".as_slice()),
    ]);
    let (_check, _action, diags) = check.built_bytes(Some(rebuilt));
    assert_eq!(diags.len(), 1);
    match &diags[0] {
        Diagnostic::Comparison(PackageComparison::Different(p)) => {
            assert_eq!(p, "foo-1.0.0/src/lib.rs");
        },
        _ => panic!("expected a differing-file verdict"),
    }
}

#[test]
fn records_group_by_repository_key_in_discovery_order() {
    let keys: Vec<String> = ["r1", "r2", "r1", "r3", "r2", "r1"]
        .iter()
        .map(|s| (*s).to_owned())
        .collect();
    let groups = group_by_key(&keys);
    assert_eq!(groups.len(), 3);
    assert_eq!(groups[0].key, "r1");
    assert_eq!(groups[0].members, vec![0, 2, 5]);
    assert_eq!(groups[1].key, "r2");
    assert_eq!(groups[1].members, vec![1, 4]);
    assert_eq!(groups[2].key, "r3");
    assert_eq!(groups[2].members, vec![3]);
}

#[test]
fn grouping_no_keys_gives_no_groups() {
    let groups = group_by_key(&Vec::new());
    assert!(groups.is_empty());
}

#[test]
fn unresolvable_tag_commit_is_reported() {
    let archive = registry_archive();
    let (check, _action, _d) = start_with_archive(&archive, Some(sha256(&archive)));
    let (check, _action, _d) = check.repo_ready(true);
    let (check, _action, _d) = check.tags_output(Some("v1.0.0\n".to_owned()));
    let (_check, action, diags) = check.rev_list_output(Some(String::new()));
    assert_eq!(diags.len(), 1);
    assert!(matches!(diags[0], Diagnostic::TagCommitUnreadable));
    assert!(matches!(action, Action::Done));
}

#[test]
fn unreadable_rebuilt_archive_is_reported() {
    let archive = registry_archive();
    let (check, _action, _d) = start_with_archive(&archive, Some(sha256(&archive)));
    let (check, _action, _d) = check.repo_ready(true);
    let (check, _action, _d) = check.tags_output(Some("v1.0.0\n".to_owned()));
    let mut rev_out = String::new();
    rev_out.push_str(COMMIT);
    rev_out.push('\n');
    let (check, _action, _d) = check.rev_list_output(Some(rev_out));
    let (check, _action, _d) = check.checkout_done(None);
    let (check, _action, _d) = check.build_done(true);
    let (_check, action, diags) = check.built_bytes(Some(b"not an archive".to_vec()));
    assert_eq!(diags.len(), 1);
    assert!(matches!(diags[0], Diagnostic::BuiltArchiveUnreadable));
    assert!(matches!(action, Action::Done));
}
