use vstd::prelude::*;
use vstd::pervasive::unreached;
use crate::git::{
    dedup_first, first_match, is_http_scheme, normalized_path, tag_candidates, url_parts_of,
    GitRepository, GitRepositoryCheckout, GitStep, GitTags, UrlError,
};
use crate::package::{
    bytes_eq, contents_from_entries, contents_map_of, gunzip, gunzip_of, sha256_digest, sha256_of,
    spec_compare, tar_entries, tar_entries_of, CompOutcome, PackageComparison, PackageContents,
};
use crate::text::{ends_with, lines_of, replaced};
use crate::version::{spec_render, SemVersion};

verus! {

// ---------------------------------------------------------------------------
// The per-package verification pipeline as a state machine: each method
// consumes the current state and one outside result, and hands back the next
// state, the next outside action, and the diagnostics to print. Everything
// that decides is here and verified; performing the actions (network, disk,
// subprocesses) is the caller's business.
// ---------------------------------------------------------------------------

/// Where a locked package says it comes from.
pub enum SourceKind {
    Registry,
    Other,
}

pub struct SourceInfo {
    pub kind: SourceKind,
    pub url: String,
}

/// One record of the dependency-lock snapshot.
pub struct PackageRecord {
    pub name: String,
    pub version: SemVersion,
    pub source: Option<SourceInfo>,
    /// The expected SHA-256 of the raw archive bytes, when the lock records
    /// one.
    pub checksum: Option<Vec<u8>>,
}

/// The canonical registry's index URL: only packages from there are
/// verified.
pub open spec fn crates_io_index_chars() -> Seq<char> {
    "https://github.com/rust-lang/crates.io-index"@
}

/// One diagnostic line's worth of structured information; the caller
/// renders and prints it with the package's name and version.
pub enum Diagnostic {
    /// The record has no source at all.
    MissingSource,
    /// The record's registry is not the canonical one.
    NotCratesIo,
    /// The archive could not be downloaded or read.
    ObtainFailed,
    /// The record carries no checksum (informational).
    MissingChecksum,
    /// The archive's SHA-256 differs from the recorded checksum.
    ChecksumMismatch,
    /// The archive is not readable gzip-compressed tar.
    ArchiveUnreadable,
    /// The VCS-hint file occurs more than once: conflicting provenance.
    DuplicateVcsInfo,
    /// The manifest occurs more than once; the first was kept
    /// (informational).
    DuplicateManifest,
    /// No manifest in the archive.
    ManifestMissing,
    /// The manifest does not parse, or its repository is not readable.
    ManifestInvalid,
    /// The manifest names no repository.
    MissingRepository,
    /// The repository URL is unusable, and why.
    InvalidRepositoryUrl(UrlError),
    /// The repository could not be cloned.
    CloneFailed,
    /// The tag listing failed.
    TagListingFailed,
    /// The repository has no tags at all (informational).
    NoTags,
    /// Tags exist, but none matched this package (informational).
    NoTagMatched,
    /// No tag matched and no VCS hint exists: nothing to check out.
    CommitUndeterminable,
    /// The matched tag could not be resolved to a commit.
    TagCommitUnreadable,
    /// The VCS hint names a different commit than the matched tag
    /// (informational).
    HintMismatch,
    /// A checkout step failed; carries the step's name.
    CheckoutFailed(String),
    /// The build failed, or left no archive behind.
    BuildFailed,
    /// The rebuilt archive is not readable gzip-compressed tar.
    BuiltArchiveUnreadable,
    /// A non-equal per-path comparison verdict.
    Comparison(PackageComparison),
}

/// What the caller must do next, with everything the subprocess or transfer
/// needs spelled out.
pub enum Action {
    /// Ensure the archive is cached: unless a file already sits at
    /// `cache_rel_path` under the archive-cache root, download `url` to a
    /// temporary path and atomically rename it into place. Report back with
    /// `archive_fetched`.
    FetchArchive { url: String, cache_rel_path: String },
    /// Read the cached archive's raw bytes; report back with
    /// `archive_bytes`.
    ReadArchive { cache_rel_path: String },
    /// Ensure the clone exists: unless `dir_name` exists under the
    /// repository cache root, run the version-control tool with
    /// `clone_args` (interactive credential prompting disabled). Report
    /// back with `repo_ready`.
    CloneRepo { dir_name: String, clone_args: Vec<String> },
    /// List tags: run the version-control tool with `tags_args` inside the
    /// clone; report its output text back with `tags_output`.
    ListTags { dir_name: String, tags_args: Vec<String> },
    /// Resolve the matched tag: run the version-control tool with
    /// `rev_list_args` inside the clone; report its output text back with
    /// `rev_list_output`.
    ResolveTag { dir_name: String, rev_list_args: Vec<String> },
    /// Run each step's arguments in order inside the clone, stopping at the
    /// first failure; report the failed step's name, if any, back with
    /// `checkout_done`.
    Checkout { dir_name: String, steps: Vec<GitStep> },
    /// Ensure the rebuilt archive exists: unless `package_rel_path` exists
    /// under the clone, run the build tool with `package_args` there, the
    /// pinned toolchain selected; report back with `build_done` whether the
    /// file now exists.
    Build { dir_name: String, package_args: Vec<String>, package_rel_path: String },
    /// Read the rebuilt archive's raw bytes; report back with
    /// `built_bytes`.
    ReadBuilt { dir_name: String, package_rel_path: String },
    /// This package is finished.
    Done,
}

/// Where the pipeline stands between two outside results.
pub enum Phase {
    AwaitArchive,
    AwaitArchiveBytes,
    AwaitRepo { registry: PackageContents, hint: Option<String>, repo: GitRepository },
    AwaitTags { registry: PackageContents, hint: Option<String>, repo: GitRepository },
    AwaitRevList { registry: PackageContents, hint: Option<String>, repo: GitRepository, tag: String },
    AwaitCheckout { registry: PackageContents, repo: GitRepository, commit: String },
    AwaitBuild { registry: PackageContents, checkout: GitRepositoryCheckout },
    AwaitBuiltBytes { registry: PackageContents, checkout: GitRepositoryCheckout },
    Done,
}

/// One package's verification in progress.
pub struct PackageCheck {
    pub name: String,
    pub version: SemVersion,
    pub checksum: Option<Vec<u8>>,
    pub phase: Phase,
}

impl PackageCheck {
    /// The registry digest map carried between phases always has unique
    /// paths.
    pub open spec fn wf(self) -> bool {
        match self.phase {
            Phase::AwaitRepo { registry, .. } => registry.wf(),
            Phase::AwaitTags { registry, .. } => registry.wf(),
            Phase::AwaitRevList { registry, .. } => registry.wf(),
            Phase::AwaitCheckout { registry, .. } => registry.wf(),
            Phase::AwaitBuild { registry, .. } => registry.wf(),
            Phase::AwaitBuiltBytes { registry, .. } => registry.wf(),
            _ => true,
        }
    }
}

// ---------------------------------------------------------------------------
// Archive metadata: the manifest's repository URL and the VCS hint.
// ---------------------------------------------------------------------------

/// The repository field a package manifest declares: `None` when the
/// manifest does not parse, has no package table, or inherits the field
/// from a workspace; `Some(None)` when it has no repository field;
/// `Some(Some(u))` for a declared URL `u`.
pub uninterp spec fn manifest_repo_of(text: Seq<u8>) -> Option<Option<Seq<char>>>;

/// Relies on cargo_toml's `Manifest::from_slice` and `Inheritable::get`:
/// the declared repository URL is a function of the manifest bytes alone.
#[verifier::external_body]
fn manifest_repository(text: &Vec<u8>) -> (r: Option<Option<String>>)
    ensures
        match r {
            None => manifest_repo_of(text@) is None,
            Some(None) => manifest_repo_of(text@) == Some(None::<Seq<char>>),
            Some(Some(u)) => manifest_repo_of(text@) == Some(Some(u@)),
        },
{
    let m = match cargo_toml::Manifest::from_slice(text.as_slice()) {
        Ok(m) => m,
        Err(_) => return None,
    };
    let p = match m.package {
        Some(p) => p,
        None => return None,
    };
    match p.repository {
        None => Some(None),
        Some(rep) => match rep.get() {
            Ok(u) => Some(Some(u.clone())),
            Err(_) => None,
        },
    }
}

/// The commit id the VCS-hint file records: the `git.sha1` string of its
/// JSON, `None` when the bytes do not parse as JSON or no such string
/// exists.
pub uninterp spec fn vcs_hint_of(text: Seq<u8>) -> Option<Seq<char>>;

/// Relies on serde_json's `from_slice` and `Value::get`/`as_str`: the hint
/// is a function of the file's bytes alone.
#[verifier::external_body]
fn parse_vcs_hint(text: &Vec<u8>) -> (r: Option<String>)
    ensures
        match r {
            Some(h) => vcs_hint_of(text@) == Some(h@),
            None => vcs_hint_of(text@) is None,
        },
{
    let v: serde_json::Value = match serde_json::from_slice(text.as_slice()) {
        Ok(v) => v,
        Err(_) => return None,
    };
    match v.get("git").and_then(|g| g.get("sha1")).and_then(|s| s.as_str()) {
        Some(s) => Some(s.to_owned()),
        None => None,
    }
}

/// An entry holding VCS-hint metadata.
pub open spec fn is_vcs_entry(path: Seq<char>) -> bool {
    ends_with(path, ".cargo_vcs_info.json"@)
}

/// An entry holding the package manifest.
pub open spec fn is_manifest_entry(path: Seq<char>) -> bool {
    ends_with(path, "Cargo.toml"@)
}

/// How many entries carry VCS-hint metadata.
pub open spec fn count_vcs(es: Seq<(Seq<char>, Seq<u8>)>) -> nat
    decreases es.len(),
{
    if es.len() == 0 {
        0
    } else {
        count_vcs(es.drop_last()) + if is_vcs_entry(es.last().0) {
            1nat
        } else {
            0nat
        }
    }
}

/// How many entries carry a manifest.
pub open spec fn count_manifest(es: Seq<(Seq<char>, Seq<u8>)>) -> nat
    decreases es.len(),
{
    if es.len() == 0 {
        0
    } else {
        count_manifest(es.drop_last()) + if is_manifest_entry(es.last().0) {
            1nat
        } else {
            0nat
        }
    }
}

/// The bytes of the first VCS-hint entry, when one exists.
pub open spec fn first_vcs_data(es: Seq<(Seq<char>, Seq<u8>)>) -> Option<Seq<u8>>
    decreases es.len(),
{
    if es.len() == 0 {
        None
    } else {
        let rest = first_vcs_data(es.drop_last());
        if rest is Some {
            rest
        } else if is_vcs_entry(es.last().0) {
            Some(es.last().1)
        } else {
            None
        }
    }
}

/// The bytes of the first manifest entry, when one exists.
pub open spec fn first_manifest_data(es: Seq<(Seq<char>, Seq<u8>)>) -> Option<Seq<u8>>
    decreases es.len(),
{
    if es.len() == 0 {
        None
    } else {
        let rest = first_manifest_data(es.drop_last());
        if rest is Some {
            rest
        } else if is_manifest_entry(es.last().0) {
            Some(es.last().1)
        } else {
            None
        }
    }
}

/// What the archive declares about its provenance: the manifest's
/// repository URL, and the advisory VCS commit hint when one parses.
pub struct ManifestInfo {
    pub repository: String,
    pub vcs_hint: Option<String>,
}

/// Why inspection failed, one per-package error each.
#[derive(Debug)]
pub enum InspectError {
    /// The VCS-hint file occurs more than once: two provenance claims
    /// cannot be silently resolved.
    DuplicateVcsInfo,
    /// No manifest entry at all.
    ManifestMissing,
    /// The first manifest does not parse or hides its repository field.
    ManifestInvalid,
    /// The manifest parses but names no repository.
    MissingRepository,
}

/// The VCS hint the archive yields: the parse of the first hint entry,
/// best-effort.
pub open spec fn spec_hint(es: Seq<(Seq<char>, Seq<u8>)>) -> Option<Seq<char>> {
    match first_vcs_data(es) {
        Some(d) => vcs_hint_of(d),
        None => None,
    }
}

/// Streams the entries once and extracts provenance: a duplicated VCS-hint
/// file is a hard error; a duplicated manifest is reported and the first
/// kept; the manifest must parse and declare a repository. The hint is
/// advisory: its parse failure is no error. Also reports whether the
/// manifest was seen more than once.
pub fn inspect_entries(entries: &Vec<(String, Vec<u8>)>) -> (r: (
    Result<ManifestInfo, InspectError>,
    bool,
))
    ensures
        r.1 == (count_manifest(entries.deep_view()) >= 2),
        match r.0 {
            Ok(info) => {
                &&& count_vcs(entries.deep_view()) <= 1
                &&& first_manifest_data(entries.deep_view()) matches Some(d) && manifest_repo_of(d)
                    matches Some(Some(u)) && info.repository@ == u
                &&& match info.vcs_hint {
                    Some(h) => spec_hint(entries.deep_view()) == Some(h@),
                    None => spec_hint(entries.deep_view()) is None,
                }
            },
            Err(e) => match e {
                InspectError::DuplicateVcsInfo => count_vcs(entries.deep_view()) >= 2,
                InspectError::ManifestMissing => count_vcs(entries.deep_view()) <= 1
                    && first_manifest_data(entries.deep_view()) is None,
                InspectError::ManifestInvalid => count_vcs(entries.deep_view()) <= 1 && (
                first_manifest_data(entries.deep_view()) matches Some(d) && manifest_repo_of(d)
                    is None),
                InspectError::MissingRepository => count_vcs(entries.deep_view()) <= 1 && (
                first_manifest_data(entries.deep_view()) matches Some(d) && manifest_repo_of(d)
                    == Some(None::<Seq<char>>)),
            },
        },
{
    let mut vcs_count: usize = 0;
    let mut manifest_count: usize = 0;
    let mut vcs_data: Option<Vec<u8>> = None;
    let mut manifest_data: Option<Vec<u8>> = None;
    let mut i: usize = 0;
    while i < entries.len()
        invariant
            0 <= i <= entries@.len(),
            vcs_count <= i,
            manifest_count <= i,
            vcs_count == count_vcs(entries.deep_view().take(i as int)),
            manifest_count == count_manifest(entries.deep_view().take(i as int)),
            match vcs_data {
                Some(d) => first_vcs_data(entries.deep_view().take(i as int)) == Some(d@),
                None => first_vcs_data(entries.deep_view().take(i as int)) is None,
            },
            match manifest_data {
                Some(d) => first_manifest_data(entries.deep_view().take(i as int)) == Some(d@),
                None => first_manifest_data(entries.deep_view().take(i as int)) is None,
            },
        decreases entries@.len() - i,
    {
        let path = &entries[i].0;
        let is_vcs = crate::text::str_ends_with(path.as_str(), ".cargo_vcs_info.json");
        let is_manifest = crate::text::str_ends_with(path.as_str(), "Cargo.toml");
        if is_vcs {
            vcs_count = vcs_count + 1;
            if vcs_data.is_none() {
                vcs_data = Some(entries[i].1.clone());
            }
        }
        if is_manifest {
            manifest_count = manifest_count + 1;
            if manifest_data.is_none() {
                manifest_data = Some(entries[i].1.clone());
            }
        }
        proof {
            let es = entries.deep_view();
            assert(es.take((i + 1) as int).drop_last() =~= es.take(i as int));
            assert(es.take((i + 1) as int).last() == es[i as int]);
            assert(es[i as int].0 == path@);
            assert(es[i as int].1 =~= entries@[i as int].1@);
        }
        i = i + 1;
    }
    proof {
        assert(entries.deep_view().take(entries@.len() as int) =~= entries.deep_view());
    }
    let dup_manifest = manifest_count >= 2;
    if vcs_count >= 2 {
        return (Err(InspectError::DuplicateVcsInfo), dup_manifest);
    }
    let manifest = match manifest_data {
        Some(d) => d,
        None => {
            return (Err(InspectError::ManifestMissing), dup_manifest);
        },
    };
    let repository = match manifest_repository(&manifest) {
        None => {
            return (Err(InspectError::ManifestInvalid), dup_manifest);
        },
        Some(None) => {
            return (Err(InspectError::MissingRepository), dup_manifest);
        },
        Some(Some(u)) => u,
    };
    let vcs_hint = match vcs_data {
        Some(d) => parse_vcs_hint(&d),
        None => None,
    };
    (Ok(ManifestInfo { repository, vcs_hint }), dup_manifest)
}

// ---------------------------------------------------------------------------
// Grouping records by repository key. Work on distinct repositories is
// independent and may run concurrently; within one group the working copy
// is exclusive, so members are processed one at a time in discovery order.
// ---------------------------------------------------------------------------

/// The positions in `keys` holding exactly `key`, in ascending (discovery)
/// order.
pub open spec fn spec_group_indices(keys: Seq<Seq<char>>, key: Seq<char>) -> Seq<int>
    decreases keys.len(),
{
    if keys.len() == 0 {
        Seq::empty()
    } else {
        let rest = spec_group_indices(keys.drop_last(), key);
        if keys.last() == key {
            rest.push(keys.len() - 1)
        } else {
            rest
        }
    }
}

/// One repository's worth of work: the grouping key and the positions of
/// the records that resolve to it.
pub struct RepoGroup {
    pub key: String,
    pub members: Vec<usize>,
}

/// The distinct keys in first-occurrence order.
fn dedup_keys(keys: &Vec<String>) -> (r: Vec<String>)
    ensures
        r.deep_view() == dedup_first(keys.deep_view()),
{
    let mut r: Vec<String> = Vec::new();
    let mut i: usize = 0;
    while i < keys.len()
        invariant
            0 <= i <= keys@.len(),
            r.deep_view() == dedup_first(keys.deep_view().take(i as int)),
        decreases keys@.len() - i,
    {
        let ghost names = r.deep_view();
        let key = &keys[i];
        let mut seen = false;
        let mut j: usize = 0;
        while j < r.len()
            invariant
                0 <= j <= r@.len(),
                names == r.deep_view(),
                seen ==> names.contains(key@),
                !seen ==> forall|k: int| 0 <= k < j ==> names[k] != key@,
            decreases r@.len() - j,
        {
            if !seen && crate::text::str_eq(r[j].as_str(), key.as_str()) {
                seen = true;
                proof {
                    assert(names[j as int] == key@);
                }
            }
            j = j + 1;
        }
        if !seen {
            proof {
                if names.contains(key@) {
                    let k = choose|k: int| 0 <= k < names.len() && names[k] == key@;
                }
                assert(!names.contains(key@));
            }
            r.push(key.clone());
        }
        proof {
            let ks = keys.deep_view();
            assert(ks.take((i + 1) as int).drop_last() =~= ks.take(i as int));
            assert(ks.take((i + 1) as int).last() == key@);
            assert(r.deep_view() =~= dedup_first(ks.take((i + 1) as int)));
        }
        i = i + 1;
    }
    proof {
        assert(keys.deep_view().take(keys@.len() as int) =~= keys.deep_view());
    }
    r
}

/// Groups record positions by their repository key: one group per distinct
/// key in first-occurrence order, each group's members exactly the
/// positions with that key, in discovery order.
pub fn group_by_key(keys: &Vec<String>) -> (r: Vec<RepoGroup>)
    ensures
        Seq::new(r@.len(), |g: int| r@[g].key@) == dedup_first(keys.deep_view()),
        forall|g: int|
            0 <= g < r@.len() ==> (#[trigger] r@[g]).members@.map_values(|u: usize| u as int)
                == spec_group_indices(keys.deep_view(), r@[g].key@),
{
    let distinct = dedup_keys(keys);
    let mut r: Vec<RepoGroup> = Vec::new();
    let mut g: usize = 0;
    while g < distinct.len()
        invariant
            0 <= g <= distinct@.len(),
            r@.len() == g,
            forall|k: int| 0 <= k < g ==> (#[trigger] r@[k]).key@ == distinct.deep_view()[k],
            forall|k: int|
                0 <= k < g ==> (#[trigger] r@[k]).members@.map_values(|u: usize| u as int)
                    == spec_group_indices(keys.deep_view(), r@[k].key@),
        decreases distinct@.len() - g,
    {
        let key = distinct[g].clone();
        let mut members: Vec<usize> = Vec::new();
        let mut i: usize = 0;
        while i < keys.len()
            invariant
                0 <= i <= keys@.len(),
                key@ == distinct.deep_view()[g as int],
                g < distinct@.len(),
                members@.map_values(|u: usize| u as int) == spec_group_indices(
                    keys.deep_view().take(i as int),
                    key@,
                ),
            decreases keys@.len() - i,
        {
            if crate::text::str_eq(keys[i].as_str(), key.as_str()) {
                members.push(i);
            }
            proof {
                let ks = keys.deep_view();
                assert(ks.take((i + 1) as int).drop_last() =~= ks.take(i as int));
                assert(ks.take((i + 1) as int).last() == ks[i as int]);
                assert(members@.map_values(|u: usize| u as int) =~= spec_group_indices(
                    ks.take((i + 1) as int),
                    key@,
                ));
            }
            i = i + 1;
        }
        proof {
            assert(keys.deep_view().take(keys@.len() as int) =~= keys.deep_view());
        }
        r.push(RepoGroup { key, members });
        g = g + 1;
    }
    proof {
        assert(Seq::new(r@.len(), |k: int| r@[k].key@) =~= distinct.deep_view());
    }
    r
}

/// A group's members stand in discovery order: the positions ascend.
pub proof fn lemma_group_members_ascend(keys: Seq<Seq<char>>, key: Seq<char>, a: int, b: int)
    requires
        0 <= a < b < spec_group_indices(keys, key).len(),
    ensures
        spec_group_indices(keys, key)[a] < spec_group_indices(keys, key)[b],
    decreases keys.len(),
{
    if keys.len() > 0 {
        let rest = spec_group_indices(keys.drop_last(), key);
        lemma_group_indices_bounded(keys.drop_last(), key);
        if b < rest.len() {
            lemma_group_members_ascend(keys.drop_last(), key, a, b);
        }
    }
}

/// Every grouped position points into the key list.
pub proof fn lemma_group_indices_bounded(keys: Seq<Seq<char>>, key: Seq<char>)
    ensures
        forall|a: int|
            0 <= a < spec_group_indices(keys, key).len() ==> 0 <= #[trigger] spec_group_indices(
                keys,
                key,
            )[a] < keys.len(),
    decreases keys.len(),
{
    if keys.len() > 0 {
        lemma_group_indices_bounded(keys.drop_last(), key);
        let rest = spec_group_indices(keys.drop_last(), key);
        assert forall|a: int|
            0 <= a < spec_group_indices(keys, key).len() implies 0 <= #[trigger] spec_group_indices(
            keys,
            key,
        )[a] < keys.len() by {
            if a < rest.len() {
                assert(spec_group_indices(keys, key)[a] == rest[a]);
            }
        }
    }
}

// ---------------------------------------------------------------------------
// Transition specifications.
// ---------------------------------------------------------------------------

/// The four checkout steps for `commit`, in order, as `checkout_steps`
/// builds them.
pub open spec fn checkout_steps_spec(steps: Vec<GitStep>, commit: Seq<char>) -> bool {
    &&& steps@.len() == 4
    &&& steps@[0].name@ == "checkout the commit"@
    &&& steps@[0].args.deep_view() == seq!["checkout"@, commit]
    &&& steps@[1].name@ == "init submodules"@
    &&& steps@[1].args.deep_view() == seq!["submodule"@, "init"@]
    &&& steps@[2].name@ == "sync submodules"@
    &&& steps@[2].args.deep_view() == seq!["submodule"@, "sync"@]
    &&& steps@[3].name@ == "update submodules"@
    &&& steps@[3].args.deep_view() == seq!["submodule"@, "update"@]
}

/// The verdicts that become diagnostic lines: everything but `Equal`.
pub open spec fn non_equal(s: Seq<CompOutcome>) -> Seq<CompOutcome> {
    s.filter(|o: CompOutcome| !(o is Equal))
}

/// `diags` is exactly `vs`, each wrapped as a comparison diagnostic.
pub open spec fn diags_match_verdicts(diags: Seq<Diagnostic>, vs: Seq<CompOutcome>) -> bool {
    &&& diags.len() == vs.len()
    &&& forall|k: int|
        0 <= k < diags.len() ==> ((#[trigger] diags[k]) matches Diagnostic::Comparison(c) && c@
            == vs[k])
}

/// What receiving the archive's raw bytes does: verify the checksum when
/// one is recorded (a mismatch stops this package before any repository
/// work), then unpack the archive, inspect its provenance, normalize the
/// repository URL, digest the contents, and ask for the clone.
pub open spec fn archive_bytes_post(
    pre: PackageCheck,
    post: PackageCheck,
    action: Action,
    diags: Seq<Diagnostic>,
    b: Seq<u8>,
) -> bool {
    let lead: Seq<Diagnostic> = if pre.checksum is None {
        seq![Diagnostic::MissingChecksum]
    } else {
        Seq::empty()
    };
    if pre.checksum matches Some(c) && c@ != sha256_of(b) {
        post.phase is Done && action is Done && diags == seq![Diagnostic::ChecksumMismatch]
    } else if gunzip_of(b) is None {
        post.phase is Done && action is Done && diags == lead.push(Diagnostic::ArchiveUnreadable)
    } else if tar_entries_of(gunzip_of(b).unwrap()) is None {
        post.phase is Done && action is Done && diags == lead.push(Diagnostic::ArchiveUnreadable)
    } else {
        let es = tar_entries_of(gunzip_of(b).unwrap()).unwrap();
        let noted: Seq<Diagnostic> = if count_manifest(es) >= 2 {
            lead.push(Diagnostic::DuplicateManifest)
        } else {
            lead
        };
        if count_vcs(es) >= 2 {
            post.phase is Done && action is Done && diags == noted.push(
                Diagnostic::DuplicateVcsInfo,
            )
        } else if first_manifest_data(es) is None {
            post.phase is Done && action is Done && diags == noted.push(
                Diagnostic::ManifestMissing,
            )
        } else if manifest_repo_of(first_manifest_data(es).unwrap()) is None {
            post.phase is Done && action is Done && diags == noted.push(
                Diagnostic::ManifestInvalid,
            )
        } else if manifest_repo_of(first_manifest_data(es).unwrap()) == Some(None::<Seq<char>>) {
            post.phase is Done && action is Done && diags == noted.push(
                Diagnostic::MissingRepository,
            )
        } else {
            let repo_url = manifest_repo_of(first_manifest_data(es).unwrap()).unwrap().unwrap();
            match url_parts_of(repo_url) {
                None => post.phase is Done && action is Done && diags == noted.push(
                    Diagnostic::InvalidRepositoryUrl(UrlError::Unparsable),
                ),
                Some((scheme, host_opt, path)) => {
                    if !is_http_scheme(scheme) {
                        post.phase is Done && action is Done && diags == noted.push(
                            Diagnostic::InvalidRepositoryUrl(UrlError::BadScheme),
                        )
                    } else if host_opt is None {
                        post.phase is Done && action is Done && diags == noted.push(
                            Diagnostic::InvalidRepositoryUrl(UrlError::NoHost),
                        )
                    } else if normalized_path(host_opt.unwrap(), path) is None {
                        post.phase is Done && action is Done && diags == noted.push(
                            Diagnostic::InvalidRepositoryUrl(UrlError::MissingRepoName),
                        )
                    } else {
                        let host = host_opt.unwrap();
                        let npath = normalized_path(host, path).unwrap();
                        let dir = host + seq!['-'] + replaced(npath, '/', '-');
                        &&& post.phase matches Phase::AwaitRepo { registry, hint, repo } && {
                            &&& registry.wf()
                            &&& registry.as_map() == contents_map_of(es)
                            &&& match hint {
                                Some(h) => spec_hint(es) == Some(h@),
                                None => spec_hint(es) is None,
                            }
                            &&& repo.repo_dir@ == dir
                        }
                        &&& action matches Action::CloneRepo { dir_name, clone_args } && {
                            &&& dir_name@ == dir
                            &&& clone_args.deep_view() == seq![
                                "clone"@,
                                "--filter=blob:none"@,
                                "--"@,
                                scheme + seq![':', '/', '/'] + host + npath,
                                dir,
                            ]
                        }
                        &&& diags == noted
                    }
                },
            }
        }
    }
}

// ---------------------------------------------------------------------------
// The machine itself.
// ---------------------------------------------------------------------------

impl PackageCheck {
    /// Starts verifying one lock record: a record without a source, or from
    /// a registry other than the canonical one, is reported and skipped; a
    /// record from another kind of source is skipped silently; otherwise
    /// the caller is asked to make the archive available.
    pub fn start(record: PackageRecord) -> (r: (PackageCheck, Action, Vec<Diagnostic>))
        ensures
            r.0.wf(),
            r.0.name == record.name,
            r.0.version == record.version,
            r.0.checksum == record.checksum,
            match record.source {
                None => r.0.phase is Done && r.1 is Done && r.2@ == seq![
                    Diagnostic::MissingSource,
                ],
                Some(src) => match src.kind {
                    SourceKind::Other => r.0.phase is Done && r.1 is Done && r.2@ == Seq::<
                        Diagnostic,
                    >::empty(),
                    SourceKind::Registry => {
                        if src.url@ == crates_io_index_chars() {
                            &&& r.0.phase is AwaitArchive
                            &&& r.1 matches Action::FetchArchive { url, cache_rel_path } && {
                                &&& url@ == "https://static.crates.io/crates/"@ + record.name@
                                    + seq!['/'] + record.name@ + seq!['-'] + spec_render(
                                    record.version,
                                ) + ".crate"@
                                &&& cache_rel_path@ == record.name@ + seq!['/'] + spec_render(
                                    record.version,
                                ) + ".tar.gz"@
                            }
                            &&& r.2@ == Seq::<Diagnostic>::empty()
                        } else {
                            r.0.phase is Done && r.1 is Done && r.2@ == seq![
                                Diagnostic::NotCratesIo,
                            ]
                        }
                    },
                },
            },
    {
        let mut diags: Vec<Diagnostic> = Vec::new();
        let phase: Phase;
        let action: Action;
        match &record.source {
            None => {
                diags.push(Diagnostic::MissingSource);
                phase = Phase::Done;
                action = Action::Done;
            },
            Some(src) => match src.kind {
                SourceKind::Other => {
                    phase = Phase::Done;
                    action = Action::Done;
                },
                SourceKind::Registry => {
                    if crate::text::str_eq(
                        src.url.as_str(),
                        "https://github.com/rust-lang/crates.io-index",
                    ) {
                        let url = crate::registry::RegistryCrate::download_url(
                            record.name.as_str(),
                            &record.version,
                        );
                        let cache_rel_path = crate::registry::RegistryCrate::cache_rel_path(
                            record.name.as_str(),
                            &record.version,
                        );
                        phase = Phase::AwaitArchive;
                        action = Action::FetchArchive { url, cache_rel_path };
                    } else {
                        diags.push(Diagnostic::NotCratesIo);
                        phase = Phase::Done;
                        action = Action::Done;
                    }
                },
            },
        }
        let check = PackageCheck {
            name: record.name,
            version: record.version,
            checksum: record.checksum,
            phase,
        };
        (check, action, diags)
    }

    /// The caller reports whether the archive is now cached.
    pub fn archive_fetched(self, ok: bool) -> (r: (PackageCheck, Action, Vec<Diagnostic>))
        requires
            self.phase is AwaitArchive,
            self.wf(),
        ensures
            r.0.wf(),
            r.0.name == self.name,
            r.0.version == self.version,
            r.0.checksum == self.checksum,
            if ok {
                &&& r.0.phase is AwaitArchiveBytes
                &&& r.1 matches Action::ReadArchive { cache_rel_path } && cache_rel_path@
                    == self.name@ + seq!['/'] + spec_render(self.version) + ".tar.gz"@
                &&& r.2@ == Seq::<Diagnostic>::empty()
            } else {
                r.0.phase is Done && r.1 is Done && r.2@ == seq![Diagnostic::ObtainFailed]
            },
    {
        if ok {
            let cache_rel_path = crate::registry::RegistryCrate::cache_rel_path(
                self.name.as_str(),
                &self.version,
            );
            let check = PackageCheck { phase: Phase::AwaitArchiveBytes, ..self };
            (check, Action::ReadArchive { cache_rel_path }, Vec::new())
        } else {
            let mut diags: Vec<Diagnostic> = Vec::new();
            diags.push(Diagnostic::ObtainFailed);
            let check = PackageCheck { phase: Phase::Done, ..self };
            (check, Action::Done, diags)
        }
    }

    /// The caller hands over the cached archive's raw bytes (or reports
    /// that it could not read them).
    pub fn archive_bytes(self, bytes: Option<Vec<u8>>) -> (r: (PackageCheck, Action, Vec<
        Diagnostic,
    >))
        requires
            self.phase is AwaitArchiveBytes,
            self.wf(),
        ensures
            r.0.wf(),
            r.0.name == self.name,
            r.0.version == self.version,
            r.0.checksum == self.checksum,
            match bytes {
                None => r.0.phase is Done && r.1 is Done && r.2@ == seq![Diagnostic::ObtainFailed],
                Some(b) => archive_bytes_post(self, r.0, r.1, r.2@, b@),
            },
    {
        let b = match bytes {
            Some(b) => b,
            None => {
                let mut diags: Vec<Diagnostic> = Vec::new();
                diags.push(Diagnostic::ObtainFailed);
                let check = PackageCheck { phase: Phase::Done, ..self };
                return (check, Action::Done, diags);
            },
        };
        let mut diags: Vec<Diagnostic> = Vec::new();
        match &self.checksum {
            Some(c) => {
                let h = sha256_digest(&b);
                if !bytes_eq(c, &h) {
                    diags.push(Diagnostic::ChecksumMismatch);
                    let check = PackageCheck { phase: Phase::Done, ..self };
                    return (check, Action::Done, diags);
                }
            },
            None => {
                diags.push(Diagnostic::MissingChecksum);
            },
        }
        let tar_bytes = match gunzip(&b) {
            Some(t) => t,
            None => {
                diags.push(Diagnostic::ArchiveUnreadable);
                let check = PackageCheck { phase: Phase::Done, ..self };
                return (check, Action::Done, diags);
            },
        };
        let entries = match tar_entries(&tar_bytes) {
            Some(es) => es,
            None => {
                diags.push(Diagnostic::ArchiveUnreadable);
                let check = PackageCheck { phase: Phase::Done, ..self };
                return (check, Action::Done, diags);
            },
        };
        let (inspected, dup_manifest) = inspect_entries(&entries);
        if dup_manifest {
            diags.push(Diagnostic::DuplicateManifest);
        }
        let info = match inspected {
            Ok(info) => info,
            Err(e) => {
                let d = match e {
                    InspectError::DuplicateVcsInfo => Diagnostic::DuplicateVcsInfo,
                    InspectError::ManifestMissing => Diagnostic::ManifestMissing,
                    InspectError::ManifestInvalid => Diagnostic::ManifestInvalid,
                    InspectError::MissingRepository => Diagnostic::MissingRepository,
                };
                diags.push(d);
                let check = PackageCheck { phase: Phase::Done, ..self };
                return (check, Action::Done, diags);
            },
        };
        let url = match crate::git::parse_and_normalize(info.repository.as_str()) {
            Ok(u) => u,
            Err(e) => {
                diags.push(Diagnostic::InvalidRepositoryUrl(e));
                let check = PackageCheck { phase: Phase::Done, ..self };
                return (check, Action::Done, diags);
            },
        };
        let registry = contents_from_entries(&entries);
        let dir_name = GitRepository::dir_name_for(&url);
        let repo = GitRepository::new(dir_name.clone());
        let clone_args = repo.clone_args(&url);
        let check = PackageCheck {
            phase: Phase::AwaitRepo { registry, hint: info.vcs_hint, repo },
            ..self
        };
        (check, Action::CloneRepo { dir_name, clone_args }, diags)
    }

    /// The caller reports whether the clone is now in place.
    pub fn repo_ready(self, ok: bool) -> (r: (PackageCheck, Action, Vec<Diagnostic>))
        requires
            self.phase is AwaitRepo,
            self.wf(),
        ensures
            r.0.wf(),
            r.0.name == self.name,
            r.0.version == self.version,
            r.0.checksum == self.checksum,
            self.phase matches Phase::AwaitRepo { registry, hint, repo } ==> if ok {
                &&& r.0.phase matches Phase::AwaitTags { registry: rg, hint: h2, repo: rp } && rg
                    == registry && h2 == hint && rp == repo
                &&& r.1 matches Action::ListTags { dir_name, tags_args } && dir_name@
                    == repo.repo_dir@ && tags_args.deep_view() == seq!["tag"@]
                &&& r.2@ == Seq::<Diagnostic>::empty()
            } else {
                r.0.phase is Done && r.1 is Done && r.2@ == seq![Diagnostic::CloneFailed]
            },
    {
        match self.phase {
            Phase::AwaitRepo { registry, hint, repo } => {
                if ok {
                    let dir_name = repo.repo_dir.clone();
                    let tags_args = repo.tags_args();
                    let check = PackageCheck {
                        name: self.name,
                        version: self.version,
                        checksum: self.checksum,
                        phase: Phase::AwaitTags { registry, hint, repo },
                    };
                    (check, Action::ListTags { dir_name, tags_args }, Vec::new())
                } else {
                    let mut diags: Vec<Diagnostic> = Vec::new();
                    diags.push(Diagnostic::CloneFailed);
                    let check = PackageCheck {
                        name: self.name,
                        version: self.version,
                        checksum: self.checksum,
                        phase: Phase::Done,
                    };
                    (check, Action::Done, diags)
                }
            },
            _ => unreached(),
        }
    }

    /// The caller hands over the tag listing's output text (or reports that
    /// listing failed). A matched tag is resolved to its commit; with no
    /// match the VCS hint is the fallback, and with neither the package is
    /// skipped — "no tags at all" and "tags exist but none matched" are
    /// reported apart.
    pub fn tags_output(self, stdout: Option<String>) -> (r: (PackageCheck, Action, Vec<Diagnostic>))
        requires
            self.phase is AwaitTags,
            self.wf(),
        ensures
            r.0.wf(),
            r.0.name == self.name,
            r.0.version == self.version,
            r.0.checksum == self.checksum,
            self.phase matches Phase::AwaitTags { registry, hint, repo } ==> match stdout {
                None => r.0.phase is Done && r.1 is Done && r.2@ == seq![
                    Diagnostic::TagListingFailed,
                ],
                Some(s) => {
                    let tags = dedup_first(lines_of(s@));
                    match first_match(tags, tag_candidates(self.name@, self.version)) {
                        Some(t) => {
                            &&& r.0.phase matches Phase::AwaitRevList {
                                registry: rg,
                                hint: h2,
                                repo: rp,
                                tag,
                            } && rg == registry && h2 == hint && rp == repo && tag@ == t
                            &&& r.1 matches Action::ResolveTag { dir_name, rev_list_args } && {
                                &&& dir_name@ == repo.repo_dir@
                                &&& rev_list_args.deep_view() == seq!["rev-list"@, "-n"@, "1"@, t]
                            }
                            &&& r.2@ == Seq::<Diagnostic>::empty()
                        },
                        None => {
                            let lead: Seq<Diagnostic> = if tags.len() == 0 {
                                seq![Diagnostic::NoTags]
                            } else {
                                seq![Diagnostic::NoTagMatched]
                            };
                            match hint {
                                Some(h) => {
                                    &&& r.0.phase matches Phase::AwaitCheckout {
                                        registry: rg,
                                        repo: rp,
                                        commit,
                                    } && rg == registry && rp == repo && commit == h
                                    &&& r.1 matches Action::Checkout { dir_name, steps } && {
                                        &&& dir_name@ == repo.repo_dir@
                                        &&& checkout_steps_spec(steps, h@)
                                    }
                                    &&& r.2@ == lead
                                },
                                None => r.0.phase is Done && r.1 is Done && r.2@ == lead.push(
                                    Diagnostic::CommitUndeterminable,
                                ),
                            }
                        },
                    }
                },
            },
    {
        match self.phase {
            Phase::AwaitTags { registry, hint, repo } => {
                let s = match stdout {
                    Some(s) => s,
                    None => {
                        let mut diags: Vec<Diagnostic> = Vec::new();
                        diags.push(Diagnostic::TagListingFailed);
                        let check = PackageCheck {
                            name: self.name,
                            version: self.version,
                            checksum: self.checksum,
                            phase: Phase::Done,
                        };
                        return (check, Action::Done, diags);
                    },
                };
                let tags = GitTags::from_lines(s.as_str());
                match tags.find_tag_for_version(self.name.as_str(), &self.version) {
                    Some(t) => {
                        let tag = t.tag.clone();
                        let rev_list_args = t.rev_list_args();
                        let dir_name = repo.repo_dir.clone();
                        let check = PackageCheck {
                            name: self.name,
                            version: self.version,
                            checksum: self.checksum,
                            phase: Phase::AwaitRevList { registry, hint, repo, tag },
                        };
                        (check, Action::ResolveTag { dir_name, rev_list_args }, Vec::new())
                    },
                    None => {
                        let mut diags: Vec<Diagnostic> = Vec::new();
                        if tags.is_empty() {
                            diags.push(Diagnostic::NoTags);
                        } else {
                            diags.push(Diagnostic::NoTagMatched);
                        }
                        match hint {
                            Some(h) => {
                                let dir_name = repo.repo_dir.clone();
                                let steps = repo.checkout_steps(h.as_str());
                                let check = PackageCheck {
                                    name: self.name,
                                    version: self.version,
                                    checksum: self.checksum,
                                    phase: Phase::AwaitCheckout { registry, repo, commit: h },
                                };
                                (check, Action::Checkout { dir_name, steps }, diags)
                            },
                            None => {
                                diags.push(Diagnostic::CommitUndeterminable);
                                let check = PackageCheck {
                                    name: self.name,
                                    version: self.version,
                                    checksum: self.checksum,
                                    phase: Phase::Done,
                                };
                                (check, Action::Done, diags)
                            },
                        }
                    },
                }
            },
            _ => unreached(),
        }
    }

    /// The caller hands over the tag-resolution output; its first line is
    /// the commit. When the VCS hint names a different commit, that
    /// disagreement is reported, and the tag's commit wins.
    pub fn rev_list_output(self, stdout: Option<String>) -> (r: (PackageCheck, Action, Vec<
        Diagnostic,
    >))
        requires
            self.phase is AwaitRevList,
            self.wf(),
        ensures
            r.0.wf(),
            r.0.name == self.name,
            r.0.version == self.version,
            r.0.checksum == self.checksum,
            self.phase matches Phase::AwaitRevList { registry, hint, repo, tag } ==> match stdout {
                None => r.0.phase is Done && r.1 is Done && r.2@ == seq![
                    Diagnostic::TagCommitUnreadable,
                ],
                Some(s) => {
                    if lines_of(s@).len() == 0 {
                        r.0.phase is Done && r.1 is Done && r.2@ == seq![
                            Diagnostic::TagCommitUnreadable,
                        ]
                    } else {
                        let c = lines_of(s@)[0];
                        let lead: Seq<Diagnostic> = if hint matches Some(h) && h@ != c {
                            seq![Diagnostic::HintMismatch]
                        } else {
                            Seq::empty()
                        };
                        &&& r.0.phase matches Phase::AwaitCheckout {
                            registry: rg,
                            repo: rp,
                            commit,
                        } && rg == registry && rp == repo && commit@ == c
                        &&& r.1 matches Action::Checkout { dir_name, steps } && {
                            &&& dir_name@ == repo.repo_dir@
                            &&& checkout_steps_spec(steps, c)
                        }
                        &&& r.2@ == lead
                    }
                },
            },
    {
        match self.phase {
            Phase::AwaitRevList { registry, hint, repo, tag: _ } => {
                let commit = match stdout {
                    Some(s) => match crate::text::first_line(s.as_str()) {
                        Some(c) => c,
                        None => {
                            let mut diags: Vec<Diagnostic> = Vec::new();
                            diags.push(Diagnostic::TagCommitUnreadable);
                            let check = PackageCheck {
                                name: self.name,
                                version: self.version,
                                checksum: self.checksum,
                                phase: Phase::Done,
                            };
                            return (check, Action::Done, diags);
                        },
                    },
                    None => {
                        let mut diags: Vec<Diagnostic> = Vec::new();
                        diags.push(Diagnostic::TagCommitUnreadable);
                        let check = PackageCheck {
                            name: self.name,
                            version: self.version,
                            checksum: self.checksum,
                            phase: Phase::Done,
                        };
                        return (check, Action::Done, diags);
                    },
                };
                let mut diags: Vec<Diagnostic> = Vec::new();
                match &hint {
                    Some(h) => {
                        if !crate::text::str_eq(h.as_str(), commit.as_str()) {
                            diags.push(Diagnostic::HintMismatch);
                        }
                    },
                    None => {},
                }
                let dir_name = repo.repo_dir.clone();
                let steps = repo.checkout_steps(commit.as_str());
                let check = PackageCheck {
                    name: self.name,
                    version: self.version,
                    checksum: self.checksum,
                    phase: Phase::AwaitCheckout { registry, repo, commit },
                };
                (check, Action::Checkout { dir_name, steps }, diags)
            },
            _ => unreached(),
        }
    }

    /// The caller reports the checkout sequence's outcome: the name of the
    /// first failed step, or none. On success the build is requested.
    pub fn checkout_done(self, failed_step: Option<String>) -> (r: (PackageCheck, Action, Vec<
        Diagnostic,
    >))
        requires
            self.phase is AwaitCheckout,
            self.wf(),
        ensures
            r.0.wf(),
            r.0.name == self.name,
            r.0.version == self.version,
            r.0.checksum == self.checksum,
            self.phase matches Phase::AwaitCheckout { registry, repo, commit } ==> match failed_step {
                Some(step) => r.0.phase is Done && r.1 is Done && r.2@ == seq![
                    Diagnostic::CheckoutFailed(step),
                ],
                None => {
                    &&& r.0.phase matches Phase::AwaitBuild { registry: rg, checkout } && rg
                        == registry && checkout.repo_dir@ == repo.repo_dir@
                    &&& r.1 matches Action::Build { dir_name, package_args, package_rel_path } && {
                        &&& dir_name@ == repo.repo_dir@
                        &&& package_args.deep_view() == seq![
                            "publish"@,
                            "--dry-run"@,
                            "--no-verify"@,
                            "--package"@,
                            self.name@,
                        ]
                        &&& package_rel_path@ == "target/package/"@ + self.name@ + seq!['-']
                            + spec_render(self.version) + ".crate"@
                    }
                    &&& r.2@ == Seq::<Diagnostic>::empty()
                },
            },
    {
        match self.phase {
            Phase::AwaitCheckout { registry, repo, commit: _ } => {
                match failed_step {
                    Some(step) => {
                        let mut diags: Vec<Diagnostic> = Vec::new();
                        diags.push(Diagnostic::CheckoutFailed(step));
                        let check = PackageCheck {
                            name: self.name,
                            version: self.version,
                            checksum: self.checksum,
                            phase: Phase::Done,
                        };
                        (check, Action::Done, diags)
                    },
                    None => {
                        let checkout = GitRepositoryCheckout::new(repo.repo_dir.clone());
                        let dir_name = repo.repo_dir.clone();
                        let package_args = checkout.package_args(self.name.as_str());
                        let package_rel_path = checkout.package_rel_path(
                            self.name.as_str(),
                            &self.version,
                        );
                        let check = PackageCheck {
                            name: self.name,
                            version: self.version,
                            checksum: self.checksum,
                            phase: Phase::AwaitBuild { registry, checkout },
                        };
                        (check, Action::Build { dir_name, package_args, package_rel_path }, Vec::new())
                    },
                }
            },
            _ => unreached(),
        }
    }

    /// The caller reports whether the build left the expected archive
    /// behind (a cached archive from an earlier run counts).
    pub fn build_done(self, ok: bool) -> (r: (PackageCheck, Action, Vec<Diagnostic>))
        requires
            self.phase is AwaitBuild,
            self.wf(),
        ensures
            r.0.wf(),
            r.0.name == self.name,
            r.0.version == self.version,
            r.0.checksum == self.checksum,
            self.phase matches Phase::AwaitBuild { registry, checkout } ==> if ok {
                &&& r.0.phase matches Phase::AwaitBuiltBytes { registry: rg, checkout: co } && rg
                    == registry && co == checkout
                &&& r.1 matches Action::ReadBuilt { dir_name, package_rel_path } && {
                    &&& dir_name@ == checkout.repo_dir@
                    &&& package_rel_path@ == "target/package/"@ + self.name@ + seq!['-']
                        + spec_render(self.version) + ".crate"@
                }
                &&& r.2@ == Seq::<Diagnostic>::empty()
            } else {
                r.0.phase is Done && r.1 is Done && r.2@ == seq![Diagnostic::BuildFailed]
            },
    {
        match self.phase {
            Phase::AwaitBuild { registry, checkout } => {
                if ok {
                    let dir_name = checkout.repo_dir.clone();
                    let package_rel_path = checkout.package_rel_path(
                        self.name.as_str(),
                        &self.version,
                    );
                    let check = PackageCheck {
                        name: self.name,
                        version: self.version,
                        checksum: self.checksum,
                        phase: Phase::AwaitBuiltBytes { registry, checkout },
                    };
                    (check, Action::ReadBuilt { dir_name, package_rel_path }, Vec::new())
                } else {
                    let mut diags: Vec<Diagnostic> = Vec::new();
                    diags.push(Diagnostic::BuildFailed);
                    let check = PackageCheck {
                        name: self.name,
                        version: self.version,
                        checksum: self.checksum,
                        phase: Phase::Done,
                    };
                    (check, Action::Done, diags)
                }
            },
            _ => unreached(),
        }
    }

    /// The caller hands over the rebuilt archive's raw bytes. Its digest
    /// map is compared against the registry archive's, and every non-equal
    /// verdict becomes one diagnostic; no diagnostics means the rebuild
    /// reproduced the published contents.
    pub fn built_bytes(self, bytes: Option<Vec<u8>>) -> (r: (PackageCheck, Action, Vec<Diagnostic>))
        requires
            self.phase is AwaitBuiltBytes,
            self.wf(),
        ensures
            r.0.wf(),
            r.0.name == self.name,
            r.0.version == self.version,
            r.0.checksum == self.checksum,
            r.0.phase is Done && r.1 is Done,
            self.phase matches Phase::AwaitBuiltBytes { registry, checkout } ==> match bytes {
                None => r.2@ == seq![Diagnostic::BuildFailed],
                Some(b) => {
                    if gunzip_of(b@) is None || tar_entries_of(gunzip_of(b@).unwrap()) is None {
                        r.2@ == seq![Diagnostic::BuiltArchiveUnreadable]
                    } else {
                        let es = tar_entries_of(gunzip_of(b@).unwrap()).unwrap();
                        exists|ours: PackageContents|
                            {
                                &&& #[trigger] ours.wf()
                                &&& ours.as_map() == contents_map_of(es)
                                &&& diags_match_verdicts(r.2@, non_equal(spec_compare(ours, registry)))
                            }
                    }
                },
            },
    {
        match self.phase {
            Phase::AwaitBuiltBytes { registry, checkout: _ } => {
                let b = match bytes {
                    Some(b) => b,
                    None => {
                        let mut diags: Vec<Diagnostic> = Vec::new();
                        diags.push(Diagnostic::BuildFailed);
                        let check = PackageCheck {
                            name: self.name,
                            version: self.version,
                            checksum: self.checksum,
                            phase: Phase::Done,
                        };
                        return (check, Action::Done, diags);
                    },
                };
                let tar_bytes = match gunzip(&b) {
                    Some(t) => t,
                    None => {
                        let mut diags: Vec<Diagnostic> = Vec::new();
                        diags.push(Diagnostic::BuiltArchiveUnreadable);
                        let check = PackageCheck {
                            name: self.name,
                            version: self.version,
                            checksum: self.checksum,
                            phase: Phase::Done,
                        };
                        return (check, Action::Done, diags);
                    },
                };
                let entries = match tar_entries(&tar_bytes) {
                    Some(es) => es,
                    None => {
                        let mut diags: Vec<Diagnostic> = Vec::new();
                        diags.push(Diagnostic::BuiltArchiveUnreadable);
                        let check = PackageCheck {
                            name: self.name,
                            version: self.version,
                            checksum: self.checksum,
                            phase: Phase::Done,
                        };
                        return (check, Action::Done, diags);
                    },
                };
                let ours = contents_from_entries(&entries);
                let verdicts = PackageContents::compare(&ours, &registry);
                let ghost all = verdicts.deep_view();
                let mut diags: Vec<Diagnostic> = Vec::new();
                let mut k: usize = 0;
                proof {
                    reveal(Seq::filter);
                    assert(all.take(0) =~= Seq::<CompOutcome>::empty());
                    assert(diags_match_verdicts(diags@, non_equal(all.take(0))));
                }
                while k < verdicts.len()
                    invariant
                        0 <= k <= verdicts@.len(),
                        all == verdicts.deep_view(),
                        diags_match_verdicts(diags@, non_equal(all.take(k as int))),
                    decreases verdicts@.len() - k,
                {
                    let is_equal = match &verdicts[k] {
                        PackageComparison::Equal(_) => true,
                        _ => false,
                    };
                    if !is_equal {
                        let d = verdicts[k].duplicate();
                        diags.push(Diagnostic::Comparison(d));
                    }
                    proof {
                        reveal(Seq::filter);
                        assert(all.take((k + 1) as int).drop_last() =~= all.take(k as int));
                        assert(all.take((k + 1) as int).last() == all[k as int]);
                        assert(all[k as int] == verdicts@[k as int]@);
                    }
                    k = k + 1;
                }
                proof {
                    assert(all.take(verdicts@.len() as int) =~= all);
                }
                let check = PackageCheck {
                    name: self.name,
                    version: self.version,
                    checksum: self.checksum,
                    phase: Phase::Done,
                };
                (check, Action::Done, diags)
            },
            _ => unreached(),
        }
    }
}

} // verus!
