use vstd::prelude::*;
use vstd::string::StrSliceExecFns;
use crate::io::{filter_ascii_whitespace, ws_filtered};
use crate::text::{basename, basename_of, str_eq};

verus! {

// ---------------------------------------------------------------------------
// Digests.
// ---------------------------------------------------------------------------

/// The SHA-512 digest of a byte sequence.
pub uninterp spec fn sha512_of(data: Seq<u8>) -> Seq<u8>;

/// Relies on sha2's `Sha512` (through the `Digest` trait): the digest is a
/// function of the input bytes alone, and is 64 bytes long.
#[verifier::external_body]
pub(crate) fn sha512_digest(data: &Vec<u8>) -> (r: Vec<u8>)
    ensures
        r@ == sha512_of(data@),
        r@.len() == 64,
{
    <sha2::Sha512 as sha2::Digest>::digest(data.as_slice()).to_vec()
}

/// The SHA-256 digest of a byte sequence.
pub uninterp spec fn sha256_of(data: Seq<u8>) -> Seq<u8>;

/// Relies on sha2's `Sha256` (through the `Digest` trait): the digest is a
/// function of the input bytes alone, and is 32 bytes long.
#[verifier::external_body]
pub(crate) fn sha256_digest(data: &Vec<u8>) -> (r: Vec<u8>)
    ensures
        r@ == sha256_of(data@),
        r@.len() == 32,
{
    <sha2::Sha256 as sha2::Digest>::digest(data.as_slice()).to_vec()
}

/// The canonical digest of one archive entry: SHA-512 over the bytes with
/// ASCII whitespace removed, so formatting-only differences never count.
pub open spec fn entry_digest_spec(data: Seq<u8>) -> Seq<u8> {
    sha512_of(ws_filtered(data))
}

/// Computes the canonical digest of one entry's bytes.
pub fn entry_digest(data: &Vec<u8>) -> (r: Vec<u8>)
    ensures
        r@ == entry_digest_spec(data@),
        r@.len() == 64,
{
    let filtered = filter_ascii_whitespace(data);
    sha512_digest(&filtered)
}

/// Canonical digests agree whenever the whitespace-filtered bytes agree:
/// two files differing only in whitespace hash identically.
pub proof fn lemma_entry_digest_ws_insensitive(a: Seq<u8>, b: Seq<u8>)
    requires
        ws_filtered(a) == ws_filtered(b),
    ensures
        entry_digest_spec(a) == entry_digest_spec(b),
{
}

// ---------------------------------------------------------------------------
// The ignore-list.
// ---------------------------------------------------------------------------

/// Entries whose basename is the VCS-hint filename or the manifest filename
/// are packaging artifacts and never take part in content comparison.
pub open spec fn spec_is_ignored(path: Seq<char>) -> bool {
    basename_of(path) == ".cargo_vcs_info.json"@ || basename_of(path) == "Cargo.toml"@
}

/// Whether `path`'s basename is on the ignore-list, exact and
/// case-sensitive.
pub fn is_path_ignored(path: &str) -> (r: bool)
    ensures
        r == spec_is_ignored(path@),
{
    let b = basename(path);
    str_eq(b.as_str(), ".cargo_vcs_info.json") || str_eq(b.as_str(), "Cargo.toml")
}

// ---------------------------------------------------------------------------
// Reading archives. The archive bytes themselves are opaque streams; the
// gzip and tar crates unpack them behind these trusted calls.
// ---------------------------------------------------------------------------

/// What gzip decompression yields for a byte stream, `None` when the stream
/// is not valid gzip.
pub uninterp spec fn gunzip_of(data: Seq<u8>) -> Option<Seq<u8>>;

/// Relies on flate2's `GzDecoder`: decompression is a function of the
/// compressed bytes alone.
#[verifier::external_body]
pub(crate) fn gunzip(data: &Vec<u8>) -> (r: Option<Vec<u8>>)
    ensures
        match r {
            Some(v) => gunzip_of(data@) == Some(v@),
            None => gunzip_of(data@) is None,
        },
{
    let mut out: Vec<u8> = Vec::new();
    let mut dec = flate2::read::GzDecoder::new(data.as_slice());
    match std::io::Read::read_to_end(&mut dec, &mut out) {
        Ok(_) => Some(out),
        Err(_) => None,
    }
}

/// The entries of a tar stream as (path, contents) pairs in archive order;
/// `None` when an entry, or its path as UTF-8, cannot be read.
pub uninterp spec fn tar_entries_of(data: Seq<u8>) -> Option<Seq<(Seq<char>, Seq<u8>)>>;

/// Relies on the tar crate's `Archive` and `Entries`: the entry list is a
/// function of the archive bytes alone.
#[verifier::external_body]
pub(crate) fn tar_entries(data: &Vec<u8>) -> (r: Option<Vec<(String, Vec<u8>)>>)
    ensures
        match r {
            Some(es) => tar_entries_of(data@) == Some(es.deep_view()),
            None => tar_entries_of(data@) is None,
        },
{
    let mut archive = tar::Archive::new(data.as_slice());
    let mut out: Vec<(String, Vec<u8>)> = Vec::new();
    for entry in archive.entries().ok()? {
        let mut entry = entry.ok()?;
        let path = entry.path().ok()?.to_str()?.to_owned();
        let mut contents: Vec<u8> = Vec::new();
        std::io::Read::read_to_end(&mut entry, &mut contents).ok()?;
        out.push((path, contents));
    }
    Some(out)
}

// ---------------------------------------------------------------------------
// Per-path digest maps and their comparison.
// ---------------------------------------------------------------------------

/// No path occurs twice.
pub open spec fn unique_keys(es: Seq<(Seq<char>, Seq<u8>)>) -> bool {
    forall|i: int, j: int| 0 <= i < j < es.len() ==> (#[trigger] es[i]).0 != (#[trigger] es[j]).0
}

/// The pair list as a map; a later pair for the same path wins.
pub open spec fn map_of_pairs(es: Seq<(Seq<char>, Seq<u8>)>) -> Map<Seq<char>, Seq<u8>>
    decreases es.len(),
{
    if es.len() == 0 {
        Map::empty()
    } else {
        map_of_pairs(es.drop_last()).insert(es.last().0, es.last().1)
    }
}

/// The digest map an entry list produces: ignored entries are skipped
/// entirely, every other entry maps its path to its canonical digest, a
/// later entry for the same path winning.
pub open spec fn contents_map_of(es: Seq<(Seq<char>, Seq<u8>)>) -> Map<Seq<char>, Seq<u8>>
    decreases es.len(),
{
    if es.len() == 0 {
        Map::empty()
    } else {
        let m = contents_map_of(es.drop_last());
        if spec_is_ignored(es.last().0) {
            m
        } else {
            m.insert(es.last().0, entry_digest_spec(es.last().1))
        }
    }
}

/// The domain and values of `map_of_pairs` are the keys and values of the
/// pairs; under unique keys every pair is readable back.
pub proof fn lemma_map_of_pairs_props(es: Seq<(Seq<char>, Seq<u8>)>)
    ensures
        forall|i: int|
            0 <= i < es.len() ==> map_of_pairs(es).dom().contains((#[trigger] es[i]).0),
        forall|k: Seq<char>|
            #[trigger] map_of_pairs(es).dom().contains(k) ==> exists|i: int|
                0 <= i < es.len() && (#[trigger] es[i]).0 == k,
        unique_keys(es) ==> forall|i: int|
            0 <= i < es.len() ==> map_of_pairs(es)[(#[trigger] es[i]).0] == es[i].1,
    decreases es.len(),
{
    if es.len() > 0 {
        lemma_map_of_pairs_props(es.drop_last());
        assert forall|i: int|
            0 <= i < es.len() implies map_of_pairs(es).dom().contains((#[trigger] es[i]).0) by {
            if i < es.len() - 1 {
                assert(es.drop_last()[i] == es[i]);
            }
        }
        assert forall|k: Seq<char>| #[trigger]
            map_of_pairs(es).dom().contains(k) implies exists|i: int|
            0 <= i < es.len() && (#[trigger] es[i]).0 == k by {
            if k == es.last().0 {
                assert(es[es.len() - 1].0 == k);
            } else {
                let i = choose|i: int|
                    0 <= i < es.drop_last().len() && (#[trigger] es.drop_last()[i]).0 == k;
                assert(es[i].0 == k);
            }
        }
        if unique_keys(es) {
            assert(unique_keys(es.drop_last())) by {
                assert(forall|i: int|
                    0 <= i < es.drop_last().len() ==> #[trigger] es.drop_last()[i] == es[i]);
            }
            assert forall|i: int|
                0 <= i < es.len() implies map_of_pairs(es)[(#[trigger] es[i]).0] == es[i].1 by {
                if i < es.len() - 1 {
                    assert(es.drop_last()[i] == es[i]);
                    assert(es[i].0 != es.last().0);
                }
            }
        }
    }
}

/// A per-path content digest map for one archive, the paths unique.
pub struct PackageContents(pub Vec<(String, Vec<u8>)>);

impl PackageContents {
    /// The stored (path, digest) pairs.
    pub open spec fn entries(self) -> Seq<(Seq<char>, Seq<u8>)> {
        self.0.deep_view()
    }

    /// The pairs as a map from path to digest.
    pub open spec fn as_map(self) -> Map<Seq<char>, Seq<u8>> {
        map_of_pairs(self.entries())
    }

    pub open spec fn wf(self) -> bool {
        unique_keys(self.entries())
    }

    /// The stored digest for `path`, when the map has that path.
    pub fn get(&self, path: &str) -> (r: Option<&Vec<u8>>)
        requires
            self.wf(),
        ensures
            match r {
                Some(d) => self.as_map().dom().contains(path@) && d@ == self.as_map()[path@],
                None => !self.as_map().dom().contains(path@),
            },
    {
        proof {
            lemma_map_of_pairs_props(self.entries());
        }
        let mut i: usize = 0;
        while i < self.0.len()
            invariant
                self.wf(),
                0 <= i <= self.0@.len(),
                forall|k: int| 0 <= k < i ==> (#[trigger] self.entries()[k]).0 != path@,
            decreases self.0@.len() - i,
        {
            if str_eq(self.0[i].0.as_str(), path) {
                proof {
                    lemma_map_of_pairs_props(self.entries());
                    assert(self.entries()[i as int].0 == path@);
                    assert(self.entries()[i as int].1 == self.0@[i as int].1.deep_view());
                    assert(self.as_map()[self.entries()[i as int].0] == self.entries()[
                        i as int
                    ].1);
                }
                return Some(&self.0[i].1);
            }
            i = i + 1;
        }
        proof {
            if self.as_map().dom().contains(path@) {
                let k = choose|k: int|
                    0 <= k < self.entries().len() && (#[trigger] self.entries()[k]).0 == path@;
            }
        }
        None
    }

    /// How many paths the map holds.
    pub fn len(&self) -> (r: usize)
        ensures
            r == self.entries().len(),
    {
        self.0.len()
    }
}

/// Replaces the digest stored for `path`, or adds the pair when the path is
/// new; uniqueness is kept and the map gains exactly this binding.
fn upsert(out: &mut Vec<(String, Vec<u8>)>, path: &str, digest: Vec<u8>)
    requires
        unique_keys(old(out).deep_view()),
    ensures
        unique_keys(final(out).deep_view()),
        map_of_pairs(final(out).deep_view()) == map_of_pairs(old(out).deep_view()).insert(
            path@,
            digest@,
        ),
{
    proof {
        lemma_map_of_pairs_props(out.deep_view());
    }
    let ghost old_es = out.deep_view();
    let mut i: usize = 0;
    while i < out.len()
        invariant
            out.deep_view() == old_es,
            old_es == old(out).deep_view(),
            unique_keys(old_es),
            0 <= i <= out@.len(),
            forall|k: int| 0 <= k < i ==> (#[trigger] old_es[k]).0 != path@,
        decreases out@.len() - i,
    {
        if str_eq(out[i].0.as_str(), path) {
            let ghost j = i as int;
            out[i] = (path.to_owned(), digest);
            proof {
                assert(out.deep_view() =~~= old_es.update(j, (path@, digest@)));
                let new_es = out.deep_view();
                assert(unique_keys(old_es));
                assert(old_es[j].0 == path@);
                // The key at `j` is rewritten to itself, so the key sequence
                // is unchanged.
                assert(forall|k: int|
                    0 <= k < new_es.len() ==> (#[trigger] new_es[k]).0 == old_es[k].0);
                assert(unique_keys(new_es)) by {
                    assert forall|a: int, b: int|
                        0 <= a < b < new_es.len() implies (#[trigger] new_es[a]).0 != (
                    #[trigger] new_es[b]).0 by {
                        assert(old_es[a].0 != old_es[b].0);
                    }
                }
                lemma_map_of_pairs_props(new_es);
                lemma_map_of_pairs_props(old_es);
                assert(map_of_pairs(new_es) =~= map_of_pairs(old_es).insert(path@, digest@)) by {
                    let lhs = map_of_pairs(new_es);
                    let rhs = map_of_pairs(old_es).insert(path@, digest@);
                    assert forall|k: Seq<char>| lhs.dom().contains(k) implies rhs.dom().contains(
                        k,
                    ) && lhs[k] == rhs[k] by {
                        let ki = choose|ki: int|
                            0 <= ki < new_es.len() && (#[trigger] new_es[ki]).0 == k;
                        assert(lhs[k] == new_es[ki].1);
                        if ki == j {
                        } else {
                            assert(old_es[ki].0 == k);
                            assert(old_es[ki].0 != old_es[j].0);
                            assert(k != path@);
                            assert(rhs[k] == map_of_pairs(old_es)[k]);
                        }
                    }
                    assert forall|k: Seq<char>| rhs.dom().contains(k) implies lhs.dom().contains(
                        k,
                    ) by {
                        if k == path@ {
                            assert(new_es[j].0 == k);
                        } else {
                            let ki = choose|ki: int|
                                0 <= ki < old_es.len() && (#[trigger] old_es[ki]).0 == k;
                            assert(new_es[ki].0 == k);
                        }
                    }
                }
            }
            return ;
        }
        i = i + 1;
    }
    out.push((path.to_owned(), digest));
    proof {
        let new_es = out.deep_view();
        assert(new_es =~~= old_es.push((path@, digest@)));
        assert(!map_of_pairs(old_es).dom().contains(path@)) by {
            lemma_map_of_pairs_props(old_es);
            if map_of_pairs(old_es).dom().contains(path@) {
                let k = choose|k: int|
                    0 <= k < old_es.len() && (#[trigger] old_es[k]).0 == path@;
            }
        }
        assert(unique_keys(new_es)) by {
            assert(forall|k: int| 0 <= k < old_es.len() ==> #[trigger] new_es[k] == old_es[k]);
            assert(new_es[new_es.len() - 1].0 == path@);
        }
        assert(new_es.drop_last() =~= old_es);
        assert(map_of_pairs(new_es) == map_of_pairs(old_es).insert(path@, digest@));
    }
}

/// Builds the digest map of an archive's entries: ignored entries skipped,
/// every other entry's path bound to its canonical digest.
pub fn contents_from_entries(entries: &Vec<(String, Vec<u8>)>) -> (r: PackageContents)
    ensures
        r.wf(),
        r.as_map() == contents_map_of(entries.deep_view()),
{
    let mut out: Vec<(String, Vec<u8>)> = Vec::new();
    let mut i: usize = 0;
    while i < entries.len()
        invariant
            0 <= i <= entries@.len(),
            unique_keys(out.deep_view()),
            map_of_pairs(out.deep_view()) == contents_map_of(entries.deep_view().take(i as int)),
        decreases entries@.len() - i,
    {
        let path = &entries[i].0;
        if !is_path_ignored(path.as_str()) {
            let d = entry_digest(&entries[i].1);
            upsert(&mut out, path.as_str(), d);
        }
        proof {
            let es = entries.deep_view();
            assert(es.take((i + 1) as int).drop_last() =~= es.take(i as int));
            assert(es.take((i + 1) as int).last() == es[i as int]);
            assert(es[i as int].0 == path@);
            assert(es[i as int].1 == entries@[i as int].1@);
        }
        i = i + 1;
    }
    proof {
        assert(entries.deep_view().take(entries@.len() as int) =~= entries.deep_view());
    }
    PackageContents(out)
}

// ---------------------------------------------------------------------------
// Comparing two digest maps.
// ---------------------------------------------------------------------------

/// The per-path verdict of a comparison. `Equal` names a path whose
/// digests agree; `Different` one whose digests differ; `OnlyLeft` a path
/// present only in the left map; `OnlyRight` one present only in the right.
pub enum PackageComparison {
    Equal(String),
    Different(String),
    OnlyLeft(String),
    OnlyRight(String),
}

/// The specification-level shape of a verdict.
pub enum CompOutcome {
    Equal(Seq<char>),
    Different(Seq<char>),
    OnlyLeft(Seq<char>),
    OnlyRight(Seq<char>),
}

impl View for PackageComparison {
    type V = CompOutcome;

    open spec fn view(&self) -> CompOutcome {
        match self {
            PackageComparison::Equal(p) => CompOutcome::Equal(p@),
            PackageComparison::Different(p) => CompOutcome::Different(p@),
            PackageComparison::OnlyLeft(p) => CompOutcome::OnlyLeft(p@),
            PackageComparison::OnlyRight(p) => CompOutcome::OnlyRight(p@),
        }
    }
}

impl DeepView for PackageComparison {
    type V = CompOutcome;

    open spec fn deep_view(&self) -> CompOutcome {
        self.view()
    }
}

impl PackageComparison {
    /// An owned copy of this verdict.
    pub fn duplicate(&self) -> (r: PackageComparison)
        ensures
            r@ == self@,
    {
        match self {
            PackageComparison::Equal(p) => PackageComparison::Equal(p.clone()),
            PackageComparison::Different(p) => PackageComparison::Different(p.clone()),
            PackageComparison::OnlyLeft(p) => PackageComparison::OnlyLeft(p.clone()),
            PackageComparison::OnlyRight(p) => PackageComparison::OnlyRight(p.clone()),
        }
    }

    /// The path this verdict speaks of.
    pub fn path(&self) -> (r: &String)
        ensures
            match self@ {
                CompOutcome::Equal(p) => r@ == p,
                CompOutcome::Different(p) => r@ == p,
                CompOutcome::OnlyLeft(p) => r@ == p,
                CompOutcome::OnlyRight(p) => r@ == p,
            },
    {
        match self {
            PackageComparison::Equal(p) => p,
            PackageComparison::Different(p) => p,
            PackageComparison::OnlyLeft(p) => p,
            PackageComparison::OnlyRight(p) => p,
        }
    }
}

pub open spec fn outcome_path(o: CompOutcome) -> Seq<char> {
    match o {
        CompOutcome::Equal(p) => p,
        CompOutcome::Different(p) => p,
        CompOutcome::OnlyLeft(p) => p,
        CompOutcome::OnlyRight(p) => p,
    }
}

/// The verdicts for the left map's entries, in stored order: `Equal` or
/// `Different` where the right map has the path, `OnlyLeft` where it does
/// not, ignored paths skipped.
pub open spec fn left_outcomes(
    lefts: Seq<(Seq<char>, Seq<u8>)>,
    rmap: Map<Seq<char>, Seq<u8>>,
) -> Seq<CompOutcome>
    decreases lefts.len(),
{
    if lefts.len() == 0 {
        Seq::empty()
    } else {
        let rest = left_outcomes(lefts.drop_last(), rmap);
        let e = lefts.last();
        if spec_is_ignored(e.0) {
            rest
        } else if rmap.dom().contains(e.0) {
            if rmap[e.0] == e.1 {
                rest.push(CompOutcome::Equal(e.0))
            } else {
                rest.push(CompOutcome::Different(e.0))
            }
        } else {
            rest.push(CompOutcome::OnlyLeft(e.0))
        }
    }
}

/// The `OnlyRight` verdicts: the right map's paths that the left map lacks,
/// in stored order, ignored paths skipped.
pub open spec fn right_only_outcomes(
    rights: Seq<(Seq<char>, Seq<u8>)>,
    lmap: Map<Seq<char>, Seq<u8>>,
) -> Seq<CompOutcome>
    decreases rights.len(),
{
    if rights.len() == 0 {
        Seq::empty()
    } else {
        let rest = right_only_outcomes(rights.drop_last(), lmap);
        let e = rights.last();
        if !spec_is_ignored(e.0) && !lmap.dom().contains(e.0) {
            rest.push(CompOutcome::OnlyRight(e.0))
        } else {
            rest
        }
    }
}

/// Every verdict of comparing `left` against `right`.
pub open spec fn spec_compare(left: PackageContents, right: PackageContents) -> Seq<CompOutcome> {
    left_outcomes(left.entries(), right.as_map()) + right_only_outcomes(
        right.entries(),
        left.as_map(),
    )
}

/// Compares two u8 vectors element-wise.
pub fn bytes_eq(a: &Vec<u8>, b: &Vec<u8>) -> (r: bool)
    ensures
        r == (a@ == b@),
{
    if a.len() != b.len() {
        return false;
    }
    let mut i: usize = 0;
    while i < a.len()
        invariant
            0 <= i <= a@.len(),
            a@.len() == b@.len(),
            forall|k: int| 0 <= k < i ==> a@[k] == b@[k],
        decreases a@.len() - i,
    {
        if a[i] != b[i] {
            return false;
        }
        i = i + 1;
    }
    proof {
        assert(a@ =~= b@);
    }
    true
}

impl PackageContents {
    /// Every per-path verdict of comparing `left` against `right`: one
    /// verdict per non-ignored path of `left`, then `OnlyRight` for every
    /// non-ignored path only `right` has.
    pub fn compare(left: &PackageContents, right: &PackageContents) -> (r: Vec<PackageComparison>)
        requires
            left.wf(),
            right.wf(),
        ensures
            r.deep_view() == spec_compare(*left, *right),
    {
        let mut r: Vec<PackageComparison> = Vec::new();
        let mut i: usize = 0;
        while i < left.0.len()
            invariant
                left.wf(),
                right.wf(),
                0 <= i <= left.0@.len(),
                r.deep_view() == left_outcomes(left.entries().take(i as int), right.as_map()),
            decreases left.0@.len() - i,
        {
            let path = &left.0[i].0;
            if !is_path_ignored(path.as_str()) {
                match right.get(path.as_str()) {
                    Some(rd) => {
                        if bytes_eq(&left.0[i].1, rd) {
                            r.push(PackageComparison::Equal(path.clone()));
                        } else {
                            r.push(PackageComparison::Different(path.clone()));
                        }
                    },
                    None => {
                        r.push(PackageComparison::OnlyLeft(path.clone()));
                    },
                }
            }
            proof {
                let es = left.entries();
                assert(es.take((i + 1) as int).drop_last() =~= es.take(i as int));
                assert(es.take((i + 1) as int).last() == es[i as int]);
                assert(es[i as int].0 == path@);
                assert(es[i as int].1 == left.0@[i as int].1.deep_view());
                assert(left.0@[i as int].1.deep_view() =~= left.0@[i as int].1@);
                assert(r.deep_view() =~~= left_outcomes(es.take((i + 1) as int), right.as_map()));
            }
            i = i + 1;
        }
        proof {
            assert(left.entries().take(left.0@.len() as int) =~= left.entries());
        }
        let mut j: usize = 0;
        let ghost part1 = r.deep_view();
        proof {
            assert(part1 + right_only_outcomes(right.entries().take(0), left.as_map()) =~= part1);
        }
        while j < right.0.len()
            invariant
                left.wf(),
                right.wf(),
                0 <= j <= right.0@.len(),
                part1 == left_outcomes(left.entries(), right.as_map()),
                r.deep_view() == part1 + right_only_outcomes(
                    right.entries().take(j as int),
                    left.as_map(),
                ),
            decreases right.0@.len() - j,
        {
            let path = &right.0[j].0;
            if !is_path_ignored(path.as_str()) {
                match left.get(path.as_str()) {
                    Some(_) => {
                    },
                    None => {
                        let ghost pre = r.deep_view();
                        r.push(PackageComparison::OnlyRight(path.clone()));
                        proof {
                            assert(r.deep_view() =~~= pre.push(CompOutcome::OnlyRight(path@)));
                        }
                    },
                }
            }
            proof {
                let es = right.entries();
                assert(es.take((j + 1) as int).drop_last() =~= es.take(j as int));
                assert(es.take((j + 1) as int).last() == es[j as int]);
                assert(es[j as int].0 == path@);
                let rest = right_only_outcomes(es.take(j as int), left.as_map());
                if !spec_is_ignored(path@) && !left.as_map().dom().contains(path@) {
                    assert(right_only_outcomes(es.take((j + 1) as int), left.as_map())
                        == rest.push(CompOutcome::OnlyRight(path@)));
                } else {
                    assert(right_only_outcomes(es.take((j + 1) as int), left.as_map()) == rest);
                }
                assert(r.deep_view() =~~= part1 + right_only_outcomes(
                    es.take((j + 1) as int),
                    left.as_map(),
                ));
            }
            j = j + 1;
        }
        proof {
            assert(right.entries().take(right.0@.len() as int) =~= right.entries());
        }
        r
    }
}

// ---------------------------------------------------------------------------
// What the verdict list contains, and the symmetry of comparison.
// ---------------------------------------------------------------------------

/// Membership in a pushed sequence: the pushed element, or an element of
/// the base.
proof fn lemma_push_contains<T>(s: Seq<T>, o: T)
    ensures
        forall|x: T| #[trigger] s.push(o).contains(x) <==> (s.contains(x) || x == o),
{
    assert forall|x: T| #[trigger] s.push(o).contains(x) implies s.contains(x) || x == o by {
        let k = choose|k: int| 0 <= k < s.push(o).len() && s.push(o)[k] == x;
        if k < s.len() {
            assert(s[k] == x);
        }
    }
    assert forall|x: T| s.contains(x) || x == o implies #[trigger] s.push(o).contains(x) by {
        if s.contains(x) {
            let k = choose|k: int| 0 <= k < s.len() && s[k] == x;
            assert(s.push(o)[k] == x);
        } else {
            assert(s.push(o)[s.len() as int] == x);
        }
    }
}

/// Membership in the left-side verdicts, characterized by the maps alone.
pub proof fn lemma_left_outcomes_mem(
    lefts: Seq<(Seq<char>, Seq<u8>)>,
    rmap: Map<Seq<char>, Seq<u8>>,
    p: Seq<char>,
)
    requires
        unique_keys(lefts),
    ensures
        left_outcomes(lefts, rmap).contains(CompOutcome::Equal(p)) <==> (!spec_is_ignored(p)
            && map_of_pairs(lefts).dom().contains(p) && rmap.dom().contains(p) && map_of_pairs(
            lefts,
        )[p] == rmap[p]),
        left_outcomes(lefts, rmap).contains(CompOutcome::Different(p)) <==> (!spec_is_ignored(p)
            && map_of_pairs(lefts).dom().contains(p) && rmap.dom().contains(p) && map_of_pairs(
            lefts,
        )[p] != rmap[p]),
        left_outcomes(lefts, rmap).contains(CompOutcome::OnlyLeft(p)) <==> (!spec_is_ignored(p)
            && map_of_pairs(lefts).dom().contains(p) && !rmap.dom().contains(p)),
        !left_outcomes(lefts, rmap).contains(CompOutcome::OnlyRight(p)),
    decreases lefts.len(),
{
    lemma_map_of_pairs_props(lefts);
    if lefts.len() > 0 {
        let prefix = lefts.drop_last();
        assert(unique_keys(prefix)) by {
            assert(forall|k: int| 0 <= k < prefix.len() ==> #[trigger] prefix[k] == lefts[k]);
        }
        lemma_left_outcomes_mem(prefix, rmap, p);
        lemma_map_of_pairs_props(prefix);
        let e = lefts.last();
        let rest = left_outcomes(prefix, rmap);
        let whole = left_outcomes(lefts, rmap);
        // The last key is fresh among the earlier keys.
        assert(!map_of_pairs(prefix).dom().contains(e.0)) by {
            if map_of_pairs(prefix).dom().contains(e.0) {
                let k = choose|k: int|
                    0 <= k < prefix.len() && (#[trigger] prefix[k]).0 == e.0;
                assert(lefts[k].0 == e.0);
                assert(lefts[k].0 != lefts[lefts.len() - 1].0);
            }
        }
        assert(map_of_pairs(lefts) == map_of_pairs(prefix).insert(e.0, e.1));
        lemma_push_contains(rest, CompOutcome::Equal(e.0));
        lemma_push_contains(rest, CompOutcome::Different(e.0));
        lemma_push_contains(rest, CompOutcome::OnlyLeft(e.0));
    }
}

/// Membership in the right-only verdicts, characterized by the maps alone.
pub proof fn lemma_right_only_outcomes_mem(
    rights: Seq<(Seq<char>, Seq<u8>)>,
    lmap: Map<Seq<char>, Seq<u8>>,
    p: Seq<char>,
)
    ensures
        right_only_outcomes(rights, lmap).contains(CompOutcome::OnlyRight(p)) <==> (
        !spec_is_ignored(p) && map_of_pairs(rights).dom().contains(p) && !lmap.dom().contains(p)),
        !right_only_outcomes(rights, lmap).contains(CompOutcome::Equal(p)),
        !right_only_outcomes(rights, lmap).contains(CompOutcome::Different(p)),
        !right_only_outcomes(rights, lmap).contains(CompOutcome::OnlyLeft(p)),
    decreases rights.len(),
{
    lemma_map_of_pairs_props(rights);
    if rights.len() > 0 {
        let prefix = rights.drop_last();
        lemma_right_only_outcomes_mem(prefix, lmap, p);
        lemma_map_of_pairs_props(prefix);
        let e = rights.last();
        let rest = right_only_outcomes(prefix, lmap);
        assert(map_of_pairs(rights) == map_of_pairs(prefix).insert(e.0, e.1));
        lemma_push_contains(rest, CompOutcome::OnlyRight(e.0));
    }
}

/// Membership in the whole verdict list, characterized by the two maps.
pub proof fn lemma_compare_mem(left: PackageContents, right: PackageContents, p: Seq<char>)
    requires
        left.wf(),
        right.wf(),
    ensures
        spec_compare(left, right).contains(CompOutcome::Equal(p)) <==> (!spec_is_ignored(p)
            && left.as_map().dom().contains(p) && right.as_map().dom().contains(p)
            && left.as_map()[p] == right.as_map()[p]),
        spec_compare(left, right).contains(CompOutcome::Different(p)) <==> (!spec_is_ignored(p)
            && left.as_map().dom().contains(p) && right.as_map().dom().contains(p)
            && left.as_map()[p] != right.as_map()[p]),
        spec_compare(left, right).contains(CompOutcome::OnlyLeft(p)) <==> (!spec_is_ignored(p)
            && left.as_map().dom().contains(p) && !right.as_map().dom().contains(p)),
        spec_compare(left, right).contains(CompOutcome::OnlyRight(p)) <==> (!spec_is_ignored(p)
            && right.as_map().dom().contains(p) && !left.as_map().dom().contains(p)),
{
    lemma_left_outcomes_mem(left.entries(), right.as_map(), p);
    lemma_right_only_outcomes_mem(right.entries(), left.as_map(), p);
    let a = left_outcomes(left.entries(), right.as_map());
    let b = right_only_outcomes(right.entries(), left.as_map());
    assert forall|x: CompOutcome| #[trigger] (a + b).contains(x) implies a.contains(x)
        || b.contains(x) by {
        let k = choose|k: int| 0 <= k < (a + b).len() && (a + b)[k] == x;
        if k < a.len() {
            assert(a[k] == x);
        } else {
            assert(b[k - a.len()] == x);
        }
    }
    assert forall|x: CompOutcome| a.contains(x) || b.contains(x) implies #[trigger] (a
        + b).contains(x) by {
        if a.contains(x) {
            let k = choose|k: int| 0 <= k < a.len() && a[k] == x;
            assert((a + b)[k] == x);
        } else {
            let k = choose|k: int| 0 <= k < b.len() && b[k] == x;
            assert((a + b)[k + a.len()] == x);
        }
    }
}

/// Each left-side verdict names a path the left map holds.
proof fn lemma_left_outcomes_paths(
    lefts: Seq<(Seq<char>, Seq<u8>)>,
    rmap: Map<Seq<char>, Seq<u8>>,
    i: int,
)
    requires
        0 <= i < left_outcomes(lefts, rmap).len(),
    ensures
        map_of_pairs(lefts).dom().contains(outcome_path(left_outcomes(lefts, rmap)[i])),
    decreases lefts.len(),
{
    if lefts.len() > 0 {
        let prefix = lefts.drop_last();
        let rest = left_outcomes(prefix, rmap);
        let e = lefts.last();
        lemma_map_of_pairs_props(lefts);
        lemma_map_of_pairs_props(prefix);
        assert(map_of_pairs(lefts) == map_of_pairs(prefix).insert(e.0, e.1));
        if i < rest.len() {
            lemma_left_outcomes_paths(prefix, rmap, i);
            assert(left_outcomes(lefts, rmap)[i] == rest[i]);
        } else {
            assert(outcome_path(left_outcomes(lefts, rmap)[i]) == e.0);
        }
    }
}

/// Under unique keys, two left-side verdicts never share a path.
proof fn lemma_left_outcomes_distinct(
    lefts: Seq<(Seq<char>, Seq<u8>)>,
    rmap: Map<Seq<char>, Seq<u8>>,
    i: int,
    j: int,
)
    requires
        unique_keys(lefts),
        0 <= i < j < left_outcomes(lefts, rmap).len(),
    ensures
        outcome_path(left_outcomes(lefts, rmap)[i]) != outcome_path(left_outcomes(lefts, rmap)[j]),
    decreases lefts.len(),
{
    if lefts.len() > 0 {
        let prefix = lefts.drop_last();
        let rest = left_outcomes(prefix, rmap);
        let e = lefts.last();
        assert(unique_keys(prefix)) by {
            assert(forall|k: int| 0 <= k < prefix.len() ==> #[trigger] prefix[k] == lefts[k]);
        }
        if j < rest.len() {
            lemma_left_outcomes_distinct(prefix, rmap, i, j);
            assert(left_outcomes(lefts, rmap)[i] == rest[i]);
            assert(left_outcomes(lefts, rmap)[j] == rest[j]);
        } else {
            // `j` is the verdict pushed for the last entry; the earlier
            // verdict's path lies among the earlier keys, and the last key
            // is fresh among them.
            lemma_left_outcomes_paths(prefix, rmap, i);
            assert(left_outcomes(lefts, rmap)[i] == rest[i]);
            assert(outcome_path(left_outcomes(lefts, rmap)[j]) == e.0);
            lemma_map_of_pairs_props(prefix);
            if map_of_pairs(prefix).dom().contains(e.0) {
                let k = choose|k: int| 0 <= k < prefix.len() && (#[trigger] prefix[k]).0 == e.0;
                assert(lefts[k].0 == e.0);
                assert(lefts[k].0 != lefts[lefts.len() - 1].0);
            }
        }
    }
}

/// Each right-only verdict names a path the right map holds and the left
/// map lacks.
proof fn lemma_right_only_paths(
    rights: Seq<(Seq<char>, Seq<u8>)>,
    lmap: Map<Seq<char>, Seq<u8>>,
    i: int,
)
    requires
        0 <= i < right_only_outcomes(rights, lmap).len(),
    ensures
        map_of_pairs(rights).dom().contains(
            outcome_path(right_only_outcomes(rights, lmap)[i]),
        ),
        !lmap.dom().contains(outcome_path(right_only_outcomes(rights, lmap)[i])),
    decreases rights.len(),
{
    if rights.len() > 0 {
        let prefix = rights.drop_last();
        let rest = right_only_outcomes(prefix, lmap);
        let e = rights.last();
        lemma_map_of_pairs_props(rights);
        lemma_map_of_pairs_props(prefix);
        assert(map_of_pairs(rights) == map_of_pairs(prefix).insert(e.0, e.1));
        if i < rest.len() {
            lemma_right_only_paths(prefix, lmap, i);
            assert(right_only_outcomes(rights, lmap)[i] == rest[i]);
        } else {
            assert(outcome_path(right_only_outcomes(rights, lmap)[i]) == e.0);
        }
    }
}

/// Under unique keys, two right-only verdicts never share a path.
proof fn lemma_right_only_distinct(
    rights: Seq<(Seq<char>, Seq<u8>)>,
    lmap: Map<Seq<char>, Seq<u8>>,
    i: int,
    j: int,
)
    requires
        unique_keys(rights),
        0 <= i < j < right_only_outcomes(rights, lmap).len(),
    ensures
        outcome_path(right_only_outcomes(rights, lmap)[i]) != outcome_path(
            right_only_outcomes(rights, lmap)[j],
        ),
    decreases rights.len(),
{
    if rights.len() > 0 {
        let prefix = rights.drop_last();
        let rest = right_only_outcomes(prefix, lmap);
        let e = rights.last();
        assert(unique_keys(prefix)) by {
            assert(forall|k: int| 0 <= k < prefix.len() ==> #[trigger] prefix[k] == rights[k]);
        }
        if j < rest.len() {
            lemma_right_only_distinct(prefix, lmap, i, j);
            assert(right_only_outcomes(rights, lmap)[i] == rest[i]);
            assert(right_only_outcomes(rights, lmap)[j] == rest[j]);
        } else {
            lemma_right_only_paths(prefix, lmap, i);
            assert(right_only_outcomes(rights, lmap)[i] == rest[i]);
            assert(outcome_path(right_only_outcomes(rights, lmap)[j]) == e.0);
            lemma_map_of_pairs_props(prefix);
            if map_of_pairs(prefix).dom().contains(e.0) {
                let k = choose|k: int| 0 <= k < prefix.len() && (#[trigger] prefix[k]).0 == e.0;
                assert(rights[k].0 == e.0);
                assert(rights[k].0 != rights[rights.len() - 1].0);
            }
        }
    }
}

/// No two verdicts name the same path: each non-ignored discrepancy yields
/// exactly one line.
pub proof fn lemma_compare_one_verdict_per_path(
    left: PackageContents,
    right: PackageContents,
    i: int,
    j: int,
)
    requires
        left.wf(),
        right.wf(),
        0 <= i < j < spec_compare(left, right).len(),
    ensures
        outcome_path(spec_compare(left, right)[i]) != outcome_path(spec_compare(left, right)[j]),
{
    let a = left_outcomes(left.entries(), right.as_map());
    let b = right_only_outcomes(right.entries(), left.as_map());
    assert(spec_compare(left, right)[i] == if i < a.len() {
        a[i]
    } else {
        b[i - a.len()]
    });
    assert(spec_compare(left, right)[j] == if j < a.len() {
        a[j]
    } else {
        b[j - a.len()]
    });
    if j < a.len() {
        lemma_left_outcomes_distinct(left.entries(), right.as_map(), i, j);
    } else if i >= a.len() {
        lemma_right_only_distinct(right.entries(), left.as_map(), i - a.len(), j - a.len());
    } else {
        lemma_left_outcomes_paths(left.entries(), right.as_map(), i);
        lemma_right_only_paths(right.entries(), left.as_map(), j - a.len());
    }
}

/// Comparison is anti-symmetric: swapping the inputs swaps `OnlyLeft` with
/// `OnlyRight` and keeps `Equal` and `Different` at the same paths.
pub proof fn lemma_compare_antisymmetric(left: PackageContents, right: PackageContents, p: Seq<char>)
    requires
        left.wf(),
        right.wf(),
    ensures
        spec_compare(left, right).contains(CompOutcome::Equal(p)) <==> spec_compare(
            right,
            left,
        ).contains(CompOutcome::Equal(p)),
        spec_compare(left, right).contains(CompOutcome::Different(p)) <==> spec_compare(
            right,
            left,
        ).contains(CompOutcome::Different(p)),
        spec_compare(left, right).contains(CompOutcome::OnlyLeft(p)) <==> spec_compare(
            right,
            left,
        ).contains(CompOutcome::OnlyRight(p)),
        spec_compare(left, right).contains(CompOutcome::OnlyRight(p)) <==> spec_compare(
            right,
            left,
        ).contains(CompOutcome::OnlyLeft(p)),
{
    lemma_compare_mem(left, right, p);
    lemma_compare_mem(right, left, p);
}

/// An ignored path never appears in any verdict, however the two maps
/// differ on it.
pub proof fn lemma_ignored_never_compared(left: PackageContents, right: PackageContents, p: Seq<char>)
    requires
        left.wf(),
        right.wf(),
        spec_is_ignored(p),
    ensures
        !spec_compare(left, right).contains(CompOutcome::Equal(p)),
        !spec_compare(left, right).contains(CompOutcome::Different(p)),
        !spec_compare(left, right).contains(CompOutcome::OnlyLeft(p)),
        !spec_compare(left, right).contains(CompOutcome::OnlyRight(p)),
{
    lemma_compare_mem(left, right, p);
}

// ---------------------------------------------------------------------------
// A package archive on disk.
// ---------------------------------------------------------------------------

/// A package archive, named by the path of its gzip-compressed tar file.
pub struct Package(pub String);

/// Why an archive's contents could not be digested.
#[derive(Debug)]
pub enum ArchiveError {
    /// The bytes are not a valid gzip stream.
    NotGzip,
    /// The decompressed bytes are not a readable tar stream.
    NotTar,
}

impl Package {
    pub fn new(path: String) -> (r: Self)
        ensures
            r.0 == path,
    {
        Package(path)
    }

    /// The digest map of an archive given as raw (still compressed) bytes:
    /// decompress, read the entries, digest each non-ignored one.
    pub fn contents_from_bytes(raw: &Vec<u8>) -> (r: Result<PackageContents, ArchiveError>)
        ensures
            match r {
                Ok(c) => {
                    &&& c.wf()
                    &&& gunzip_of(raw@) matches Some(t)
                    &&& tar_entries_of(t) matches Some(es) && c.as_map() == contents_map_of(es)
                },
                Err(e) => match e {
                    ArchiveError::NotGzip => gunzip_of(raw@) is None,
                    ArchiveError::NotTar => gunzip_of(raw@) matches Some(t) && tar_entries_of(t)
                        is None,
                },
            },
    {
        let tar_bytes = match gunzip(raw) {
            Some(t) => t,
            None => {
                return Err(ArchiveError::NotGzip);
            },
        };
        let entries = match tar_entries(&tar_bytes) {
            Some(es) => es,
            None => {
                return Err(ArchiveError::NotTar);
            },
        };
        Ok(contents_from_entries(&entries))
    }
}

} // verus!
