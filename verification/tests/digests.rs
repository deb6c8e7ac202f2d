use crates_check::io::{filter_ascii_whitespace, AsciiWhitespaceSkippingReader};
use crates_check::package::{
    contents_from_entries, entry_digest, is_path_ignored, Package, PackageComparison,
    PackageContents,
};
use sha2::Digest;

fn entries(list: &[(&str, &[u8])]) -> Vec<(String, Vec<u8>)> {
    list.iter().map(|(p, d)| ((*p).to_owned(), d.to_vec())).collect()
}

#[test]
fn whitespace_filtering() {
    assert_eq!(filter_ascii_whitespace(&b" a\tb\nc\r\x0cd ".to_vec()), b"abcd".to_vec());
    assert_eq!(filter_ascii_whitespace(&b"".to_vec()), Vec::<u8>::new());
    assert_eq!(filter_ascii_whitespace(&b" \t\n\r".to_vec()), Vec::<u8>::new());
    assert_eq!(filter_ascii_whitespace(&b"abc".to_vec()), b"abc".to_vec());
}

#[test]
fn reader_skips_whitespace() {
    let r = AsciiWhitespaceSkippingReader::new(b"a b\nc".to_vec());
    assert_eq!(r.read_all(), b"abc".to_vec());
}

#[test]
fn digest_ignores_embedded_whitespace() {
    let a = entry_digest(&b"hello world\n".to_vec());
    let b = entry_digest(&b"helloworld".to_vec());
    let c = entry_digest(&b"  hel lo\twor\nld  \r\n".to_vec());
    assert_eq!(a, b);
    assert_eq!(a, c);
    let d = entry_digest(&b"helloworld!".to_vec());
    assert_ne!(a, d);
}

#[test]
fn digest_is_sha512_of_filtered_bytes() {
    let ours = entry_digest(&b"hello world\n".to_vec());
    let reference = sha2::Sha512::digest(b"helloworld").to_vec();
    assert_eq!(ours, reference);
    assert_eq!(ours.len(), 64);
}

#[test]
fn ignore_list_basenames() {
    assert!(is_path_ignored("Cargo.toml"));
    assert!(is_path_ignored("pkg-1.0.0/Cargo.toml"));
    assert!(is_path_ignored("pkg-1.0.0/.cargo_vcs_info.json"));
    assert!(!is_path_ignored("pkg-1.0.0/Cargo.toml.orig"));
    assert!(!is_path_ignored("pkg-1.0.0/cargo.toml"));
    assert!(!is_path_ignored("pkg-1.0.0/src/lib.rs"));
    assert!(!is_path_ignored("pkg-1.0.0/sub/my.Cargo.toml.rs"));
}

#[test]
fn contents_skip_ignored_entries() {
    let c = contents_from_entries(&entries(&[
        ("p/Cargo.toml", b"[package]"),
        ("p/.cargo_vcs_info.json", b"{}"),
        ("p/src/lib.rs", b"fn main() {}"),
    ]));
    assert_eq!(c.len(), 1);
    assert!(c.get("p/src/lib.rs").is_some());
    assert!(c.get("p/Cargo.toml").is_none());
}

#[test]
fn contents_keep_last_digest_for_duplicate_paths() {
    let c = contents_from_entries(&entries(&[("p/a", b"one"), ("p/a", b"two")]));
    assert_eq!(c.len(), 1);
    assert_eq!(c.get("p/a").unwrap(), &entry_digest(&b"two".to_vec()));
}

#[test]
fn comparing_maps_yields_per_path_verdicts() {
    let left = contents_from_entries(&entries(&[("p/a", b"same"), ("p/b", b"left"), ("p/c", b"x")]));
    let right = contents_from_entries(&entries(&[("p/a", b"same"), ("p/b", b"right"), ("p/d", b"y")]));
    let verdicts = PackageContents::compare(&left, &right);
    assert_eq!(verdicts.len(), 4);
    assert!(matches!(&verdicts[0], PackageComparison::Equal(p) if p == "p/a"));
    assert!(matches!(&verdicts[1], PackageComparison::Different(p) if p == "p/b"));
    assert!(matches!(&verdicts[2], PackageComparison::OnlyLeft(p) if p == "p/c"));
    assert!(matches!(&verdicts[3], PackageComparison::OnlyRight(p) if p == "p/d"));
}

#[test]
fn comparison_is_antisymmetric() {
    let left = contents_from_entries(&entries(&[("p/a", b"same"), ("p/b", b"left"), ("p/c", b"x")]));
    let right = contents_from_entries(&entries(&[("p/a", b"same"), ("p/b", b"right"), ("p/d", b"y")]));
    let forward = PackageContents::compare(&left, &right);
    let backward = PackageContents::compare(&right, &left);

    let shape = |vs: &Vec<PackageComparison>| -> Vec<(u8, String)> {
        let mut out: Vec<(u8, String)> = vs
            .iter()
            .map(|v| match v {
                PackageComparison::Equal(p) => (0u8, p.clone()),
                PackageComparison::Different(p) => (1u8, p.clone()),
                PackageComparison::OnlyLeft(p) => (2u8, p.clone()),
                PackageComparison::OnlyRight(p) => (3u8, p.clone()),
            })
            .collect();
        out.sort();
        out
    };
    let swapped: Vec<(u8, String)> = shape(&backward)
        .into_iter()
        .map(|(k, p)| match k {
            2 => (3u8, p),
            3 => (2u8, p),
            k => (k, p),
        })
        .collect();
    let mut swapped = swapped;
    swapped.sort();
    assert_eq!(shape(&forward), swapped);
}

#[test]
fn ignored_paths_never_compared_even_when_different() {
    let left = contents_from_entries(&entries(&[("p/Cargo.toml", b"aaa"), ("p/x", b"v")]));
    let right = contents_from_entries(&entries(&[("p/Cargo.toml", b"bbb"), ("p/x", b"v")]));
    let verdicts = PackageContents::compare(&left, &right);
    assert_eq!(verdicts.len(), 1);
    assert!(matches!(&verdicts[0], PackageComparison::Equal(p) if p == "p/x"));
}

#[test]
fn contents_from_real_archive_bytes() {
    let tar_gz = make_tar_gz(&[("pkg-1.0.0/src/lib.rs", b"fn f() {}\n"), ("pkg-1.0.0/Cargo.toml", b"[package]\n")]);
    let c = Package::contents_from_bytes(&tar_gz).unwrap();
    assert_eq!(c.len(), 1);
    assert_eq!(c.get("pkg-1.0.0/src/lib.rs").unwrap(), &entry_digest(&b"fn f() {}\n".to_vec()));
}

#[test]
fn unreadable_archives_are_rejected() {
    assert!(Package::contents_from_bytes(&b"junk".to_vec()).is_err());
    let not_tar = gzip(&[0xffu8; 1024]);
    assert!(Package::contents_from_bytes(&not_tar).is_err());
}

fn gzip(data: &[u8]) -> Vec<u8> {
    let mut enc = flate2::write::GzEncoder::new(Vec::new(), flate2::Compression::default());
    std::io::Write::write_all(&mut enc, data).unwrap();
    enc.finish().unwrap()
}

fn make_tar_gz(files: &[(&str, &[u8])]) -> Vec<u8> {
    let mut builder = tar::Builder::new(Vec::new());
    for (path, data) in files {
        let mut header = tar::Header::new_gnu();
        header.set_size(data.len() as u64);
        header.set_mode(0o644);
        header.set_cksum();
        builder.append_data(&mut header, path, *data).unwrap();
    }
    let tar_bytes = builder.into_inner().unwrap();
    gzip(&tar_bytes)
}

#[test]
fn package_handle_keeps_its_path() {
    let p = Package::new("cache/foo/1.0.0.tar.gz".to_owned());
    assert_eq!(p.0, "cache/foo/1.0.0.tar.gz");
}
