use crates_check::registry::RegistryCrate;
use crates_check::rustup::toolchain_from_output;
use crates_check::version::SemVersion;

fn ver(major: u64, minor: u64, patch: u64) -> SemVersion {
    SemVersion { major, minor, patch, pre: String::new(), build: String::new() }
}

#[test]
fn download_endpoint_template() {
    assert_eq!(
        RegistryCrate::download_url("serde", &ver(1, 0, 219)),
        "https://static.crates.io/crates/serde/serde-1.0.219.crate"
    );
}

#[test]
fn cache_layout() {
    assert_eq!(RegistryCrate::cache_rel_path("serde", &ver(1, 0, 219)), "serde/1.0.219.tar.gz");
    let rc = RegistryCrate::new("cache/serde/1.0.219.tar.gz".to_owned());
    assert_eq!(rc.crate_file, "cache/serde/1.0.219.tar.gz");
}

#[test]
fn toolchain_from_tool_output() {
    assert_eq!(
        toolchain_from_output(Some("stable-x86_64-unknown-linux-gnu (default)")),
        "stable-x86_64-unknown-linux-gnu"
    );
    assert_eq!(toolchain_from_output(Some("nightly (default)\n")), "nightly");
    assert_eq!(toolchain_from_output(Some("no-space-here")), "stable");
    assert_eq!(toolchain_from_output(None), "stable");
}
