use vstd::prelude::*;
use vstd::string::StringExecFns;
use crate::text::push_char;
use crate::version::{spec_render, SemVersion};

verus! {

/// A registry package archive cached on disk, named by the path of its
/// cached file.
pub struct RegistryCrate {
    pub crate_file: String,
}

impl RegistryCrate {
    pub fn new(crate_file: String) -> (r: Self)
        ensures
            r.crate_file == crate_file,
    {
        RegistryCrate { crate_file }
    }

    /// The fixed templated download endpoint for a package archive:
    /// `{base}/{name}/{name}-{version}.crate`.
    pub fn download_url(name: &str, version: &SemVersion) -> (r: String)
        ensures
            r@ == "https://static.crates.io/crates/"@ + name@ + seq!['/'] + name@ + seq!['-']
                + spec_render(*version) + ".crate"@,
    {
        let mut r = String::from_str("https://static.crates.io/crates/");
        r.append(name);
        push_char(&mut r, '/');
        r.append(name);
        push_char(&mut r, '-');
        let v = version.render();
        r.append(v.as_str());
        r.append(".crate");
        proof {
            assert(r@ =~= "https://static.crates.io/crates/"@ + name@ + seq!['/'] + name@ + seq![
                '-',
            ] + spec_render(*version) + ".crate"@);
        }
        r
    }

    /// Where the archive is cached, relative to the cache root:
    /// `{name}/{version}.tar.gz`.
    pub fn cache_rel_path(name: &str, version: &SemVersion) -> (r: String)
        ensures
            r@ == name@ + seq!['/'] + spec_render(*version) + ".tar.gz"@,
    {
        let mut r = name.to_owned();
        push_char(&mut r, '/');
        let v = version.render();
        r.append(v.as_str());
        r.append(".tar.gz");
        proof {
            assert(r@ =~= name@ + seq!['/'] + spec_render(*version) + ".tar.gz"@);
        }
        r
    }
}

} // verus!
