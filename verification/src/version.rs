use vstd::prelude::*;
use vstd::string::StringExecFns;
use crate::text::{dec_str_of, push_char, u64_to_string};

verus! {

/// A semantic version held as plain values: numeric components plus the
/// pre-release and build-metadata identifier strings (empty when absent).
pub struct SemVersion {
    pub major: u64,
    pub minor: u64,
    pub patch: u64,
    pub pre: String,
    pub build: String,
}

/// The canonical rendering of a version without its build metadata:
/// `major.minor.patch`, then `-pre` when a pre-release is present.
pub open spec fn spec_render_no_build(v: SemVersion) -> Seq<char> {
    dec_str_of(v.major as nat) + seq!['.'] + dec_str_of(v.minor as nat) + seq!['.'] + dec_str_of(
        v.patch as nat,
    ) + (if v.pre@.len() > 0 {
        seq!['-'] + v.pre@
    } else {
        Seq::<char>::empty()
    })
}

/// The full canonical rendering: the build metadata follows after `+`.
pub open spec fn spec_render(v: SemVersion) -> Seq<char> {
    spec_render_no_build(v) + (if v.build@.len() > 0 {
        seq!['+'] + v.build@
    } else {
        Seq::<char>::empty()
    })
}

impl SemVersion {
    /// A copy of this version with the build metadata cleared; the other
    /// components are untouched.
    pub fn without_build(&self) -> (r: SemVersion)
        ensures
            r.major == self.major,
            r.minor == self.minor,
            r.patch == self.patch,
            r.pre@ == self.pre@,
            r.build@ == Seq::<char>::empty(),
    {
        SemVersion {
            major: self.major,
            minor: self.minor,
            patch: self.patch,
            pre: self.pre.clone(),
            build: String::new(),
        }
    }

    /// Renders the version, build metadata included when present.
    pub fn render(&self) -> (r: String)
        ensures
            r@ == spec_render(*self),
    {
        let mut r = self.render_no_build();
        if self.build.as_str().unicode_len() > 0 {
            push_char(&mut r, '+');
            r.append(self.build.as_str());
        }
        r
    }

    /// Renders the version without its build metadata.
    pub fn render_no_build(&self) -> (r: String)
        ensures
            r@ == spec_render_no_build(*self),
    {
        let mut r = u64_to_string(self.major);
        push_char(&mut r, '.');
        let minor = u64_to_string(self.minor);
        r.append(minor.as_str());
        push_char(&mut r, '.');
        let patch = u64_to_string(self.patch);
        r.append(patch.as_str());
        if self.pre.as_str().unicode_len() > 0 {
            push_char(&mut r, '-');
            r.append(self.pre.as_str());
        }
        proof {
            assert(r@ =~= spec_render_no_build(*self));
        }
        r
    }
}

/// The rendering without build metadata reads nothing but the other four
/// components: versions that differ only in build metadata render alike.
pub proof fn lemma_render_ignores_build(a: SemVersion, b: SemVersion)
    requires
        a.major == b.major,
        a.minor == b.minor,
        a.patch == b.patch,
        a.pre@ == b.pre@,
    ensures
        spec_render_no_build(a) == spec_render_no_build(b),
{
}

} // verus!
