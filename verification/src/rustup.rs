use vstd::prelude::*;
use vstd::string::StrSliceExecFns;
use crate::text::{find_char, first_idx};

verus! {

pub open spec fn stable_chars() -> Seq<char> {
    seq!['s', 't', 'a', 'b', 'l', 'e']
}

/// The toolchain named by the toolchain tool's `default` output: everything
/// before the first space; the stable fallback when the tool failed, its
/// output was not text, or no space was found.
pub open spec fn spec_toolchain(out: Option<Seq<char>>) -> Seq<char> {
    match out {
        Some(s) => {
            let i = first_idx(s, ' ');
            if 0 <= i < s.len() {
                s.take(i)
            } else {
                stable_chars()
            }
        },
        None => stable_chars(),
    }
}

/// Picks the default toolchain out of the toolchain tool's output, falling
/// back to stable when it cannot be determined.
pub fn toolchain_from_output(out: Option<&str>) -> (r: String)
    ensures
        r@ == spec_toolchain(
            match out {
                Some(s) => Some(s@),
                None => None,
            },
        ),
{
    proof {
        reveal_strlit("stable");
        assert("stable"@ =~= stable_chars());
    }
    match out {
        Some(s) => {
            let n = s.unicode_len();
            let i = find_char(s, ' ');
            if i < n {
                let head = s.substring_char(0, i);
                head.to_owned()
            } else {
                "stable".to_owned()
            }
        },
        None => "stable".to_owned(),
    }
}

} // verus!
