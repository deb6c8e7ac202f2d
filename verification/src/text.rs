use vstd::prelude::*;
use vstd::string::StrSliceExecFns;
use vstd::string::StringExecFns;

verus! {

// ---------------------------------------------------------------------------
// Character-sequence specifications shared by the rest of the crate.
// ---------------------------------------------------------------------------

/// The decimal digit character for a value below ten.
pub open spec fn dec_digit_char(d: nat) -> char {
    if d == 0 {
        '0'
    } else if d == 1 {
        '1'
    } else if d == 2 {
        '2'
    } else if d == 3 {
        '3'
    } else if d == 4 {
        '4'
    } else if d == 5 {
        '5'
    } else if d == 6 {
        '6'
    } else if d == 7 {
        '7'
    } else if d == 8 {
        '8'
    } else {
        '9'
    }
}

/// The decimal rendering of a natural number, most significant digit first.
pub open spec fn dec_str_of(n: nat) -> Seq<char>
    decreases n,
{
    if n < 10 {
        seq![dec_digit_char(n)]
    } else {
        dec_str_of(n / 10).push(dec_digit_char(n % 10))
    }
}

/// `suf` is a suffix of `s`.
pub open spec fn ends_with(s: Seq<char>, suf: Seq<char>) -> bool {
    suf.len() <= s.len() && s.subrange(s.len() - suf.len(), s.len() as int) == suf
}

/// `pre` is a prefix of `s`.
pub open spec fn starts_with(s: Seq<char>, pre: Seq<char>) -> bool {
    pre.len() <= s.len() && s.subrange(0, pre.len() as int) == pre
}

/// Index of the first occurrence of `c` in `s`, or `s.len()` when absent.
pub open spec fn first_idx(s: Seq<char>, c: char) -> int
    decreases s.len(),
{
    if s.len() == 0 {
        0
    } else if s[0] == c {
        0
    } else {
        1 + first_idx(s.skip(1), c)
    }
}

/// The pieces of `s` between occurrences of `c`; an empty string splits to
/// one empty piece, as `str::split` does.
pub open spec fn split_chars(s: Seq<char>, c: char) -> Seq<Seq<char>>
    decreases s.len(),
{
    let i = first_idx(s, c);
    if 0 <= i < s.len() {
        seq![s.take(i)] + split_chars(s.skip(i + 1), c)
    } else {
        seq![s]
    }
}

/// Everything after the last `/` of `s` (all of `s` when it has none).
pub open spec fn basename_of(s: Seq<char>) -> Seq<char>
    decreases s.len(),
{
    let i = first_idx(s, '/');
    if 0 <= i < s.len() {
        basename_of(s.skip(i + 1))
    } else {
        s
    }
}

/// `s` with every occurrence of `from` replaced by `to`.
pub open spec fn replaced(s: Seq<char>, from: char, to: char) -> Seq<char> {
    s.map_values(|ch: char| if ch == from { to } else { ch })
}

/// A line with one trailing carriage return removed, as `str::lines`
/// hands lines out.
pub open spec fn strip_cr(l: Seq<char>) -> Seq<char> {
    if l.len() > 0 && l.last() == '\r' {
        l.drop_last()
    } else {
        l
    }
}

/// The lines of `s` in the sense of `str::lines`: split at `\n`, one
/// trailing `\r` per line removed, no final empty line after a trailing
/// newline.
pub open spec fn lines_of(s: Seq<char>) -> Seq<Seq<char>>
    decreases s.len(),
{
    if s.len() == 0 {
        Seq::empty()
    } else {
        let i = first_idx(s, '\n');
        if 0 <= i < s.len() {
            seq![strip_cr(s.take(i))] + lines_of(s.skip(i + 1))
        } else {
            seq![s]
        }
    }
}

pub open spec fn dot_git() -> Seq<char> {
    seq!['.', 'g', 'i', 't']
}

/// `s` with every trailing `.git` repetition removed, as
/// `str::trim_end_matches(".git")` leaves it.
pub open spec fn trim_dot_git(s: Seq<char>) -> Seq<char>
    decreases s.len(),
{
    if ends_with(s, dot_git()) && s.len() >= 4 {
        trim_dot_git(s.take(s.len() - 4))
    } else {
        s
    }
}

// ---------------------------------------------------------------------------
// Proof helpers about the specifications above.
// ---------------------------------------------------------------------------

/// `first_idx` points at the first occurrence: it is in bounds, everything
/// before it differs from `c`, and it is `s.len()` exactly when `c` is absent.
pub proof fn lemma_first_idx(s: Seq<char>, c: char)
    ensures
        0 <= first_idx(s, c) <= s.len(),
        first_idx(s, c) < s.len() ==> s[first_idx(s, c)] == c,
        forall|j: int| 0 <= j < first_idx(s, c) ==> s[j] != c,
    decreases s.len(),
{
    if s.len() == 0 {
    } else if s[0] == c {
    } else {
        lemma_first_idx(s.skip(1), c);
        assert forall|j: int| 0 <= j < first_idx(s, c) implies s[j] != c by {
            if j > 0 {
                assert(s.skip(1)[j - 1] == s[j]);
            }
        }
    }
}

/// Any index with the first-occurrence properties is `first_idx`.
pub proof fn lemma_first_idx_unique(s: Seq<char>, c: char, k: int)
    requires
        0 <= k <= s.len(),
        k < s.len() ==> s[k] == c,
        forall|j: int| 0 <= j < k ==> s[j] != c,
    ensures
        k == first_idx(s, c),
    decreases s.len(),
{
    if s.len() == 0 {
    } else if s[0] == c {
        assert(k == 0);
    } else {
        assert(k >= 1);
        assert(forall|j: int| 0 <= j < k - 1 ==> #[trigger] s.skip(1)[j] == s[j + 1]);
        lemma_first_idx_unique(s.skip(1), c, k - 1);
    }
}

// ---------------------------------------------------------------------------
// Trusted conversions.
// ---------------------------------------------------------------------------

/// Relies on `String::push`: appends exactly the one character to the string.
#[verifier::external_body]
pub fn push_char(s: &mut String, c: char)
    ensures
        final(s)@ == old(s)@.push(c),
{
    s.push(c);
}

// ---------------------------------------------------------------------------
// Executable string functions.
// ---------------------------------------------------------------------------

/// Character-wise equality of two string slices.
pub fn str_eq(a: &str, b: &str) -> (r: bool)
    ensures
        r == (a@ == b@),
{
    let sa = a.to_owned();
    let sb = b.to_owned();
    sa == sb
}

/// The decimal digit character of `d`.
pub fn digit_char(d: u64) -> (c: char)
    requires
        d < 10,
    ensures
        c == dec_digit_char(d as nat),
{
    if d == 0 {
        '0'
    } else if d == 1 {
        '1'
    } else if d == 2 {
        '2'
    } else if d == 3 {
        '3'
    } else if d == 4 {
        '4'
    } else if d == 5 {
        '5'
    } else if d == 6 {
        '6'
    } else if d == 7 {
        '7'
    } else if d == 8 {
        '8'
    } else {
        '9'
    }
}

/// Renders `n` in decimal.
pub fn u64_to_string(n: u64) -> (s: String)
    ensures
        s@ == dec_str_of(n as nat),
    decreases n,
{
    if n < 10 {
        let mut s = String::new();
        push_char(&mut s, digit_char(n));
        s
    } else {
        let mut s = u64_to_string(n / 10);
        push_char(&mut s, digit_char(n % 10));
        s
    }
}

/// Whether `suffix` ends `s`, character for character.
pub fn str_ends_with(s: &str, suffix: &str) -> (r: bool)
    ensures
        r == ends_with(s@, suffix@),
{
    let n = s.unicode_len();
    let m = suffix.unicode_len();
    if m > n {
        return false;
    }
    let mut i: usize = 0;
    while i < m
        invariant
            0 <= i <= m,
            m <= n,
            n == s@.len(),
            m == suffix@.len(),
            forall|j: int| 0 <= j < i ==> s@[n - m + j] == suffix@[j],
        decreases m - i,
    {
        if s.get_char(n - m + i) != suffix.get_char(i) {
            return false;
        }
        i = i + 1;
    }
    proof {
        assert(s@.subrange(n - m, n as int) =~= suffix@);
    }
    true
}

/// Whether `prefix` begins `s`, character for character.
pub fn str_starts_with(s: &str, prefix: &str) -> (r: bool)
    ensures
        r == starts_with(s@, prefix@),
{
    let n = s.unicode_len();
    let m = prefix.unicode_len();
    if m > n {
        return false;
    }
    let mut i: usize = 0;
    while i < m
        invariant
            0 <= i <= m,
            m <= n,
            n == s@.len(),
            m == prefix@.len(),
            forall|j: int| 0 <= j < i ==> s@[j] == prefix@[j],
        decreases m - i,
    {
        if s.get_char(i) != prefix.get_char(i) {
            return false;
        }
        i = i + 1;
    }
    proof {
        assert(s@.subrange(0, m as int) =~= prefix@);
    }
    true
}

/// Index of the first occurrence of `c` in `s`, or the length when absent.
pub fn find_char(s: &str, c: char) -> (r: usize)
    ensures
        r == first_idx(s@, c),
        r <= s@.len(),
{
    let n = s.unicode_len();
    let mut i: usize = 0;
    while i < n
        invariant
            0 <= i <= n,
            n == s@.len(),
            forall|j: int| 0 <= j < i ==> s@[j] != c,
        decreases n - i,
    {
        if s.get_char(i) == c {
            proof {
                lemma_first_idx_unique(s@, c, i as int);
            }
            return i;
        }
        i = i + 1;
    }
    proof {
        lemma_first_idx_unique(s@, c, n as int);
    }
    n
}

/// Splits `s` at every occurrence of `c`.
pub fn split_on_char(s: &str, c: char) -> (r: Vec<String>)
    ensures
        r.deep_view() == split_chars(s@, c),
    decreases s@.len(),
{
    let n = s.unicode_len();
    let i = find_char(s, c);
    if i == n {
        let mut r: Vec<String> = Vec::new();
        r.push(s.to_owned());
        proof {
            assert(r.deep_view() =~= split_chars(s@, c));
        }
        r
    } else {
        let head = s.substring_char(0, i);
        let tail = s.substring_char(i + 1, n);
        let mut rest = split_on_char(tail, c);
        let ghost rest_view = rest.deep_view();
        let mut r: Vec<String> = Vec::new();
        r.push(head.to_owned());
        r.append(&mut rest);
        proof {
            assert(head@ == s@.take(i as int));
            assert(tail@ == s@.skip((i + 1) as int));
            assert(r.deep_view() =~= seq![head@] + rest_view);
            assert(r.deep_view() =~= split_chars(s@, c));
        }
        r
    }
}

/// The lines of `s`, as `str::lines` yields them.
pub fn split_lines(s: &str) -> (r: Vec<String>)
    ensures
        r.deep_view() == lines_of(s@),
    decreases s@.len(),
{
    let n = s.unicode_len();
    if n == 0 {
        let r: Vec<String> = Vec::new();
        proof {
            assert(r.deep_view() =~= lines_of(s@));
        }
        return r;
    }
    let i = find_char(s, '\n');
    if i == n {
        let mut r: Vec<String> = Vec::new();
        r.push(s.to_owned());
        proof {
            assert(r.deep_view() =~= lines_of(s@));
        }
        r
    } else {
        let raw_head = s.substring_char(0, i);
        let head = if i > 0 && s.get_char(i - 1) == '\r' {
            s.substring_char(0, i - 1)
        } else {
            raw_head
        };
        proof {
            assert(raw_head@ == s@.take(i as int));
            if i > 0 && s@[i - 1] == '\r' {
                assert(s@.take((i - 1) as int) =~= strip_cr(s@.take(i as int)));
            }
            assert(head@ == strip_cr(s@.take(i as int)));
        }
        let tail = s.substring_char(i + 1, n);
        let mut rest = split_lines(tail);
        let ghost rest_view = rest.deep_view();
        let mut r: Vec<String> = Vec::new();
        r.push(head.to_owned());
        r.append(&mut rest);
        proof {
            assert(tail@ == s@.skip((i + 1) as int));
            assert(r.deep_view() =~= seq![strip_cr(s@.take(i as int))] + rest_view);
            assert(r.deep_view() =~= lines_of(s@));
        }
        r
    }
}

/// The first line of `s`, or `None` when `s` is empty.
pub fn first_line(s: &str) -> (r: Option<String>)
    ensures
        match r {
            Some(l) => lines_of(s@).len() > 0 && l@ == lines_of(s@)[0],
            None => lines_of(s@).len() == 0,
        },
{
    let n = s.unicode_len();
    if n == 0 {
        return None;
    }
    let i = find_char(s, '\n');
    if i == n {
        Some(s.to_owned())
    } else {
        let head = if i > 0 && s.get_char(i - 1) == '\r' {
            s.substring_char(0, i - 1)
        } else {
            s.substring_char(0, i)
        };
        proof {
            if i > 0 && s@[i - 1] == '\r' {
                assert(s@.take((i - 1) as int) =~= strip_cr(s@.take(i as int)));
            }
            assert(head@ == strip_cr(s@.take(i as int)));
        }
        Some(head.to_owned())
    }
}

/// Everything after the last `/` of `s`.
pub fn basename(s: &str) -> (r: String)
    ensures
        r@ == basename_of(s@),
    decreases s@.len(),
{
    let n = s.unicode_len();
    let i = find_char(s, '/');
    if i == n {
        s.to_owned()
    } else {
        let tail = s.substring_char(i + 1, n);
        basename(tail)
    }
}

/// `s` with every `from` character replaced by `to`.
pub fn replace_char(s: &str, from: char, to: char) -> (r: String)
    ensures
        r@ == replaced(s@, from, to),
{
    let n = s.unicode_len();
    let mut r = String::new();
    let mut i: usize = 0;
    while i < n
        invariant
            0 <= i <= n,
            n == s@.len(),
            r@ == replaced(s@.take(i as int), from, to),
        decreases n - i,
    {
        let ch = s.get_char(i);
        if ch == from {
            push_char(&mut r, to);
        } else {
            push_char(&mut r, ch);
        }
        proof {
            assert(replaced(s@.take((i + 1) as int), from, to) =~= replaced(
                s@.take(i as int),
                from,
                to,
            ).push(if s@[i as int] == from { to } else { s@[i as int] }));
        }
        i = i + 1;
    }
    proof {
        assert(s@.take(n as int) =~= s@);
    }
    r
}

/// `s` with every trailing `.git` repetition removed.
pub fn trim_dot_git_suffix(s: &str) -> (r: String)
    ensures
        r@ == trim_dot_git(s@),
    decreases s@.len(),
{
    proof {
        reveal_strlit(".git");
        assert(".git"@ =~= dot_git());
    }
    let n = s.unicode_len();
    if n >= 4 && str_ends_with(s, ".git") {
        let head = s.substring_char(0, n - 4);
        proof {
            assert(head@ =~= s@.take(s@.len() - 4));
        }
        trim_dot_git_suffix(head)
    } else {
        s.to_owned()
    }
}

} // verus!
