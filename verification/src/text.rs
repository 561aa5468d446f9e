//! Small verified text routines over the characters of `str` values.

use vstd::prelude::*;
use vstd::string::StrSliceExecFns;

verus! {

/// The text lower-cased as `str::to_lowercase` does it.
pub uninterp spec fn lowercase(s: Seq<char>) -> Seq<char>;

/// Lower-cases `s` with `str::to_lowercase`. Its result is taken to be
/// determined by the characters of `s` alone; what the Unicode case
/// mapping gives for each character is not stated here.
#[verifier::external_body]
pub(crate) fn to_lower(s: &str) -> (r: String)
    ensures
        r@ == lowercase(s@),
{
    s.to_lowercase()
}


/// `needle` occurs in `hay` as a contiguous run (the empty text occurs everywhere).
pub open spec fn occurs_in(hay: Seq<char>, needle: Seq<char>) -> bool {
    exists|i: int| 0 <= i <= hay.len() - needle.len() && #[trigger] hay.subrange(i, i + needle.len()) == needle
}

/// Code point of `c` with ASCII upper-case letters mapped to lower case.
pub open spec fn ascii_lower(c: char) -> u32 {
    if 65 <= (c as u32) <= 90 {
        ((c as u32) + 32) as u32
    } else {
        c as u32
    }
}

/// Equal up to ASCII case, as `str::eq_ignore_ascii_case` compares.
pub open spec fn eq_ascii_ci(a: Seq<char>, b: Seq<char>) -> bool {
    a.len() == b.len() && forall|i: int| 0 <= i < a.len() ==> ascii_lower(#[trigger] a[i]) == ascii_lower(b[i])
}

/// Fingerprint of a name that ignores ASCII case: its length and its first,
/// second and last characters folded to lower case.
pub open spec fn ci_fingerprint(s: Seq<char>) -> int {
    ((s.len() * 256 + ascii_lower(s[0])) * 256 + ascii_lower(s[1])) * 256 + ascii_lower(s[s.len() - 1])
}

/// The fingerprint of a name of `len` characters whose first, second and
/// last characters fold to `first`, `second` and `last`.
pub open spec fn fingerprint_of(len: int, first: char, second: char, last: char) -> int {
    ((len * 256 + first as int) * 256 + second as int) * 256 + last as int
}

/// Names equal up to ASCII case have the same fingerprint.
pub proof fn lemma_fingerprint_ci(a: Seq<char>, b: Seq<char>)
    requires
        eq_ascii_ci(a, b),
        a.len() >= 2,
    ensures
        ci_fingerprint(a) == ci_fingerprint(b),
{
    assert(ascii_lower(a[0]) == ascii_lower(b[0]));
    assert(ascii_lower(a[1]) == ascii_lower(b[1]));
    assert(ascii_lower(a[a.len() - 1]) == ascii_lower(b[a.len() - 1]));
}

/// The characters of `s`.
pub fn chars_of(s: &str) -> (r: Vec<char>)
    ensures
        r@ == s@,
{
    let n = s.unicode_len();
    let mut r: Vec<char> = Vec::new();
    let mut i: usize = 0;
    while i < n
        invariant
            n == s@.len(),
            i <= n,
            r@ == s@.subrange(0, i as int),
        decreases n - i,
    {
        r.push(s.get_char(i));
        i = i + 1;
    }
    assert(s@.subrange(0, i as int) =~= s@);
    r
}

fn run_at(hay: &Vec<char>, needle: &Vec<char>, at: usize) -> (r: bool)
    requires
        at + needle@.len() <= hay@.len(),
    ensures
        r == (hay@.subrange(at as int, at + needle@.len()) == needle@),
{
    let hl = hay.len();
    let mut j: usize = 0;
    while j < needle.len()
        invariant
            hl == hay@.len(),
            at + needle@.len() <= hay@.len(),
            j <= needle@.len(),
            forall|k: int| 0 <= k < j ==> hay@[at + k] == needle@[k],
        decreases needle@.len() - j,
    {
        if hay[at + j] != needle[j] {
            assert(hay@.subrange(at as int, at + needle@.len())[j as int] != needle@[j as int]);
            return false;
        }
        j = j + 1;
    }
    assert(hay@.subrange(at as int, at + needle@.len()) =~= needle@);
    true
}

/// Whether `needle` occurs in `hay`.
pub fn contains_text(hay: &str, needle: &str) -> (r: bool)
    ensures
        r == occurs_in(hay@, needle@),
{
    let h = chars_of(hay);
    let n = chars_of(needle);
    if n.len() > h.len() {
        return false;
    }
    let last = h.len() - n.len();
    let mut i: usize = 0;
    while i <= last
        invariant
            h@ == hay@,
            n@ == needle@,
            last == h@.len() - n@.len(),
            forall|k: int| 0 <= k < i ==> #[trigger] hay@.subrange(k, k + needle@.len()) != needle@,
        ensures
            forall|k: int| 0 <= k <= last ==> #[trigger] hay@.subrange(k, k + needle@.len()) != needle@,
        decreases last + 1 - i,
    {
        if run_at(&h, &n, i) {
            return true;
        }
        if i == last {
            break;
        }
        i = i + 1;
    }
    assert forall|k: int| 0 <= k <= hay@.len() - needle@.len() implies #[trigger] hay@.subrange(
        k,
        k + needle@.len(),
    ) != needle@ by {
        assert(k <= last);
    }
    false
}

/// Whether two texts hold the same characters.
pub fn same_text(a: &str, b: &str) -> (r: bool)
    ensures
        r == (a@ == b@),
{
    a.to_owned() == b.to_owned()
}

fn lower_char(c: char) -> (r: u32)
    ensures
        r == ascii_lower(c),
{
    let v = c as u32;
    if 65 <= v && v <= 90 {
        v + 32
    } else {
        v
    }
}

/// Whether two texts are equal up to ASCII case.
pub fn eq_ignore_ascii_case(a: &str, b: &str) -> (r: bool)
    ensures
        r == eq_ascii_ci(a@, b@),
{
    let x = chars_of(a);
    let y = chars_of(b);
    if x.len() != y.len() {
        return false;
    }
    let mut i: usize = 0;
    while i < x.len()
        invariant
            x@ == a@,
            y@ == b@,
            x@.len() == y@.len(),
            i <= x@.len(),
            forall|j: int| 0 <= j < i ==> ascii_lower(#[trigger] a@[j]) == ascii_lower(b@[j]),
        decreases x@.len() - i,
    {
        if lower_char(x[i]) != lower_char(y[i]) {
            return false;
        }
        i = i + 1;
    }
    true
}

} // verus!
