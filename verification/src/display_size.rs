//! The primary monitor's resolution, read from the output of `xdpyinfo`
//! or `xrandr --current`.
//!
//! Positions below index into the whole text; a line, a token or a number
//! is a range `[lo, hi)` of it.

use vstd::prelude::*;

use crate::text::chars_of;

verus! {

/// `c` has the Unicode `White_Space` property, as `char::is_whitespace` says.
pub open spec fn is_ws(c: char) -> bool {
    let u = c as u32;
    ||| 0x09 <= u <= 0x0d
    ||| u == 0x20
    ||| u == 0x85
    ||| u == 0xa0
    ||| u == 0x1680
    ||| 0x2000 <= u <= 0x200a
    ||| u == 0x2028
    ||| u == 0x2029
    ||| u == 0x202f
    ||| u == 0x205f
    ||| u == 0x3000
}

fn ws(c: char) -> (r: bool)
    ensures
        r == is_ws(c),
{
    let u = c as u32;
    (0x09 <= u && u <= 0x0d) || u == 0x20 || u == 0x85 || u == 0xa0 || u == 0x1680 || (0x2000 <= u && u
        <= 0x200a) || u == 0x2028 || u == 0x2029 || u == 0x202f || u == 0x205f || u == 0x3000
}

/// First position from `i` that holds `c`, or `hi`.
pub open spec fn find_from(s: Seq<char>, i: int, hi: int, c: char) -> int
    decreases hi - i,
{
    if i >= hi {
        hi
    } else if s[i] == c {
        i
    } else {
        find_from(s, i + 1, hi, c)
    }
}

/// First position from `i` that is not white space, or `hi`.
pub open spec fn skip_ws(s: Seq<char>, i: int, hi: int) -> int
    decreases hi - i,
{
    if i >= hi {
        hi
    } else if is_ws(s[i]) {
        skip_ws(s, i + 1, hi)
    } else {
        i
    }
}

/// First position from `i` that is white space, or `hi`.
pub open spec fn token_end(s: Seq<char>, i: int, hi: int) -> int
    decreases hi - i,
{
    if i >= hi {
        hi
    } else if is_ws(s[i]) {
        i
    } else {
        token_end(s, i + 1, hi)
    }
}

/// End of the range `[lo, hi)` without its trailing white space.
pub open spec fn trim_end(s: Seq<char>, lo: int, hi: int) -> int
    decreases hi - lo,
{
    if hi <= lo {
        lo
    } else if is_ws(s[hi - 1]) {
        trim_end(s, lo, hi - 1)
    } else {
        hi
    }
}

fn find_char(s: &Vec<char>, i: usize, hi: usize, c: char) -> (r: usize)
    requires
        i <= hi <= s@.len(),
    ensures
        r == find_from(s@, i as int, hi as int, c),
    decreases hi - i,
{
    if i >= hi {
        hi
    } else if s[i] == c {
        i
    } else {
        find_char(s, i + 1, hi, c)
    }
}

fn skip_space(s: &Vec<char>, i: usize, hi: usize) -> (r: usize)
    requires
        i <= hi <= s@.len(),
    ensures
        r == skip_ws(s@, i as int, hi as int),
    decreases hi - i,
{
    if i >= hi {
        hi
    } else if ws(s[i]) {
        skip_space(s, i + 1, hi)
    } else {
        i
    }
}

fn end_of_token(s: &Vec<char>, i: usize, hi: usize) -> (r: usize)
    requires
        i <= hi <= s@.len(),
    ensures
        r == token_end(s@, i as int, hi as int),
    decreases hi - i,
{
    if i >= hi {
        hi
    } else if ws(s[i]) {
        i
    } else {
        end_of_token(s, i + 1, hi)
    }
}

fn trimmed_end(s: &Vec<char>, lo: usize, hi: usize) -> (r: usize)
    requires
        lo <= hi <= s@.len(),
    ensures
        r == trim_end(s@, lo as int, hi as int),
    decreases hi - lo,
{
    if hi <= lo {
        lo
    } else if ws(s[hi - 1]) {
        trimmed_end(s, lo, hi - 1)
    } else {
        hi
    }
}

proof fn lemma_find_range(s: Seq<char>, i: int, hi: int, c: char)
    requires
        i <= hi,
    ensures
        i <= find_from(s, i, hi, c) <= hi,
    decreases hi - i,
{
    if i < hi && s[i] != c {
        lemma_find_range(s, i + 1, hi, c);
    }
}

/// Skipping white space stops within the range, on a character that is not
/// white space unless at its end.
pub proof fn lemma_skip_range(s: Seq<char>, i: int, hi: int)
    requires
        i <= hi,
    ensures
        i <= skip_ws(s, i, hi) <= hi,
        skip_ws(s, i, hi) < hi ==> !is_ws(s[skip_ws(s, i, hi)]),
    decreases hi - i,
{
    if i < hi && is_ws(s[i]) {
        lemma_skip_range(s, i + 1, hi);
    }
}

/// A token ends within the range, past its first character when that is
/// not white space.
pub proof fn lemma_token_end_range(s: Seq<char>, i: int, hi: int)
    requires
        i <= hi,
    ensures
        i <= token_end(s, i, hi) <= hi,
        i < hi && !is_ws(s[i]) ==> i < token_end(s, i, hi),
    decreases hi - i,
{
    if i < hi && !is_ws(s[i]) {
        lemma_token_end_range(s, i + 1, hi);
    }
}

proof fn lemma_trim_end_range(s: Seq<char>, lo: int, hi: int)
    requires
        lo <= hi,
    ensures
        lo <= trim_end(s, lo, hi) <= hi,
    decreases hi - lo,
{
    if lo < hi && is_ws(s[hi - 1]) {
        lemma_trim_end_range(s, lo, hi - 1);
    }
}

/// The `n`-th white-space separated token of `[i, hi)`, as `split_whitespace`
/// gives it.
pub open spec fn nth_token(s: Seq<char>, i: int, hi: int, n: nat) -> Option<(int, int)>
    decreases hi - i,
{
    let a = skip_ws(s, i, hi);
    if i >= hi || a >= hi {
        None
    } else {
        let b = token_end(s, a, hi);
        if n == 0 {
            Some((a, b))
        } else {
            proof {
                lemma_skip_range(s, i, hi);
                lemma_token_end_range(s, a, hi);
            }
            nth_token(s, b, hi, (n - 1) as nat)
        }
    }
}

fn token_at(s: &Vec<char>, i: usize, hi: usize, n: usize) -> (r: Option<(usize, usize)>)
    requires
        i <= hi <= s@.len(),
    ensures
        match r {
            Some((a, b)) => nth_token(s@, i as int, hi as int, n as nat) == Some((a as int, b as int)),
            None => nth_token(s@, i as int, hi as int, n as nat) is None,
        },
    decreases hi - i,
{
    proof {
        lemma_skip_range(s@, i as int, hi as int);
    }
    let a = skip_space(s, i, hi);
    if i >= hi || a >= hi {
        None
    } else {
        proof {
            lemma_token_end_range(s@, a as int, hi as int);
        }
        let b = end_of_token(s, a, hi);
        if n == 0 {
            Some((a, b))
        } else {
            token_at(s, b, hi, n - 1)
        }
    }
}

/// Value of the decimal digits in `[lo, hi)`.
pub open spec fn digits_val(s: Seq<char>, lo: int, hi: int) -> nat
    decreases hi - lo,
{
    if hi <= lo {
        0
    } else {
        digits_val(s, lo, hi - 1) * 10 + ((s[hi - 1] as u32) - 48) as nat
    }
}

/// Every character in `[lo, hi)` is a decimal digit.
pub open spec fn all_digits(s: Seq<char>, lo: int, hi: int) -> bool {
    forall|k: int| lo <= k < hi ==> 48 <= (#[trigger] s[k]) as u32 <= 57
}

/// What `str::parse::<i32>` gives for `[lo, hi)`: an optional sign, then
/// one or more decimal digits whose value fits.
pub open spec fn parse_i32_at(s: Seq<char>, lo: int, hi: int) -> Option<i32> {
    if lo >= hi {
        None
    } else if s[lo] == '-' {
        if lo + 1 < hi && all_digits(s, lo + 1, hi) && digits_val(s, lo + 1, hi) <= 0x8000_0000 {
            Some((0 - digits_val(s, lo + 1, hi)) as i32)
        } else {
            None
        }
    } else {
        let d = if s[lo] == '+' {
            lo + 1
        } else {
            lo
        };
        if d < hi && all_digits(s, d, hi) && digits_val(s, d, hi) <= 0x7fff_ffff {
            Some(digits_val(s, d, hi) as i32)
        } else {
            None
        }
    }
}

/// Value of the digits in `[lo, hi)`, held at `cap` once it passes it; `None`
/// when a character is not a digit.
fn capped_digits(s: &Vec<char>, lo: usize, hi: usize, cap: u64) -> (r: Option<u64>)
    requires
        lo <= hi <= s@.len(),
        cap <= 0x1_0000_0000,
    ensures
        match r {
            Some(v) => all_digits(s@, lo as int, hi as int) && v == (if digits_val(
                s@,
                lo as int,
                hi as int,
            ) < cap {
                digits_val(s@, lo as int, hi as int) as int
            } else {
                cap as int
            }),
            None => !all_digits(s@, lo as int, hi as int),
        },
{
    let mut acc: u64 = 0;
    let mut i: usize = lo;
    while i < hi
        invariant
            lo <= i <= hi <= s@.len(),
            cap <= 0x1_0000_0000,
            all_digits(s@, lo as int, i as int),
            acc == (if digits_val(s@, lo as int, i as int) < cap {
                digits_val(s@, lo as int, i as int) as int
            } else {
                cap as int
            }),
        decreases hi - i,
    {
        let c = s[i];
        let u = c as u32;
        if u < 48 || u > 57 {
            return None;
        }
        let d = (u - 48) as u64;
        let next: u64 = acc * 10 + d;
        acc = if next < cap {
            next
        } else {
            cap
        };
        proof {
            assert(digits_val(s@, lo as int, i + 1) == digits_val(s@, lo as int, i as int) * 10 + d);
        }
        i = i + 1;
    }
    Some(acc)
}

/// `str::parse::<i32>` on `[lo, hi)` (see [`parse_i32_at`]).
fn parse_i32_range(s: &Vec<char>, lo: usize, hi: usize) -> (r: Option<i32>)
    requires
        lo <= hi <= s@.len(),
    ensures
        r == parse_i32_at(s@, lo as int, hi as int),
{
    if lo >= hi {
        return None;
    }
    if s[lo] == '-' {
        if lo + 1 >= hi {
            return None;
        }
        match capped_digits(s, lo + 1, hi, 0x8000_0001) {
            Some(v) => if v <= 0x8000_0000 {
                let w: i64 = 0 - (v as i64);
                Some(w as i32)
            } else {
                None
            },
            None => None,
        }
    } else {
        let d = if s[lo] == '+' {
            lo + 1
        } else {
            lo
        };
        if d >= hi {
            return None;
        }
        match capped_digits(s, d, hi, 0x8000_0000) {
            Some(v) => if v <= 0x7fff_ffff {
                Some(v as i32)
            } else {
                None
            },
            None => None,
        }
    }
}

/// A `WIDTHxHEIGHT` pair in `[lo, hi)`, split at its first `x`.
pub open spec fn size_at(s: Seq<char>, lo: int, hi: int) -> Option<(i32, i32)> {
    let x = find_from(s, lo, hi, 'x');
    if x >= hi {
        None
    } else {
        match (parse_i32_at(s, lo, x), parse_i32_at(s, x + 1, hi)) {
            (Some(w), Some(h)) => Some((w, h)),
            _ => None,
        }
    }
}

fn size_in(s: &Vec<char>, lo: usize, hi: usize) -> (r: Option<(i32, i32)>)
    requires
        lo <= hi <= s@.len(),
    ensures
        r == size_at(s@, lo as int, hi as int),
{
    proof {
        lemma_find_range(s@, lo as int, hi as int, 'x');
    }
    let x = find_char(s, lo, hi, 'x');
    if x >= hi {
        None
    } else {
        match (parse_i32_range(s, lo, x), parse_i32_range(s, x + 1, hi)) {
            (Some(w), Some(h)) => Some((w, h)),
            _ => None,
        }
    }
}

/// End of the line content that starts at `start`: before its newline, and
/// before a carriage return just ahead of that newline.
pub open spec fn line_end(s: Seq<char>, start: int) -> int {
    let e = find_from(s, start, s.len() as int, '\n');
    if e < s.len() && e > start && s[e - 1] == '\r' {
        e - 1
    } else {
        e
    }
}

/// `[lo, hi)` begins with `p`.
pub open spec fn starts_with_at(s: Seq<char>, lo: int, hi: int, p: Seq<char>) -> bool {
    hi - lo >= p.len() && s.subrange(lo, lo + p.len()) == p
}

/// `p` occurs within `[lo, hi)`.
pub open spec fn occurs_at(s: Seq<char>, lo: int, hi: int, p: Seq<char>) -> bool {
    exists|k: int| lo <= k && k + p.len() <= hi && #[trigger] s.subrange(k, k + p.len()) == p
}

fn starts_with_range(s: &Vec<char>, lo: usize, hi: usize, p: &Vec<char>) -> (r: bool)
    requires
        lo <= hi <= s@.len(),
    ensures
        r == starts_with_at(s@, lo as int, hi as int, p@),
{
    if hi - lo < p.len() {
        return false;
    }
    let mut k: usize = 0;
    while k < p.len()
        invariant
            lo <= hi <= s@.len(),
            hi - lo >= p@.len(),
            k <= p@.len(),
            forall|j: int| 0 <= j < k ==> s@[lo + j] == p@[j],
        decreases p@.len() - k,
    {
        if s[lo + k] != p[k] {
            proof {
                assert(s@.subrange(lo as int, lo + p@.len())[k as int] != p@[k as int]);
            }
            return false;
        }
        k = k + 1;
    }
    proof {
        assert(s@.subrange(lo as int, lo + p@.len()) =~= p@);
    }
    true
}

fn occurs_range(s: &Vec<char>, lo: usize, hi: usize, p: &Vec<char>) -> (r: bool)
    requires
        lo <= hi <= s@.len(),
    ensures
        r == occurs_at(s@, lo as int, hi as int, p@),
{
    let mut k: usize = lo;
    loop
        invariant
            lo <= k <= hi <= s@.len(),
            forall|j: int| lo <= j < k && j + p@.len() <= hi ==> #[trigger] s@.subrange(j, j + p@.len()) != p@,
        decreases hi - k,
    {
        if starts_with_range(s, k, hi, p) {
            return true;
        }
        if k == hi {
            proof {
                assert forall|j: int| lo <= j && j + p@.len() <= hi implies #[trigger] s@.subrange(
                    j,
                    j + p@.len(),
                ) != p@ by {
                    if j >= k {
                        assert(j == hi);
                    }
                }
            }
            return false;
        }
        k = k + 1;
    }
}

/// The size on an `xdpyinfo` line `[lo, hi)`: once trimmed, the line starts
/// with `dimensions:` and its second token is `WIDTHxHEIGHT`.
pub open spec fn xdpyinfo_line(s: Seq<char>, lo: int, hi: int) -> Option<(i32, i32)> {
    let a = skip_ws(s, lo, hi);
    let b = trim_end(s, a, hi);
    if starts_with_at(s, a, b, "dimensions:"@) {
        match nth_token(s, a, b, 1) {
            Some((ta, tb)) => size_at(s, ta, tb),
            None => None,
        }
    } else {
        None
    }
}

/// The first size found in the word `[lo, hi)` of an `xrandr` line: the
/// part before its first `+` as `WIDTHxHEIGHT`.
pub open spec fn xrandr_word(s: Seq<char>, lo: int, hi: int) -> Option<(i32, i32)> {
    let p = find_from(s, lo, hi, '+');
    if p >= hi {
        None
    } else {
        size_at(s, lo, p)
    }
}

/// The first size among the words of `[i, hi)`, in order.
pub open spec fn first_word_size(s: Seq<char>, i: int, hi: int) -> Option<(i32, i32)>
    decreases hi - i,
{
    let a = skip_ws(s, i, hi);
    if i >= hi || a >= hi {
        None
    } else {
        let b = token_end(s, a, hi);
        match xrandr_word(s, a, b) {
            Some(r) => Some(r),
            None => {
                proof {
                    lemma_skip_range(s, i, hi);
                    lemma_token_end_range(s, a, hi);
                }
                first_word_size(s, b, hi)
            },
        }
    }
}

/// The size on an `xrandr` line `[lo, hi)`: a line of the connected primary
/// output, and the first of its words that holds a size.
pub open spec fn xrandr_line(s: Seq<char>, lo: int, hi: int) -> Option<(i32, i32)> {
    if occurs_at(s, lo, hi, " connected"@) && occurs_at(s, lo, hi, " primary"@) {
        first_word_size(s, lo, hi)
    } else {
        None
    }
}

/// Which tool's output is being read.
#[derive(Clone, Copy, Debug, PartialEq, Eq, Structural)]
pub enum ResolutionSource {
    Xdpyinfo,
    Xrandr,
}

/// The size a line `[lo, hi)` gives, for the tool's output.
pub open spec fn line_size(src: ResolutionSource, s: Seq<char>, lo: int, hi: int) -> Option<(i32, i32)> {
    match src {
        ResolutionSource::Xdpyinfo => xdpyinfo_line(s, lo, hi),
        ResolutionSource::Xrandr => xrandr_line(s, lo, hi),
    }
}

/// The first size given by a line at or after `start`, lines split as
/// `str::lines` splits them.
pub open spec fn first_line_size(src: ResolutionSource, s: Seq<char>, start: int) -> Option<(i32, i32)>
    decreases s.len() - start,
{
    if start < 0 || start >= s.len() {
        None
    } else {
        match line_size(src, s, start, line_end(s, start)) {
            Some(r) => Some(r),
            None => {
                let e = find_from(s, start, s.len() as int, '\n');
                if e < s.len() && e >= start {
                    first_line_size(src, s, e + 1)
                } else {
                    None
                }
            },
        }
    }
}

fn first_size_in_words(s: &Vec<char>, i: usize, hi: usize) -> (r: Option<(i32, i32)>)
    requires
        i <= hi <= s@.len(),
    ensures
        r == first_word_size(s@, i as int, hi as int),
    decreases hi - i,
{
    proof {
        lemma_skip_range(s@, i as int, hi as int);
    }
    let a = skip_space(s, i, hi);
    if i >= hi || a >= hi {
        None
    } else {
        proof {
            lemma_token_end_range(s@, a as int, hi as int);
        }
        let b = end_of_token(s, a, hi);
        proof {
            lemma_find_range(s@, a as int, b as int, '+');
        }
        let p = find_char(s, a, b, '+');
        let w = if p >= b {
            None
        } else {
            size_in(s, a, p)
        };
        match w {
            Some(r) => Some(r),
            None => first_size_in_words(s, b, hi),
        }
    }
}

fn size_on_line(src: ResolutionSource, s: &Vec<char>, lo: usize, hi: usize) -> (r: Option<(i32, i32)>)
    requires
        lo <= hi <= s@.len(),
    ensures
        r == line_size(src, s@, lo as int, hi as int),
{
    match src {
        ResolutionSource::Xdpyinfo => {
            proof {
                lemma_skip_range(s@, lo as int, hi as int);
            }
            let a = skip_space(s, lo, hi);
            proof {
                lemma_trim_end_range(s@, a as int, hi as int);
            }
            let b = trimmed_end(s, a, hi);
            let key = chars_of("dimensions:");
            if starts_with_range(s, a, b, &key) {
                match token_at(s, a, b, 1) {
                    Some((ta, tb)) => {
                        proof {
                            lemma_nth_token_range(s@, a as int, b as int, 1);
                        }
                        size_in(s, ta, tb)
                    },
                    None => None,
                }
            } else {
                None
            }
        },
        ResolutionSource::Xrandr => {
            let connected = chars_of(" connected");
            let primary = chars_of(" primary");
            if occurs_range(s, lo, hi, &connected) && occurs_range(s, lo, hi, &primary) {
                first_size_in_words(s, lo, hi)
            } else {
                None
            }
        },
    }
}

proof fn lemma_nth_token_range(s: Seq<char>, i: int, hi: int, n: nat)
    requires
        i <= hi,
    ensures
        nth_token(s, i, hi, n) matches Some((a, b)) ==> i <= a <= b <= hi,
    decreases hi - i,
{
    lemma_skip_range(s, i, hi);
    let a = skip_ws(s, i, hi);
    if i < hi && a < hi {
        lemma_token_end_range(s, a, hi);
        let b = token_end(s, a, hi);
        if n > 0 {
            lemma_nth_token_range(s, b, hi, (n - 1) as nat);
        }
    }
}

/// The resolution given in a tool's output: the first line that gives one
/// (see [`xdpyinfo_line`] and [`xrandr_line`]).
pub fn parse_resolution(src: ResolutionSource, text: &str) -> (r: Option<(i32, i32)>)
    ensures
        r == first_line_size(src, text@, 0),
{
    let s = chars_of(text);
    let n = s.len();
    let mut start: usize = 0;
    while start < n
        invariant
            s@ == text@,
            n == s@.len(),
            start <= n,
            first_line_size(src, s@, 0) == first_line_size(src, s@, start as int),
        decreases n - start,
    {
        proof {
            lemma_find_range(s@, start as int, n as int, '\n');
        }
        let e = find_char(&s, start, n, '\n');
        let end = if e < n && e > start && s[e - 1] == '\r' {
            e - 1
        } else {
            e
        };
        match size_on_line(src, &s, start, end) {
            Some(r) => return Some(r),
            None => {},
        }
        if e >= n {
            return None;
        }
        start = e + 1;
    }
    None
}

} // verus!
