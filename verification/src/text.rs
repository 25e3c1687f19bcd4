//! Character-sequence utilities shared by the framer and the record parsers:
//! searching, splitting, trimming, whitespace classification, and decimal
//! conversion, each with a specification over `Seq<char>`.

use vstd::prelude::*;
use vstd::string::*;

verus! {

// ---------------------------------------------------------------------------
// Character classes
// ---------------------------------------------------------------------------

/// The Unicode white-space characters, the set that `char::is_whitespace`
/// recognises.
pub open spec fn is_ws_char(c: char) -> bool {
    ||| c == ' '
    ||| c == '\t'
    ||| c == '\n'
    ||| c == '\u{0B}'
    ||| c == '\u{0C}'
    ||| c == '\r'
    ||| c == '\u{85}'
    ||| c == '\u{A0}'
    ||| c == '\u{1680}'
    ||| ('\u{2000}' <= c && c <= '\u{200A}')
    ||| c == '\u{2028}'
    ||| c == '\u{2029}'
    ||| c == '\u{202F}'
    ||| c == '\u{205F}'
    ||| c == '\u{3000}'
}

/// Decides [`is_ws_char`].
pub fn is_ws(c: char) -> (r: bool)
    ensures
        r == is_ws_char(c),
{
    c == ' ' || c == '\t' || c == '\n' || c == '\u{0B}' || c == '\u{0C}' || c == '\r'
        || c == '\u{85}' || c == '\u{A0}' || c == '\u{1680}'
        || ('\u{2000}' <= c && c <= '\u{200A}') || c == '\u{2028}' || c == '\u{2029}'
        || c == '\u{202F}' || c == '\u{205F}' || c == '\u{3000}'
}

/// An ASCII decimal digit.
pub open spec fn is_digit_char(c: char) -> bool {
    '0' <= c && c <= '9'
}

// ---------------------------------------------------------------------------
// Searching
// ---------------------------------------------------------------------------

/// The least index `>= i` at which `c` occurs in `s`, or `-1` if there is
/// none.
pub open spec fn find_from(s: Seq<char>, c: char, i: int) -> int
    decreases s.len() - i,
{
    if i < 0 || i >= s.len() {
        -1
    } else if s[i] == c {
        i
    } else {
        find_from(s, c, i + 1)
    }
}

/// What [`find_from`] returns: either `-1` and no occurrence, or the least
/// index of an occurrence.
pub proof fn lemma_find_from_props(s: Seq<char>, c: char, i: int)
    requires
        0 <= i <= s.len(),
    ensures
        find_from(s, c, i) == -1 ==> forall|j: int| i <= j < s.len() ==> s[j] != c,
        find_from(s, c, i) >= 0 ==> i <= find_from(s, c, i) < s.len() && s[find_from(s, c, i)]
            == c && forall|j: int| i <= j < find_from(s, c, i) ==> s[j] != c,
    decreases s.len() - i,
{
    if i < s.len() && s[i] != c {
        lemma_find_from_props(s, c, i + 1);
    }
}

/// If `c` occurs at `k` and nowhere earlier (from `i` on), then [`find_from`]
/// returns `k`.
pub proof fn lemma_find_from_exact(s: Seq<char>, c: char, i: int, k: int)
    requires
        0 <= i <= k < s.len(),
        s[k] == c,
        forall|j: int| i <= j < k ==> s[j] != c,
    ensures
        find_from(s, c, i) == k,
    decreases k - i,
{
    if i < k {
        lemma_find_from_exact(s, c, i + 1, k);
    }
}

/// The least index of `c` in `s`, as an `Option`.
pub fn find_char(s: &str, c: char) -> (r: Option<usize>)
    ensures
        match r {
            Some(i) => i < s@.len() && find_from(s@, c, 0) == i as int,
            None => find_from(s@, c, 0) == -1,
        },
{
    let n = s.unicode_len();
    let mut i: usize = 0;
    while i < n
        invariant
            i <= n,
            n == s@.len(),
            find_from(s@, c, 0) == find_from(s@, c, i as int),
        decreases n - i,
    {
        if s.get_char(i) == c {
            return Some(i);
        }
        i = i + 1;
    }
    None
}

/// A found pattern lies within bounds and matches there.
pub proof fn lemma_find_sub_from_props(s: Seq<char>, pat: Seq<char>, i: int)
    requires
        0 <= i,
    ensures
        find_sub_from(s, pat, i) >= 0 ==> i <= find_sub_from(s, pat, i) && find_sub_from(
            s,
            pat,
            i,
        ) + pat.len() <= s.len() && s.subrange(
            find_sub_from(s, pat, i),
            find_sub_from(s, pat, i) + pat.len() as int,
        ) == pat,
    decreases s.len() - i + 1,
{
    if !(i + pat.len() > s.len()) && s.subrange(i, i + pat.len() as int) != pat {
        lemma_find_sub_from_props(s, pat, i + 1);
    }
}

/// The least index `>= i` at which `pat` occurs in `s`, or `-1`.
pub open spec fn find_sub_from(s: Seq<char>, pat: Seq<char>, i: int) -> int
    decreases s.len() - i + 1,
{
    if i < 0 || i + pat.len() > s.len() {
        -1
    } else if s.subrange(i, i + pat.len() as int) == pat {
        i
    } else {
        find_sub_from(s, pat, i + 1)
    }
}

/// Whether `pat` occurs at position `i` of `s`, decided by comparing
/// characters.
fn matches_at_exec(s: &str, n: usize, pat: &str, m: usize, i: usize) -> (b: bool)
    requires
        n == s@.len(),
        m == pat@.len(),
        i + m <= n,
    ensures
        b == (s@.subrange(i as int, i + m as int) == pat@),
{
    let mut j: usize = 0;
    while j < m
        invariant
            j <= m,
            n == s@.len(),
            m == pat@.len(),
            i + m <= n,
            s@.subrange(i as int, i + j as int) == pat@.subrange(0, j as int),
        decreases m - j,
    {
        if s.get_char(i + j) != pat.get_char(j) {
            proof {
                assert(s@.subrange(i as int, i + m as int)[j as int] != pat@[j as int]);
            }
            return false;
        }
        proof {
            assert(s@.subrange(i as int, i + (j + 1) as int) =~= s@.subrange(
                i as int,
                i + j as int,
            ).push(s@[i + j]));
            assert(pat@.subrange(0, (j + 1) as int) =~= pat@.subrange(0, j as int).push(
                pat@[j as int],
            ));
        }
        j = j + 1;
    }
    proof {
        assert(s@.subrange(i as int, i + m as int) =~= pat@.subrange(0, m as int));
        assert(pat@.subrange(0, m as int) =~= pat@);
    }
    true
}

/// The least index at which `pat` occurs in `s`, as an `Option`.
pub fn find_str(s: &str, pat: &str) -> (r: Option<usize>)
    ensures
        match r {
            Some(i) => find_sub_from(s@, pat@, 0) == i as int,
            None => find_sub_from(s@, pat@, 0) == -1,
        },
{
    let n = s.unicode_len();
    let m = pat.unicode_len();
    if m > n {
        return None;
    }
    let mut i: usize = 0;
    while i <= n - m
        invariant
            i <= n - m + 1,
            m <= n,
            n == s@.len(),
            m == pat@.len(),
            find_sub_from(s@, pat@, 0) == find_sub_from(s@, pat@, i as int),
        decreases n - i,
    {
        if matches_at_exec(s, n, pat, m, i) {
            return Some(i);
        }
        proof {
            if m == 0 {
                assert(s@.subrange(i as int, i as int) =~= pat@);
            }
        }
        i = i + 1;
    }
    None
}

/// `s` begins with `pat`.
pub open spec fn has_prefix(s: Seq<char>, pat: Seq<char>) -> bool {
    pat.len() <= s.len() && s.subrange(0, pat.len() as int) == pat
}

/// Decides [`has_prefix`].
pub fn starts_with_str(s: &str, pat: &str) -> (b: bool)
    ensures
        b == has_prefix(s@, pat@),
{
    let n = s.unicode_len();
    let m = pat.unicode_len();
    if m > n {
        return false;
    }
    matches_at_exec(s, n, pat, m, 0)
}

/// Character-for-character string equality.
pub fn str_eq(a: &str, b: &str) -> (r: bool)
    ensures
        r == (a@ == b@),
{
    let n = a.unicode_len();
    let m = b.unicode_len();
    if n != m {
        return false;
    }
    let r = matches_at_exec(a, n, b, m, 0);
    proof {
        assert(a@.subrange(0, n as int) =~= a@);
    }
    r
}

// ---------------------------------------------------------------------------
// Splitting
// ---------------------------------------------------------------------------

/// The text before and after the first occurrence of `c`, or `None` if `c`
/// does not occur.
pub open spec fn split_once_at(s: Seq<char>, c: char) -> Option<(Seq<char>, Seq<char>)> {
    let p = find_from(s, c, 0);
    if 0 <= p < s.len() {
        Some((s.subrange(0, p), s.subrange(p + 1, s.len() as int)))
    } else {
        None
    }
}

/// Decides [`split_once_at`], handing back the two halves.
pub fn split_once_char<'a>(s: &'a str, c: char) -> (r: Option<(&'a str, &'a str)>)
    ensures
        match r {
            Some((a, b)) => split_once_at(s@, c) == Some((a@, b@)),
            None => split_once_at(s@, c) is None,
        },
{
    let n = s.unicode_len();
    match find_char(s, c) {
        Some(p) => Some((s.substring_char(0, p), s.substring_char(p + 1, n))),
        None => None,
    }
}

// ---------------------------------------------------------------------------
// Trimming
// ---------------------------------------------------------------------------

/// The first index `>= i` holding a character that is not white space, or
/// `s.len()` if the tail is all white space.
pub open spec fn ws_run_end(s: Seq<char>, i: int) -> int
    decreases s.len() - i,
{
    if i < 0 || i >= s.len() {
        s.len() as int
    } else if !is_ws_char(s[i]) {
        i
    } else {
        ws_run_end(s, i + 1)
    }
}

/// The least index `k <= j` such that every character in `k..j` is white
/// space; equivalently, where the white-space run that ends at `j` begins.
pub open spec fn ws_run_start(s: Seq<char>, j: int) -> int
    decreases j,
{
    if j <= 0 || j > s.len() {
        0
    } else if !is_ws_char(s[j - 1]) {
        j
    } else {
        ws_run_start(s, j - 1)
    }
}

/// [`ws_run_start`] never runs past its starting point.
pub proof fn lemma_ws_run_start_bounds(s: Seq<char>, j: int)
    requires
        0 <= j,
    ensures
        0 <= ws_run_start(s, j) <= j,
    decreases j,
{
    if 0 < j <= s.len() && is_ws_char(s[j - 1]) {
        lemma_ws_run_start_bounds(s, j - 1);
    }
}

/// The first index `>= i` holding a white-space character, or `s.len()` if
/// none follows.
pub open spec fn non_ws_run_end(s: Seq<char>, i: int) -> int
    decreases s.len() - i,
{
    if i < 0 || i >= s.len() {
        s.len() as int
    } else if is_ws_char(s[i]) {
        i
    } else {
        non_ws_run_end(s, i + 1)
    }
}

/// The first white-space-delimited token of `s`, skipping leading white
/// space, or `None` if `s` is white space only — what
/// `str::split_whitespace` yields first.
pub open spec fn first_ws_token(s: Seq<char>) -> Option<Seq<char>> {
    let a = ws_run_end(s, 0);
    if a >= s.len() {
        None
    } else {
        Some(s.subrange(a, non_ws_run_end(s, a)))
    }
}

/// Finds the first white-space-delimited token, if any.
pub fn first_ws_token_str<'a>(s: &'a str) -> (r: Option<&'a str>)
    ensures
        match r {
            Some(t) => first_ws_token(s@) == Some(t@) && t@.len() > 0,
            None => first_ws_token(s@) is None,
        },
{
    let n = s.unicode_len();
    let mut a: usize = 0;
    while a < n && is_ws(s.get_char(a))
        invariant
            a <= n,
            n == s@.len(),
            ws_run_end(s@, 0) == ws_run_end(s@, a as int),
        decreases n - a,
    {
        a = a + 1;
    }
    if a == n {
        proof {
            assert(ws_run_end(s@, 0) == n);
        }
        return None;
    }
    let mut b: usize = a;
    while b < n && !is_ws(s.get_char(b))
        invariant
            a <= b <= n,
            a < n,
            n == s@.len(),
            !is_ws_char(s@[a as int]),
            non_ws_run_end(s@, a as int) == non_ws_run_end(s@, b as int),
        decreases n - b,
    {
        b = b + 1;
    }
    proof {
        assert(ws_run_end(s@, 0) == a);
        assert(non_ws_run_end(s@, b as int) == b);
        if b == a {
            assert(is_ws_char(s@[a as int]));
        }
    }
    Some(s.substring_char(a, b))
}

/// `s` with leading and trailing white space removed, as `str::trim` does.
pub open spec fn trim_spec(s: Seq<char>) -> Seq<char> {
    let a = ws_run_end(s, 0);
    let b = ws_run_start(s, s.len() as int);
    if a <= b {
        s.subrange(a, b)
    } else {
        Seq::empty()
    }
}

/// Removes leading and trailing white space.
pub fn trim_str<'a>(s: &'a str) -> (r: &'a str)
    ensures
        r@ == trim_spec(s@),
{
    let n = s.unicode_len();
    let mut a: usize = 0;
    while a < n && is_ws(s.get_char(a))
        invariant
            a <= n,
            n == s@.len(),
            ws_run_end(s@, 0) == ws_run_end(s@, a as int),
        decreases n - a,
    {
        a = a + 1;
    }
    if a == n {
        proof {
            assert(ws_run_end(s@, 0) == n);
            lemma_ws_run_start_bounds(s@, s@.len() as int);
            if ws_run_start(s@, s@.len() as int) == n {
                assert(trim_spec(s@) == s@.subrange(n as int, n as int));
                assert(s@.subrange(n as int, n as int) =~= Seq::<char>::empty());
            }
        }
        return s.substring_char(n, n);
    }
    let mut b: usize = n;
    while b > a && is_ws(s.get_char(b - 1))
        invariant
            a < b <= n,
            a < n,
            n == s@.len(),
            !is_ws_char(s@[a as int]),
            ws_run_end(s@, 0) == a,
            ws_run_start(s@, n as int) == ws_run_start(s@, b as int),
        decreases b,
    {
        b = b - 1;
    }
    proof {
        assert(ws_run_start(s@, b as int) == b);
    }
    s.substring_char(a, b)
}

// ---------------------------------------------------------------------------
// Lines
// ---------------------------------------------------------------------------
//
// A text is read line by line exactly as `str::lines` does it: lines end at
// `'\n'`, a line terminated by `"\r\n"` loses the `'\r'`, a final line
// without `'\n'` keeps whatever it ends with, and a trailing `'\n'` does not
// open an empty final line.

/// The first line of `s`: the text before the first `'\n'` with one trailing
/// `'\r'` removed, or all of `s` if no `'\n'` occurs.
pub open spec fn first_line(s: Seq<char>) -> Seq<char> {
    let p = find_from(s, '\n', 0);
    if 0 <= p < s.len() {
        let raw = s.subrange(0, p);
        if raw.len() > 0 && raw.last() == '\r' {
            raw.drop_last()
        } else {
            raw
        }
    } else {
        s
    }
}

/// What follows the first line of `s`: the text after the first `'\n'`, or
/// empty if no `'\n'` occurs.
pub open spec fn rest_after_line(s: Seq<char>) -> Seq<char> {
    let p = find_from(s, '\n', 0);
    if 0 <= p < s.len() {
        s.subrange(p + 1, s.len() as int)
    } else {
        Seq::empty()
    }
}

/// Splitting off the first line inverts joining one: text of the shape
/// `x + "\n" + r`, where `x` holds no `'\n'` and does not end in `'\r'`,
/// has first line `x` and rest `r`.
pub proof fn lemma_split_of_joined(x: Seq<char>, r: Seq<char>)
    requires
        !x.contains('\n'),
        x.len() > 0 ==> x.last() != '\r',
    ensures
        first_line(x + "\n"@ + r) == x,
        rest_after_line(x + "\n"@ + r) == r,
{
    reveal_strlit("\n");
    let s = x + "\n"@ + r;
    assert(s[x.len() as int] == '\n');
    assert forall|j: int| 0 <= j < x.len() implies s[j] != '\n' by {
        assert(s[j] == x[j]);
        assert(!(exists|i: int| 0 <= i < x.len() && x[i] == '\n'));
    }
    lemma_find_from_exact(s, '\n', 0, x.len() as int);
    assert(s.subrange(0, x.len() as int) =~= x);
    assert(s.subrange(x.len() as int + 1, s.len() as int) =~= r);
}

/// Splits off the first line, as [`first_line`] and [`rest_after_line`]
/// describe. The rest is strictly shorter than a non-empty input, so reading
/// line by line terminates.
pub fn next_line<'a>(s: &'a str) -> (r: (&'a str, &'a str))
    ensures
        r.0@ == first_line(s@),
        r.1@ == rest_after_line(s@),
        s@.len() > 0 ==> r.1@.len() < s@.len(),
{
    let n = s.unicode_len();
    match find_char(s, '\n') {
        Some(p) => {
            let end = if p > 0 && s.get_char(p - 1) == '\r' {
                p - 1
            } else {
                p
            };
            let line = s.substring_char(0, end);
            let rest = s.substring_char(p + 1, n);
            proof {
                let raw = s@.subrange(0, p as int);
                if p > 0 && s@[p - 1] == '\r' {
                    assert(raw.last() == '\r');
                    assert(s@.subrange(0, p - 1) =~= raw.drop_last());
                } else {
                    if raw.len() > 0 && raw.last() == '\r' {
                        assert(s@[p - 1] == '\r');
                    }
                }
            }
            (line, rest)
        },
        None => {
            let rest = s.substring_char(n, n);
            proof {
                assert(s@.subrange(n as int, n as int) =~= Seq::<char>::empty());
            }
            (s, rest)
        },
    }
}

/// Splits a raw reply into its status line and the remaining text, the way
/// the framer sees them: the head keeps a `'\r'` if one is there, and the
/// flag records whether a `'\n'` was found at all.
pub fn split_status<'a>(s: &'a str) -> (r: (&'a str, bool, &'a str))
    ensures
        ({
            let p = find_from(s@, '\n', 0);
            if 0 <= p < s@.len() {
                r.0@ == s@.subrange(0, p) && r.1 == true && r.2@ == s@.subrange(
                    p + 1,
                    s@.len() as int,
                )
            } else {
                r.0@ == s@ && r.1 == false && r.2@ == Seq::<char>::empty()
            }
        }),
{
    let n = s.unicode_len();
    match find_char(s, '\n') {
        Some(p) => (s.substring_char(0, p), true, s.substring_char(p + 1, n)),
        None => {
            let rest = s.substring_char(n, n);
            proof {
                assert(s@.subrange(n as int, n as int) =~= Seq::<char>::empty());
            }
            (s, false, rest)
        },
    }
}

/// `s` with every trailing `'\r'` or `'\n'` removed.
pub open spec fn trim_newlines_end(s: Seq<char>) -> Seq<char>
    decreases s.len(),
{
    if s.len() > 0 && (s.last() == '\r' || s.last() == '\n') {
        trim_newlines_end(s.drop_last())
    } else {
        s
    }
}

/// Removes every trailing `'\r'` or `'\n'`.
pub fn trim_newlines_end_str<'a>(s: &'a str) -> (r: &'a str)
    ensures
        r@ == trim_newlines_end(s@),
{
    let n = s.unicode_len();
    let mut b: usize = n;
    proof {
        assert(s@.subrange(0, n as int) =~= s@);
    }
    while b > 0 && (s.get_char(b - 1) == '\r' || s.get_char(b - 1) == '\n')
        invariant
            b <= n,
            n == s@.len(),
            trim_newlines_end(s@) == trim_newlines_end(s@.subrange(0, b as int)),
        decreases b,
    {
        proof {
            let t = s@.subrange(0, b as int);
            assert(t.drop_last() =~= s@.subrange(0, b - 1));
        }
        b = b - 1;
    }
    proof {
        assert(s@.subrange(0, n as int) =~= s@);
        let t = s@.subrange(0, b as int);
        assert(trim_newlines_end(t) == t);
    }
    s.substring_char(0, b)
}

// ---------------------------------------------------------------------------
// Unsigned decimal parsing, as `str::parse` for unsigned integers does it:
// an optional leading '+', then one or more ASCII digits, rejecting
// anything else and any value over the type's maximum.
// ---------------------------------------------------------------------------

/// Every character of `s` is an ASCII digit.
pub open spec fn all_digits(s: Seq<char>) -> bool {
    forall|i: int| 0 <= i < s.len() ==> is_digit_char(#[trigger] s[i])
}

/// The numeric value of a digit character.
pub open spec fn digit_val(c: char) -> nat {
    (c as u32 - '0' as u32) as nat
}

/// The value of a string of digits, most significant first.
pub open spec fn digits_val(s: Seq<char>) -> nat
    decreases s.len(),
{
    if s.len() == 0 {
        0
    } else {
        digits_val(s.drop_last()) * 10 + digit_val(s.last())
    }
}

/// The number `s` denotes if it is a well-formed unsigned decimal numeral
/// (optional `'+'`, then digits) whose value is at most `max`.
pub open spec fn parse_uint_spec(s: Seq<char>, max: nat) -> Option<nat> {
    let t = if s.len() > 0 && s[0] == '+' {
        s.drop_first()
    } else {
        s
    };
    if t.len() == 0 || !all_digits(t) {
        None
    } else if digits_val(t) > max {
        None
    } else {
        Some(digits_val(t))
    }
}

/// Appending a digit multiplies the value by ten and adds the digit.
proof fn lemma_digits_val_push(s: Seq<char>, c: char)
    ensures
        digits_val(s.push(c)) == digits_val(s) * 10 + digit_val(c),
{
    assert(s.push(c).drop_last() =~= s);
    assert(s.push(c).last() == c);
}

/// Parses an unsigned decimal numeral with the given maximum, the common
/// body of [`parse_u16`] and [`parse_u32`].
fn parse_uint(s: &str, max: u64) -> (r: Option<u64>)
    requires
        max <= 0xFFFF_FFFF,
    ensures
        match r {
            Some(v) => parse_uint_spec(s@, max as nat) == Some(v as nat),
            None => parse_uint_spec(s@, max as nat) is None,
        },
{
    let n = s.unicode_len();
    let start: usize = if n > 0 && s.get_char(0) == '+' {
        1
    } else {
        0
    };
    if start == n {
        proof {
            if start == 1 {
                assert(s@.drop_first() =~= s@.subrange(1, s@.len() as int));
            }
        }
        return None;
    }
    let ghost t = if start == 1 {
        s@.drop_first()
    } else {
        s@
    };
    proof {
        assert(t =~= s@.subrange(start as int, s@.len() as int));
    }
    let mut acc: u64 = 0;
    let mut over: bool = false;
    let mut i: usize = start;
    while i < n
        invariant
            start <= i <= n,
            n == s@.len(),
            start < n,
            max <= 0xFFFF_FFFF,
            t == s@.subrange(start as int, s@.len() as int),
            t == (if s@.len() > 0 && s@[0] == '+' {
                s@.drop_first()
            } else {
                s@
            }),
            all_digits(s@.subrange(start as int, i as int)),
            !over ==> acc as nat == digits_val(s@.subrange(start as int, i as int)) && acc
                <= max,
            over ==> digits_val(s@.subrange(start as int, i as int)) > max,
        decreases n - i,
    {
        let c = s.get_char(i);
        if !('0' <= c && c <= '9') {
            proof {
                assert(!is_digit_char(t[i - start]));
            }
            return None;
        }
        let d: u64 = (c as u32 - '0' as u32) as u64;
        proof {
            let pre = s@.subrange(start as int, i as int);
            assert(s@.subrange(start as int, i + 1 as int) =~= pre.push(s@[i as int]));
            lemma_digits_val_push(pre, s@[i as int]);
        }
        if over {
            proof {
                let pre = s@.subrange(start as int, i as int);
                assert(digits_val(pre) * 10 >= digits_val(pre)) by (nonlinear_arith);
            }
        } else {
            let next = acc * 10 + d;
            if next > max {
                over = true;
                proof {
                    let pre = s@.subrange(start as int, i as int);
                    assert(digits_val(pre) * 10 + digit_val(s@[i as int]) > max);
                }
            } else {
                acc = next;
            }
        }
        i = i + 1;
    }
    proof {
        assert(s@.subrange(start as int, n as int) == t);
        assert(t.len() > 0);
    }
    if over {
        None
    } else {
        Some(acc)
    }
}

/// Parses as `str::parse::<u16>` does.
pub fn parse_u16(s: &str) -> (r: Option<u16>)
    ensures
        match r {
            Some(v) => parse_uint_spec(s@, u16::MAX as nat) == Some(v as nat),
            None => parse_uint_spec(s@, u16::MAX as nat) is None,
        },
{
    match parse_uint(s, 65535) {
        Some(v) => Some(v as u16),
        None => None,
    }
}

/// Parses as `str::parse::<u32>` does.
pub fn parse_u32(s: &str) -> (r: Option<u32>)
    ensures
        match r {
            Some(v) => parse_uint_spec(s@, u32::MAX as nat) == Some(v as nat),
            None => parse_uint_spec(s@, u32::MAX as nat) is None,
        },
{
    match parse_uint(s, 4294967295) {
        Some(v) => Some(v as u32),
        None => None,
    }
}

// ---------------------------------------------------------------------------
// Decimal rendering
// ---------------------------------------------------------------------------

/// The digit character for a value below ten.
pub open spec fn digit_char(d: nat) -> char {
    if d == 0 {
        '0'
    } else if d == 1 {
        '1'
    } else if d == 2 {
        '2'
    } else if d == 3 {
        '3'
    } else if d == 4 {
        '4'
    } else if d == 5 {
        '5'
    } else if d == 6 {
        '6'
    } else if d == 7 {
        '7'
    } else if d == 8 {
        '8'
    } else {
        '9'
    }
}

/// The decimal numeral for `n`, most significant digit first, no sign and no
/// leading zero.
pub open spec fn dec_str(n: nat) -> Seq<char>
    decreases n,
{
    if n < 10 {
        seq![digit_char(n)]
    } else {
        dec_str(n / 10).push(digit_char(n % 10))
    }
}

/// The one-character string for a digit value.
fn digit_str(d: u32) -> (r: &'static str)
    requires
        d < 10,
    ensures
        r@ == seq![digit_char(d as nat)],
{
    let r: &'static str = if d == 0 {
        "0"
    } else if d == 1 {
        "1"
    } else if d == 2 {
        "2"
    } else if d == 3 {
        "3"
    } else if d == 4 {
        "4"
    } else if d == 5 {
        "5"
    } else if d == 6 {
        "6"
    } else if d == 7 {
        "7"
    } else if d == 8 {
        "8"
    } else {
        "9"
    };
    proof {
        reveal_strlit("0");
        reveal_strlit("1");
        reveal_strlit("2");
        reveal_strlit("3");
        reveal_strlit("4");
        reveal_strlit("5");
        reveal_strlit("6");
        reveal_strlit("7");
        reveal_strlit("8");
        reveal_strlit("9");
        assert(r@ =~= seq![digit_char(d as nat)]);
    }
    r
}

/// Renders `n` in decimal.
pub fn u32_dec(n: u32) -> (s: String)
    ensures
        s@ == dec_str(n as nat),
    decreases n,
{
    if n < 10 {
        String::from_str(digit_str(n))
    } else {
        let mut s = u32_dec(n / 10);
        s.append(digit_str(n % 10));
        proof {
            assert(dec_str((n / 10) as nat).push(digit_char((n % 10) as nat)) =~= dec_str(
                (n / 10) as nat,
            ) + seq![digit_char((n % 10) as nat)]);
        }
        s
    }
}

} // verus!
