//! Verified text utilities: substring search, replacement, trimming,
//! tokenizing, line splitting, decimal rendering and padding. Everything in
//! this module works character-wise over the `Seq<char>` view of strings.

use vstd::prelude::*;
use vstd::string::StrSliceExecFns;
use vstd::string::StringExecFns;

verus! {

/// Appends one character.
///
/// Relies on std's `String::push`: appends the given char to the end of the
/// string.
#[verifier::external_body]
pub(crate) fn push_char(s: &mut String, c: char)
    ensures
        final(s)@ == old(s)@.push(c),
{
    s.push(c);
}

/// The pattern occurs in `text` starting at index `i`.
pub open spec fn spec_contains_at(text: Seq<char>, pat: Seq<char>, i: int) -> bool {
    0 <= i && i + pat.len() <= text.len() && text.subrange(i, i + pat.len()) == pat
}

/// The pattern occurs somewhere in `text`.
pub open spec fn spec_contains(text: Seq<char>, pat: Seq<char>) -> bool {
    exists|i: int| spec_contains_at(text, pat, i)
}

/// `text` begins with `pat`.
pub open spec fn spec_starts_with(text: Seq<char>, pat: Seq<char>) -> bool {
    spec_contains_at(text, pat, 0)
}

/// Index of the leftmost occurrence of `pat` in `text`, or -1 if there is
/// none.
pub open spec fn spec_find(text: Seq<char>, pat: Seq<char>) -> int
    decreases text.len(),
{
    if pat.len() == 0 {
        0
    } else if text.len() < pat.len() {
        -1
    } else if text.subrange(0, pat.len() as int) == pat {
        0
    } else {
        let r = spec_find(text.drop_first(), pat);
        if r < 0 {
            -1
        } else {
            r + 1
        }
    }
}

/// Occurrences at positive indices correspond to occurrences in the tail.
pub proof fn lemma_contains_at_shift(text: Seq<char>, pat: Seq<char>, j: int)
    requires
        1 <= j,
        j + pat.len() <= text.len(),
    ensures
        spec_contains_at(text, pat, j) == spec_contains_at(text.drop_first(), pat, j - 1),
{
    assert(text.subrange(j, j + pat.len()) =~= text.drop_first().subrange(
        j - 1,
        j - 1 + pat.len(),
    ));
}

/// `spec_find` returns -1 exactly when the pattern is absent, and otherwise
/// the leftmost occurrence.
pub proof fn lemma_spec_find(text: Seq<char>, pat: Seq<char>)
    ensures
        spec_find(text, pat) < 0 ==> spec_find(text, pat) == -1 && !spec_contains(text, pat),
        spec_find(text, pat) >= 0 ==> spec_contains_at(text, pat, spec_find(text, pat)),
        spec_find(text, pat) >= 0 ==> forall|j: int|
            0 <= j < spec_find(text, pat) ==> !spec_contains_at(text, pat, j),
    decreases text.len(),
{
    if pat.len() == 0 {
        assert(text.subrange(0, 0) =~= pat);
        assert(spec_contains_at(text, pat, 0));
    } else if text.len() < pat.len() {
        assert(forall|i: int| !spec_contains_at(text, pat, i));
    } else if text.subrange(0, pat.len() as int) == pat {
        assert(spec_contains_at(text, pat, 0));
    } else {
        let tail = text.drop_first();
        lemma_spec_find(tail, pat);
        let r = spec_find(tail, pat);
        if r < 0 {
            assert forall|i: int| !spec_contains_at(text, pat, i) by {
                if 1 <= i && i + pat.len() <= text.len() {
                    lemma_contains_at_shift(text, pat, i);
                    assert(!spec_contains_at(tail, pat, i - 1));
                }
            }
        } else {
            assert(spec_contains_at(tail, pat, r));
            lemma_contains_at_shift(text, pat, r + 1);
            assert(spec_contains_at(text, pat, r + 1));
            assert forall|j: int| 0 <= j < r + 1 implies !spec_contains_at(text, pat, j) by {
                if j >= 1 {
                    lemma_contains_at_shift(text, pat, j);
                    assert(!spec_contains_at(tail, pat, j - 1));
                }
            }
        }
    }
}

/// The leftmost occurrence leaves room for the pattern.
pub proof fn lemma_spec_find_bound(text: Seq<char>, pat: Seq<char>)
    ensures
        spec_find(text, pat) >= 0 ==> spec_find(text, pat) + pat.len() <= text.len(),
        spec_find(text, pat) >= -1,
{
    lemma_spec_find(text, pat);
}

/// The characters of `text` starting at `i` match `pat`.
pub fn match_at(text: &str, pat: &str, i: usize) -> (r: bool)
    requires
        i + pat@.len() <= text@.len(),
    ensures
        r == spec_contains_at(text@, pat@, i as int),
{
    let n = text.unicode_len();
    let m = pat.unicode_len();
    let mut j: usize = 0;
    while j < m
        invariant
            j <= m,
            m == pat@.len(),
            n == text@.len(),
            i + m <= n,
            forall|k: int| 0 <= k < j ==> text@[i + k] == pat@[k],
        decreases m - j,
    {
        if text.get_char(i + j) != pat.get_char(j) {
            proof {
                assert(text@.subrange(i as int, i + m as int)[j as int] == text@[i + j]);
            }
            return false;
        }
        j += 1;
    }
    proof {
        assert(text@.subrange(i as int, i + m as int) =~= pat@);
    }
    true
}

/// Leftmost occurrence of `pat` in `text`, if any.
pub fn find_sub(text: &str, pat: &str) -> (r: Option<usize>)
    ensures
        match r {
            Some(i) => i == spec_find(text@, pat@) && spec_contains_at(text@, pat@, i as int),
            None => spec_find(text@, pat@) == -1 && !spec_contains(text@, pat@),
        },
{
    proof {
        lemma_spec_find(text@, pat@);
    }
    let n = text.unicode_len();
    let m = pat.unicode_len();
    if m == 0 {
        proof {
            assert(text@.subrange(0, 0) =~= pat@);
        }
        return Some(0);
    }
    if m > n {
        return None;
    }
    let mut i: usize = 0;
    while i <= n - m
        invariant
            1 <= m <= n,
            n == text@.len(),
            m == pat@.len(),
            i <= n - m + 1,
            forall|j: int| 0 <= j < i ==> !spec_contains_at(text@, pat@, j),
        decreases n - m + 1 - i,
    {
        if match_at(text, pat, i) {
            proof {
                lemma_spec_find(text@, pat@);
                let f = spec_find(text@, pat@);
                assert(spec_contains_at(text@, pat@, i as int));
                assert(spec_contains(text@, pat@));
                assert(f >= 0);
                if f < i {
                    assert(!spec_contains_at(text@, pat@, f));
                }
                if f > i {
                    assert(!spec_contains_at(text@, pat@, i as int));
                }
            }
            return Some(i);
        }
        i += 1;
    }
    proof {
        assert forall|j: int| !spec_contains_at(text@, pat@, j) by {
            if 0 <= j && j + pat@.len() <= text@.len() {
                assert(!spec_contains_at(text@, pat@, j));
            }
        }
    }
    None
}

/// Substring membership test.
pub fn contains_sub(text: &str, pat: &str) -> (r: bool)
    ensures
        r == spec_contains(text@, pat@),
{
    match find_sub(text, pat) {
        Some(_) => true,
        None => false,
    }
}

/// Prefix test.
pub fn starts_with_str(text: &str, pat: &str) -> (r: bool)
    ensures
        r == spec_starts_with(text@, pat@),
{
    let n = text.unicode_len();
    let m = pat.unicode_len();
    if m > n {
        return false;
    }
    match_at(text, pat, 0)
}

/// Character-wise string equality.
pub fn str_eq(a: &str, b: &str) -> (r: bool)
    ensures
        r == (a@ == b@),
{
    let n = a.unicode_len();
    let m = b.unicode_len();
    if n != m {
        return false;
    }
    let r = match_at(a, b, 0);
    proof {
        if r {
            assert(a@.subrange(0, m as int) =~= a@);
        } else {
            assert(a@.subrange(0, m as int) =~= a@);
        }
    }
    r
}

/// The Unicode `White_Space` characters, the set `str::split_whitespace`
/// and `str::trim` split on.
pub open spec fn is_space(c: char) -> bool {
    let u = c as u32;
    (9 <= u && u <= 13) || u == 32 || u == 0x85 || u == 0xA0 || u == 0x1680 || (0x2000 <= u && u
        <= 0x200A) || u == 0x2028 || u == 0x2029 || u == 0x202F || u == 0x205F || u == 0x3000
}

pub fn is_space_char(c: char) -> (r: bool)
    ensures
        r == is_space(c),
{
    let u = c as u32;
    (9 <= u && u <= 13) || u == 32 || u == 0x85 || u == 0xA0 || u == 0x1680 || (0x2000 <= u && u
        <= 0x200A) || u == 0x2028 || u == 0x2029 || u == 0x202F || u == 0x205F || u == 0x3000
}

/// `s` without its leading whitespace.
pub open spec fn spec_trim_start(s: Seq<char>) -> Seq<char>
    decreases s.len(),
{
    if s.len() > 0 && is_space(s[0]) {
        spec_trim_start(s.drop_first())
    } else {
        s
    }
}

/// `s` without its trailing whitespace.
pub open spec fn spec_trim_end(s: Seq<char>) -> Seq<char>
    decreases s.len(),
{
    if s.len() > 0 && is_space(s.last()) {
        spec_trim_end(s.drop_last())
    } else {
        s
    }
}

/// `s` without leading and trailing whitespace.
pub open spec fn spec_trim(s: Seq<char>) -> Seq<char> {
    spec_trim_end(spec_trim_start(s))
}

pub fn trim_str(s: &str) -> (r: String)
    ensures
        r@ == spec_trim(s@),
{
    let n = s.unicode_len();
    proof {
        assert(s@.subrange(0, n as int) =~= s@);
    }
    let mut lo: usize = 0;
    while lo < n && is_space_char(s.get_char(lo))
        invariant
            lo <= n,
            n == s@.len(),
            spec_trim_start(s@) == spec_trim_start(s@.subrange(lo as int, n as int)),
        decreases n - lo,
    {
        proof {
            assert(s@.subrange(lo as int, n as int).drop_first() =~= s@.subrange(
                lo + 1,
                n as int,
            ));
        }
        lo += 1;
    }
    proof {
        assert(spec_trim_start(s@) == s@.subrange(lo as int, n as int));
    }
    let mut hi: usize = n;
    while hi > lo && is_space_char(s.get_char(hi - 1))
        invariant
            lo <= hi <= n,
            n == s@.len(),
            spec_trim_start(s@) == s@.subrange(lo as int, n as int),
            spec_trim_end(s@.subrange(lo as int, n as int)) == spec_trim_end(
                s@.subrange(lo as int, hi as int),
            ),
        decreases hi,
    {
        proof {
            assert(s@.subrange(lo as int, hi as int).drop_last() =~= s@.subrange(
                lo as int,
                hi - 1,
            ));
        }
        hi -= 1;
    }
    s.substring_char(lo, hi).to_owned()
}

/// The longest whitespace-free prefix of `s`.
pub open spec fn spec_take_until_space(s: Seq<char>) -> Seq<char>
    decreases s.len(),
{
    if s.len() == 0 || is_space(s[0]) {
        Seq::empty()
    } else {
        seq![s[0]] + spec_take_until_space(s.drop_first())
    }
}

/// The first whitespace-delimited token of `s` (empty when `s` is blank).
pub open spec fn spec_first_token(s: Seq<char>) -> Seq<char> {
    spec_take_until_space(spec_trim_start(s))
}

pub fn first_token(s: &str) -> (r: String)
    ensures
        r@ == spec_first_token(s@),
{
    let n = s.unicode_len();
    proof {
        assert(s@.subrange(0, n as int) =~= s@);
    }
    let mut lo: usize = 0;
    while lo < n && is_space_char(s.get_char(lo))
        invariant
            lo <= n,
            n == s@.len(),
            spec_trim_start(s@) == spec_trim_start(s@.subrange(lo as int, n as int)),
        decreases n - lo,
    {
        proof {
            assert(s@.subrange(lo as int, n as int).drop_first() =~= s@.subrange(
                lo + 1,
                n as int,
            ));
        }
        lo += 1;
    }
    proof {
        assert(spec_trim_start(s@) == s@.subrange(lo as int, n as int));
    }
    let mut hi: usize = lo;
    while hi < n && !is_space_char(s.get_char(hi))
        invariant
            lo <= hi <= n,
            n == s@.len(),
            spec_trim_start(s@) == s@.subrange(lo as int, n as int),
            spec_take_until_space(s@.subrange(lo as int, n as int)) == s@.subrange(
                lo as int,
                hi as int,
            ) + spec_take_until_space(s@.subrange(hi as int, n as int)),
        decreases n - hi,
    {
        proof {
            assert(s@.subrange(hi as int, n as int).drop_first() =~= s@.subrange(
                hi + 1,
                n as int,
            ));
            assert(s@.subrange(hi as int, n as int)[0] == s@[hi as int]);
            assert(s@.subrange(lo as int, hi as int) + seq![s@[hi as int]] =~= s@.subrange(
                lo as int,
                hi + 1,
            ));
            assert(s@.subrange(lo as int, hi as int) + (seq![s@[hi as int]]
                + spec_take_until_space(s@.subrange(hi + 1, n as int))) =~= (s@.subrange(
                lo as int,
                hi as int,
            ) + seq![s@[hi as int]]) + spec_take_until_space(s@.subrange(hi + 1, n as int)));
        }
        hi += 1;
    }
    proof {
        if hi < n {
            assert(s@.subrange(hi as int, n as int)[0] == s@[hi as int]);
        }
        assert(spec_take_until_space(s@.subrange(hi as int, n as int)) =~= Seq::empty());
        assert(s@.subrange(lo as int, hi as int) + Seq::<char>::empty() =~= s@.subrange(
            lo as int,
            hi as int,
        ));
    }
    s.substring_char(lo, hi).to_owned()
}

/// `text` with every (leftmost-first, non-overlapping) occurrence of `pat`
/// replaced by `repl`.
pub open spec fn spec_replace(text: Seq<char>, pat: Seq<char>, repl: Seq<char>) -> Seq<char>
    decreases text.len(),
    when pat.len() > 0
    via spec_replace_decreases
{
    let i = spec_find(text, pat);
    if i < 0 {
        text
    } else {
        text.subrange(0, i) + repl + spec_replace(
            text.subrange(i + pat.len(), text.len() as int),
            pat,
            repl,
        )
    }
}

#[via_fn]
proof fn spec_replace_decreases(text: Seq<char>, pat: Seq<char>, repl: Seq<char>) {
    lemma_spec_find_bound(text, pat);
}

pub fn replace_all(text: &str, pat: &str, repl: &str) -> (r: String)
    requires
        pat@.len() > 0,
    ensures
        r@ == spec_replace(text@, pat@, repl@),
    decreases text@.len(),
{
    let n = text.unicode_len();
    let m = pat.unicode_len();
    proof {
        lemma_spec_find_bound(text@, pat@);
    }
    match find_sub(text, pat) {
        None => text.to_owned(),
        Some(i) => {
            let mut out = text.substring_char(0, i).to_owned();
            out.append(repl);
            let rest = text.substring_char(i + m, n);
            let tail_replaced = replace_all(rest, pat, repl);
            out.append(tail_replaced.as_str());
            proof {
                assert(out@ =~= spec_replace(text@, pat@, repl@));
            }
            out
        },
    }
}

/// `l` without one trailing carriage return, as `str::lines` strips it.
pub open spec fn strip_cr(l: Seq<char>) -> Seq<char> {
    if l.len() > 0 && l.last() == '\r' {
        l.drop_last()
    } else {
        l
    }
}

/// The lines of `s`, split at `'\n'`, each without a trailing `'\r'`; a
/// final line ending yields no extra empty line.
pub open spec fn spec_lines(s: Seq<char>) -> Seq<Seq<char>>
    decreases s.len(),
    via spec_lines_decreases
{
    if s.len() == 0 {
        Seq::empty()
    } else {
        let i = spec_find(s, seq!['\n']);
        if i < 0 {
            seq![s]
        } else {
            seq![strip_cr(s.subrange(0, i))] + spec_lines(s.subrange(i + 1, s.len() as int))
        }
    }
}

#[via_fn]
proof fn spec_lines_decreases(s: Seq<char>) {
    lemma_spec_find_bound(s, seq!['\n']);
}

fn lines_into(s: &str, out: &mut Vec<String>)
    ensures
        final(out).deep_view() == old(out).deep_view() + spec_lines(s@),
    decreases s@.len(),
{
    let n = s.unicode_len();
    if n == 0 {
        proof {
            assert(out.deep_view() =~= out.deep_view() + spec_lines(s@));
        }
        return ;
    }
    proof {
        reveal_strlit("\n");
        assert("\n"@ =~= seq!['\n']);
        lemma_spec_find_bound(s@, seq!['\n']);
    }
    match find_sub(s, "\n") {
        None => {
            let line = s.to_owned();
            out.push(line);
            proof {
                assert(out.deep_view() =~= old(out).deep_view() + spec_lines(s@));
            }
        },
        Some(i) => {
            proof {
                assert(s@.subrange(spec_find(s@, seq!['\n']), spec_find(s@, seq!['\n']) + 1)
                    =~= seq![s@[spec_find(s@, seq!['\n'])]]);
            }
            let mut line_end = i;
            if i > 0 && s.get_char(i - 1) == '\r' {
                line_end = i - 1;
                proof {
                    assert(s@.subrange(0, i as int).drop_last() =~= s@.subrange(0, i - 1));
                }
            } else {
                proof {
                    if i > 0 {
                        assert(s@.subrange(0, i as int).last() == s@[i - 1]);
                    }
                }
            }
            let line = s.substring_char(0, line_end).to_owned();
            out.push(line);
            let rest = s.substring_char(i + 1, n);
            lines_into(rest, out);
            proof {
                assert(out.deep_view() =~= old(out).deep_view() + spec_lines(s@));
            }
        },
    }
}

/// The lines of `s`, as owned strings.
pub fn lines_of(s: &str) -> (r: Vec<String>)
    ensures
        r.deep_view() == spec_lines(s@),
{
    let mut out: Vec<String> = Vec::new();
    lines_into(s, &mut out);
    proof {
        assert(out.deep_view() =~= spec_lines(s@));
    }
    out
}


/// The decimal digit character for `d` (0 through 9).
pub open spec fn spec_digit(d: int) -> char {
    if d == 0 {
        '0'
    } else if d == 1 {
        '1'
    } else if d == 2 {
        '2'
    } else if d == 3 {
        '3'
    } else if d == 4 {
        '4'
    } else if d == 5 {
        '5'
    } else if d == 6 {
        '6'
    } else if d == 7 {
        '7'
    } else if d == 8 {
        '8'
    } else {
        '9'
    }
}

/// The decimal rendering of a nonnegative integer, most significant digit
/// first, without leading zeros (`0` renders as "0").
pub open spec fn spec_dec(n: int) -> Seq<char>
    decreases n,
{
    if n < 10 {
        seq![spec_digit(n)]
    } else {
        spec_dec(n / 10).push(spec_digit(n % 10))
    }
}

fn digit_char(d: u128) -> (r: char)
    requires
        d < 10,
    ensures
        r == spec_digit(d as int),
{
    if d == 0 {
        '0'
    } else if d == 1 {
        '1'
    } else if d == 2 {
        '2'
    } else if d == 3 {
        '3'
    } else if d == 4 {
        '4'
    } else if d == 5 {
        '5'
    } else if d == 6 {
        '6'
    } else if d == 7 {
        '7'
    } else if d == 8 {
        '8'
    } else {
        '9'
    }
}

/// Renders `n` in decimal.
pub fn u128_to_string(n: u128) -> (r: String)
    ensures
        r@ == spec_dec(n as int),
{
    if n == 0 {
        let mut out = String::new();
        push_char(&mut out, '0');
        proof {
            assert(out@ =~= seq![spec_digit(0)]);
        }
        return out;
    }
    let mut digits: Vec<char> = Vec::new();
    let mut m = n;
    proof {
        assert(spec_dec(n as int) =~= spec_dec(n as int) + digits@.reverse());
    }
    while m > 0
        invariant
            m > 0 ==> spec_dec(n as int) == spec_dec(m as int) + digits@.reverse(),
            m == 0 ==> digits@.len() > 0 && spec_dec(n as int) == digits@.reverse(),
        decreases m,
    {
        let d = digit_char(m % 10);
        digits.push(d);
        proof {
            assert(digits@.reverse() =~= seq![spec_digit(m as int % 10)]
                + digits@.drop_last().reverse());
            if m >= 10 {
                assert(spec_dec(m as int) + digits@.drop_last().reverse() =~= spec_dec(
                    m as int / 10,
                ) + digits@.reverse());
            } else {
                assert(spec_dec(m as int) + digits@.drop_last().reverse() =~= digits@.reverse());
            }
        }
        m = m / 10;
    }
    let mut out = String::new();
    let total = digits.len();
    let mut k: usize = 0;
    while k < total
        invariant
            total == digits@.len(),
            k <= total,
            out@ =~= digits@.reverse().take(k as int),
        decreases total - k,
    {
        let c = digits[total - 1 - k];
        push_char(&mut out, c);
        proof {
            assert(digits@.reverse()[k as int] == digits@[total - 1 - k]);
            assert(digits@.reverse().take(k + 1) =~= digits@.reverse().take(k as int).push(
                digits@.reverse()[k as int],
            ));
        }
        k += 1;
    }
    proof {
        assert(out@ =~= digits@.reverse());
    }
    out
}

/// Renders `n` in decimal.
pub fn usize_to_string(n: usize) -> (r: String)
    ensures
        r@ == spec_dec(n as int),
{
    u128_to_string(n as u128)
}

/// Renders `n` in decimal.
pub fn u32_to_string(n: u32) -> (r: String)
    ensures
        r@ == spec_dec(n as int),
{
    u128_to_string(n as u128)
}

/// `n` copies of `c` (none when `n` is negative).
pub open spec fn spec_repeat(c: char, n: int) -> Seq<char> {
    if n >= 0 {
        Seq::new(n as nat, |i| c)
    } else {
        Seq::empty()
    }
}

pub fn repeat_char(c: char, n: usize) -> (r: String)
    ensures
        r@ == spec_repeat(c, n as int),
{
    let mut out = String::new();
    let mut k: usize = 0;
    while k < n
        invariant
            k <= n,
            out@ =~= spec_repeat(c, k as int),
        decreases n - k,
    {
        push_char(&mut out, c);
        proof {
            assert(out@ =~= spec_repeat(c, k + 1));
        }
        k += 1;
    }
    proof {
        assert(out@ =~= spec_repeat(c, n as int));
    }
    out
}

/// `s` left-aligned in a field of `w` characters, padded with spaces;
/// longer strings are kept whole.
pub open spec fn spec_pad_right(s: Seq<char>, w: int) -> Seq<char> {
    if s.len() >= w {
        s
    } else {
        s + spec_repeat(' ', w - s.len())
    }
}

/// `s` right-aligned in a field of `w` characters, padded with spaces.
pub open spec fn spec_pad_left(s: Seq<char>, w: int) -> Seq<char> {
    if s.len() >= w {
        s
    } else {
        spec_repeat(' ', w - s.len()) + s
    }
}

pub fn pad_right(s: &str, w: usize) -> (r: String)
    ensures
        r@ == spec_pad_right(s@, w as int),
{
    let n = s.unicode_len();
    if n >= w {
        s.to_owned()
    } else {
        let mut out = s.to_owned();
        let fill = repeat_char(' ', w - n);
        out.append(fill.as_str());
        out
    }
}

pub fn pad_left(s: &str, w: usize) -> (r: String)
    ensures
        r@ == spec_pad_left(s@, w as int),
{
    let n = s.unicode_len();
    if n >= w {
        s.to_owned()
    } else {
        let mut out = repeat_char(' ', w - n);
        out.append(s);
        out
    }
}

/// The parts joined by the separator.
pub open spec fn spec_join(parts: Seq<Seq<char>>, sep: Seq<char>) -> Seq<char>
    decreases parts.len(),
{
    if parts.len() == 0 {
        Seq::empty()
    } else if parts.len() == 1 {
        parts[0]
    } else {
        parts[0] + sep + spec_join(parts.drop_first(), sep)
    }
}

/// Appending one part extends the join by a separator and the part.
pub proof fn lemma_join_push(parts: Seq<Seq<char>>, sep: Seq<char>, p: Seq<char>)
    ensures
        parts.len() == 0 ==> spec_join(parts.push(p), sep) == p,
        parts.len() > 0 ==> spec_join(parts.push(p), sep) == spec_join(parts, sep) + sep + p,
    decreases parts.len(),
{
    if parts.len() == 0 {
        assert(spec_join(parts.push(p), sep) == parts.push(p)[0]);
        assert(parts.push(p)[0] == p);
    } else if parts.len() == 1 {
        assert(parts.push(p).drop_first() =~= parts.drop_first().push(p));
        lemma_join_push(parts.drop_first(), sep, p);
        assert(parts.push(p)[0] == parts[0]);
        assert(spec_join(parts.push(p), sep) == parts[0] + sep + spec_join(
            parts.drop_first().push(p),
            sep,
        ));
    } else {
        assert(parts.push(p).drop_first() =~= parts.drop_first().push(p));
        lemma_join_push(parts.drop_first(), sep, p);
        assert((parts[0] + sep + spec_join(parts.drop_first(), sep)) + sep + p =~= parts[0] + sep
            + (spec_join(parts.drop_first(), sep) + sep + p));
    }
}

/// Joins the parts with the separator.
pub fn join_strs(parts: &Vec<String>, sep: &str) -> (r: String)
    ensures
        r@ == spec_join(parts.deep_view(), sep@),
{
    let mut out = String::new();
    let mut k: usize = 0;
    while k < parts.len()
        invariant
            k <= parts@.len(),
            parts.deep_view().len() == parts@.len(),
            out@ == spec_join(parts.deep_view().take(k as int), sep@),
        decreases parts@.len() - k,
    {
        if k > 0 {
            out.append(sep);
        }
        out.append(parts[k].as_str());
        proof {
            let dv = parts.deep_view();
            assert(dv.take(k + 1) =~= dv.take(k as int).push(dv[k as int]));
            assert(dv[k as int] == parts@[k as int]@);
            lemma_join_push(dv.take(k as int), sep@, dv[k as int]);
        }
        k += 1;
    }
    proof {
        assert(parts.deep_view().take(parts@.len() as int) =~= parts.deep_view());
    }
    out
}

/// The lowercase hexadecimal digit character for `d` (0 through 15).
pub open spec fn spec_hex_digit(d: int) -> char {
    if d < 10 {
        spec_digit(d)
    } else if d == 10 {
        'a'
    } else if d == 11 {
        'b'
    } else if d == 12 {
        'c'
    } else if d == 13 {
        'd'
    } else if d == 14 {
        'e'
    } else {
        'f'
    }
}

/// The lowercase hexadecimal rendering of a nonnegative integer, without
/// leading zeros (`0` renders as "0").
pub open spec fn spec_hex(n: int) -> Seq<char>
    decreases n,
{
    if n < 16 {
        seq![spec_hex_digit(n)]
    } else {
        spec_hex(n / 16).push(spec_hex_digit(n % 16))
    }
}

fn hex_digit_char(d: u32) -> (r: char)
    requires
        d < 16,
    ensures
        r == spec_hex_digit(d as int),
{
    if d == 0 {
        '0'
    } else if d == 1 {
        '1'
    } else if d == 2 {
        '2'
    } else if d == 3 {
        '3'
    } else if d == 4 {
        '4'
    } else if d == 5 {
        '5'
    } else if d == 6 {
        '6'
    } else if d == 7 {
        '7'
    } else if d == 8 {
        '8'
    } else if d == 9 {
        '9'
    } else if d == 10 {
        'a'
    } else if d == 11 {
        'b'
    } else if d == 12 {
        'c'
    } else if d == 13 {
        'd'
    } else if d == 14 {
        'e'
    } else {
        'f'
    }
}

/// Renders `n` in lowercase hexadecimal.
pub fn u32_to_hex_string(n: u32) -> (r: String)
    ensures
        r@ == spec_hex(n as int),
{
    if n == 0 {
        let mut out = String::new();
        push_char(&mut out, '0');
        proof {
            assert(out@ =~= seq![spec_hex_digit(0)]);
        }
        return out;
    }
    let mut digits: Vec<char> = Vec::new();
    let mut m = n;
    proof {
        assert(spec_hex(n as int) =~= spec_hex(n as int) + digits@.reverse());
    }
    while m > 0
        invariant
            m > 0 ==> spec_hex(n as int) == spec_hex(m as int) + digits@.reverse(),
            m == 0 ==> digits@.len() > 0 && spec_hex(n as int) == digits@.reverse(),
        decreases m,
    {
        let d = hex_digit_char(m % 16);
        digits.push(d);
        proof {
            assert(digits@.reverse() =~= seq![spec_hex_digit(m as int % 16)]
                + digits@.drop_last().reverse());
            if m >= 16 {
                assert(spec_hex(m as int) + digits@.drop_last().reverse() =~= spec_hex(
                    m as int / 16,
                ) + digits@.reverse());
            } else {
                assert(spec_hex(m as int) + digits@.drop_last().reverse()
                    =~= digits@.reverse());
            }
        }
        m = m / 16;
    }
    let mut out = String::new();
    let total = digits.len();
    let mut k: usize = 0;
    while k < total
        invariant
            total == digits@.len(),
            k <= total,
            out@ =~= digits@.reverse().take(k as int),
        decreases total - k,
    {
        let c = digits[total - 1 - k];
        push_char(&mut out, c);
        proof {
            assert(digits@.reverse()[k as int] == digits@[total - 1 - k]);
            assert(digits@.reverse().take(k + 1) =~= digits@.reverse().take(k as int).push(
                digits@.reverse()[k as int],
            ));
        }
        k += 1;
    }
    proof {
        assert(out@ =~= digits@.reverse());
    }
    out
}

/// The character is an unnamed ASCII control character: it renders as a
/// `\u{..}` escape inside a debug string.
pub open spec fn is_unnamed_control(c: char) -> bool {
    ((c as u32) < 0x20 && c != '\n' && c != '\r' && c != '\t') || c as u32 == 0x7f
}

/// How one character renders inside a double-quoted debug string: quotes
/// and backslashes are escaped, the common control characters by name,
/// and the other ASCII control characters as lowercase `\u{..}` escapes.
pub open spec fn spec_escape_char(c: char) -> Seq<char> {
    if c == '"' {
        seq!['\\', '"']
    } else if c == '\\' {
        seq!['\\', '\\']
    } else if c == '\n' {
        seq!['\\', 'n']
    } else if c == '\r' {
        seq!['\\', 'r']
    } else if c == '\t' {
        seq!['\\', 't']
    } else if is_unnamed_control(c) {
        seq!['\\', 'u', '{'] + spec_hex(c as u32 as int) + seq!['}']
    } else {
        seq![c]
    }
}

/// The escaped rendering of a whole string.
pub open spec fn spec_escape(s: Seq<char>) -> Seq<char>
    decreases s.len(),
{
    if s.len() == 0 {
        Seq::empty()
    } else {
        spec_escape_char(s[0]) + spec_escape(s.drop_first())
    }
}

pub proof fn lemma_escape_push(s: Seq<char>, c: char)
    ensures
        spec_escape(s.push(c)) == spec_escape(s) + spec_escape_char(c),
    decreases s.len(),
{
    if s.len() == 0 {
        assert(s.push(c)[0] == c);
        assert(s.push(c).drop_first() =~= Seq::<char>::empty());
        assert(spec_escape(s.push(c)) == spec_escape_char(s.push(c)[0]) + spec_escape(
            s.push(c).drop_first(),
        ));
        assert(spec_escape(Seq::<char>::empty()) =~= Seq::<char>::empty());
        assert(spec_escape(s.push(c)) =~= spec_escape_char(c));
        assert(spec_escape(s) + spec_escape_char(c) =~= spec_escape_char(c));
    } else {
        assert(s.push(c).drop_first() =~= s.drop_first().push(c));
        lemma_escape_push(s.drop_first(), c);
        assert(s.push(c)[0] == s[0]);
        assert(spec_escape_char(s[0]) + (spec_escape(s.drop_first()) + spec_escape_char(c))
            =~= (spec_escape_char(s[0]) + spec_escape(s.drop_first())) + spec_escape_char(c));
    }
}

/// `s` double-quoted with its contents escaped.
pub open spec fn spec_quote(s: Seq<char>) -> Seq<char> {
    seq!['"'] + spec_escape(s) + seq!['"']
}

fn append_escaped(out: &mut String, s: &str)
    ensures
        final(out)@ == old(out)@ + spec_escape(s@),
{
    let n = s.unicode_len();
    let mut i: usize = 0;
    while i < n
        invariant
            i <= n,
            n == s@.len(),
            out@ == old(out)@ + spec_escape(s@.take(i as int)),
        decreases n - i,
    {
        let c = s.get_char(i);
        if c == '"' {
            push_char(out, '\\');
            push_char(out, '"');
        } else if c == '\\' {
            push_char(out, '\\');
            push_char(out, '\\');
        } else if c == '\n' {
            push_char(out, '\\');
            push_char(out, 'n');
        } else if c == '\r' {
            push_char(out, '\\');
            push_char(out, 'r');
        } else if c == '\t' {
            push_char(out, '\\');
            push_char(out, 't');
        } else if ((c as u32) < 0x20 && c != '\n' && c != '\r' && c != '\t') || c as u32
            == 0x7f {
            push_char(out, '\\');
            push_char(out, 'u');
            push_char(out, '{');
            let hex = u32_to_hex_string(c as u32);
            out.append(hex.as_str());
            push_char(out, '}');
        } else {
            push_char(out, c);
        }
        proof {
            assert(s@.take(i + 1) =~= s@.take(i as int).push(s@[i as int]));
            lemma_escape_push(s@.take(i as int), s@[i as int]);
            assert(out@ =~= old(out)@ + spec_escape(s@.take(i + 1)));
        }
        i += 1;
    }
    proof {
        assert(s@.take(n as int) =~= s@);
    }
}

/// The debug rendering of a list of strings: `["a", "b"]`, with the
/// escaping of `spec_escape_char`.
pub open spec fn spec_debug_list(parts: Seq<Seq<char>>) -> Seq<char> {
    seq!['['] + spec_join(parts.map_values(|p: Seq<char>| spec_quote(p)), ", "@) + seq![']']
}

/// Renders a list of strings the way a debug formatter would.
pub fn debug_list(parts: &Vec<String>) -> (r: String)
    ensures
        r@ == spec_debug_list(parts.deep_view()),
{
    let mut out = String::new();
    push_char(&mut out, '[');
    let mut k: usize = 0;
    while k < parts.len()
        invariant
            k <= parts@.len(),
            parts.deep_view().len() == parts@.len(),
            out@ == seq!['['] + spec_join(
                parts.deep_view().map_values(|p: Seq<char>| spec_quote(p)).take(k as int),
                ", "@,
            ),
        decreases parts@.len() - k,
    {
        if k > 0 {
            out.append(", ");
        }
        push_char(&mut out, '"');
        append_escaped(&mut out, parts[k].as_str());
        push_char(&mut out, '"');
        proof {
            let qs = parts.deep_view().map_values(|p: Seq<char>| spec_quote(p));
            assert(qs.take(k + 1) =~= qs.take(k as int).push(qs[k as int]));
            assert(parts.deep_view()[k as int] == parts@[k as int]@);
            assert(qs[k as int] == spec_quote(parts@[k as int]@));
            lemma_join_push(qs.take(k as int), ", "@, qs[k as int]);
            assert(out@ =~= seq!['['] + spec_join(qs.take(k + 1), ", "@));
        }
        k += 1;
    }
    push_char(&mut out, ']');
    proof {
        let qs = parts.deep_view().map_values(|p: Seq<char>| spec_quote(p));
        assert(qs.take(parts@.len() as int) =~= qs);
    }
    out
}


/// The pieces of `text` split at each occurrence of `sep` (at least one
/// piece, possibly empty).
pub open spec fn spec_split(text: Seq<char>, sep: Seq<char>) -> Seq<Seq<char>>
    decreases text.len(),
    when sep.len() > 0
    via spec_split_decreases
{
    let i = spec_find(text, sep);
    if i < 0 {
        seq![text]
    } else {
        seq![text.subrange(0, i)] + spec_split(
            text.subrange(i + sep.len(), text.len() as int),
            sep,
        )
    }
}

#[via_fn]
proof fn spec_split_decreases(text: Seq<char>, sep: Seq<char>) {
    lemma_spec_find_bound(text, sep);
}

fn split_into(text: &str, sep: &str, out: &mut Vec<String>)
    requires
        sep@.len() > 0,
    ensures
        final(out).deep_view() == old(out).deep_view() + spec_split(text@, sep@),
    decreases text@.len(),
{
    let n = text.unicode_len();
    let m = sep.unicode_len();
    proof {
        lemma_spec_find_bound(text@, sep@);
    }
    match find_sub(text, sep) {
        None => {
            let piece = text.to_owned();
            out.push(piece);
            proof {
                assert(out.deep_view() =~= old(out).deep_view() + spec_split(text@, sep@));
            }
        },
        Some(i) => {
            let piece = text.substring_char(0, i).to_owned();
            out.push(piece);
            let rest = text.substring_char(i + m, n);
            split_into(rest, sep, out);
            proof {
                assert(out.deep_view() =~= old(out).deep_view() + spec_split(text@, sep@));
            }
        },
    }
}

/// Splits `text` at each occurrence of `sep`.
pub fn split_str(text: &str, sep: &str) -> (r: Vec<String>)
    requires
        sep@.len() > 0,
    ensures
        r.deep_view() == spec_split(text@, sep@),
{
    let mut out: Vec<String> = Vec::new();
    split_into(text, sep, &mut out);
    proof {
        assert(out.deep_view() =~= spec_split(text@, sep@));
    }
    out
}

/// The bracket and quote characters that a debug-formatted list is
/// wrapped in.
pub open spec fn is_list_mark(c: char) -> bool {
    c == '[' || c == ']' || c == '"'
}

pub fn is_list_mark_char(c: char) -> (r: bool)
    ensures
        r == is_list_mark(c),
{
    c == '[' || c == ']' || c == '"'
}

/// `s` without leading list marks.
pub open spec fn spec_trim_marks_start(s: Seq<char>) -> Seq<char>
    decreases s.len(),
{
    if s.len() > 0 && is_list_mark(s[0]) {
        spec_trim_marks_start(s.drop_first())
    } else {
        s
    }
}

/// `s` without trailing list marks.
pub open spec fn spec_trim_marks_end(s: Seq<char>) -> Seq<char>
    decreases s.len(),
{
    if s.len() > 0 && is_list_mark(s.last()) {
        spec_trim_marks_end(s.drop_last())
    } else {
        s
    }
}

/// `s` without leading and trailing list marks.
pub open spec fn spec_trim_marks(s: Seq<char>) -> Seq<char> {
    spec_trim_marks_end(spec_trim_marks_start(s))
}

/// Trims brackets and quotes from both ends.
pub fn trim_marks(s: &str) -> (r: String)
    ensures
        r@ == spec_trim_marks(s@),
{
    let n = s.unicode_len();
    proof {
        assert(s@.subrange(0, n as int) =~= s@);
    }
    let mut lo: usize = 0;
    while lo < n && is_list_mark_char(s.get_char(lo))
        invariant
            lo <= n,
            n == s@.len(),
            spec_trim_marks_start(s@) == spec_trim_marks_start(s@.subrange(lo as int, n as int)),
        decreases n - lo,
    {
        proof {
            assert(s@.subrange(lo as int, n as int).drop_first() =~= s@.subrange(
                lo + 1,
                n as int,
            ));
        }
        lo += 1;
    }
    proof {
        assert(spec_trim_marks_start(s@) == s@.subrange(lo as int, n as int));
    }
    let mut hi: usize = n;
    while hi > lo && is_list_mark_char(s.get_char(hi - 1))
        invariant
            lo <= hi <= n,
            n == s@.len(),
            spec_trim_marks_start(s@) == s@.subrange(lo as int, n as int),
            spec_trim_marks_end(s@.subrange(lo as int, n as int)) == spec_trim_marks_end(
                s@.subrange(lo as int, hi as int),
            ),
        decreases hi,
    {
        proof {
            assert(s@.subrange(lo as int, hi as int).drop_last() =~= s@.subrange(
                lo as int,
                hi - 1,
            ));
        }
        hi -= 1;
    }
    s.substring_char(lo, hi).to_owned()
}

} // verus!
