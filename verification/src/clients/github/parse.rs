//! Release tags: `<module>-v<major>.<minor>.<patch>` with an optional
//! `-RC<number>` suffix.
//!
//! The tag grammar is the pattern `^(.*)-v(\d+).(\d+).(\d+)(-RC\d+)?$`, where
//! the dots between the numbers are unescaped and so stand for any character
//! but a line break, `.*` is any run of characters without a line break, and
//! `\d` is the Unicode decimal-digit class.  Where a tag can be split in more
//! than one way, the split that a leftmost-first (backtracking) matcher finds
//! is taken: the longest module name first, then the longest major number,
//! then the longest minor number, then the longest patch number.
use vstd::prelude::*;

use crate::domain::release::Version;
use crate::text::{
    ascii_digit_value, chars_of, digit_char, int_decimal, is_ascii_digit, nat_decimal,
    string_of_range,
};

verus! {

/// Membership of a non-ASCII character in the regex crate's `\d` class (the
/// Unicode `Nd` category, as the crate's tables have it).
pub uninterp spec fn regex_unicode_digit(c: char) -> bool;

/// Membership in the regex crate's `\d` class: among ASCII characters exactly
/// `0`..`9`.
pub open spec fn regex_decimal_digit(c: char) -> bool {
    if (c as u32) < 128 {
        is_ascii_digit(c)
    } else {
        regex_unicode_digit(c)
    }
}

/// Asks the regex crate whether `c` matches `\d`.  The contract claims that
/// among ASCII characters exactly `0`..`9` match, as the regex documentation
/// (`\d` is `\p{Nd}`) and Unicode give, and that for other characters the
/// answer is a fixed function of `c` (named `regex_unicode_digit`); which
/// non-ASCII characters match is left to the crate's Unicode tables.
#[verifier::external_body]
fn is_regex_decimal_digit(c: char) -> (r: bool)
    ensures
        r == (if (c as u32) < 128 {
            is_ascii_digit(c)
        } else {
            regex_unicode_digit(c)
        }),
{
    let mut buf = [0u8; 4];
    match regex::Regex::new(r"\A\d\z") {
        Ok(re) => re.is_match(c.encode_utf8(&mut buf)),
        Err(_) => false,
    }
}

/// Every character of `s[from..to]` is a `\d` digit.
pub open spec fn digits_between(s: Seq<char>, from: int, to: int) -> bool {
    forall|i: int| from <= i < to ==> regex_decimal_digit(#[trigger] s[i])
}

/// No character of `s[from..to]` is a line break.
pub open spec fn no_line_break_between(s: Seq<char>, from: int, to: int) -> bool {
    forall|i: int| from <= i < to ==> #[trigger] s[i] != '\n'
}

/// What may follow the patch number at position `d`: the end of the tag, or
/// `-RC` and at least one digit up to the end.
pub open spec fn rc_tail_at(s: Seq<char>, d: int) -> bool {
    ||| d == s.len()
    ||| d + 3 < s.len() && s[d] == '-' && s[d + 1] == 'R' && s[d + 2] == 'C' && digits_between(
        s,
        d + 3,
        s.len() as int,
    )
}

/// `s` splits as `s[0..a]` (module), `-v`, `s[a+2..b]` (major), one character,
/// `s[b+1..c]` (minor), one character, `s[c+1..d]` (patch), and the tail at
/// `d`.
pub open spec fn is_tag_split(s: Seq<char>, a: int, b: int, c: int, d: int) -> bool {
    &&& 0 <= a
    &&& a + 2 < b
    &&& b + 1 < c
    &&& c + 1 < d
    &&& d <= s.len()
    &&& no_line_break_between(s, 0, a)
    &&& s[a] == '-'
    &&& s[a + 1] == 'v'
    &&& digits_between(s, a + 2, b)
    &&& s[b] != '\n'
    &&& digits_between(s, b + 1, c)
    &&& s[c] != '\n'
    &&& digits_between(s, c + 1, d)
    &&& rc_tail_at(s, d)
}

/// `(a2, b2, c2, d2)` comes strictly after `(a, b, c, d)` in lexicographic
/// order.
pub open spec fn split_after(a2: int, b2: int, c2: int, d2: int, a: int, b: int, c: int, d: int) -> bool {
    ||| a2 > a
    ||| a2 == a && b2 > b
    ||| a2 == a && b2 == b && c2 > c
    ||| a2 == a && b2 == b && c2 == c && d2 > d
}

/// The split a leftmost-first matcher takes: no other split is
/// lexicographically greater.
pub open spec fn is_preferred_split(s: Seq<char>, a: int, b: int, c: int, d: int) -> bool {
    &&& is_tag_split(s, a, b, c, d)
    &&& forall|a2: int, b2: int, c2: int, d2: int| #[trigger]
        is_tag_split(s, a2, b2, c2, d2) ==> !split_after(a2, b2, c2, d2, a, b, c, d)
}

/// The value of a run of ASCII decimal digits.
pub open spec fn decimal_value(t: Seq<char>) -> int
    decreases t.len(),
{
    if t.len() == 0 {
        0
    } else {
        decimal_value(t.drop_last()) * 10 + ascii_digit_value(t.last())
    }
}

/// std's `i32` parsing of a run of `\d` digits: the value when the run is
/// non-empty, all ASCII and at most `i32::MAX`.
pub open spec fn digits_i32(t: Seq<char>) -> Option<i32> {
    if t.len() > 0 && (forall|i: int| 0 <= i < t.len() ==> is_ascii_digit(#[trigger] t[i]))
        && decimal_value(t) <= i32::MAX {
        Some(decimal_value(t) as i32)
    } else {
        None
    }
}

/// What `parse_tag` gives for the tag `s`.
pub open spec fn parsed_tag(s: Seq<char>) -> Option<(Seq<char>, Version)> {
    if exists|a: int, b: int, c: int, d: int| is_preferred_split(s, a, b, c, d) {
        let (a, b, c, d) = choose|a: int, b: int, c: int, d: int|
            is_preferred_split(s, a, b, c, d);
        match (
            digits_i32(s.subrange(a + 2, b)),
            digits_i32(s.subrange(b + 1, c)),
            digits_i32(s.subrange(c + 1, d)),
        ) {
            (Some(major), Some(minor), Some(patch)) => {
                if d == s.len() {
                    Some((s.subrange(0, a), Version::Release { major, minor, patch }))
                } else {
                    match digits_i32(s.subrange(d + 3, s.len() as int)) {
                        Some(number) => Some(
                            (s.subrange(0, a), Version::Candidate { major, minor, patch, number }),
                        ),
                        None => None,
                    }
                }
            },
            _ => None,
        }
    } else {
        None
    }
}

/// `run[i]` is the end of the run of `\d` digits that starts at `i`.
pub open spec fn digit_runs(s: Seq<char>, run: Seq<usize>) -> bool {
    &&& run.len() == s.len() + 1
    &&& forall|i: int|
        0 <= i <= s.len() ==> {
            &&& i <= #[trigger] run[i] <= s.len()
            &&& digits_between(s, i, run[i] as int)
            &&& (run[i] == s.len() || !regex_decimal_digit(s[run[i] as int]))
        }
}

proof fn lemma_run_bound(s: Seq<char>, run: Seq<usize>, i: int, j: int)
    requires
        digit_runs(s, run),
        0 <= i <= j <= s.len(),
        digits_between(s, i, j),
    ensures
        j <= run[i],
{
    if j > run[i] {
        assert(i <= run[i] < j);
        assert(regex_decimal_digit(s[run[i] as int]));
    }
}

fn digit_run_ends(v: &Vec<char>) -> (run: Vec<usize>)
    ensures
        digit_runs(v@, run@),
{
    let n = v.len();
    let mut rev: Vec<usize> = Vec::new();
    // rev[k] is the run end for position n - k
    rev.push(n);
    let mut i: usize = n;
    while i > 0
        invariant
            n == v@.len(),
            i <= n,
            rev@.len() == n - i + 1,
            forall|k: int|
                0 <= k < rev@.len() ==> {
                    let p = n - k;
                    &&& p <= #[trigger] rev@[k] <= n
                    &&& digits_between(v@, p, rev@[k] as int)
                    &&& (rev@[k] == n || !regex_decimal_digit(v@[rev@[k] as int]))
                },
        decreases i,
    {
        i = i - 1;
        let prev = rev[rev.len() - 1];
        let e = if is_regex_decimal_digit(v[i]) {
            prev
        } else {
            i
        };
        rev.push(e);
        proof {
            let k = rev@.len() - 1;
            assert(n - k == i);
            if regex_decimal_digit(v@[i as int]) {
                assert forall|t: int| i <= t < e implies regex_decimal_digit(#[trigger] v@[t]) by {
                    if t > i {
                        assert(digits_between(v@, i + 1, prev as int));
                    }
                }
            }
        }
    }
    let mut run: Vec<usize> = Vec::new();
    let mut j: usize = 0;
    assert(rev.len() == n + 1);
    while j <= n
        invariant
            n == v@.len(),
            n < usize::MAX,
            j <= n + 1,
            rev@.len() == n + 1,
            run@.len() == j,
            forall|k: int|
                0 <= k < rev@.len() ==> {
                    let p = n - k;
                    &&& p <= #[trigger] rev@[k] <= n
                    &&& digits_between(v@, p, rev@[k] as int)
                    &&& (rev@[k] == n || !regex_decimal_digit(v@[rev@[k] as int]))
                },
            forall|t: int| 0 <= t < j ==> #[trigger] run@[t] == rev@[n - t],
        decreases n + 1 - j,
    {
        run.push(rev[n - j]);
        j = j + 1;
    }
    assert forall|t: int| 0 <= t <= v@.len() implies {
        &&& t <= #[trigger] run@[t] <= v@.len()
        &&& digits_between(v@, t, run@[t] as int)
        &&& (run@[t] == v@.len() || !regex_decimal_digit(v@[run@[t] as int]))
    } by {
        assert(run@[t] == rev@[n - t]);
        assert(rev@[n - t] >= n - (n - t));
    }
    run
}

/// Whether the tail at `d` is acceptable.
fn rc_tail_ok(v: &Vec<char>, run: &Vec<usize>, d: usize) -> (r: bool)
    requires
        digit_runs(v@, run@),
        d <= v@.len(),
    ensures
        r == rc_tail_at(v@, d as int),
{
    let n = v.len();
    if d == n {
        return true;
    }
    if n - d > 3 && v[d] == '-' && v[d + 1] == 'R' && v[d + 2] == 'C' {
        let r = run[d + 3] == n;
        proof {
            if digits_between(v@, d + 3, n as int) {
                lemma_run_bound(v@, run@, d + 3, n as int);
            }
        }
        r
    } else {
        false
    }
}

/// Finds the preferred split once the module and major number are fixed.
fn split_minor_patch(v: &Vec<char>, run: &Vec<usize>, a: usize, b: usize) -> (r: Option<
    (usize, usize),
>)
    requires
        digit_runs(v@, run@),
        a + 2 < b,
        b + 1 < v@.len(),
        no_line_break_between(v@, 0, a as int),
        v@[a as int] == '-',
        v@[a + 1] == 'v',
        digits_between(v@, a + 2, b as int),
        v@[b as int] != '\n',
    ensures
        match r {
            Some((c, d)) => {
                &&& is_tag_split(v@, a as int, b as int, c as int, d as int)
                &&& forall|c2: int, d2: int|
                    #[trigger] is_tag_split(v@, a as int, b as int, c2, d2) ==> !(c2 > c || (c2
                        == c && d2 > d))
            },
            None => forall|c2: int, d2: int| !#[trigger] is_tag_split(v@, a as int, b as int, c2, d2),
        },
{
    let n = v.len();
    let r1 = run[b + 1];
    let mut c: usize = if r1 < n - 1 {
        r1
    } else {
        n - 1
    };
    proof {
        assert forall|c2: int, d2: int| c2 > c implies !#[trigger] is_tag_split(
            v@,
            a as int,
            b as int,
            c2,
            d2,
        ) by {
            if is_tag_split(v@, a as int, b as int, c2, d2) {
                lemma_run_bound(v@, run@, b + 1, c2);
            }
        }
    }
    while c >= b + 2
        invariant
            digit_runs(v@, run@),
            n == v@.len(),
            a + 2 < b,
            b + 1 < n,
            c < n,
            c <= run@[b + 1],
            no_line_break_between(v@, 0, a as int),
            v@[a as int] == '-',
            v@[a + 1] == 'v',
            digits_between(v@, a + 2, b as int),
            v@[b as int] != '\n',
            forall|c2: int, d2: int| c2 > c ==> !#[trigger] is_tag_split(v@, a as int, b as int, c2, d2),
        decreases c,
    {
        if v[c] != '\n' {
            let d = run[c + 1];
            if d - c >= 2 && rc_tail_ok(v, run, d) {
                proof {
                    assert(digits_between(v@, b + 1, c as int)) by {
                        lemma_run_bound_rev(v@, run@, b + 1, c as int);
                    }
                    assert forall|c2: int, d2: int| #[trigger]
                        is_tag_split(v@, a as int, b as int, c2, d2) implies !(c2 > c || (c2 == c
                        && d2 > d)) by {
                        if c2 == c {
                            lemma_run_bound(v@, run@, c + 1, d2);
                        }
                    }
                }
                return Some((c, d));
            }
            proof {
                assert forall|d2: int| !#[trigger] is_tag_split(v@, a as int, b as int, c as int, d2) by {
                    if is_tag_split(v@, a as int, b as int, c as int, d2) {
                        lemma_run_bound(v@, run@, c + 1, d2);
                        if d2 < d {
                            assert(regex_decimal_digit(v@[d2]));
                            assert(v@[d2] == '-');
                        }
                    }
                }
            }
        }
        if c == b + 2 {
            assert forall|c2: int, d2: int| !#[trigger] is_tag_split(v@, a as int, b as int, c2, d2) by {
                if is_tag_split(v@, a as int, b as int, c2, d2) {
                    assert(c2 >= c);
                }
            }
            return None;
        }
        c = c - 1;
    }
    None
}

/// Every position of `s[i..j]` lies inside the digit run that starts at `i`.
proof fn lemma_run_bound_rev(s: Seq<char>, run: Seq<usize>, i: int, j: int)
    requires
        digit_runs(s, run),
        0 <= i <= j <= run[i],
        j <= s.len(),
    ensures
        digits_between(s, i, j),
{
    assert forall|t: int| i <= t < j implies regex_decimal_digit(#[trigger] s[t]) by {
        assert(digits_between(s, i, run[i] as int));
    }
}

/// Finds the preferred split once the module is fixed.
fn split_numbers(v: &Vec<char>, run: &Vec<usize>, a: usize) -> (r: Option<(usize, usize, usize)>)
    requires
        digit_runs(v@, run@),
        a + 2 < v@.len(),
        no_line_break_between(v@, 0, a as int),
        v@[a as int] == '-',
        v@[a + 1] == 'v',
    ensures
        match r {
            Some((b, c, d)) => {
                &&& is_tag_split(v@, a as int, b as int, c as int, d as int)
                &&& forall|b2: int, c2: int, d2: int|
                    #[trigger] is_tag_split(v@, a as int, b2, c2, d2) ==> !split_after(
                        a as int,
                        b2,
                        c2,
                        d2,
                        a as int,
                        b as int,
                        c as int,
                        d as int,
                    )
            },
            None => forall|b2: int, c2: int, d2: int| !#[trigger] is_tag_split(v@, a as int, b2, c2, d2),
        },
{
    let n = v.len();
    let r2 = run[a + 2];
    let mut b: usize = if r2 < n - 1 {
        r2
    } else {
        n - 1
    };
    proof {
        assert forall|b2: int, c2: int, d2: int| b2 > b implies !#[trigger] is_tag_split(
            v@,
            a as int,
            b2,
            c2,
            d2,
        ) by {
            if is_tag_split(v@, a as int, b2, c2, d2) {
                lemma_run_bound(v@, run@, a + 2, b2);
            }
        }
    }
    while b >= a + 3
        invariant
            digit_runs(v@, run@),
            n == v@.len(),
            a + 2 < n,
            b < n,
            b <= run@[a + 2],
            no_line_break_between(v@, 0, a as int),
            v@[a as int] == '-',
            v@[a + 1] == 'v',
            forall|b2: int, c2: int, d2: int|
                b2 > b ==> !#[trigger] is_tag_split(v@, a as int, b2, c2, d2),
        decreases b,
    {
        proof {
            lemma_run_bound_rev(v@, run@, a + 2, b as int);
        }
        if v[b] != '\n' && n - b > 1 {
            match split_minor_patch(v, run, a, b) {
                Some((c, d)) => {
                    return Some((b, c, d));
                },
                None => {},
            }
        }
        assert forall|c2: int, d2: int| !#[trigger] is_tag_split(v@, a as int, b as int, c2, d2) by {
            if is_tag_split(v@, a as int, b as int, c2, d2) {
                assert(v@[b as int] != '\n');
            }
        }
        if b == a + 3 {
            assert forall|b2: int, c2: int, d2: int| !#[trigger] is_tag_split(v@, a as int, b2, c2, d2) by {
                if is_tag_split(v@, a as int, b2, c2, d2) {
                    assert(b2 >= b);
                }
            }
            return None;
        }
        b = b - 1;
    }
    None
}

/// Finds the split of `v` that a leftmost-first matcher takes.
fn preferred_split(v: &Vec<char>, run: &Vec<usize>) -> (r: Option<(usize, usize, usize, usize)>)
    requires
        digit_runs(v@, run@),
    ensures
        match r {
            Some((a, b, c, d)) => is_preferred_split(v@, a as int, b as int, c as int, d as int),
            None => forall|a2: int, b2: int, c2: int, d2: int|
                !#[trigger] is_tag_split(v@, a2, b2, c2, d2),
        },
{
    let n = v.len();
    // the first line break, or n
    let mut nl: usize = 0;
    while nl < n && v[nl] != '\n'
        invariant
            n == v@.len(),
            nl <= n,
            no_line_break_between(v@, 0, nl as int),
        decreases n - nl,
    {
        nl = nl + 1;
    }
    let mut a: usize = n;
    loop
        invariant
            digit_runs(v@, run@),
            n == v@.len(),
            nl <= n,
            no_line_break_between(v@, 0, nl as int),
            nl < n ==> v@[nl as int] == '\n',
            a <= n,
            forall|a2: int, b2: int, c2: int, d2: int|
                a2 > a ==> !#[trigger] is_tag_split(v@, a2, b2, c2, d2),
        decreases a,
    {
        if a <= nl && n - a > 2 && v[a] == '-' && v[a + 1] == 'v' {
            proof {
                assert forall|i: int| 0 <= i < a implies #[trigger] v@[i] != '\n' by {
                    assert(no_line_break_between(v@, 0, nl as int));
                }
            }
            match split_numbers(v, run, a) {
                Some((b, c, d)) => {
                    proof {
                        assert forall|a2: int, b2: int, c2: int, d2: int| #[trigger]
                            is_tag_split(v@, a2, b2, c2, d2) implies !split_after(
                            a2,
                            b2,
                            c2,
                            d2,
                            a as int,
                            b as int,
                            c as int,
                            d as int,
                        ) by {
                            if a2 == a {
                                assert(is_tag_split(v@, a as int, b2, c2, d2));
                            }
                        }
                    }
                    return Some((a, b, c, d));
                },
                None => {},
            }
        }
        assert forall|b2: int, c2: int, d2: int| !#[trigger] is_tag_split(v@, a as int, b2, c2, d2) by {
            if is_tag_split(v@, a as int, b2, c2, d2) {
                if a > nl {
                    assert(v@[nl as int] == '\n');
                    assert(no_line_break_between(v@, 0, a as int));
                }
            }
        }
        if a == 0 {
            return None;
        }
        a = a - 1;
    }
}

/// std's `i32` parsing of `v[from..to]`, a run of `\d` digits.
fn parse_digits(v: &Vec<char>, from: usize, to: usize) -> (r: Option<i32>)
    requires
        from <= to <= v@.len(),
    ensures
        r == digits_i32(v@.subrange(from as int, to as int)),
{
    let ghost t = v@.subrange(from as int, to as int);
    let mut i: usize = from;
    let mut acc: i64 = 0;
    let mut too_big = false;
    while i < to
        invariant
            from <= i <= to <= v@.len(),
            t == v@.subrange(from as int, to as int),
            forall|k: int| from <= k < i ==> is_ascii_digit(#[trigger] v@[k]),
            !too_big ==> acc == decimal_value(v@.subrange(from as int, i as int)),
            !too_big ==> 0 <= acc <= i32::MAX,
            too_big ==> decimal_value(v@.subrange(from as int, i as int)) > i32::MAX,
        decreases to - i,
    {
        let c = v[i];
        if !('0' <= c && c <= '9') {
            proof {
                assert(!is_ascii_digit(t[i - from]));
            }
            return None;
        }
        let ghost prev = v@.subrange(from as int, i as int);
        assert(v@.subrange(from as int, i + 1).drop_last() =~= prev);
        assert(v@.subrange(from as int, i + 1).last() == c);
        if !too_big {
            let d: i64 = (c as u32 as i64) - 48;
            acc = acc * 10 + d;
            if acc > 2147483647 {
                too_big = true;
            }
        } else {
            assert(decimal_value(prev) * 10 + ascii_digit_value(c) > i32::MAX) by (nonlinear_arith)
                requires
                    decimal_value(prev) > i32::MAX,
                    ascii_digit_value(c) >= 0,
            ;
        }
        i = i + 1;
    }
    assert(v@.subrange(from as int, i as int) =~= t);
    if from == to {
        return None;
    }
    if too_big {
        None
    } else {
        Some(acc as i32)
    }
}

proof fn lemma_preferred_unique(s: Seq<char>, a: int, b: int, c: int, d: int, a2: int, b2: int, c2: int, d2: int)
    requires
        is_preferred_split(s, a, b, c, d),
        is_preferred_split(s, a2, b2, c2, d2),
    ensures
        a == a2 && b == b2 && c == c2 && d == d2,
{
    assert(!split_after(a2, b2, c2, d2, a, b, c, d));
    assert(!split_after(a, b, c, d, a2, b2, c2, d2));
}

/// The decimal notation of a natural number is a non-empty run of ASCII
/// digits whose value is the number.
proof fn lemma_nat_decimal_digits(n: nat)
    ensures
        nat_decimal(n).len() > 0,
        forall|i: int| 0 <= i < nat_decimal(n).len() ==> is_ascii_digit(#[trigger] nat_decimal(n)[i]),
        decimal_value(nat_decimal(n)) == n,
    decreases n,
{
    let t = nat_decimal(n);
    let r = (n % 10) as int;
    assert(digit_char(r) as int == r + 48);
    assert(ascii_digit_value(digit_char(r)) == r);
    if n >= 10 {
        lemma_nat_decimal_digits(n / 10);
        assert(t.drop_last() =~= nat_decimal(n / 10));
        assert(t.last() == digit_char(r));
        assert forall|i: int| 0 <= i < t.len() implies is_ascii_digit(#[trigger] t[i]) by {
            if i < t.len() - 1 {
                assert(t[i] == nat_decimal(n / 10)[i]);
            }
        }
        assert(decimal_value(t) == decimal_value(nat_decimal(n / 10)) * 10 + r);
        assert(n == (n / 10) * 10 + r);
    } else {
        assert(r == n);
        assert(t.drop_last() =~= Seq::<char>::empty());
        assert(decimal_value(t) == decimal_value(t.drop_last()) * 10 + ascii_digit_value(t.last()));
    }
}

/// A version whose numbers are all non-negative.
pub open spec fn version_non_negative(v: Version) -> bool {
    match v {
        Version::Release { major, minor, patch } => major >= 0 && minor >= 0 && patch >= 0,
        Version::Candidate { major, minor, patch, number } => major >= 0 && minor >= 0 && patch
            >= 0 && number >= 0,
    }
}

/// The tag of a module's version: `<module>-v<version>`.
pub open spec fn tag_text(module: Seq<char>, v: Version) -> Seq<char> {
    module + seq!['-', 'v'] + v.text()
}

/// The major, minor and patch numbers of a version.
pub open spec fn triple_of(v: Version) -> (i32, i32, i32) {
    match v {
        Version::Release { major, minor, patch } => (major, minor, patch),
        Version::Candidate { major, minor, patch, .. } => (major, minor, patch),
    }
}

/// Where the numbers of a tag end: after the major, minor and patch numbers.
pub open spec fn tag_marks(module: Seq<char>, v: Version) -> (int, int, int, int) {
    let (major, minor, patch) = triple_of(v);
    let a = module.len() as int;
    let b = a + 2 + nat_decimal(major as nat).len();
    let c = b + 1 + nat_decimal(minor as nat).len();
    let d = c + 1 + nat_decimal(patch as nat).len();
    (a, b, c, d)
}

/// The layout of a tag: where its parts stand and what they hold.
proof fn lemma_tag_layout(module: Seq<char>, v: Version)
    requires
        !module.contains('\n'),
        version_non_negative(v),
    ensures
        ({
            let s = tag_text(module, v);
            let (a, b, c, d) = tag_marks(module, v);
            let (major, minor, patch) = triple_of(v);
            &&& is_tag_split(s, a, b, c, d)
            &&& s.subrange(0, a) == module
            &&& s.subrange(a + 2, b) == nat_decimal(major as nat)
            &&& s.subrange(b + 1, c) == nat_decimal(minor as nat)
            &&& s.subrange(c + 1, d) == nat_decimal(patch as nat)
            &&& (v is Release <==> d == s.len())
            &&& (v matches Version::Candidate { number, .. } ==> s.subrange(d + 3, s.len() as int)
                == nat_decimal(number as nat))
            &&& !regex_decimal_digit(s[b])
            &&& !regex_decimal_digit(s[c])
            &&& (d < s.len() ==> !regex_decimal_digit(s[d]))
            &&& forall|j: int| a + 2 <= j < s.len() ==> #[trigger] s[j] != 'v'
        }),
{
    let (major, minor, patch) = triple_of(v);
    let p1 = nat_decimal(major as nat);
    let p2 = nat_decimal(minor as nat);
    let p3 = nat_decimal(patch as nat);
    lemma_nat_decimal_digits(major as nat);
    lemma_nat_decimal_digits(minor as nat);
    lemma_nat_decimal_digits(patch as nat);
    let head = module + seq!['-', 'v'] + p1 + seq!['.'] + p2 + seq!['.'] + p3;
    let tail = match v {
        Version::Release { .. } => Seq::<char>::empty(),
        Version::Candidate { number, .. } => seq!['-', 'R', 'C'] + nat_decimal(number as nat),
    };
    let s = head + tail;
    assert(int_decimal(major as int) == p1);
    assert(int_decimal(minor as int) == p2);
    assert(int_decimal(patch as int) == p3);
    assert(s =~= tag_text(module, v));
    let (a, b, c, d) = tag_marks(module, v);
    assert(head.len() == d);
    assert(s.subrange(0, a) =~= module);
    assert(s.subrange(a + 2, b) =~= p1);
    assert(s.subrange(b + 1, c) =~= p2);
    assert(s.subrange(c + 1, d) =~= p3);
    assert(s[a] == '-' && s[a + 1] == 'v' && s[b] == '.' && s[c] == '.');
    assert(digits_between(s, a + 2, b)) by {
        assert forall|i: int| a + 2 <= i < b implies regex_decimal_digit(#[trigger] s[i]) by {
            assert(s[i] == s.subrange(a + 2, b)[i - (a + 2)]);
        }
    }
    assert(digits_between(s, b + 1, c)) by {
        assert forall|i: int| b + 1 <= i < c implies regex_decimal_digit(#[trigger] s[i]) by {
            assert(s[i] == s.subrange(b + 1, c)[i - (b + 1)]);
        }
    }
    assert(digits_between(s, c + 1, d)) by {
        assert forall|i: int| c + 1 <= i < d implies regex_decimal_digit(#[trigger] s[i]) by {
            assert(s[i] == s.subrange(c + 1, d)[i - (c + 1)]);
        }
    }
    assert(no_line_break_between(s, 0, a)) by {
        assert forall|i: int| 0 <= i < a implies #[trigger] s[i] != '\n' by {
            assert(s[i] == module[i]);
        }
    }
    match v {
        Version::Release { .. } => {
            assert(s.len() == d);
        },
        Version::Candidate { number, .. } => {
            let p4 = nat_decimal(number as nat);
            lemma_nat_decimal_digits(number as nat);
            assert(s.subrange(d + 3, s.len() as int) =~= p4);
            assert(s[d] == '-' && s[d + 1] == 'R' && s[d + 2] == 'C');
            assert(digits_between(s, d + 3, s.len() as int)) by {
                assert forall|i: int| d + 3 <= i < s.len() implies regex_decimal_digit(
                    #[trigger] s[i],
                ) by {
                    assert(s[i] == s.subrange(d + 3, s.len() as int)[i - (d + 3)]);
                }
            }
        },
    }
    assert(rc_tail_at(s, d));
    assert forall|j: int| a + 2 <= j < s.len() implies #[trigger] s[j] != 'v' by {
        if j < b {
            assert(s[j] == s.subrange(a + 2, b)[j - (a + 2)]);
        } else if b < j < c {
            assert(s[j] == s.subrange(b + 1, c)[j - (b + 1)]);
        } else if c < j < d {
            assert(s[j] == s.subrange(c + 1, d)[j - (c + 1)]);
        } else if j > d + 2 {
            assert(s[j] == s.subrange(d + 3, s.len() as int)[j - (d + 3)]);
        }
    }
}

/// Parsing the tag of a module's version gives the module and the version
/// back, for every module name without a line break and every version with
/// non-negative numbers.
pub proof fn law_parse_tag_round_trip(module: Seq<char>, v: Version)
    requires
        !module.contains('\n'),
        version_non_negative(v),
    ensures
        parsed_tag(tag_text(module, v)) == Some((module, v)),
{
    lemma_tag_layout(module, v);
    let s = tag_text(module, v);
    let (a, b, c, d) = tag_marks(module, v);
    let (major, minor, patch) = triple_of(v);
    assert forall|a2: int, b2: int, c2: int, d2: int| #[trigger]
        is_tag_split(s, a2, b2, c2, d2) implies !split_after(a2, b2, c2, d2, a, b, c, d) by {
        if a2 > a {
            assert(s[a2 + 1] == 'v');
        } else if a2 == a {
            if b2 > b {
                assert(regex_decimal_digit(s[b]));
            } else if b2 == b {
                if c2 > c {
                    assert(regex_decimal_digit(s[c]));
                } else if c2 == c && d2 > d {
                    assert(regex_decimal_digit(s[d]));
                }
            }
        }
    }
    assert(is_preferred_split(s, a, b, c, d));
    let (a2, b2, c2, d2) = choose|a2: int, b2: int, c2: int, d2: int|
        is_preferred_split(s, a2, b2, c2, d2);
    lemma_preferred_unique(s, a, b, c, d, a2, b2, c2, d2);
    lemma_nat_decimal_digits(major as nat);
    lemma_nat_decimal_digits(minor as nat);
    lemma_nat_decimal_digits(patch as nat);
    assert(digits_i32(s.subrange(a + 2, b)) == Some(major));
    assert(digits_i32(s.subrange(b + 1, c)) == Some(minor));
    assert(digits_i32(s.subrange(c + 1, d)) == Some(patch));
    match v {
        Version::Release { .. } => {},
        Version::Candidate { number, .. } => {
            lemma_nat_decimal_digits(number as nat);
            assert(digits_i32(s.subrange(d + 3, s.len() as int)) == Some(number));
        },
    }
}

proof fn lemma_decimal_value_nonneg(t: Seq<char>)
    requires
        forall|i: int| 0 <= i < t.len() ==> is_ascii_digit(#[trigger] t[i]),
    ensures
        decimal_value(t) >= 0,
    decreases t.len(),
{
    if t.len() > 0 {
        assert forall|i: int| 0 <= i < t.drop_last().len() implies is_ascii_digit(
            #[trigger] t.drop_last()[i],
        ) by {
            assert(t.drop_last()[i] == t[i]);
        }
        lemma_decimal_value_nonneg(t.drop_last());
        assert(is_ascii_digit(t[t.len() - 1]));
    }
}

proof fn lemma_digits_i32_nonneg(t: Seq<char>)
    ensures
        digits_i32(t) matches Some(x) ==> x >= 0,
{
    if digits_i32(t) is Some {
        lemma_decimal_value_nonneg(t);
    }
}

/// Every number of a parsed tag is non-negative.
pub proof fn lemma_parsed_tag_non_negative(s: Seq<char>)
    ensures
        parsed_tag(s) matches Some((_, v)) ==> version_non_negative(v),
{
    if exists|a: int, b: int, c: int, d: int| is_preferred_split(s, a, b, c, d) {
        let (a, b, c, d) = choose|a: int, b: int, c: int, d: int|
            is_preferred_split(s, a, b, c, d);
        lemma_digits_i32_nonneg(s.subrange(a + 2, b));
        lemma_digits_i32_nonneg(s.subrange(b + 1, c));
        lemma_digits_i32_nonneg(s.subrange(c + 1, d));
        lemma_digits_i32_nonneg(s.subrange(d + 3, s.len() as int));
    }
}

/// Splits a release tag into the module name and the version; `None` when
/// the tag does not follow the grammar or a number does not fit an `i32`.
pub fn parse_tag(tag_name: &str) -> (r: Option<(String, Version)>)
    ensures
        match r {
            Some((module, version)) => parsed_tag(tag_name@) == Some((module@, version)),
            None => parsed_tag(tag_name@) is None,
        },
{
    let v = chars_of(tag_name);
    let run = digit_run_ends(&v);
    match preferred_split(&v, &run) {
        None => {
            proof {
                if exists|a: int, b: int, c: int, d: int| is_preferred_split(v@, a, b, c, d) {
                    let (a, b, c, d) = choose|a: int, b: int, c: int, d: int|
                        is_preferred_split(v@, a, b, c, d);
                    assert(is_tag_split(v@, a, b, c, d));
                }
            }
            None
        },
        Some((a, b, c, d)) => {
            proof {
                let (a2, b2, c2, d2) = choose|a2: int, b2: int, c2: int, d2: int|
                    is_preferred_split(v@, a2, b2, c2, d2);
                lemma_preferred_unique(v@, a as int, b as int, c as int, d as int, a2, b2, c2, d2);
            }
            let major = parse_digits(&v, a + 2, b);
            let minor = parse_digits(&v, b + 1, c);
            let patch = parse_digits(&v, c + 1, d);
            match (major, minor, patch) {
                (Some(major), Some(minor), Some(patch)) => {
                    let module = string_of_range(v.as_slice(), 0, a);
                    if d == v.len() {
                        Some((module, Version::Release { major, minor, patch }))
                    } else {
                        match parse_digits(&v, d + 3, v.len()) {
                            Some(number) => Some(
                                (module, Version::Candidate { major, minor, patch, number }),
                            ),
                            None => None,
                        }
                    }
                },
                _ => None,
            }
        },
    }
}

} // verus!
