//! Small verified string helpers shared by the rest of the crate.
use vstd::prelude::*;

verus! {

/// Appends one character to a string: std's `String::push`, which by its
/// documentation adds `c` to the end of the string.
#[verifier::external_body]
pub(crate) fn push_char(s: &mut String, c: char)
    ensures
        final(s)@ == old(s)@.push(c),
{
    s.push(c);
}

/// The characters of a string slice, in order.
pub fn chars_of(s: &str) -> (v: Vec<char>)
    ensures
        v@ == s@,
{
    let n = s.unicode_len();
    let mut v: Vec<char> = Vec::new();
    let mut i: usize = 0;
    while i < n
        invariant
            n == s@.len(),
            i <= n,
            v@ == s@.subrange(0, i as int),
        decreases n - i,
    {
        let c = s.get_char(i);
        v.push(c);
        i = i + 1;
        assert(v@ =~= s@.subrange(0, i as int));
    }
    assert(v@ =~= s@);
    v
}

/// A string holding exactly the given characters.
pub fn string_of(v: &[char]) -> (s: String)
    ensures
        s@ == v@,
{
    let mut s = String::new();
    let mut i: usize = 0;
    while i < v.len()
        invariant
            i <= v@.len(),
            s@ == v@.subrange(0, i as int),
        decreases v@.len() - i,
    {
        push_char(&mut s, v[i]);
        i = i + 1;
        assert(s@ =~= v@.subrange(0, i as int));
    }
    assert(s@ =~= v@);
    s
}

/// The characters `v[from..to]` as a string.
pub fn string_of_range(v: &[char], from: usize, to: usize) -> (s: String)
    requires
        from <= to <= v@.len(),
    ensures
        s@ == v@.subrange(from as int, to as int),
{
    let mut s = String::new();
    let mut i: usize = from;
    while i < to
        invariant
            from <= i <= to <= v@.len(),
            s@ == v@.subrange(from as int, i as int),
        decreases to - i,
    {
        push_char(&mut s, v[i]);
        i = i + 1;
        assert(s@ =~= v@.subrange(from as int, i as int));
    }
    s
}

/// `a` followed by `b`, as a new string.
pub fn concat(a: &str, b: &str) -> (s: String)
    ensures
        s@ == a@ + b@,
{
    let mut s = String::from_str(a);
    s.append(b);
    s
}

/// Whether two string slices hold the same characters.
pub fn str_equal(a: &str, b: &str) -> (r: bool)
    ensures
        r == (a@ == b@),
{
    let x = chars_of(a);
    let y = chars_of(b);
    if x.len() != y.len() {
        return false;
    }
    let mut i: usize = 0;
    while i < x.len()
        invariant
            x@ == a@,
            y@ == b@,
            x@.len() == y@.len(),
            i <= x@.len(),
            forall|j: int| 0 <= j < i ==> #[trigger] x@[j] == y@[j],
        decreases x@.len() - i,
    {
        if x[i] != y[i] {
            return false;
        }
        i = i + 1;
    }
    assert(x@ =~= y@);
    true
}

// ---------------------------------------------------------------------------
// Decimal notation
// ---------------------------------------------------------------------------
/// The ASCII character of a decimal digit `0 <= d < 10`.
pub open spec fn digit_char(d: int) -> char {
    (d + 48) as char
}

/// Decimal notation of a natural number, most significant digit first, no
/// leading zeros (`0` is written `"0"`).
pub open spec fn nat_decimal(n: nat) -> Seq<char>
    decreases n,
{
    if n < 10 {
        seq![digit_char(n as int)]
    } else {
        nat_decimal(n / 10).push(digit_char((n % 10) as int))
    }
}

/// Decimal notation of an integer: a leading `-` for negative values.
pub open spec fn int_decimal(n: int) -> Seq<char> {
    if n < 0 {
        seq!['-'] + nat_decimal((-n) as nat)
    } else {
        nat_decimal(n as nat)
    }
}

fn digit_to_char(d: u64) -> (c: char)
    requires
        d < 10,
    ensures
        c == digit_char(d as int),
{
    let b: u8 = 48u8 + (d as u8);
    b as char
}

/// Appends the decimal notation of `n`.
pub fn push_nat_decimal(s: &mut String, n: u64)
    ensures
        final(s)@ == old(s)@ + nat_decimal(n as nat),
    decreases n,
{
    if n >= 10 {
        push_nat_decimal(s, n / 10);
    }
    let c = digit_to_char(n % 10);
    push_char(s, c);
    proof {
        if n >= 10 {
            assert(nat_decimal(n as nat) == nat_decimal((n / 10) as nat).push(
                digit_char((n % 10) as int),
            ));
        } else {
            assert(n % 10 == n);
        }
    }
    assert(final(s)@ =~= old(s)@ + nat_decimal(n as nat));
}

/// Appends the decimal notation of `n` (a leading `-` when negative).
pub fn push_i64_decimal(s: &mut String, n: i64)
    ensures
        final(s)@ == old(s)@ + int_decimal(n as int),
{
    if n < 0 {
        push_char(s, '-');
        let m: u64 = if n == i64::MIN {
            9223372036854775808u64
        } else {
            (-n) as u64
        };
        push_nat_decimal(s, m);
        assert(final(s)@ =~= old(s)@ + int_decimal(n as int));
    } else {
        push_nat_decimal(s, n as u64);
    }
}

/// The decimal notation of `n`.
pub fn i64_to_decimal(n: i64) -> (s: String)
    ensures
        s@ == int_decimal(n as int),
{
    let mut s = String::new();
    push_i64_decimal(&mut s, n);
    assert(s@ =~= int_decimal(n as int));
    s
}

// ---------------------------------------------------------------------------
// Character classes and comparisons
// ---------------------------------------------------------------------------
/// An ASCII decimal digit `0`..`9`.
pub open spec fn is_ascii_digit(c: char) -> bool {
    '0' <= c <= '9'
}

/// The value of an ASCII decimal digit.
pub open spec fn ascii_digit_value(c: char) -> int {
    (c as int) - 48
}

/// ASCII lower-casing; other characters are unchanged.
pub open spec fn ascii_lower(c: char) -> char {
    if 'A' <= c <= 'Z' {
        ((c as int) + 32) as char
    } else {
        c
    }
}

fn ascii_lower_exec(c: char) -> (r: char)
    ensures
        r == ascii_lower(c),
{
    if 'A' <= c && c <= 'Z' {
        let u: u32 = c as u32;
        let b: u8 = (u + 32) as u8;
        b as char
    } else {
        c
    }
}

/// Two character sequences are equal when ASCII letters are compared without
/// regard to case (std's `str::eq_ignore_ascii_case`).
pub open spec fn eq_ignore_ascii_case_spec(a: Seq<char>, b: Seq<char>) -> bool {
    &&& a.len() == b.len()
    &&& forall|i: int| 0 <= i < a.len() ==> ascii_lower(#[trigger] a[i]) == ascii_lower(b[i])
}

/// Compares two strings, ASCII letters without regard to case.
pub fn eq_ignore_ascii_case(a: &str, b: &str) -> (r: bool)
    ensures
        r == eq_ignore_ascii_case_spec(a@, b@),
{
    let x = chars_of(a);
    let y = chars_of(b);
    if x.len() != y.len() {
        return false;
    }
    let mut i: usize = 0;
    while i < x.len()
        invariant
            x@ == a@,
            y@ == b@,
            x@.len() == y@.len(),
            i <= x@.len(),
            forall|j: int| 0 <= j < i ==> ascii_lower(#[trigger] x@[j]) == ascii_lower(y@[j]),
        decreases x@.len() - i,
    {
        if ascii_lower_exec(x[i]) != ascii_lower_exec(y[i]) {
            return false;
        }
        i = i + 1;
    }
    true
}

/// `needle` occurs in `hay` starting at position `i`.
pub open spec fn occurs_at(hay: Seq<char>, needle: Seq<char>, i: int) -> bool {
    0 <= i && i + needle.len() <= hay.len() && hay.subrange(i, i + needle.len()) == needle
}

/// `needle` occurs somewhere in `hay` (std's `str::contains` with a string
/// pattern).
pub open spec fn contains_spec(hay: Seq<char>, needle: Seq<char>) -> bool {
    exists|i: int| occurs_at(hay, needle, i)
}

/// Whether `needle` occurs in `hay`.
pub fn contains(hay: &str, needle: &str) -> (r: bool)
    ensures
        r == contains_spec(hay@, needle@),
{
    let h = chars_of(hay);
    let n = chars_of(needle);
    if n.len() > h.len() {
        assert forall|i: int| !occurs_at(hay@, needle@, i) by {}
        return false;
    }
    let hl = h.len();
    let last = hl - n.len();
    let mut i: usize = 0;
    loop
        invariant
            hl == h@.len(),
            h@ == hay@,
            n@ == needle@,
            n@.len() <= h@.len(),
            last == h@.len() - n@.len(),
            i <= last,
            forall|k: int| 0 <= k < i ==> !occurs_at(hay@, needle@, k),
        ensures
            forall|k: int| 0 <= k <= last ==> !occurs_at(hay@, needle@, k),
        decreases last - i,
    {
        let mut j: usize = 0;
        let mut ok = true;
        while j < n.len()
            invariant
                h@ == hay@,
                n@ == needle@,
                n@.len() <= h@.len(),
                hl == h@.len(),
                i <= last,
                last == h@.len() - n@.len(),
                j <= n@.len(),
                ok ==> forall|t: int| 0 <= t < j ==> h@[i + t] == n@[t],
                !ok ==> !occurs_at(hay@, needle@, i as int),
            decreases n@.len() - j,
        {
            assert(i + j < h@.len());
            if h[i + j] != n[j] {
                ok = false;
                assert(hay@.subrange(i as int, i + needle@.len())[j as int] != needle@[j as int]);
            }
            j = j + 1;
        }
        if ok {
            assert(hay@.subrange(i as int, i + needle@.len()) =~= needle@);
            assert(occurs_at(hay@, needle@, i as int));
            return true;
        }
        if i == last {
            break;
        }
        i = i + 1;
    }
    assert forall|k: int| !occurs_at(hay@, needle@, k) by {
        if 0 <= k && k + needle@.len() <= hay@.len() {
            assert(k <= last);
        }
    }
    false
}

// ---------------------------------------------------------------------------
// White space and trimming
// ---------------------------------------------------------------------------
/// The Unicode `White_Space` characters, which std's `char::is_whitespace`
/// recognises.
pub open spec fn is_white_space(c: char) -> bool {
    ||| '\u{9}' <= c <= '\u{d}'
    ||| c == ' '
    ||| c == '\u{85}'
    ||| c == '\u{a0}'
    ||| c == '\u{1680}'
    ||| '\u{2000}' <= c <= '\u{200a}'
    ||| c == '\u{2028}'
    ||| c == '\u{2029}'
    ||| c == '\u{202f}'
    ||| c == '\u{205f}'
    ||| c == '\u{3000}'
}

fn is_white_space_exec(c: char) -> (r: bool)
    ensures
        r == is_white_space(c),
{
    ('\u{9}' <= c && c <= '\u{d}') || c == ' ' || c == '\u{85}' || c == '\u{a0}' || c
        == '\u{1680}' || ('\u{2000}' <= c && c <= '\u{200a}') || c == '\u{2028}' || c
        == '\u{2029}' || c == '\u{202f}' || c == '\u{205f}' || c == '\u{3000}'
}

/// `s` with leading and trailing white space removed (std's `str::trim`):
/// `s[start..end]`, where `start` is the first and `end - 1` the last
/// position holding a non-white-space character; empty when there is none.
pub open spec fn trimmed(s: Seq<char>) -> Seq<char> {
    if exists|i: int| 0 <= i < s.len() && !is_white_space(#[trigger] s[i]) {
        let start = choose|i: int|
            0 <= i < s.len() && !is_white_space(#[trigger] s[i]) && forall|j: int|
                0 <= j < i ==> is_white_space(#[trigger] s[j]);
        let end = choose|e: int|
            0 < e <= s.len() && !is_white_space(#[trigger] s[e - 1]) && forall|j: int|
                e <= j < s.len() ==> is_white_space(#[trigger] s[j]);
        s.subrange(start, end)
    } else {
        Seq::empty()
    }
}

/// `s` without leading and trailing white space.
pub fn trim(s: &str) -> (r: String)
    ensures
        r@ == trimmed(s@),
{
    let v = chars_of(s);
    let n = v.len();
    let mut start: usize = 0;
    while start < n && is_white_space_exec(v[start])
        invariant
            v@ == s@,
            n == v@.len(),
            start <= n,
            forall|j: int| 0 <= j < start ==> is_white_space(#[trigger] v@[j]),
        decreases n - start,
    {
        start = start + 1;
    }
    if start == n {
        assert(!exists|i: int| 0 <= i < s@.len() && !is_white_space(#[trigger] s@[i]));
        return String::new();
    }
    let mut end: usize = n;
    while end > start && is_white_space_exec(v[end - 1])
        invariant
            v@ == s@,
            n == v@.len(),
            start < n,
            !is_white_space(v@[start as int]),
            start < end <= n,
            forall|j: int| end <= j < n ==> is_white_space(#[trigger] v@[j]),
        decreases end,
    {
        end = end - 1;
    }
    proof {
        let st = choose|i: int|
            0 <= i < s@.len() && !is_white_space(#[trigger] s@[i]) && forall|j: int|
                0 <= j < i ==> is_white_space(#[trigger] s@[j]);
        assert(0 <= start < s@.len() && !is_white_space(s@[start as int]) && forall|j: int|
            0 <= j < start ==> is_white_space(#[trigger] s@[j]));
        if st < start {
            assert(is_white_space(s@[st]));
        }
        if st > start {
            assert(is_white_space(s@[start as int]));
        }
        let en = choose|e: int|
            0 < e <= s@.len() && !is_white_space(#[trigger] s@[e - 1]) && forall|j: int|
                e <= j < s@.len() ==> is_white_space(#[trigger] s@[j]);
        assert(0 < end <= s@.len() && !is_white_space(s@[end - 1]) && forall|j: int|
            end <= j < s@.len() ==> is_white_space(#[trigger] s@[j]));
        if en < end {
            assert(is_white_space(s@[end - 1]));
        }
        if en > end {
            assert(is_white_space(s@[en - 1]));
        }
    }
    string_of_range(v.as_slice(), start, end)
}

// ---------------------------------------------------------------------------
// Ordering of strings
// ---------------------------------------------------------------------------
/// Lexicographic order on character sequences, which is the order of
/// `String`'s `Ord` (UTF-8 byte order agrees with code point order).
pub open spec fn seq_lt(a: Seq<char>, b: Seq<char>) -> bool {
    exists|k: int|
        0 <= k <= a.len() && k <= b.len() && a.subrange(0, k) == b.subrange(0, k) && (
        (k == a.len() && k < b.len()) || (k < a.len() && k < b.len() && (a[k] as u32) < (
        b[k] as u32)))
}

/// The position of the first difference of `a` and `b`, or the length of the
/// shorter one when one is a prefix of the other.
pub open spec fn first_difference(a: Seq<char>, b: Seq<char>, k: int) -> bool {
    &&& 0 <= k <= a.len()
    &&& k <= b.len()
    &&& a.subrange(0, k) == b.subrange(0, k)
    &&& (k == a.len() || k == b.len() || a[k] != b[k])
}

/// Whether `a` comes strictly before `b` in lexicographic order.
pub fn str_less(a: &str, b: &str) -> (r: bool)
    ensures
        r == seq_lt(a@, b@),
{
    let x = chars_of(a);
    let y = chars_of(b);
    let mut k: usize = 0;
    while k < x.len() && k < y.len() && x[k] == y[k]
        invariant
            x@ == a@,
            y@ == b@,
            k <= x@.len(),
            k <= y@.len(),
            x@.subrange(0, k as int) == y@.subrange(0, k as int),
        decreases x@.len() - k,
    {
        assert(x@.subrange(0, k + 1) =~= x@.subrange(0, k as int).push(x@[k as int]));
        assert(y@.subrange(0, k + 1) =~= y@.subrange(0, k as int).push(y@[k as int]));
        k = k + 1;
    }
    let r = if k == x.len() {
        k < y.len()
    } else if k == y.len() {
        false
    } else {
        (x[k] as u32) < (y[k] as u32)
    };
    proof {
        lemma_seq_lt_at(a@, b@, k as int);
    }
    r
}

/// Lexicographic order is decided at the first difference.
pub proof fn lemma_seq_lt_at(a: Seq<char>, b: Seq<char>, k: int)
    requires
        first_difference(a, b, k),
    ensures
        seq_lt(a, b) == ((k == a.len() && k < b.len()) || (k < a.len() && k < b.len() && (
        a[k] as u32) < (b[k] as u32))),
{
    if seq_lt(a, b) {
        let m = choose|m: int|
            0 <= m <= a.len() && m <= b.len() && a.subrange(0, m) == b.subrange(0, m) && ((m
                == a.len() && m < b.len()) || (m < a.len() && m < b.len() && (a[m] as u32) < (
            b[m] as u32)));
        if m < k {
            assert(a.subrange(0, k)[m] == b.subrange(0, k)[m]);
        }
        if m > k {
            assert(a.subrange(0, m)[k] == b.subrange(0, m)[k]);
        }
    }
}

/// The first position where `a` and `b` differ (or the shorter length).
pub proof fn first_difference_index(a: Seq<char>, b: Seq<char>) -> (k: int)
    ensures
        first_difference(a, b, k),
    decreases a.len(),
{
    if a.len() == 0 || b.len() == 0 || a[0] != b[0] {
        assert(a.subrange(0, 0) =~= b.subrange(0, 0));
        0
    } else {
        let k1 = first_difference_index(a.drop_first(), b.drop_first());
        assert(a.subrange(0, k1 + 1) =~= seq![a[0]] + a.drop_first().subrange(0, k1));
        assert(b.subrange(0, k1 + 1) =~= seq![b[0]] + b.drop_first().subrange(0, k1));
        if k1 < a.drop_first().len() && k1 < b.drop_first().len() {
            assert(a[k1 + 1] == a.drop_first()[k1]);
            assert(b[k1 + 1] == b.drop_first()[k1]);
        }
        k1 + 1
    }
}

/// No sequence comes before itself.
pub proof fn lemma_seq_lt_irreflexive(a: Seq<char>)
    ensures
        !seq_lt(a, a),
{
    let k = first_difference_index(a, a);
    lemma_seq_lt_at(a, a, k);
}

/// Of two different sequences, one comes before the other, and never both.
pub proof fn lemma_seq_lt_total(a: Seq<char>, b: Seq<char>)
    ensures
        a != b ==> (seq_lt(a, b) || seq_lt(b, a)),
        !(seq_lt(a, b) && seq_lt(b, a)),
{
    let k = first_difference_index(a, b);
    lemma_seq_lt_at(a, b, k);
    assert(first_difference(b, a, k));
    lemma_seq_lt_at(b, a, k);
    if k == a.len() && k == b.len() {
        assert(a =~= a.subrange(0, k));
        assert(b =~= b.subrange(0, k));
    } else if k < a.len() && k < b.len() {
        vstd::utf8::char_u32_cast(a[k], a[k] as u32);
        vstd::utf8::char_u32_cast(b[k], b[k] as u32);
        assert((a[k] as u32) != (b[k] as u32));
    }
}

/// Lexicographic order is transitive.
pub proof fn lemma_seq_lt_transitive(a: Seq<char>, b: Seq<char>, c: Seq<char>)
    requires
        seq_lt(a, b),
        seq_lt(b, c),
    ensures
        seq_lt(a, c),
{
    let k1 = first_difference_index(a, b);
    let k2 = first_difference_index(b, c);
    lemma_seq_lt_at(a, b, k1);
    lemma_seq_lt_at(b, c, k2);
    let m = if k1 < k2 {
        k1
    } else {
        k2
    };
    assert forall|i: int| 0 <= i < m implies a[i] == c[i] by {
        assert(a.subrange(0, k1)[i] == b.subrange(0, k1)[i]);
        assert(b.subrange(0, k2)[i] == c.subrange(0, k2)[i]);
    }
    assert(a.subrange(0, m) =~= c.subrange(0, m));
    if k1 < k2 {
        assert(b.subrange(0, k2)[k1] == c.subrange(0, k2)[k1]);
    } else if k2 < k1 {
        assert(a.subrange(0, k1)[k2] == b.subrange(0, k1)[k2]);
    }
    assert(first_difference(a, c, m));
    lemma_seq_lt_at(a, c, m);
}

} // verus!

verus! {

// ---------------------------------------------------------------------------
// Adjacent character pairs
// ---------------------------------------------------------------------------
/// No `a` in `s` is directly followed by `b`.
pub open spec fn lacks_pair(s: Seq<char>, a: char, b: char) -> bool {
    forall|p: int| 0 <= p && p + 1 < s.len() ==> !(#[trigger] s[p] == a && s[p + 1] == b)
}

/// Joining two texts without the pair, where the seam does not form it,
/// gives a text without the pair.
pub proof fn lemma_lacks_pair_concat(x: Seq<char>, y: Seq<char>, a: char, b: char)
    requires
        lacks_pair(x, a, b),
        lacks_pair(y, a, b),
        !(x.len() > 0 && y.len() > 0 && x[x.len() - 1] == a && y[0] == b),
    ensures
        lacks_pair(x + y, a, b),
{
    let s = x + y;
    assert forall|p: int| 0 <= p && p + 1 < s.len() implies !(#[trigger] s[p] == a && s[p + 1]
        == b) by {
        if p + 1 < x.len() {
            assert(s[p] == x[p] && s[p + 1] == x[p + 1]);
        } else if p >= x.len() {
            assert(s[p] == y[p - x.len()] && s[p + 1] == y[p + 1 - x.len()]);
        } else {
            assert(s[p] == x[x.len() - 1] && s[p + 1] == y[0]);
        }
    }
}

/// A text that lacks a pair of adjacent characters holds no text that has
/// that pair.
pub proof fn lemma_pair_excludes(s: Seq<char>, needle: Seq<char>, a: char, b: char, k: int)
    requires
        lacks_pair(s, a, b),
        0 <= k,
        k + 1 < needle.len(),
        needle[k] == a,
        needle[k + 1] == b,
    ensures
        !contains_spec(s, needle),
{
    if contains_spec(s, needle) {
        let i = choose|i: int| occurs_at(s, needle, i);
        assert(s.subrange(i, i + needle.len())[k] == s[i + k]);
        assert(s.subrange(i, i + needle.len())[k + 1] == s[i + k + 1]);
    }
}

/// A text holds the texts it is made of.
pub proof fn lemma_contains_middle(x: Seq<char>, needle: Seq<char>, y: Seq<char>)
    ensures
        contains_spec(x + needle + y, needle),
{
    let s = x + needle + y;
    assert(s.subrange(x.len() as int, (x.len() + needle.len()) as int) =~= needle);
    assert(occurs_at(s, needle, x.len() as int));
}

} // verus!
