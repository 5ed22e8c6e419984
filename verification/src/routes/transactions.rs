//! Transaction identifiers: base-62 text, 11 characters per signed 64-bit
//! number (the first two numbers are the internal id and the creation time in
//! seconds since the Unix epoch).
use vstd::prelude::*;

use chrono::NaiveDateTime;

use crate::text::{chars_of, concat};
use crate::time::{timestamp_in_range, utc_date_time, utc_from_timestamp};

verus! {

/// The value of a base-62 digit: `0`-`9`, then `A`-`Z`, then `a`-`z`.
pub open spec fn base62_digit(c: char) -> Option<int> {
    if '0' <= c <= '9' {
        Some((c as int) - 48)
    } else if 'A' <= c <= 'Z' {
        Some(10 + (c as int) - 65)
    } else if 'a' <= c <= 'z' {
        Some(36 + (c as int) - 97)
    } else {
        None
    }
}

/// The value of a base-62 digit character.
pub fn digit_index(ch: char) -> (r: Option<u32>)
    ensures
        match r {
            Some(d) => base62_digit(ch) == Some(d as int),
            None => base62_digit(ch) is None,
        },
{
    if '0' <= ch && ch <= '9' {
        Some((ch as u32) - 48)
    } else if 'A' <= ch && ch <= 'Z' {
        Some(10 + (ch as u32) - 65)
    } else if 'a' <= ch && ch <= 'z' {
        Some(36 + (ch as u32) - 97)
    } else {
        None
    }
}

/// Every character of `cs` is a base-62 digit.
pub open spec fn all_base62(cs: Seq<char>) -> bool {
    forall|i: int| 0 <= i < cs.len() ==> (#[trigger] base62_digit(cs[i])) is Some
}

/// The number that the digits `cs` continue after the leading value `lead`
/// (most significant first).
pub open spec fn base62_after(lead: int, cs: Seq<char>) -> int
    decreases cs.len(),
{
    if cs.len() == 0 {
        lead
    } else {
        base62_after(lead, cs.drop_last()) * 62 + base62_digit(cs.last())->0
    }
}

/// The number that 11 characters stand for: the first digit carries the sign
/// (31 and above mean negative, less 31) and the leading digit of the
/// magnitude; `None` for a wrong length, a character that is no digit, or a
/// magnitude beyond `i64::MAX`.
pub open spec fn decode_long_spec(chunk: Seq<char>) -> Option<i64> {
    if chunk.len() != 11 || !all_base62(chunk) {
        None
    } else {
        let d0 = base62_digit(chunk[0])->0;
        let negative = d0 >= 31;
        let lead = if negative {
            d0 - 31
        } else {
            d0
        };
        let m = base62_after(lead, chunk.drop_first());
        if m > i64::MAX {
            None
        } else if negative {
            Some((-m) as i64)
        } else {
            Some(m as i64)
        }
    }
}

/// The numbers that a text stands for, 11 characters each; `None` when a
/// group does not decode or the length is no multiple of 11.
pub open spec fn decode_chunks(cs: Seq<char>) -> Option<Seq<i64>>
    decreases cs.len(),
{
    if cs.len() == 0 {
        Some(Seq::empty())
    } else if cs.len() < 11 {
        None
    } else {
        match (decode_long_spec(cs.take(11)), decode_chunks(cs.skip(11))) {
            (Some(v), Some(rest)) => Some(seq![v] + rest),
            _ => None,
        }
    }
}

/// Decodes one group of characters: `None` unless it has exactly 11
/// characters that all decode, with a magnitude that fits an `i64`.
pub fn decode_long_11(chunk: &[char]) -> (r: Option<i64>)
    ensures
        r == decode_long_spec(chunk@),
{
    if chunk.len() != 11 {
        return None;
    }
    assert(chunk@.subrange(0, 11) =~= chunk@);
    decode_group(chunk, 0)
}

/// Decodes the 11 characters `cs[from..from + 11]`.
fn decode_group(cs: &[char], from: usize) -> (r: Option<i64>)
    requires
        from + 11 <= cs@.len(),
    ensures
        r == decode_long_spec(cs@.subrange(from as int, from + 11)),
{
    let ghost chunk = cs@.subrange(from as int, from + 11);
    let mut digit = match digit_index(cs[from]) {
        Some(d) => d,
        None => {
            return None;
        },
    };
    let negative = digit >= 31;
    if negative {
        digit = digit - 31;
    }
    let ghost lead = digit as int;
    let mut value: i64 = digit as i64;
    let len = cs.len();
    let mut i: usize = 1;
    while i < 11
        invariant
            1 <= i <= 11,
            len == cs@.len(),
            from + 11 <= cs@.len(),
            chunk == cs@.subrange(from as int, from + 11),
            base62_digit(chunk[0]) is Some,
            lead == (if base62_digit(chunk[0])->0 >= 31 {
                base62_digit(chunk[0])->0 - 31
            } else {
                base62_digit(chunk[0])->0
            }),
            negative == (base62_digit(chunk[0])->0 >= 31),
            forall|k: int| 1 <= k < i ==> (#[trigger] base62_digit(chunk[k])) is Some,
            value == base62_after(lead, chunk.subrange(1, i as int)),
            0 <= value,
        decreases 11 - i,
    {
        let d = match digit_index(cs[from + i]) {
            Some(d) => d,
            None => {
                assert(base62_digit(chunk[i as int]) is None);
                return None;
            },
        };
        assert(chunk.subrange(1, i + 1).drop_last() =~= chunk.subrange(1, i as int));
        assert(chunk.subrange(1, i + 1).last() == chunk[i as int]);
        let next = match value.checked_mul(62) {
            Some(x) => x.checked_add(d as i64),
            None => None,
        };
        match next {
            Some(x) => {
                value = x;
            },
            None => {
                proof {
                    lemma_base62_after_grows(lead, chunk, i as int + 1);
                }
                return None;
            },
        }
        i = i + 1;
    }
    assert(chunk.subrange(1, 11) =~= chunk.drop_first());
    if negative {
        Some(-value)
    } else {
        Some(value)
    }
}

/// Continuing with more digits never lowers the value.
proof fn lemma_base62_after_grows(lead: int, chunk: Seq<char>, j: int)
    requires
        lead >= 0,
        chunk.len() == 11,
        1 <= j <= 11,
        forall|k: int| 1 <= k < j ==> (#[trigger] base62_digit(chunk[k])) is Some,
    ensures
        all_base62(chunk) ==> base62_after(lead, chunk.drop_first()) >= base62_after(
            lead,
            chunk.subrange(1, j),
        ),
        base62_after(lead, chunk.subrange(1, j)) >= 0,
    decreases 11 - j,
{
    lemma_base62_after_nonneg(lead, chunk.subrange(1, j));
    if j < 11 {
        if all_base62(chunk) {
            assert(base62_digit(chunk[j]) is Some);
            lemma_base62_after_grows(lead, chunk, j + 1);
            assert(chunk.subrange(1, j + 1).drop_last() =~= chunk.subrange(1, j));
            assert(chunk.subrange(1, j + 1).last() == chunk[j]);
            assert(base62_digit(chunk[j])->0 >= 0);
        }
    } else {
        assert(chunk.subrange(1, 11) =~= chunk.drop_first());
    }
}

proof fn lemma_base62_after_nonneg(lead: int, cs: Seq<char>)
    requires
        lead >= 0,
        forall|k: int| 0 <= k < cs.len() ==> (#[trigger] base62_digit(cs[k])) is Some,
    ensures
        base62_after(lead, cs) >= 0,
    decreases cs.len(),
{
    if cs.len() > 0 {
        lemma_base62_after_nonneg(lead, cs.drop_last());
        assert(base62_digit(cs[cs.len() - 1]) is Some);
    }
}

/// Decodes a text of 11-character groups into numbers.
pub fn decode_array(input: &str) -> (r: Option<Vec<i64>>)
    ensures
        match r {
            Some(v) => decode_chunks(input@) == Some(v@),
            None => decode_chunks(input@) is None,
        },
{
    let cs = chars_of(input);
    let n = cs.len();
    let mut out: Vec<i64> = Vec::new();
    let mut pos: usize = 0;
    assert(cs@.skip(0) =~= cs@);
    proof {
        match decode_chunks(cs@) {
            Some(rest) => {
                assert(out@ + rest =~= rest);
            },
            None => {},
        }
    }
    while pos < n
        invariant
            cs@ == input@,
            n == cs@.len(),
            pos <= n,
            decode_chunks(input@) == match decode_chunks(cs@.skip(pos as int)) {
                Some(rest) => Some(out@ + rest),
                None => None,
            },
        decreases n - pos,
    {
        let ghost tail = cs@.skip(pos as int);
        if n - pos < 11 {
            assert(decode_chunks(tail) is None);
            return None;
        }
        assert(tail.take(11) =~= cs@.subrange(pos as int, pos + 11));
        assert(tail.skip(11) =~= cs@.skip(pos + 11));
        match decode_group(cs.as_slice(), pos) {
            Some(v) => {
                let ghost before = out@;
                out.push(v);
                proof {
                    match decode_chunks(cs@.skip(pos + 11)) {
                        Some(rest) => {
                            assert(before + (seq![v] + rest) =~= out@ + rest);
                        },
                        None => {},
                    }
                }
            },
            None => {
                return None;
            },
        }
        pos = pos + 11;
    }
    assert(cs@.skip(pos as int) =~= Seq::<char>::empty());
    assert(out@ + Seq::<i64>::empty() =~= out@);
    Some(out)
}

/// The character of a base-62 digit value `0 <= d < 62`.
pub open spec fn base62_char(d: int) -> char {
    if d < 10 {
        (48 + d) as char
    } else if d < 36 {
        (65 + d - 10) as char
    } else {
        (97 + d - 36) as char
    }
}

/// `62` to the power `k`.
pub open spec fn pow62(k: nat) -> int
    decreases k,
{
    if k == 0 {
        1
    } else {
        62 * pow62((k - 1) as nat)
    }
}

/// The `k` lowest base-62 digits of `m`, most significant first.
pub open spec fn low_digits(m: int, k: nat) -> Seq<char>
    decreases k,
{
    if k == 0 {
        Seq::empty()
    } else {
        low_digits(m / 62, (k - 1) as nat).push(base62_char(m % 62))
    }
}

/// The 11 characters that stand for `v` (the encoding that the decoder
/// reads): the magnitude's 10 lowest base-62 digits after a leading digit
/// holding the rest of the magnitude, raised by 31 when `v` is negative.
pub open spec fn encode_long_spec(v: i64) -> Seq<char> {
    let m = if v < 0 {
        -(v as int)
    } else {
        v as int
    };
    let first = m / pow62(10) + if v < 0 {
        31int
    } else {
        0int
    };
    seq![base62_char(first)] + low_digits(m, 10)
}

proof fn lemma_base62_char_digit(d: int)
    requires
        0 <= d < 62,
    ensures
        base62_digit(base62_char(d)) == Some(d),
{
}

proof fn lemma_pow62_positive(k: nat)
    ensures
        pow62(k) > 0,
    decreases k,
{
    if k > 0 {
        lemma_pow62_positive((k - 1) as nat);
    }
}

proof fn lemma_low_digits(lead: int, m: int, k: nat)
    requires
        m >= 0,
    ensures
        low_digits(m, k).len() == k,
        all_base62(low_digits(m, k)),
        base62_after(lead, low_digits(m, k)) == lead * pow62(k) + m % pow62(k),
    decreases k,
{
    if k == 0 {
        assert(m % 1 == 0);
    } else {
        let k1 = (k - 1) as nat;
        let q = m / 62;
        let r = m % 62;
        assert(q >= 0 && 0 <= r < 62) by {
            vstd::arithmetic::div_mod::lemma_div_pos_is_pos(m, 62);
            vstd::arithmetic::div_mod::lemma_mod_pos_bound(m, 62);
        }
        lemma_low_digits(lead, q, k1);
        lemma_pow62_positive(k1);
        let d = low_digits(m, k);
        assert(d.drop_last() =~= low_digits(q, k1));
        assert(d.last() == base62_char(r));
        lemma_base62_char_digit(r);
        assert forall|i: int| 0 <= i < d.len() implies (#[trigger] base62_digit(d[i])) is Some by {
            if i < d.len() - 1 {
                assert(d[i] == low_digits(q, k1)[i]);
            }
        }
        let p = pow62(k1);
        assert(m % (62 * p) == 62 * (q % p) + r) by {
            vstd::arithmetic::div_mod::lemma_mod_breakdown(m, 62, p);
        }
        assert((lead * p + q % p) * 62 + r == lead * (62 * p) + (62 * (q % p) + r)) by (nonlinear_arith);
    }
}

proof fn lemma_pow62_10()
    ensures
        pow62(10) == 839299365868340224,
{
    reveal_with_fuel(pow62, 11);
}

/// Decoding the encoding of a number gives the number back, for every number
/// but `i64::MIN` (whose magnitude exceeds `i64::MAX`, so its encoding does
/// not decode).
pub proof fn law_base62_round_trip(v: i64)
    ensures
        v != i64::MIN ==> decode_long_spec(encode_long_spec(v)) == Some(v),
        v == i64::MIN ==> decode_long_spec(encode_long_spec(v)) is None,
{
    let m = if v < 0 {
        -(v as int)
    } else {
        v as int
    };
    lemma_pow62_10();
    let p = pow62(10);
    let lead = m / p;
    assert(0 <= lead <= 10) by {
        vstd::arithmetic::div_mod::lemma_div_pos_is_pos(m, p);
        assert(m < 11 * p);
        vstd::arithmetic::div_mod::lemma_fundamental_div_mod(m, p);
        vstd::arithmetic::div_mod::lemma_mod_pos_bound(m, p);
        assert(p * lead <= m) by (nonlinear_arith)
            requires
                m == p * lead + m % p,
                m % p >= 0,
        ;
        if lead > 10 {
            assert(p * lead >= p * 11) by (nonlinear_arith)
                requires
                    lead >= 11,
                    p > 0,
            ;
        }
    }
    let first = lead + if v < 0 {
        31int
    } else {
        0int
    };
    let e = encode_long_spec(v);
    lemma_low_digits(lead, m, 10);
    lemma_base62_char_digit(first);
    assert(e.drop_first() =~= low_digits(m, 10));
    assert forall|i: int| 0 <= i < e.len() implies (#[trigger] base62_digit(e[i])) is Some by {
        if i > 0 {
            assert(e[i] == low_digits(m, 10)[i - 1]);
        }
    }
    assert(base62_after(lead, e.drop_first()) == m) by {
        vstd::arithmetic::div_mod::lemma_fundamental_div_mod(m, p);
        assert(lead * p == p * lead) by (nonlinear_arith);
    }
}

/// A transaction id made of the encodings of an internal id and a creation
/// time decodes to exactly these two numbers (neither may be `i64::MIN`).
pub proof fn law_transaction_id_round_trip(internal_id: i64, seconds: i64)
    requires
        internal_id != i64::MIN,
        seconds != i64::MIN,
    ensures
        decode_chunks(encode_long_spec(internal_id) + encode_long_spec(seconds)) == Some(
            seq![internal_id, seconds],
        ),
        transaction_parts(encode_long_spec(internal_id) + encode_long_spec(seconds)) == Some(
            (internal_id, seconds),
        ),
{
    law_base62_round_trip(internal_id);
    law_base62_round_trip(seconds);
    let a = encode_long_spec(internal_id);
    let b = encode_long_spec(seconds);
    assert(a.len() == 11 && b.len() == 11) by {
        lemma_low_digits(0, 0, 10);
        assert(low_digits(if internal_id < 0 { -(internal_id as int) } else { internal_id as int }, 10).len() == 10) by {
            lemma_low_digits(0, if internal_id < 0 { -(internal_id as int) } else { internal_id as int }, 10);
        }
        assert(low_digits(if seconds < 0 { -(seconds as int) } else { seconds as int }, 10).len() == 10) by {
            lemma_low_digits(0, if seconds < 0 { -(seconds as int) } else { seconds as int }, 10);
        }
    }
    let ab = a + b;
    assert(ab.take(11) =~= a);
    assert(ab.skip(11) =~= b);
    assert(b.take(11) =~= b);
    assert(b.skip(11) =~= Seq::<char>::empty());
    assert(decode_chunks(b.skip(11)) == Some(Seq::<i64>::empty()));
    assert(decode_long_spec(b.take(11)) == Some(seconds));
    assert(decode_chunks(b) == Some(seq![seconds] + Seq::<i64>::empty()));
    assert(seq![seconds] + Seq::<i64>::empty() =~= seq![seconds]);
    assert(seq![internal_id] + seq![seconds] =~= seq![internal_id, seconds]);
}

/// The internal id and the creation time (seconds since the Unix epoch) that
/// a transaction id holds: the first two numbers of its text.
pub open spec fn transaction_parts(id: Seq<char>) -> Option<(i64, i64)> {
    match decode_chunks(id) {
        Some(v) => if v.len() >= 2 {
            Some((v[0], v[1]))
        } else {
            None
        },
        None => None,
    }
}

/// The internal id and creation time of a transaction id.
pub fn decode_transaction_id(id: &str) -> (r: Option<(i64, i64)>)
    ensures
        r == transaction_parts(id@),
{
    match decode_array(id) {
        Some(v) => if v.len() >= 2 {
            Some((v[0], v[1]))
        } else {
            None
        },
        None => None,
    }
}

/// The answer to an id that does not decode.
pub open spec fn invalid_transaction_text(id: Seq<char>) -> Seq<char> {
    "Invalid transaction ID: '"@ + id + "'"@
}

/// `Invalid transaction ID: '<id>'`.
pub fn invalid_transaction_message(id: &str) -> (s: String)
    ensures
        s@ == invalid_transaction_text(id@),
{
    let mut s = concat("Invalid transaction ID: '", id);
    s.append("'");
    s
}

/// A transaction: its internal id and its creation time on the server's
/// wall clock.
#[derive(Debug)]
pub struct Transaction {
    pub id: i64,
    pub created: NaiveDateTime,
}

/// What a transaction id stands for at a server whose clock is
/// `zone_offset_seconds` east of UTC: the internal id, and the creation time
/// on the server's wall clock, that is the date-time of the creation second
/// shifted by the offset (as chrono's `with_timezone(..).naive_local()` gives
/// it).  `None` when the id does not decode, or either second lies outside
/// chrono's dates.
pub open spec fn transaction_at(id: Seq<char>, zone_offset_seconds: i32) -> Option<(i64, NaiveDateTime)> {
    match transaction_parts(id) {
        Some((internal_id, seconds)) => {
            let local = seconds + zone_offset_seconds;
            if timestamp_in_range(seconds) && i64::MIN <= local <= i64::MAX && timestamp_in_range(
                local as i64,
            ) {
                Some((internal_id, utc_date_time(local as i64)))
            } else {
                None
            }
        },
        None => None,
    }
}

/// Looks up a transaction id: the internal id and the creation time at the
/// server's offset from UTC, or the message for a bad request.
pub fn lookup_transaction(id: &str, zone_offset_seconds: i32) -> (r: Result<Transaction, String>)
    ensures
        match transaction_at(id@, zone_offset_seconds) {
            Some((internal_id, created)) => r matches Ok(t) && t.id == internal_id && t.created
                == created,
            None => r matches Err(message) && message@ == invalid_transaction_text(id@),
        },
{
    match decode_transaction_id(id) {
        Some((internal_id, seconds)) => {
            if utc_from_timestamp(seconds).is_none() {
                return Err(invalid_transaction_message(id));
            }
            match seconds.checked_add(zone_offset_seconds as i64) {
                Some(local) => match utc_from_timestamp(local) {
                    Some(created) => Ok(Transaction { id: internal_id, created }),
                    None => Err(invalid_transaction_message(id)),
                },
                None => Err(invalid_transaction_message(id)),
            }
        },
        None => Err(invalid_transaction_message(id)),
    }
}

} // verus!
