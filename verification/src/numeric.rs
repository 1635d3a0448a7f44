//! Decimal digit strings and the saturating profit computation.
//!
//! Swap amounts arrive as decimal digit substrings of log lines and leave the
//! library again as a decimal string inside a success event, so both
//! directions are verified against one mathematical reading of digit
//! sequences, `decimal_value`.

use vstd::prelude::*;

verus! {

/// True for the ASCII bytes '0' through '9'.
pub open spec fn is_digit_byte(b: u8) -> bool {
    48 <= b <= 57
}

pub open spec fn all_digit_bytes(s: Seq<u8>) -> bool {
    forall|i: int| 0 <= i < s.len() ==> is_digit_byte(#[trigger] s[i])
}

/// The number denoted by a sequence of decimal digit bytes, most significant
/// digit first. Meaningful only when `all_digit_bytes` holds.
pub open spec fn decimal_value(s: Seq<u8>) -> nat
    decreases s.len(),
{
    if s.len() == 0 {
        0
    } else {
        (decimal_value(s.drop_last()) * 10 + (s.last() - 48)) as nat
    }
}

/// The decimal digit bytes of `n`, most significant first, with no leading
/// zero except for `n == 0` itself.
pub open spec fn decimal_digits(n: nat) -> Seq<u8>
    decreases n,
{
    if n < 10 {
        seq![(48 + n) as u8]
    } else {
        decimal_digits(n / 10).push((48 + n % 10) as u8)
    }
}

/// Digit bytes read as the characters of a string.
pub open spec fn digits_to_chars(s: Seq<u8>) -> Seq<char> {
    s.map_values(|b: u8| b as char)
}

/// One step of reading digits left to right: the value of a prefix one digit
/// longer.
proof fn lemma_decimal_value_step(s: Seq<u8>, i: int)
    requires
        0 <= i < s.len(),
        is_digit_byte(s[i]),
    ensures
        decimal_value(s.subrange(0, i + 1)) == decimal_value(s.subrange(0, i)) * 10 + (s[i] - 48),
{
    assert(s.subrange(0, i + 1).drop_last() =~= s.subrange(0, i));
    assert(s.subrange(0, i + 1).last() == s[i]);
}

/// Reading more digits never shrinks the value.
proof fn lemma_decimal_value_prefix_le(s: Seq<u8>, i: int)
    requires
        0 <= i <= s.len(),
        all_digit_bytes(s),
    ensures
        decimal_value(s.subrange(0, i)) <= decimal_value(s),
    decreases s.len() - i,
{
    if i == s.len() {
        assert(s.subrange(0, i) =~= s);
    } else {
        lemma_decimal_value_step(s, i);
        assert(decimal_value(s.subrange(0, i)) <= decimal_value(s.subrange(0, i)) * 10 + (s[i]
            - 48));
        lemma_decimal_value_prefix_le(s, i + 1);
    }
}

/// Parses a decimal digit string into a 128-bit integer, as `str::parse`
/// does: it fails on an empty input, on any byte that is not a digit, and on
/// a value above `u128::MAX`.
pub fn parse_decimal_u128(s: &Vec<u8>) -> (r: Option<u128>)
    ensures
        r is Some <==> (s@.len() > 0 && all_digit_bytes(s@) && decimal_value(s@) <= u128::MAX),
        r matches Some(v) ==> v == decimal_value(s@),
{
    if s.len() == 0 {
        return None;
    }
    let mut acc: u128 = 0;
    let mut i: usize = 0;
    while i < s.len()
        invariant
            0 <= i <= s@.len(),
            all_digit_bytes(s@.subrange(0, i as int)),
            acc == decimal_value(s@.subrange(0, i as int)),
        decreases s@.len() - i,
    {
        let b = s[i];
        if b < 48 || b > 57 {
            assert(!is_digit_byte(s@[i as int]));
            return None;
        }
        proof {
            lemma_decimal_value_step(s@, i as int);
        }
        let shifted = match acc.checked_mul(10) {
            Some(x) => x,
            None => {
                proof {
                    if all_digit_bytes(s@) {
                        lemma_decimal_value_prefix_le(s@, i as int + 1);
                    }
                }
                return None;
            },
        };
        let next = match shifted.checked_add((b - 48) as u128) {
            Some(x) => x,
            None => {
                proof {
                    if all_digit_bytes(s@) {
                        lemma_decimal_value_prefix_le(s@, i as int + 1);
                    }
                }
                return None;
            },
        };
        acc = next;
        i = i + 1;
    }
    proof {
        assert(s@.subrange(0, i as int) =~= s@);
    }
    Some(acc)
}

/// Relies on `String::from_utf8`: ASCII bytes decode to exactly the same
/// code points, one character per byte.
#[verifier::external_body]
fn ascii_bytes_to_string(v: Vec<u8>) -> (s: String)
    requires
        forall|i: int| 0 <= i < v@.len() ==> v@[i] < 128,
    ensures
        s@ == v@.map_values(|b: u8| b as char),
{
    String::from_utf8(v).unwrap_or_default()
}

/// Every byte that `decimal_digits` produces is a decimal digit.
proof fn lemma_decimal_digits_are_digits(n: nat)
    ensures
        all_digit_bytes(decimal_digits(n)),
        decimal_digits(n).len() >= 1,
    decreases n,
{
    if n >= 10 {
        lemma_decimal_digits_are_digits(n / 10);
    }
}

/// `decimal_digits` is a right inverse of `decimal_value`: formatting a
/// number and reading the digits back yields the number.
pub proof fn lemma_decimal_round_trip(n: nat)
    ensures
        decimal_value(decimal_digits(n)) == n,
    decreases n,
{
    if n < 10 {
        assert(decimal_digits(n).drop_last() =~= Seq::<u8>::empty());
        assert(decimal_digits(n).last() == (48 + n) as u8);
        assert((48 + n) as u8 == 48 + n);
        assert(decimal_value(decimal_digits(n)) == (decimal_value(Seq::<u8>::empty()) * 10 + ((48
            + n) as u8 - 48)) as nat);
    } else {
        lemma_decimal_round_trip(n / 10);
        assert(decimal_digits(n).drop_last() =~= decimal_digits(n / 10));
        assert(decimal_digits(n).last() == (48 + n % 10) as u8);
        assert(0 <= n % 10 < 10) by {
            vstd::arithmetic::div_mod::lemma_mod_bound(n as int, 10);
        }
        assert((48 + n % 10) as u8 == 48 + n % 10);
        assert(n / 10 * 10 + n % 10 == n) by {
            vstd::arithmetic::div_mod::lemma_fundamental_div_mod(n as int, 10);
        }
    }
}

/// Formats a number as its decimal digit string, the inverse of
/// `parse_decimal_u128` on canonical digit strings.
pub fn u128_to_decimal(n: u128) -> (s: String)
    ensures
        s@ == digits_to_chars(decimal_digits(n as nat)),
{
    let mut rev: Vec<u8> = Vec::new();
    let mut rest: u128 = n;
    while rest >= 10
        invariant
            decimal_digits(n as nat) =~= decimal_digits(rest as nat) + rev@.reverse(),
            all_digit_bytes(rev@),
        decreases rest,
    {
        let digit: u8 = (rest % 10) as u8 + 48;
        proof {
            assert(decimal_digits(rest as nat) =~= decimal_digits(
                (rest as nat) / 10,
            ).push(digit));
            assert((rev@.push(digit)).reverse() =~= seq![digit] + rev@.reverse());
            assert(decimal_digits((rest as nat) / 10) + (seq![digit] + rev@.reverse())
                =~= (decimal_digits((rest as nat) / 10).push(digit)) + rev@.reverse());
        }
        rev.push(digit);
        rest = rest / 10;
    }
    let mut out: Vec<u8> = Vec::new();
    out.push((rest as u8) + 48);
    proof {
        assert(decimal_digits(rest as nat) =~= seq![((rest as u8) + 48) as u8]);
        assert(out@ =~= decimal_digits(rest as nat));
    }
    let mut j: usize = rev.len();
    while j > 0
        invariant
            0 <= j <= rev@.len(),
            all_digit_bytes(rev@),
            out@ =~= decimal_digits(rest as nat) + rev@.reverse().subrange(
                0,
                rev@.len() - j,
            ),
        decreases j,
    {
        let b = rev[j - 1];
        out.push(b);
        proof {
            assert(rev@.reverse()[rev@.len() - j] == rev@[j - 1]);
            assert(rev@.reverse().subrange(0, rev@.len() - (j - 1)) =~= rev@.reverse().subrange(
                0,
                rev@.len() - j,
            ).push(rev@[j - 1]));
        }
        j = j - 1;
    }
    proof {
        assert(rev@.reverse().subrange(0, rev@.len() as int) =~= rev@.reverse());
        assert(out@ =~= decimal_digits(n as nat));
        lemma_decimal_digits_are_digits(n as nat);
        assert(forall|i: int| 0 <= i < out@.len() ==> out@[i] < 128);
    }
    ascii_bytes_to_string(out)
}

/// A number capped at what fits in 128 bits.
pub open spec fn clamp_u128(n: nat) -> u128 {
    if n <= u128::MAX {
        n as u128
    } else {
        u128::MAX
    }
}

/// A number capped at what fits in 64 bits.
pub open spec fn clamp_u64(n: nat) -> u64 {
    if n <= u64::MAX {
        n as u64
    } else {
        u64::MAX
    }
}

/// The realized profit of a swap: what came out less what went in, floored
/// at zero. Never negative and never an error, whatever the operands.
pub fn profit_amount(total_in: u128, total_out: u128) -> (r: u128)
    ensures
        r == if total_out >= total_in {
            total_out - total_in
        } else {
            0
        },
{
    total_out.saturating_sub(total_in)
}

} // verus!
