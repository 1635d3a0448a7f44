//! The log parser: swap amounts read out of receipt log lines.
//!
//! A swap leaves free-form log lines such as
//! `"Swapped 100 wrap.near for 150 wrap.near"`. Two fixed patterns pick the
//! amount paid in and the amount received out of each line; every line's
//! match of each pattern is summed over all lines of the primary receipt.

use vstd::prelude::*;

use crate::numeric::all_digit_bytes;
use crate::numeric::clamp_u128;
use crate::numeric::decimal_value;
use crate::numeric::parse_decimal_u128;

verus! {

/// The pattern whose first capture group is the amount paid into a swap.
pub open spec fn swapped_from_pattern() -> Seq<char> {
    "Swapped ([0-9]*) wrap.near"@
}

/// The pattern whose first capture group is the amount received from a swap.
pub open spec fn swapped_to_pattern() -> Seq<char> {
    " for ([0-9]*) wrap.near"@
}

/// The bytes of the first capture group of the leftmost match of `pattern`
/// in `line`, or nothing when the pattern does not match (or is not a valid
/// pattern at all).
pub uninterp spec fn capture_of(pattern: Seq<char>, line: Seq<char>) -> Option<Seq<u8>>;

/// Relies on `regex::Regex::captures`: the leftmost match of a pattern in a
/// line, and the text of its first capture group, depend on the pattern and
/// the line alone.
#[verifier::external_body]
fn capture_first_group(pattern: &str, line: &str) -> (r: Option<Vec<u8>>)
    ensures
        r.deep_view() == capture_of(pattern@, line@),
{
    regex::Regex::new(pattern)
        .ok()
        .and_then(|re| re.captures(line))
        .and_then(|caps| caps.get(1))
        .map(|m| m.as_str().as_bytes().to_vec())
}

/// What one log line contributes for a pattern: its captured digits read as
/// a number, or nothing when the pattern does not match the line or the
/// captured text does not parse as a `u128`.
pub open spec fn spec_line_amount(pattern: Seq<char>, line: Seq<char>) -> Option<u128> {
    match capture_of(pattern, line) {
        Some(d) => if d.len() > 0 && all_digit_bytes(d) && decimal_value(d) <= u128::MAX {
            Some(decimal_value(d) as u128)
        } else {
            None
        },
        None => None,
    }
}

/// Reads the amount that one log line contributes for a pattern.
pub fn line_amount(pattern: &str, line: &str) -> (r: Option<u128>)
    ensures
        r == spec_line_amount(pattern@, line@),
{
    let captured = capture_first_group(pattern, line);
    match captured {
        Some(digits) => {
            proof {
                assert(captured.deep_view() == Some(digits.deep_view()));
                assert(digits.deep_view() =~= digits@);
            }
            parse_decimal_u128(&digits)
        },
        None => None,
    }
}

/// The sum of every line's contribution for a pattern, as an unbounded
/// number.
pub open spec fn spec_sum_amounts(pattern: Seq<char>, lines: Seq<Seq<char>>) -> nat
    decreases lines.len(),
{
    if lines.len() == 0 {
        0
    } else {
        spec_sum_amounts(pattern, lines.drop_last()) + (match spec_line_amount(
            pattern,
            lines.last(),
        ) {
            Some(v) => v as nat,
            None => 0,
        })
    }
}

/// Sums the amounts captured by `pattern` over all lines, saturating at
/// `u128::MAX`.
pub fn sum_amounts(pattern: &str, lines: &Vec<String>) -> (r: u128)
    ensures
        r == clamp_u128(spec_sum_amounts(pattern@, lines.deep_view())),
{
    let mut acc: u128 = 0;
    let mut i: usize = 0;
    while i < lines.len()
        invariant
            0 <= i <= lines@.len(),
            lines.deep_view().len() == lines@.len(),
            acc == clamp_u128(spec_sum_amounts(pattern@, lines.deep_view().subrange(0, i as int))),
        decreases lines@.len() - i,
    {
        proof {
            assert(lines.deep_view().subrange(0, i as int + 1).drop_last() =~= lines.deep_view()
                .subrange(0, i as int));
            assert(lines.deep_view().subrange(0, i as int + 1).last() == lines@[i as int]@);
        }
        match line_amount(pattern, lines[i].as_str()) {
            Some(v) => {
                acc = acc.saturating_add(v);
            },
            None => {},
        }
        i = i + 1;
    }
    proof {
        assert(lines.deep_view().subrange(0, i as int) =~= lines.deep_view());
    }
    acc
}

} // verus!
