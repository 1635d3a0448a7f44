//! Classification of a resolved execution outcome into an event.
//!
//! An outcome is the final execution result of one candidate transaction:
//! an overall status, the gas the transaction itself burnt, and the ordered
//! receipt outcomes with their executors, log lines and gas. `classify`
//! turns it into an `ArbEvent`, or into nothing when the swap is not one the
//! indexer tracks.

use vstd::prelude::*;

use crate::event::ArbEvent;
use crate::event::ArbEventView;
use crate::event::ArbStatus;
use crate::event::ArbStatusView;
use crate::logs::spec_sum_amounts;
use crate::logs::sum_amounts;
use crate::logs::swapped_from_pattern;
use crate::logs::swapped_to_pattern;
use crate::numeric::clamp_u128;
use crate::numeric::clamp_u64;
use crate::numeric::decimal_digits;
use crate::numeric::digits_to_chars;
use crate::numeric::profit_amount;
use crate::numeric::u128_to_decimal;

verus! {

/// Overall status of a transaction's final execution.
#[derive(Debug, Clone, Copy, PartialEq, Eq, Structural)]
pub enum ExecutionStatus {
    Success,
    Failure,
}

/// The execution result of one receipt within a transaction.
#[derive(Debug, Clone)]
pub struct ReceiptOutcome {
    pub executor_id: String,
    pub logs: Vec<String>,
    pub gas_burnt: u64,
}

/// The final execution outcome of one transaction: overall status, the gas
/// burnt by the transaction itself, and its ordered receipt outcomes.
#[derive(Debug, Clone)]
pub struct ExecutionOutcome {
    pub status: ExecutionStatus,
    pub transaction_gas: u64,
    pub receipts: Vec<ReceiptOutcome>,
}

/// The gas burnt by a sequence of receipts, as an unbounded number.
pub open spec fn spec_receipts_gas(rs: Seq<ReceiptOutcome>) -> nat
    decreases rs.len(),
{
    if rs.len() == 0 {
        0
    } else {
        (spec_receipts_gas(rs.drop_last()) + rs.last().gas_burnt) as nat
    }
}

/// Transaction gas plus the gas of every receipt.
pub open spec fn spec_gas_total(o: ExecutionOutcome) -> nat {
    (o.transaction_gas + spec_receipts_gas(o.receipts@)) as nat
}

/// The log lines of a receipt as character sequences.
pub open spec fn spec_lines(logs: Seq<String>) -> Seq<Seq<char>> {
    logs.map_values(|s: String| s@)
}

/// The amounts a successful swap's primary receipt reports: what went in and
/// what came out, each summed over all log lines and capped at `u128::MAX`.
pub open spec fn spec_amount_in(o: ExecutionOutcome) -> u128 {
    clamp_u128(spec_sum_amounts(swapped_from_pattern(), spec_lines(o.receipts@[0].logs@)))
}

pub open spec fn spec_amount_out(o: ExecutionOutcome) -> u128 {
    clamp_u128(spec_sum_amounts(swapped_to_pattern(), spec_lines(o.receipts@[0].logs@)))
}

/// The realized profit of a successful swap: amount out less amount in,
/// floored at zero.
pub open spec fn spec_profit(o: ExecutionOutcome) -> u128 {
    if spec_amount_out(o) >= spec_amount_in(o) {
        (spec_amount_out(o) - spec_amount_in(o)) as u128
    } else {
        0
    }
}

/// Whether an outcome yields an event at all: every failure does; a success
/// only when its primary receipt was executed by the designated swap
/// contract. A mismatched executor yields nothing, not a failure event.
pub open spec fn spec_produces_event(o: ExecutionOutcome, swap_contract: Seq<char>) -> bool {
    ||| o.status is Failure
    ||| (o.receipts@.len() > 0 && o.receipts@[0].executor_id@ == swap_contract)
}

/// The event that `classify` builds for an outcome that produces one.
pub open spec fn spec_classified_event(
    sender: Seq<char>,
    hash: Seq<char>,
    o: ExecutionOutcome,
) -> ArbEventView {
    ArbEventView {
        sender_id: sender,
        tx_hash: hash,
        gas_burnt: clamp_u64(spec_gas_total(o)),
        event: if o.status is Failure {
            ArbStatusView::Failure
        } else {
            ArbStatusView::Success(digits_to_chars(decimal_digits(spec_profit(o) as nat)))
        },
    }
}

/// Sums the gas of an outcome: transaction gas plus every receipt's gas,
/// saturating at `u64::MAX`.
pub fn gas_burnt_of(outcome: &ExecutionOutcome) -> (g: u64)
    ensures
        g == clamp_u64(spec_gas_total(*outcome)),
{
    let mut acc: u64 = outcome.transaction_gas;
    let mut i: usize = 0;
    while i < outcome.receipts.len()
        invariant
            0 <= i <= outcome.receipts@.len(),
            acc == clamp_u64(
                (outcome.transaction_gas + spec_receipts_gas(
                    outcome.receipts@.subrange(0, i as int),
                )) as nat,
            ),
        decreases outcome.receipts@.len() - i,
    {
        proof {
            assert(outcome.receipts@.subrange(0, i as int + 1).drop_last() =~= outcome.receipts@
                .subrange(0, i as int));
            assert(outcome.receipts@.subrange(0, i as int + 1).last() == outcome.receipts@[i as int]);
        }
        acc = acc.saturating_add(outcome.receipts[i].gas_burnt);
        i = i + 1;
    }
    proof {
        assert(outcome.receipts@.subrange(0, i as int) =~= outcome.receipts@);
    }
    acc
}

/// When the gas total fits in 64 bits, the gas of the event is exactly
/// transaction gas plus the sum of all receipt gas values.
pub proof fn lemma_gas_burnt_is_exact_sum(o: ExecutionOutcome)
    requires
        spec_gas_total(o) <= u64::MAX,
    ensures
        clamp_u64(spec_gas_total(o)) == o.transaction_gas + spec_receipts_gas(o.receipts@),
{
}

/// Classifies one resolved outcome.
///
/// A failed transaction yields a failure event carrying its gas. A
/// successful one yields a success event with the computed profit, but only
/// when the primary receipt's executor is the designated swap contract;
/// otherwise the transaction is not a tracked swap and yields nothing.
///
/// A deliberate policy choice: a successful swap whose logs match neither
/// amount pattern sums to zero on both sides and so reports a profit of
/// zero; the malformed log does not abort anything.
pub fn classify(
    sender_id: String,
    tx_hash: String,
    outcome: &ExecutionOutcome,
    swap_contract: &String,
) -> (r: Option<ArbEvent>)
    requires
        outcome.status is Success ==> outcome.receipts@.len() > 0,
    ensures
        (r is Some) == spec_produces_event(*outcome, swap_contract@),
        r matches Some(ev) ==> ev@ == spec_classified_event(sender_id@, tx_hash@, *outcome),
{
    let gas = gas_burnt_of(outcome);
    match outcome.status {
        ExecutionStatus::Failure => Some(
            ArbEvent { sender_id, tx_hash, gas_burnt: gas, event: ArbStatus::Failure },
        ),
        ExecutionStatus::Success => {
            let primary = &outcome.receipts[0];
            if primary.executor_id == *swap_contract {
                let total_in = sum_amounts("Swapped ([0-9]*) wrap.near", &primary.logs);
                let total_out = sum_amounts(" for ([0-9]*) wrap.near", &primary.logs);
                proof {
                    assert(primary.logs.deep_view() =~= spec_lines(primary.logs@));
                }
                let profit = profit_amount(total_in, total_out);
                let profit_text = u128_to_decimal(profit);
                Some(
                    ArbEvent {
                        sender_id,
                        tx_hash,
                        gas_burnt: gas,
                        event: ArbStatus::Success(profit_text),
                    },
                )
            } else {
                None
            }
        },
    }
}

} // verus!
