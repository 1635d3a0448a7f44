use indexer::logs::line_amount;
use indexer::logs::sum_amounts;
use indexer::outcome::classify;
use indexer::outcome::gas_burnt_of;
use indexer::outcome::ExecutionOutcome;
use indexer::outcome::ExecutionStatus;
use indexer::outcome::ReceiptOutcome;
use indexer::ArbStatus;

const FROM_PATTERN: &str = "Swapped ([0-9]*) wrap.near";
const TO_PATTERN: &str = " for ([0-9]*) wrap.near";

fn receipt(executor: &str, logs: &[&str], gas: u64) -> ReceiptOutcome {
    ReceiptOutcome {
        executor_id: executor.to_string(),
        logs: logs.iter().map(|s| s.to_string()).collect(),
        gas_burnt: gas,
    }
}

fn swap_outcome(status: ExecutionStatus, tx_gas: u64, receipts: Vec<ReceiptOutcome>) -> ExecutionOutcome {
    ExecutionOutcome { status, transaction_gas: tx_gas, receipts }
}

#[test]
fn line_amount_reads_the_captured_digits() {
    let line = "Swapped 100 wrap.near for 150 wrap.near";
    assert_eq!(line_amount(FROM_PATTERN, line), Some(100));
    assert_eq!(line_amount(TO_PATTERN, line), Some(150));
    assert_eq!(line_amount(FROM_PATTERN, "nothing swapped here"), None);
}

#[test]
fn sum_amounts_adds_every_line() {
    let logs = vec![
        "Swapped 100 wrap.near for 150 wrap.near".to_string(),
        "Swapped 30 wrap.near for 40 wrap.near".to_string(),
        "unrelated line".to_string(),
    ];
    assert_eq!(sum_amounts(FROM_PATTERN, &logs), 130);
    assert_eq!(sum_amounts(TO_PATTERN, &logs), 190);
}

#[test]
fn gas_is_transaction_gas_plus_receipt_gas() {
    let none = swap_outcome(ExecutionStatus::Failure, 7, vec![]);
    assert_eq!(gas_burnt_of(&none), 7);

    let one = swap_outcome(ExecutionStatus::Failure, 7, vec![receipt("a.near", &[], 5)]);
    assert_eq!(gas_burnt_of(&one), 12);

    let many = swap_outcome(
        ExecutionStatus::Failure,
        10,
        vec![
            receipt("a.near", &[], 1),
            receipt("b.near", &[], 2),
            receipt("c.near", &[], 3),
        ],
    );
    assert_eq!(gas_burnt_of(&many), 16);
}

#[test]
fn classify_computes_profit_from_the_logs() {
    let outcome = swap_outcome(
        ExecutionStatus::Success,
        3,
        vec![receipt(
            "v2.ref-finance.near",
            &["Swapped 100 wrap.near for 150 wrap.near"],
            4,
        )],
    );
    let ev = classify(
        "bot.near".to_string(),
        "hash1".to_string(),
        &outcome,
        &"v2.ref-finance.near".to_string(),
    )
    .expect("a tracked swap must yield an event");
    assert_eq!(ev.sender_id, "bot.near");
    assert_eq!(ev.tx_hash, "hash1");
    assert_eq!(ev.gas_burnt, 7);
    match ev.event {
        ArbStatus::Success(profit) => assert_eq!(profit, "50"),
        ArbStatus::Failure => panic!("expected a success event"),
    }
}

#[test]
fn classify_sums_amounts_over_all_log_lines() {
    let outcome = swap_outcome(
        ExecutionStatus::Success,
        0,
        vec![receipt(
            "v2.ref-finance.near",
            &[
                "Swapped 100 wrap.near for 150 wrap.near",
                "Swapped 10 wrap.near for 20 wrap.near",
            ],
            0,
        )],
    );
    let ev = classify(
        "bot.near".to_string(),
        "hash2".to_string(),
        &outcome,
        &"v2.ref-finance.near".to_string(),
    )
    .unwrap();
    match ev.event {
        ArbStatus::Success(profit) => assert_eq!(profit, "60"),
        ArbStatus::Failure => panic!("expected a success event"),
    }
}

#[test]
fn classify_floors_losses_at_zero() {
    let outcome = swap_outcome(
        ExecutionStatus::Success,
        0,
        vec![receipt(
            "v2.ref-finance.near",
            &["Swapped 150 wrap.near for 100 wrap.near"],
            0,
        )],
    );
    let ev = classify(
        "bot.near".to_string(),
        "hash3".to_string(),
        &outcome,
        &"v2.ref-finance.near".to_string(),
    )
    .unwrap();
    match ev.event {
        ArbStatus::Success(profit) => assert_eq!(profit, "0"),
        ArbStatus::Failure => panic!("expected a success event"),
    }
}

#[test]
fn classify_reports_zero_profit_when_no_pattern_matches() {
    let outcome = swap_outcome(
        ExecutionStatus::Success,
        0,
        vec![receipt("v2.ref-finance.near", &["no swap log at all"], 0)],
    );
    let ev = classify(
        "bot.near".to_string(),
        "hash4".to_string(),
        &outcome,
        &"v2.ref-finance.near".to_string(),
    )
    .unwrap();
    match ev.event {
        ArbStatus::Success(profit) => assert_eq!(profit, "0"),
        ArbStatus::Failure => panic!("expected a success event"),
    }
}

#[test]
fn mismatched_executor_yields_no_event_at_all() {
    let outcome = swap_outcome(
        ExecutionStatus::Success,
        3,
        vec![receipt(
            "someone-else.near",
            &["Swapped 100 wrap.near for 150 wrap.near"],
            4,
        )],
    );
    let ev = classify(
        "bot.near".to_string(),
        "hash5".to_string(),
        &outcome,
        &"v2.ref-finance.near".to_string(),
    );
    assert!(ev.is_none());
}

#[test]
fn failed_transaction_yields_a_failure_event() {
    let outcome = swap_outcome(
        ExecutionStatus::Failure,
        3,
        vec![receipt("someone-else.near", &[], 4)],
    );
    let ev = classify(
        "bot.near".to_string(),
        "hash6".to_string(),
        &outcome,
        &"v2.ref-finance.near".to_string(),
    )
    .expect("a failure always yields an event");
    assert_eq!(ev.gas_burnt, 7);
    assert!(matches!(ev.event, ArbStatus::Failure));
}
