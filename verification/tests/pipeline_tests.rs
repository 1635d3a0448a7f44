use indexer::batch::Batcher;
use indexer::checkpoint::resolve_start_height;
use indexer::extract::Candidate;
use indexer::outcome::ExecutionOutcome;
use indexer::outcome::ExecutionStatus;
use indexer::outcome::ReceiptOutcome;
use indexer::resolve::build_block_events;
use indexer::resolve::OutcomeResponse;
use indexer::scanner::assemble_round;
use indexer::scanner::select_block;
use indexer::scanner::Cursor;
use indexer::scanner::FetchedBlock;
use indexer::scanner::Source;
use indexer::ArbStatus;
use indexer::BlockEvent;

fn block(height: u64) -> BlockEvent {
    BlockEvent { block_height: height, timestamp: height * 10, events: Vec::new() }
}

#[test]
fn flush_fires_exactly_at_the_threshold() {
    let mut batcher = Batcher::new(100, 100);
    assert!(batcher.consume(block(100)).is_none());
    assert!(batcher.consume(block(150)).is_none());
    assert!(batcher.consume(block(199)).is_none());
    let batch = batcher
        .consume(block(200))
        .expect("a span of 100 must flush at threshold 100");
    let heights: Vec<u64> = batch.iter().map(|b| b.block_height).collect();
    assert_eq!(heights, vec![100, 150, 199, 200]);
    assert_eq!(batcher.last_flushed_height, 200);
    assert!(batcher.buffer.is_empty());
    assert!(batcher.consume(block(260)).is_none());
    let buffered: Vec<u64> = batcher.buffer.iter().map(|b| b.block_height).collect();
    assert_eq!(buffered, vec![260]);
}

#[test]
fn a_zero_threshold_flushes_every_block() {
    let mut batcher = Batcher::new(5, 0);
    let batch = batcher.consume(block(5)).expect("threshold 0 always flushes");
    assert_eq!(batch.len(), 1);
    assert!(batcher.buffer.is_empty());
}

#[test]
fn start_height_prefers_the_explicit_configuration() {
    assert_eq!(resolve_start_height(Some(7), None), Some(7));
    assert_eq!(resolve_start_height(Some(7), Some(99)), Some(7));
}

#[test]
fn start_height_resumes_one_past_the_reported_checkpoint() {
    assert_eq!(resolve_start_height(None, Some(10)), Some(11));
}

#[test]
fn start_height_fails_without_a_usable_source() {
    assert_eq!(resolve_start_height(None, Some(0)), None);
    assert_eq!(resolve_start_height(None, None), None);
    assert_eq!(resolve_start_height(None, Some(u64::MAX)), None);
}

#[test]
fn rounds_advance_the_cursor_once_per_height() {
    let mut cursor = Cursor::new(100);
    let first = cursor.take_round(4);
    assert_eq!(first, vec![100, 101, 102, 103]);
    assert_eq!(cursor.next, 104);
    let second = cursor.take_round(4);
    assert_eq!(second, vec![104, 105, 106, 107]);
    assert_eq!(cursor.next, 108);
    for h in &first {
        assert!(!second.contains(h));
    }
}

#[test]
fn the_primary_source_wins_and_the_fallback_fills_in() {
    assert_eq!(select_block(Some(1), Some(2)), Some((1, Source::Primary)));
    assert_eq!(select_block(Some(1), None), Some((1, Source::Primary)));
    assert_eq!(select_block(None, Some(2)), Some((2, Source::Fallback)));
    assert_eq!(select_block::<u32>(None, None), None);
}

#[test]
fn a_round_is_assembled_in_height_order_with_gaps_for_skips() {
    let heights = vec![10, 11, 12, 13];
    let fetched = vec![
        Some(FetchedBlock { timestamp: 1, events: Vec::new() }),
        None,
        Some(FetchedBlock { timestamp: 3, events: Vec::new() }),
        Some(FetchedBlock { timestamp: 4, events: Vec::new() }),
    ];
    let out = assemble_round(&heights, fetched);
    let emitted: Vec<(u64, u64)> = out.iter().map(|b| (b.block_height, b.timestamp)).collect();
    assert_eq!(emitted, vec![(10, 1), (12, 3), (13, 4)]);
}

fn candidate(hash: &str, sender: &str) -> Candidate {
    Candidate { tx_hash: hash.to_string(), sender_id: sender.to_string() }
}

fn final_success(executor: &str, logs: &[&str]) -> OutcomeResponse {
    OutcomeResponse::Final(ExecutionOutcome {
        status: ExecutionStatus::Success,
        transaction_gas: 1,
        receipts: vec![ReceiptOutcome {
            executor_id: executor.to_string(),
            logs: logs.iter().map(|s| s.to_string()).collect(),
            gas_burnt: 2,
        }],
    })
}

#[test]
fn block_events_keep_candidate_order_and_drop_unresolved_candidates() {
    let candidates = vec![
        candidate("h1", "bot-a.near"),
        candidate("h2", "bot-a.near"),
        candidate("h3", "bot-b.near"),
        candidate("h4", "bot-b.near"),
        candidate("h5", "bot-b.near"),
    ];
    let responses = vec![
        final_success("v2.ref-finance.near", &["Swapped 100 wrap.near for 150 wrap.near"]),
        OutcomeResponse::NoFinalOutcome,
        OutcomeResponse::UnexpectedVariant,
        final_success("someone-else.near", &["Swapped 1 wrap.near for 2 wrap.near"]),
        OutcomeResponse::Final(ExecutionOutcome {
            status: ExecutionStatus::Failure,
            transaction_gas: 4,
            receipts: Vec::new(),
        }),
    ];
    let events = build_block_events(
        &candidates,
        &responses,
        &"v2.ref-finance.near".to_string(),
    );
    assert_eq!(events.len(), 2);
    assert_eq!(events[0].tx_hash, "h1");
    assert_eq!(events[0].gas_burnt, 3);
    match &events[0].event {
        ArbStatus::Success(profit) => assert_eq!(profit, "50"),
        ArbStatus::Failure => panic!("expected a success event"),
    }
    assert_eq!(events[1].tx_hash, "h5");
    assert_eq!(events[1].gas_burnt, 4);
    assert!(matches!(events[1].event, ArbStatus::Failure));
}
