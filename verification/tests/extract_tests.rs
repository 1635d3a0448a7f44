use indexer::extract::extract_candidates;
use indexer::extract::is_monitored;
use indexer::extract::ActionInfo;
use indexer::extract::ChunkTransaction;

fn call(method: &str) -> ActionInfo {
    ActionInfo::FunctionCall { method_name: method.to_string() }
}

fn tx(hash: &str, signer: &str, actions: Vec<ActionInfo>) -> ChunkTransaction {
    ChunkTransaction {
        hash: hash.to_string(),
        signer_id: signer.to_string(),
        actions,
    }
}

fn monitored() -> Vec<String> {
    vec!["bot-a.near".to_string(), "bot-b.near".to_string()]
}

#[test]
fn allowlist_membership() {
    let list = monitored();
    assert!(is_monitored(&list, &"bot-a.near".to_string()));
    assert!(is_monitored(&list, &"bot-b.near".to_string()));
    assert!(!is_monitored(&list, &"stranger.near".to_string()));
    assert!(!is_monitored(&Vec::new(), &"bot-a.near".to_string()));
}

#[test]
fn two_monitored_swaps_among_three_transactions_yield_two_candidates() {
    let txs = vec![
        tx("h1", "bot-a.near", vec![call("swap")]),
        tx("h2", "stranger.near", vec![call("swap")]),
        tx("h3", "bot-b.near", vec![call("swap")]),
    ];
    let candidates = extract_candidates(&txs, &monitored());
    assert_eq!(candidates.len(), 2);
    assert_eq!(candidates[0].tx_hash, "h1");
    assert_eq!(candidates[0].sender_id, "bot-a.near");
    assert_eq!(candidates[1].tx_hash, "h3");
    assert_eq!(candidates[1].sender_id, "bot-b.near");
}

#[test]
fn non_swap_calls_of_a_monitored_account_are_ignored() {
    let txs = vec![tx(
        "h1",
        "bot-a.near",
        vec![call("transfer"), ActionInfo::Other, call("swap_v2")],
    )];
    let candidates = extract_candidates(&txs, &monitored());
    assert!(candidates.is_empty());
}

#[test]
fn several_swap_actions_yield_several_candidates_sharing_a_hash() {
    let txs = vec![tx(
        "h1",
        "bot-a.near",
        vec![call("swap"), call("transfer"), call("swap")],
    )];
    let candidates = extract_candidates(&txs, &monitored());
    assert_eq!(candidates.len(), 2);
    assert_eq!(candidates[0].tx_hash, "h1");
    assert_eq!(candidates[1].tx_hash, "h1");
}

#[test]
fn empty_inputs_yield_no_candidates() {
    assert!(extract_candidates(&Vec::new(), &monitored()).is_empty());
    let txs = vec![tx("h1", "bot-a.near", vec![call("swap")])];
    assert!(extract_candidates(&txs, &Vec::new()).is_empty());
}
