//! Candidate extraction: which of a block's transactions are tracked swaps.
//!
//! For every transaction whose signer is on the monitored-account allowlist,
//! every action that is a function call named exactly `swap` yields one
//! candidate. A transaction with several qualifying actions yields several
//! candidates sharing its hash; nothing is deduplicated.

use vstd::prelude::*;

use crate::text::str_equal;

verus! {

/// One action of a transaction, reduced to what extraction reads: whether it
/// is a function call, and the method it names.
#[derive(Debug, Clone)]
pub enum ActionInfo {
    FunctionCall { method_name: String },
    Other,
}

/// One transaction of a chunk, reduced to what extraction reads.
#[derive(Debug, Clone)]
pub struct ChunkTransaction {
    pub hash: String,
    pub signer_id: String,
    pub actions: Vec<ActionInfo>,
}

/// A candidate transaction: a qualifying swap call and the account that sent
/// it.
#[derive(Debug, Clone)]
pub struct Candidate {
    pub tx_hash: String,
    pub sender_id: String,
}

/// Mathematical image of `Candidate`.
#[verifier::ext_equal]
pub ghost struct CandidateView {
    pub tx_hash: Seq<char>,
    pub sender_id: Seq<char>,
}

impl View for Candidate {
    type V = CandidateView;

    open spec fn view(&self) -> CandidateView {
        CandidateView { tx_hash: self.tx_hash@, sender_id: self.sender_id@ }
    }
}

/// The method name a qualifying action must call.
pub open spec fn swap_method() -> Seq<char> {
    "swap"@
}

/// Whether an action is a function call named exactly `swap`.
pub open spec fn spec_action_is_swap(a: ActionInfo) -> bool {
    a matches ActionInfo::FunctionCall { method_name } && method_name@ == swap_method()
}

/// Whether an account is on the monitored-account allowlist.
pub open spec fn spec_is_monitored(monitored: Seq<String>, account: Seq<char>) -> bool {
    exists|i: int| 0 <= i < monitored.len() && (#[trigger] monitored[i])@ == account
}

/// The candidates that one monitored transaction's actions yield, one per
/// swap call, in action order.
pub open spec fn spec_swap_candidates(
    hash: Seq<char>,
    signer: Seq<char>,
    actions: Seq<ActionInfo>,
) -> Seq<CandidateView>
    decreases actions.len(),
{
    if actions.len() == 0 {
        Seq::empty()
    } else {
        spec_swap_candidates(hash, signer, actions.drop_last()) + (if spec_action_is_swap(
            actions.last(),
        ) {
            seq![CandidateView { tx_hash: hash, sender_id: signer }]
        } else {
            Seq::empty()
        })
    }
}

/// The candidates of one transaction: none unless its signer is monitored.
pub open spec fn spec_tx_candidates(tx: ChunkTransaction, monitored: Seq<String>) -> Seq<
    CandidateView,
> {
    if spec_is_monitored(monitored, tx.signer_id@) {
        spec_swap_candidates(tx.hash@, tx.signer_id@, tx.actions@)
    } else {
        Seq::empty()
    }
}

/// The candidates of a whole block's transactions, in transaction order.
pub open spec fn spec_extract(txs: Seq<ChunkTransaction>, monitored: Seq<String>) -> Seq<
    CandidateView,
>
    decreases txs.len(),
{
    if txs.len() == 0 {
        Seq::empty()
    } else {
        spec_extract(txs.drop_last(), monitored) + spec_tx_candidates(txs.last(), monitored)
    }
}

/// Decides allowlist membership.
pub fn is_monitored(monitored: &Vec<String>, account: &String) -> (r: bool)
    ensures
        r == spec_is_monitored(monitored@, account@),
{
    let mut i: usize = 0;
    while i < monitored.len()
        invariant
            0 <= i <= monitored@.len(),
            forall|j: int| 0 <= j < i ==> (#[trigger] monitored@[j])@ != account@,
        decreases monitored@.len() - i,
    {
        if monitored[i] == *account {
            return true;
        }
        i = i + 1;
    }
    false
}

/// Extracts every candidate from the transactions of one block.
pub fn extract_candidates(txs: &Vec<ChunkTransaction>, monitored: &Vec<String>) -> (r: Vec<
    Candidate,
>)
    ensures
        r@.map_values(|c: Candidate| c@) == spec_extract(txs@, monitored@),
{
    let mut out: Vec<Candidate> = Vec::new();
    let mut i: usize = 0;
    while i < txs.len()
        invariant
            0 <= i <= txs@.len(),
            out@.map_values(|c: Candidate| c@) =~= spec_extract(
                txs@.subrange(0, i as int),
                monitored@,
            ),
        decreases txs@.len() - i,
    {
        let tx = &txs[i];
        proof {
            assert(txs@.subrange(0, i as int + 1).drop_last() =~= txs@.subrange(0, i as int));
            assert(txs@.subrange(0, i as int + 1).last() == txs@[i as int]);
        }
        if is_monitored(monitored, &tx.signer_id) {
            let ghost before = out@.map_values(|c: Candidate| c@);
            let mut j: usize = 0;
            while j < tx.actions.len()
                invariant
                    0 <= j <= tx.actions@.len(),
                    out@.map_values(|c: Candidate| c@) =~= before + spec_swap_candidates(
                        tx.hash@,
                        tx.signer_id@,
                        tx.actions@.subrange(0, j as int),
                    ),
                decreases tx.actions@.len() - j,
            {
                proof {
                    assert(tx.actions@.subrange(0, j as int + 1).drop_last() =~= tx.actions@
                        .subrange(0, j as int));
                    assert(tx.actions@.subrange(0, j as int + 1).last() == tx.actions@[j as int]);
                }
                match &tx.actions[j] {
                    ActionInfo::FunctionCall { method_name } => {
                        if str_equal(method_name.as_str(), "swap") {
                            let ghost pre = out@;
                            out.push(
                                Candidate {
                                    tx_hash: tx.hash.clone(),
                                    sender_id: tx.signer_id.clone(),
                                },
                            );
                            proof {
                                assert(out@.map_values(|c: Candidate| c@) =~= pre.map_values(
                                    |c: Candidate| c@,
                                ).push(CandidateView { tx_hash: tx.hash@, sender_id: tx.signer_id@ }));
                            }
                        }
                    },
                    ActionInfo::Other => {},
                }
                proof {
                    assert(spec_swap_candidates(
                        tx.hash@,
                        tx.signer_id@,
                        tx.actions@.subrange(0, j as int + 1),
                    ) =~= spec_swap_candidates(
                        tx.hash@,
                        tx.signer_id@,
                        tx.actions@.subrange(0, j as int),
                    ) + (if spec_action_is_swap(tx.actions@[j as int]) {
                        seq![CandidateView { tx_hash: tx.hash@, sender_id: tx.signer_id@ }]
                    } else {
                        Seq::empty()
                    }));
                }
                j = j + 1;
            }
            proof {
                assert(tx.actions@.subrange(0, tx.actions@.len() as int) =~= tx.actions@);
            }
        }
        i = i + 1;
    }
    proof {
        assert(txs@.subrange(0, i as int) =~= txs@);
    }
    out
}

} // verus!
