//! Pairing candidates with their resolved outcomes.
//!
//! For each candidate of a block, a final-status query is issued; the answer
//! either carries the final execution outcome or it does not. A candidate
//! whose answer lacks a final outcome, or carries one of an unexpected
//! shape, is silently dropped; the rest are classified in candidate order.

use vstd::prelude::*;

use crate::event::ArbEvent;
use crate::event::ArbEventView;
use crate::extract::Candidate;
use crate::outcome::classify;
use crate::outcome::spec_classified_event;
use crate::outcome::spec_produces_event;
use crate::outcome::ExecutionOutcome;

verus! {

/// The answer to one candidate's final-status query, reduced to what the
/// resolver reads.
#[derive(Debug, Clone)]
pub enum OutcomeResponse {
    /// The query answered, but no final outcome is available yet.
    NoFinalOutcome,
    /// A final outcome of a shape other than the expected variant.
    UnexpectedVariant,
    /// The final execution outcome.
    Final(ExecutionOutcome),
}

/// Every final successful outcome carries at least its primary receipt.
pub open spec fn spec_responses_wf(resps: Seq<OutcomeResponse>) -> bool {
    forall|i: int|
        0 <= i < resps.len() ==> ((#[trigger] resps[i]) matches OutcomeResponse::Final(o) ==> (
        o.status is Success ==> o.receipts@.len() > 0))
}

/// The events of one block: each candidate whose response carries a final
/// outcome is classified, in candidate order; the others contribute nothing.
pub open spec fn spec_block_events(
    cands: Seq<Candidate>,
    resps: Seq<OutcomeResponse>,
    swap_contract: Seq<char>,
) -> Seq<ArbEventView>
    decreases cands.len(),
{
    if cands.len() == 0 || resps.len() == 0 {
        Seq::empty()
    } else {
        spec_block_events(cands.drop_last(), resps.drop_last(), swap_contract) + (match resps.last() {
            OutcomeResponse::Final(o) => if spec_produces_event(o, swap_contract) {
                seq![
                    spec_classified_event(cands.last().sender_id@, cands.last().tx_hash@, o),
                ]
            } else {
                Seq::empty()
            },
            OutcomeResponse::NoFinalOutcome => Seq::empty(),
            OutcomeResponse::UnexpectedVariant => Seq::empty(),
        })
    }
}

/// Builds the events of one block from its candidates and the answers to
/// their final-status queries, one answer per candidate.
pub fn build_block_events(
    candidates: &Vec<Candidate>,
    responses: &Vec<OutcomeResponse>,
    swap_contract: &String,
) -> (events: Vec<ArbEvent>)
    requires
        candidates@.len() == responses@.len(),
        spec_responses_wf(responses@),
    ensures
        events@.map_values(|e: ArbEvent| e@) == spec_block_events(
            candidates@,
            responses@,
            swap_contract@,
        ),
{
    let mut events: Vec<ArbEvent> = Vec::new();
    let mut i: usize = 0;
    while i < candidates.len()
        invariant
            0 <= i <= candidates@.len(),
            candidates@.len() == responses@.len(),
            spec_responses_wf(responses@),
            events@.map_values(|e: ArbEvent| e@) =~= spec_block_events(
                candidates@.subrange(0, i as int),
                responses@.subrange(0, i as int),
                swap_contract@,
            ),
        decreases candidates@.len() - i,
    {
        proof {
            assert(candidates@.subrange(0, i as int + 1).drop_last() =~= candidates@.subrange(
                0,
                i as int,
            ));
            assert(responses@.subrange(0, i as int + 1).drop_last() =~= responses@.subrange(
                0,
                i as int,
            ));
            assert(candidates@.subrange(0, i as int + 1).last() == candidates@[i as int]);
            assert(responses@.subrange(0, i as int + 1).last() == responses@[i as int]);
        }
        match &responses[i] {
            OutcomeResponse::Final(outcome) => {
                let candidate = &candidates[i];
                let produced = classify(
                    candidate.sender_id.clone(),
                    candidate.tx_hash.clone(),
                    outcome,
                    swap_contract,
                );
                match produced {
                    Some(ev) => {
                        let ghost pre = events@;
                        proof {
                            assert(ev@ == spec_classified_event(
                                candidates@[i as int].sender_id@,
                                candidates@[i as int].tx_hash@,
                                *outcome,
                            ));
                        }
                        events.push(ev);
                        proof {
                            assert(events@.map_values(|e: ArbEvent| e@) =~= pre.map_values(
                                |e: ArbEvent| e@,
                            ).push(events@.last()@));
                        }
                    },
                    None => {},
                }
            },
            OutcomeResponse::NoFinalOutcome => {},
            OutcomeResponse::UnexpectedVariant => {},
        }
        i = i + 1;
    }
    proof {
        assert(candidates@.subrange(0, i as int) =~= candidates@);
        assert(responses@.subrange(0, i as int) =~= responses@);
    }
    events
}

} // verus!
