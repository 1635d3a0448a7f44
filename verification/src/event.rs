//! The event types that the indexer publishes.

use vstd::prelude::*;

verus! {

/// Outcome of one monitored swap transaction: the realized profit as a
/// decimal string on success, or a bare failure marker.
#[derive(Debug, Clone)]
pub enum ArbStatus {
    Success(String),
    Failure,
}

/// One record about a monitored swap transaction, immutable once built.
#[derive(Debug, Clone)]
pub struct ArbEvent {
    pub sender_id: String,
    pub tx_hash: String,
    pub gas_burnt: u64,
    pub event: ArbStatus,
}

/// One record per processed block, emitted even when `events` is empty so
/// that the ingestion endpoint sees every processed height.
#[derive(Debug, Clone)]
pub struct BlockEvent {
    pub block_height: u64,
    pub timestamp: u64,
    pub events: Vec<ArbEvent>,
}

/// Mathematical image of `ArbStatus`: strings become character sequences.
#[verifier::ext_equal]
pub ghost enum ArbStatusView {
    Success(Seq<char>),
    Failure,
}

/// Mathematical image of `ArbEvent`.
#[verifier::ext_equal]
pub ghost struct ArbEventView {
    pub sender_id: Seq<char>,
    pub tx_hash: Seq<char>,
    pub gas_burnt: u64,
    pub event: ArbStatusView,
}

/// Mathematical image of `BlockEvent`.
#[verifier::ext_equal]
pub ghost struct BlockEventView {
    pub block_height: u64,
    pub timestamp: u64,
    pub events: Seq<ArbEventView>,
}

impl View for ArbStatus {
    type V = ArbStatusView;

    open spec fn view(&self) -> ArbStatusView {
        match self {
            ArbStatus::Success(p) => ArbStatusView::Success(p@),
            ArbStatus::Failure => ArbStatusView::Failure,
        }
    }
}

impl View for ArbEvent {
    type V = ArbEventView;

    open spec fn view(&self) -> ArbEventView {
        ArbEventView {
            sender_id: self.sender_id@,
            tx_hash: self.tx_hash@,
            gas_burnt: self.gas_burnt,
            event: self.event@,
        }
    }
}

impl View for BlockEvent {
    type V = BlockEventView;

    open spec fn view(&self) -> BlockEventView {
        BlockEventView {
            block_height: self.block_height,
            timestamp: self.timestamp,
            events: self.events@.map_values(|e: ArbEvent| e@),
        }
    }
}

} // verus!
