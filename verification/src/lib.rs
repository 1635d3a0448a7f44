//! Verified core of a ledger-scanning indexer.
//!
//! The library holds the logic of the scanner: candidate extraction from a
//! block's transactions, outcome classification into profit events, the
//! height cursor that drives rounds of bounded concurrent fetches, the
//! checkpoint that picks the first height, and the batch buffer with its
//! flush policy. All network calls live outside the library; the functions
//! here take plain values and return plain values, with contracts proved by
//! Verus.

pub mod batch;
pub mod checkpoint;
pub mod event;
pub mod extract;
pub mod logs;
pub mod numeric;
pub mod outcome;
pub mod resolve;
pub mod scanner;
pub mod text;

pub use event::ArbEvent;
pub use event::ArbStatus;
pub use event::BlockEvent;
pub use numeric::parse_decimal_u128;
pub use numeric::u128_to_decimal;
pub use numeric::profit_amount;
