//! A relay-fee ledger: consumers pre-fund a balance that pays executors for
//! relaying transfers on their behalf. The library holds the verified core:
//! the ledger record and its byte codec, the fee policy, the governance gate,
//! and the instruction handlers with their replay protection and bookkeeping.

pub mod addr;
pub mod error;
pub mod codec;
pub mod instruction;
pub mod laws;
pub mod maps;
pub mod processor;
pub mod record_codec;
pub mod state;

pub use error::GsnError;
pub use processor::Processor;
pub use state::GsnInfo;
