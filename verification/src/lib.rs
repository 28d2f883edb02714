//! Change-data-capture pipeline for a fixed set of watched ledger accounts:
//! decoding of account payloads, the canonical projection, change events and
//! the fan-out of re-materialised messages to isolated subscribers.

pub mod address;
pub mod assets;
pub mod balance;
pub mod bus;
pub mod codec;
pub mod config;
pub mod dashboard;
pub mod decimal;
pub mod fanout;
pub mod filter;
pub mod holdings;
pub mod listing;
pub mod monitor;
pub mod reader;
pub mod schema;
pub mod snapshot;
pub mod store;
pub mod table;
pub mod token;
