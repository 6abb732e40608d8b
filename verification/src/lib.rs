//! Session-state core for an interactive wireless device scanner:
//! bounded collections with insertion-order eviction, a connection
//! lifecycle state machine, hex/decimal text codecs, an input-buffer
//! state machine, and the offset read/write contract of a local
//! attribute server.

pub mod clock;
pub mod decimal;
pub mod export;
pub mod hex;
pub mod input;
pub mod ledger;
pub mod log;
pub mod panels;
pub mod scan;
pub mod server;
pub mod session;
pub mod store;
pub mod utils;
pub mod uuid_id;

