//! A store for transaction records: it encodes queries, rebuilds typed
//! records from persisted rows and sequences the writes of one transaction.

pub mod apply;
pub mod codec;
pub mod decimal;
pub mod error;
pub mod filter;
pub mod length_prefix;
pub mod record;
