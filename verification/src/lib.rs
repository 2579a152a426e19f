//! A verified escrow record engine for two-party asset swaps.
//!
//! A non-fungible item deposited by a source party is released to a
//! recipient once the recipient pays an agreed price in a single fungible
//! denomination, or returned to the source after an expiration deadline.
//! The escrow store, the state machine over it, and the paginated query
//! engine are all verified; the host glue (message decoding, persistent
//! storage, identity validation) lives outside this crate.

pub mod contract;
pub mod error;
pub mod laws;
pub mod msg;
pub mod query;
pub mod state;
pub mod store;
pub mod strorder;
