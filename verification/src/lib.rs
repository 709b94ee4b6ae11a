//! Client-side synchronization layer for a privacy-preserving ledger.
//!
//! The library models the data a wallet must keep consistent with a remote
//! validator/query service: canonical addresses for blocks, transactions and
//! outputs; an authenticated nullifier set with a root-keyed local cache;
//! reconstruction of committed ledger history from authority responses; a
//! snapshot-based bootstrap of wallet state; and the ordered event stream
//! that keeps that state current. All transport, serialization and
//! cryptographic capabilities stay outside; the logic here is verified.

pub mod address;
pub mod bootstrap;
pub mod errors;
pub mod ledger;
pub mod metastate;
pub mod nullifier;
pub mod route;
pub mod segment;
pub mod tagged;
pub mod tb64;
pub mod util;
pub mod wallet;
