//! The core of a bundler for account-abstraction user operations.
//!
//! * [`pool`] holds the pending operations of one entry point: it lets them
//!   in by fee, replaces and evicts them, counts the addresses they use,
//!   keeps mined operations for as long as their blocks may be undone, and
//!   keeps a ledger of what paymasters have promised ([`paymaster`]).
//!   [`pool_view`] says what each of these does to the pool as a
//!   mathematical value, and [`guarantees`] what holds of it throughout.
//! * [`tracker`] follows the transactions of one sender: which nonce and
//!   which fees the next one needs, and what the chain says of those sent.
//! * [`server`] decides where the requests to a pool server go, and what a
//!   chain update sets off.
//!
//! Nothing here reads a clock, a socket or a file. The 256-bit arithmetic
//! and the Keccak-256 digest come from `ethers`, through a handful of
//! functions in [`primitives`], [`hash`] and [`ordered`] that are trusted
//! rather than verified.

pub mod address_counts;
pub mod chain;
pub mod entity;
pub mod error;
pub mod guarantees;
pub mod hash;
pub mod ordered;
pub mod paymaster;
pub mod pool;
pub mod pool_lemmas;
pub mod pool_view;
pub mod primitives;
pub mod search;
pub mod server;
pub mod size;
pub mod sums;
pub mod tracker;
pub mod user_operation;
