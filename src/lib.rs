//! A multi-party escrow ledger: escrows hold funds in custodial accounts and release
//! them through a trusted, staged workflow with oracle fees taken at payout.
//!
//! - `ledger`: accounts, balances and an in-memory ledger with value transfer.
//! - `percent`: whole percentages and the fee they take from an amount.
//! - `payout`: the fee split of a bulk payout, and its conservation law.
//! - `registry`: the trust registry of (escrow, principal) entries.
//! - `escrow`: the escrow state machine; every payout is staged and committed whole.
//! - `hmtoken`: a fungible token with plain and bulk transfers.
//! - `kvstore`: a per-account key-value store with bounded keys and values.
//!
//! Callers pass in what the surrounding runtime knows: the signing principal of each
//! call, the current time, and the ledger that holds the funds.

pub mod escrow;
pub mod hmtoken;
pub mod kvstore;
pub mod ledger;
pub mod payout;
pub mod percent;
pub mod registry;
