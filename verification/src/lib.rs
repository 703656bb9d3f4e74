//! A single-asset accounting ledger for a liquid-staking token.
//!
//! The ledger tracks per-account balances of a fungible unit minted 1:1
//! against a custody pool, per-(owner, spender) spending allowances, and the
//! two aggregate scalars (total issued units and custody pool size). Every
//! mutating operation validates its inputs, computes all new values with
//! bounds-checked 256-bit arithmetic, and commits them atomically: a failed
//! call leaves the ledger exactly as it was.

pub mod address;
pub mod amount;
pub mod error;
pub mod events;
pub mod laws;
pub mod ledger;
pub mod store;
