//! An on-chain attribute-evolution engine for non-fungible tokens.
//!
//! A privileged mint creates a per-token metadata record carrying two bounded
//! trait scores, passion and stamina; later upgrades raise those scores by a
//! small delta. Both draw their entropy from external price feeds mixed with
//! the current time. A bounded operator whitelist, seeded with a single admin,
//! backs the privileged operations.
//!
//! The host that persists accounts, verifies signatures, reads the price
//! feeds and supplies the clock is not part of this crate: callers hand in
//! plain values (identities, feed readings, a timestamp) and get plain
//! values back.

pub mod engine;
pub mod errors;
pub mod identity;
pub mod lifecycle;
pub mod registry;
