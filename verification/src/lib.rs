//! Verified core of an event contract: a fungible-token ledger, a registry of
//! claimable drops, per-account scavenger-hunt progress, and the role model
//! that gates who may create, claim, and delete drops.
//!
//! The host runtime (caller resolution, signature checking, event publishing)
//! stays outside; every entry point takes the resolved caller as a plain
//! argument and returns the events it produced as plain data.

pub mod account;
pub mod claim;
pub mod contract;
pub mod drop_id;
pub mod drops;
pub mod errors;
pub mod events;
pub mod kv;
pub mod laws;
pub mod ledger;
pub mod models;
pub mod roles;
pub mod royalty;
pub mod views;
pub mod signing;

pub use account::AccountDetails;
pub use account::ExtAccountDetails;
pub use contract::Contract;
pub use errors::Error;
pub use roles::AccountStatus;
