//! The rules of the Alchemy spell system.
//!
//! Users burn ALCH for runes ([`runes`]), pay SOL for spellbooks
//! ([`spellbooks`]) at published prices ([`pricing`]), and cast spells with
//! both ([`casting`]). What a caller can rely on is in [`promises`], and what
//! holds of all of it together is in [`laws`].
pub mod accounts;
pub mod binary64;
pub mod bytes;
pub mod casting;
pub mod chain;
pub mod error;
pub mod events;
pub mod key;
pub mod laws;
pub mod pricing;
pub mod promises;
pub mod runes;
pub mod setup;
pub mod spellbooks;
pub mod state;
pub mod tier;
