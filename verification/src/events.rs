//! What the program reports of the instructions that it has carried out.
use crate::binary64::Binary64;
use crate::key::Pubkey;
use vstd::prelude::*;

verus! {

/// New prices were published.
#[derive(Clone, Copy, Debug, PartialEq, Eq)]
pub struct PriceUpdated {
    pub alch_price_usd: Binary64,
    pub sol_price_usd: Binary64,
    pub timestamp: i64,
}

/// ALCH was burned for runes.
#[derive(Clone, Copy, Debug, PartialEq, Eq)]
pub struct RunesCrafted {
    pub user: Pubkey,
    pub alch_burned: u64,
    pub runes_received: u64,
    pub total_runes: u64,
}

/// Spellbooks were paid for.
#[derive(Clone, Copy, Debug, PartialEq, Eq)]
pub struct SpellbooksPurchased {
    pub user: Pubkey,
    pub tier: u8,
    pub quantity: u8,
    pub sol_paid: u64,
    pub alch_price: Binary64,
    pub sol_price: Binary64,
}

/// A spell was cast and took effect.
#[derive(Clone, Copy, Debug, PartialEq, Eq)]
pub struct SpellCastSuccess {
    pub user: Pubkey,
    pub tier: u8,
    pub multiplier: Binary64,
    pub expiry: i64,
    pub random_value: u32,
}

/// A spell was cast and failed.
#[derive(Clone, Copy, Debug, PartialEq, Eq)]
pub struct SpellCastFailure {
    pub user: Pubkey,
    pub tier: u8,
    pub rune_refund: u64,
    pub random_value: u32,
}

/// How a cast ended.
#[derive(Clone, Copy, Debug, PartialEq, Eq)]
pub enum CastOutcome {
    Success(SpellCastSuccess),
    Failure(SpellCastFailure),
}

} // verus!
