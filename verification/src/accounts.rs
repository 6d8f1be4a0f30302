//! The accounts that each instruction works on.
use crate::key::Pubkey;
use crate::state::{GlobalState, PricingState, UserState};
use vstd::prelude::*;

verus! {

/// Accounts of `initialize`.
#[derive(Clone, Copy, Debug, PartialEq, Eq)]
pub struct Initialize {
    pub global_state: GlobalState,
    pub pricing_state: PricingState,
    pub authority: Pubkey,
}

/// Accounts of `update_prices`.
#[derive(Clone, Copy, Debug, PartialEq, Eq)]
pub struct UpdatePrices {
    pub pricing_state: PricingState,
    pub global_state: GlobalState,
    pub authority: Pubkey,
}

/// Accounts of `initialize_user`.
#[derive(Clone, Copy, Debug, PartialEq, Eq)]
pub struct InitializeUser {
    pub user_state: UserState,
    pub user: Pubkey,
}

/// A token account: where it is, whose it is, and which token it holds.
#[derive(Clone, Copy, Debug, PartialEq, Eq)]
pub struct TokenAccount {
    pub key: Pubkey,
    pub owner: Pubkey,
    pub mint: Pubkey,
}

/// Accounts of `craft_runes`.
#[derive(Clone, Copy, Debug, PartialEq, Eq)]
pub struct CraftRunes {
    pub user_state: UserState,
    pub global_state: GlobalState,
    pub user: Pubkey,
    pub user_alch_account: TokenAccount,
    pub alch_mint: Pubkey,
    pub token_program: Pubkey,
}

/// Accounts of `buy_spellbooks`. The treasury account is the one that the
/// caller hands over; the payment goes to the one that the program-wide
/// account names.
#[derive(Clone, Copy, Debug, PartialEq, Eq)]
pub struct BuySpellbooks {
    pub user_state: UserState,
    pub global_state: GlobalState,
    pub pricing_state: PricingState,
    pub user: Pubkey,
    pub treasury: Pubkey,
}

/// Accounts of `cast_spell`; of the recent block hashes, the account's data.
#[derive(Debug, PartialEq, Eq)]
pub struct CastSpell {
    pub user_state: UserState,
    pub global_state: GlobalState,
    pub user: Pubkey,
    pub recent_blockhashes: Vec<u8>,
}

} // verus!
