//! Setting up the program and its users.
use crate::accounts::{Initialize, InitializeUser};
use crate::binary64::{lemma_units_ordered, Binary64};
use crate::error::SpellError;
use crate::key::Pubkey;
use crate::state::{GlobalState, UserState, ONE_BITS, TWO_BITS};
use vstd::prelude::*;

verus! {

/// The program-wide account of a program that was just set up.
pub open spec fn initial_global(
    authority: Pubkey,
    treasury: Pubkey,
    alch_mint: Pubkey,
    bump: u8,
) -> GlobalState {
    GlobalState {
        authority,
        treasury,
        alch_mint,
        total_alch_burned: 0,
        total_sol_collected: 0,
        total_spells_cast: 0,
        total_successes: 0,
        bump,
    }
}

/// The account of a user who has just joined.
pub open spec fn initial_user(owner: Pubkey, bump: u8) -> UserState {
    UserState {
        owner,
        runes: 0,
        novice_books: 0,
        adept_books: 0,
        master_books: 0,
        legendary_books: 0,
        multiplier: Binary64 { bits: ONE_BITS },
        buff_expiry: 0,
        active_tier: 0,
        bump,
    }
}

/// Sets up the program-wide account: the signer becomes the authority, and
/// every total starts at zero. The prices stay as they are.
pub fn initialize(accounts: &mut Initialize, treasury: Pubkey, alch_mint: Pubkey, bump: u8) -> (r:
    Result<(), SpellError>)
    ensures
        r == Ok::<(), SpellError>(()),
        *final(accounts) == (Initialize {
            global_state: initial_global(old(accounts).authority, treasury, alch_mint, bump),
            ..*old(accounts)
        }),
        final(accounts).global_state.wf(),
{
    accounts.global_state.authority = accounts.authority;
    accounts.global_state.treasury = treasury;
    accounts.global_state.alch_mint = alch_mint;
    accounts.global_state.total_alch_burned = 0;
    accounts.global_state.total_sol_collected = 0;
    accounts.global_state.total_spells_cast = 0;
    accounts.global_state.total_successes = 0;
    accounts.global_state.bump = bump;
    Ok(())
}

/// Sets up a user's account: the signer owns it, holds nothing, and has the
/// multiplier 1.
pub fn initialize_user(accounts: &mut InitializeUser, bump: u8) -> (r: Result<(), SpellError>)
    ensures
        r == Ok::<(), SpellError>(()),
        *final(accounts) == (InitializeUser {
            user_state: initial_user(old(accounts).user, bump),
            ..*old(accounts)
        }),
        final(accounts).user_state.wf(),
{
    accounts.user_state.owner = accounts.user;
    accounts.user_state.runes = 0;
    accounts.user_state.novice_books = 0;
    accounts.user_state.adept_books = 0;
    accounts.user_state.master_books = 0;
    accounts.user_state.legendary_books = 0;
    accounts.user_state.multiplier = Binary64 { bits: ONE_BITS };
    accounts.user_state.buff_expiry = 0;
    accounts.user_state.active_tier = 0;
    accounts.user_state.bump = bump;
    proof {
        lemma_units_ordered(Binary64 { bits: ONE_BITS }, Binary64 { bits: TWO_BITS });
    }
    Ok(())
}

} // verus!
