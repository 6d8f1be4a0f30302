//! Crafting runes out of burned ALCH.
use crate::accounts::CraftRunes;
use crate::error::SpellError;
use crate::events::RunesCrafted;
use crate::key::Pubkey;
use crate::state::{GlobalState, UserState};
use vstd::prelude::*;

verus! {

/// Which rule the accounts of `craft_runes` break.
#[derive(Clone, Copy, Debug, PartialEq, Eq, Structural)]
pub enum ConstraintViolation {
    /// The token account is not the user's.
    TokenOwner,
    /// The token account holds another token.
    TokenMint,
    /// The token is not ALCH.
    AlchMint,
}

impl CraftRunes {
    /// The rule that these accounts break, if any.
    pub open spec fn violation(self) -> Option<ConstraintViolation> {
        if self.user_alch_account.owner != self.user {
            Some(ConstraintViolation::TokenOwner)
        } else if self.user_alch_account.mint != self.alch_mint {
            Some(ConstraintViolation::TokenMint)
        } else if self.alch_mint != self.global_state.alch_mint {
            Some(ConstraintViolation::AlchMint)
        } else {
            None
        }
    }

    /// Checks that the tokens to burn are ALCH and the user's own.
    pub fn check_constraints(&self) -> (r: Result<(), ConstraintViolation>)
        ensures
            r == (match self.violation() {
                Some(violation) => Err(violation),
                None => Ok(()),
            }),
    {
        if self.user_alch_account.owner != self.user {
            return Err(ConstraintViolation::TokenOwner);
        }
        if self.user_alch_account.mint != self.alch_mint {
            return Err(ConstraintViolation::TokenMint);
        }
        if self.alch_mint != self.global_state.alch_mint {
            return Err(ConstraintViolation::AlchMint);
        }
        Ok(())
    }
}

/// Tokens that the token program is to burn.
#[derive(Clone, Copy, Debug, PartialEq, Eq)]
pub struct BurnOrder {
    pub token_program: Pubkey,
    pub mint: Pubkey,
    pub from: Pubkey,
    pub authority: Pubkey,
    pub amount: u64,
}

/// The burn of `amount` ALCH out of the user's token account.
pub open spec fn burn_of(accounts: CraftRunes, amount: u64) -> BurnOrder {
    BurnOrder {
        token_program: accounts.token_program,
        mint: accounts.alch_mint,
        from: accounts.user_alch_account.key,
        authority: accounts.user,
        amount,
    }
}

/// The burn that `craft_runes` rests on: as many ALCH as runes are crafted.
pub fn order_burn(accounts: &CraftRunes, amount: u64) -> (r: Result<BurnOrder, SpellError>)
    ensures
        r == (if amount == 0 {
            Err(SpellError::InvalidAmount)
        } else {
            Ok(burn_of(*accounts, amount))
        }),
{
    if amount == 0 {
        return Err(SpellError::InvalidAmount);
    }
    Ok(
        BurnOrder {
            token_program: accounts.token_program,
            mint: accounts.alch_mint,
            from: accounts.user_alch_account.key,
            authority: accounts.user,
            amount,
        },
    )
}

/// Why crafting is refused, if it is.
pub open spec fn craft_refusal(accounts: CraftRunes, amount: u64) -> Option<SpellError> {
    if amount == 0 {
        Some(SpellError::InvalidAmount)
    } else if accounts.user_state.runes + amount > u64::MAX {
        Some(SpellError::Overflow)
    } else if accounts.global_state.total_alch_burned + amount > u64::MAX {
        Some(SpellError::Overflow)
    } else {
        None
    }
}

/// The accounts after crafting: the user has the runes, and the burned ALCH
/// is counted.
pub open spec fn crafted(accounts: CraftRunes, amount: u64) -> CraftRunes {
    CraftRunes {
        user_state: UserState {
            runes: (accounts.user_state.runes + amount) as u64,
            ..accounts.user_state
        },
        global_state: GlobalState {
            total_alch_burned: (accounts.global_state.total_alch_burned + amount) as u64,
            ..accounts.global_state
        },
        ..accounts
    }
}

/// Credits runes for ALCH that was burned, one for one.
pub fn craft_runes(accounts: &mut CraftRunes, amount: u64) -> (r: Result<RunesCrafted, SpellError>)
    ensures
        match craft_refusal(*old(accounts), amount) {
            Some(error) => r == Err::<RunesCrafted, SpellError>(error) && *final(accounts) == *old(
                accounts,
            ),
            None => {
                &&& *final(accounts) == crafted(*old(accounts), amount)
                &&& r == Ok::<RunesCrafted, SpellError>(
                    RunesCrafted {
                        user: old(accounts).user,
                        alch_burned: amount,
                        runes_received: amount,
                        total_runes: final(accounts).user_state.runes,
                    },
                )
            },
        },
{
    if amount == 0 {
        return Err(SpellError::InvalidAmount);
    }
    let runes: u64 = match accounts.user_state.runes.checked_add(amount) {
        Some(runes) => runes,
        None => {
            return Err(SpellError::Overflow);
        },
    };
    let total_alch_burned: u64 = match accounts.global_state.total_alch_burned.checked_add(amount) {
        Some(total) => total,
        None => {
            return Err(SpellError::Overflow);
        },
    };
    accounts.user_state.runes = runes;
    accounts.global_state.total_alch_burned = total_alch_burned;
    Ok(
        RunesCrafted {
            user: accounts.user,
            alch_burned: amount,
            runes_received: amount,
            total_runes: runes,
        },
    )
}

} // verus!
