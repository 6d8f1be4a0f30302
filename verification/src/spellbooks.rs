//! Buying spellbooks for SOL.
use crate::accounts::BuySpellbooks;
use crate::chain::{transfer, SystemInstruction};
use crate::error::SpellError;
use crate::events::SpellbooksPurchased;
use crate::pricing::{book_price, lamports_per_book, PRICE_LIFETIME};
use crate::state::{GlobalState, PricingState};
use crate::tier::SpellTier;
use vstd::prelude::*;

verus! {

/// The most spellbooks that one purchase can be for.
pub const MAX_QUANTITY: u8 = 100;

/// Decides whether so many spellbooks can be bought at once.
pub fn check_quantity(quantity: u8) -> (r: Result<(), SpellError>)
    ensures
        r == (if 0 < quantity <= MAX_QUANTITY {
            Ok(())
        } else {
            Err(SpellError::InvalidAmount)
        }),
{
    if quantity > 0 && quantity <= MAX_QUANTITY {
        Ok(())
    } else {
        Err(SpellError::InvalidAmount)
    }
}

/// What a purchase costs in lamports.
pub open spec fn total_price(tier: SpellTier, quantity: u8, pricing: PricingState) -> nat {
    book_price(tier, pricing) * quantity as nat
}

/// Why no payment is asked for, if it is not.
pub open spec fn payment_refusal(
    accounts: BuySpellbooks,
    tier: SpellTier,
    quantity: u8,
    now: i64,
) -> Option<SpellError> {
    if !(0 < quantity <= MAX_QUANTITY) {
        Some(SpellError::InvalidAmount)
    } else if now - accounts.pricing_state.last_update >= PRICE_LIFETIME {
        Some(SpellError::StalePrices)
    } else if total_price(tier, quantity, accounts.pricing_state) > u64::MAX {
        Some(SpellError::Overflow)
    } else {
        None
    }
}

/// Why a purchase is refused, if it is.
pub open spec fn purchase_refusal(
    accounts: BuySpellbooks,
    tier: SpellTier,
    quantity: u8,
    now: i64,
) -> Option<SpellError> {
    match payment_refusal(accounts, tier, quantity, now) {
        Some(error) => Some(error),
        None => {
            if accounts.user_state.books(tier) + quantity > u64::MAX {
                Some(SpellError::Overflow)
            } else if accounts.global_state.total_sol_collected + total_price(
                tier,
                quantity,
                accounts.pricing_state,
            ) > u64::MAX {
                Some(SpellError::Overflow)
            } else {
                None
            }
        },
    }
}

/// The age of the prices can be told: it fits the type of a time.
pub open spec fn price_age_fits(accounts: BuySpellbooks, now: i64) -> bool {
    i64::MIN <= now - accounts.pricing_state.last_update <= i64::MAX
}

/// What a purchase costs, or why it is not offered.
fn quote(accounts: &BuySpellbooks, tier: SpellTier, quantity: u8, now: i64) -> (r: Result<
    u64,
    SpellError,
>)
    requires
        accounts.pricing_state.wf(),
        0 < quantity <= MAX_QUANTITY ==> price_age_fits(*accounts, now),
    ensures
        match payment_refusal(*accounts, tier, quantity, now) {
            Some(error) => r == Err::<u64, SpellError>(error),
            None => r is Ok && r->Ok_0 == total_price(tier, quantity, accounts.pricing_state),
        },
{
    if let Err(error) = check_quantity(quantity) {
        return Err(error);
    }
    if now - accounts.pricing_state.last_update >= PRICE_LIFETIME {
        return Err(SpellError::StalePrices);
    }
    let per_book: u64 = lamports_per_book(tier, &accounts.pricing_state);
    match per_book.checked_mul(quantity as u64) {
        Some(total) => Ok(total),
        None => Err(SpellError::Overflow),
    }
}

/// The payment that `buy_spellbooks` rests on: the user pays the treasury
/// the price of the spellbooks, at prices that are not older than five
/// minutes.
pub fn order_payment(accounts: &BuySpellbooks, tier: SpellTier, quantity: u8, now: i64) -> (r:
    Result<SystemInstruction, SpellError>)
    requires
        accounts.pricing_state.wf(),
        0 < quantity <= MAX_QUANTITY ==> price_age_fits(*accounts, now),
    ensures
        match payment_refusal(*accounts, tier, quantity, now) {
            Some(error) => r == Err::<SystemInstruction, SpellError>(error),
            None => r is Ok && r->Ok_0.is_transfer(
                accounts.user,
                accounts.global_state.treasury,
                total_price(tier, quantity, accounts.pricing_state) as u64,
            ),
        },
{
    match quote(accounts, tier, quantity, now) {
        Err(error) => Err(error),
        Ok(lamports) => Ok(transfer(&accounts.user, &accounts.global_state.treasury, lamports)),
    }
}

/// The accounts after a purchase: the user has the spellbooks, and the
/// payment is counted.
pub open spec fn purchased(
    accounts: BuySpellbooks,
    tier: SpellTier,
    quantity: u8,
) -> BuySpellbooks {
    BuySpellbooks {
        user_state: accounts.user_state.with_books(
            tier,
            (accounts.user_state.books(tier) + quantity) as u64,
        ),
        global_state: GlobalState {
            total_sol_collected: (accounts.global_state.total_sol_collected + total_price(
                tier,
                quantity,
                accounts.pricing_state,
            )) as u64,
            ..accounts.global_state
        },
        ..accounts
    }
}

/// Credits spellbooks that were paid for.
pub fn buy_spellbooks(accounts: &mut BuySpellbooks, tier: SpellTier, quantity: u8, now: i64) -> (r:
    Result<SpellbooksPurchased, SpellError>)
    requires
        old(accounts).pricing_state.wf(),
        0 < quantity <= MAX_QUANTITY ==> price_age_fits(*old(accounts), now),
    ensures
        match purchase_refusal(*old(accounts), tier, quantity, now) {
            Some(error) => r == Err::<SpellbooksPurchased, SpellError>(error) && *final(accounts)
                == *old(accounts),
            None => {
                &&& *final(accounts) == purchased(*old(accounts), tier, quantity)
                &&& r == Ok::<SpellbooksPurchased, SpellError>(
                    SpellbooksPurchased {
                        user: old(accounts).user,
                        tier: tier.code(),
                        quantity,
                        sol_paid: total_price(tier, quantity, old(accounts).pricing_state) as u64,
                        alch_price: old(accounts).pricing_state.alch_price_usd,
                        sol_price: old(accounts).pricing_state.sol_price_usd,
                    },
                )
            },
        },
{
    let total_lamports: u64 = match quote(accounts, tier, quantity, now) {
        Err(error) => {
            return Err(error);
        },
        Ok(lamports) => lamports,
    };
    let books: u64 = match accounts.user_state.books(tier).checked_add(quantity as u64) {
        Some(books) => books,
        None => {
            return Err(SpellError::Overflow);
        },
    };
    let total_sol_collected: u64 = match accounts.global_state.total_sol_collected.checked_add(
        total_lamports,
    ) {
        Some(total) => total,
        None => {
            return Err(SpellError::Overflow);
        },
    };
    accounts.user_state.set_books(tier, books);
    accounts.global_state.total_sol_collected = total_sol_collected;
    Ok(
        SpellbooksPurchased {
            user: accounts.user,
            tier: tier.code(),
            quantity,
            sol_paid: total_lamports,
            alch_price: accounts.pricing_state.alch_price_usd,
            sol_price: accounts.pricing_state.sol_price_usd,
        },
    )
}

} // verus!
