//! Publishing prices, and what a spellbook costs at them.
use crate::accounts::UpdatePrices;
use crate::binary64::{lemma_nearest_between, lemma_units_ordered, lemma_value, nearest, Binary64};
use crate::error::SpellError;
use crate::events::PriceUpdated;
use crate::state::{alch_price_ok, is_alch_price, is_sol_price, sol_price_ok, PricingState,
    ALCH_PRICE_MAX_BITS, ALCH_PRICE_MIN_BITS, SOL_PRICE_MAX_BITS, SOL_PRICE_MIN_BITS};
use crate::tier::SpellTier;
use vstd::arithmetic::power2::{lemma2_to64, lemma2_to64_rest, lemma_pow2_adds, lemma_pow2_pos,
    pow2};
use vstd::prelude::*;

verus! {

/// Lamports in one SOL.
pub const LAMPORTS_PER_SOL: u64 = 1_000_000_000;

/// Seconds for which published prices hold.
pub const PRICE_LIFETIME: i64 = 300;

/// Why new prices are refused, if they are.
pub open spec fn price_refusal(
    accounts: UpdatePrices,
    alch_price_usd: Binary64,
    sol_price_usd: Binary64,
) -> Option<SpellError> {
    if accounts.authority != accounts.global_state.authority {
        Some(SpellError::Unauthorized)
    } else if !alch_price_ok(alch_price_usd) || !sol_price_ok(sol_price_usd) {
        Some(SpellError::InvalidPrice)
    } else {
        None
    }
}

/// Decides whether the signer may publish these prices.
pub fn check_prices(
    accounts: &UpdatePrices,
    alch_price_usd: Binary64,
    sol_price_usd: Binary64,
) -> (r: Result<(), SpellError>)
    ensures
        r == (match price_refusal(*accounts, alch_price_usd, sol_price_usd) {
            Some(error) => Err(error),
            None => Ok(()),
        }),
{
    if accounts.authority != accounts.global_state.authority {
        return Err(SpellError::Unauthorized);
    }
    if !is_alch_price(alch_price_usd) {
        return Err(SpellError::InvalidPrice);
    }
    if !is_sol_price(sol_price_usd) {
        return Err(SpellError::InvalidPrice);
    }
    Ok(())
}

/// The accounts after prices were published.
pub open spec fn repriced(
    accounts: UpdatePrices,
    alch_price_usd: Binary64,
    sol_price_usd: Binary64,
    now: i64,
) -> UpdatePrices {
    UpdatePrices {
        pricing_state: PricingState { alch_price_usd, sol_price_usd, last_update: now },
        ..accounts
    }
}

/// Publishes prices at the time `now`; only the authority may.
pub fn update_prices(
    accounts: &mut UpdatePrices,
    alch_price_usd: Binary64,
    sol_price_usd: Binary64,
    now: i64,
) -> (r: Result<PriceUpdated, SpellError>)
    ensures
        match price_refusal(*old(accounts), alch_price_usd, sol_price_usd) {
            Some(error) => r == Err::<PriceUpdated, SpellError>(error) && *final(accounts) == *old(
                accounts,
            ),
            None => {
                &&& r == Ok::<PriceUpdated, SpellError>(
                    PriceUpdated { alch_price_usd, sol_price_usd, timestamp: now },
                )
                &&& *final(accounts) == repriced(
                    *old(accounts),
                    alch_price_usd,
                    sol_price_usd,
                    now,
                )
                &&& final(accounts).pricing_state.wf()
            },
        },
{
    match check_prices(accounts, alch_price_usd, sol_price_usd) {
        Err(error) => Err(error),
        Ok(()) => {
            accounts.pricing_state.alch_price_usd = alch_price_usd;
            accounts.pricing_state.sol_price_usd = sol_price_usd;
            accounts.pricing_state.last_update = now;
            Ok(PriceUpdated { alch_price_usd, sol_price_usd, timestamp: now })
        },
    }
}

/// The USD value of a spellbook.
pub open spec fn usd_per_book(tier: SpellTier, alch_price_usd: Binary64) -> Binary64 {
    nearest(alch_price_usd.units() * tier.alch_equivalent(), 1)
}

/// The price of a spellbook in SOL.
pub open spec fn sol_per_book(
    tier: SpellTier,
    alch_price_usd: Binary64,
    sol_price_usd: Binary64,
) -> Binary64 {
    nearest(
        (usd_per_book(tier, alch_price_usd).units() * pow2(1074)) as int,
        sol_price_usd.units() as int,
    )
}

/// The price of a spellbook in lamports, before its fraction is dropped.
pub open spec fn lamports_per_book_unrounded(
    tier: SpellTier,
    alch_price_usd: Binary64,
    sol_price_usd: Binary64,
) -> Binary64 {
    nearest(sol_per_book(tier, alch_price_usd, sol_price_usd).units() * LAMPORTS_PER_SOL, 1)
}

/// The price of a spellbook in whole lamports. As long as no prices are
/// published it is the quotient of zero and zero, which is not a number and
/// makes no lamports.
pub open spec fn book_price(tier: SpellTier, pricing: PricingState) -> nat {
    if pricing.is_unset() {
        0
    } else {
        lamports_per_book_unrounded(tier, pricing.alch_price_usd, pricing.sol_price_usd).whole()
    }
}

/// Bounds on each step of the price calculation, at published prices.
pub proof fn lemma_price_steps(tier: SpellTier, alch_price_usd: Binary64, sol_price_usd: Binary64)
    requires
        alch_price_ok(alch_price_usd),
        sol_price_ok(sol_price_usd),
    ensures
        ALCH_PRICE_MIN_BITS <= alch_price_usd.bits <= ALCH_PRICE_MAX_BITS,
        SOL_PRICE_MIN_BITS <= sol_price_usd.bits <= SOL_PRICE_MAX_BITS,
        // from 0.75 to 75000 USD
        0x3FE8_0000_0000_0000 <= usd_per_book(tier, alch_price_usd).bits <= 0x40F2_4F80_0000_0000,
        // from 1/1024 to 1500 SOL
        0x3F50_0000_0000_0000 <= sol_per_book(tier, alch_price_usd, sol_price_usd).bits
            <= 0x4097_7000_0000_0000,
        // from 976562.5 to 1.5e12 lamports
        0x412D_CD65_0000_0000 <= lamports_per_book_unrounded(
            tier,
            alch_price_usd,
            sol_price_usd,
        ).bits <= 0x4275_D3EF_7980_0000,
        976_562 <= lamports_per_book_unrounded(tier, alch_price_usd, sol_price_usd).whole()
            <= 1_500_000_000_000,
{
    let one = pow2(1074) as int;
    lemma_pow2_pos(1074);
    lemma2_to64();
    lemma2_to64_rest();
    lemma_pow2_adds(64, 2);

    let alch_min = Binary64 { bits: ALCH_PRICE_MIN_BITS };
    let alch_max = Binary64 { bits: ALCH_PRICE_MAX_BITS };
    let sol_min = Binary64 { bits: SOL_PRICE_MIN_BITS };
    let sol_max = Binary64 { bits: SOL_PRICE_MAX_BITS };
    lemma_units_ordered(alch_min, alch_price_usd);
    lemma_units_ordered(alch_price_usd, alch_max);
    lemma_units_ordered(sol_min, sol_price_usd);
    lemma_units_ordered(sol_price_usd, sol_max);
    lemma_value(alch_min, 0x001A_36E2_EB1C_432D, 0x0004_0000_0000_0000_0000);
    lemma_value(alch_max, 0x0010_0000_0000_0000, 0x0010_0000_0000_0000);
    lemma_value(sol_min, 0x0019_0000_0000_0000, 0x8000_0000_0000);
    lemma_value(sol_max, 0x001F_4000_0000_0000, 0x1000_0000_0000);
    let a = alch_price_usd.units() as int;
    let s = sol_price_usd.units() as int;
    let w = tier.alch_equivalent() as int;
    assert(alch_max.units() == one);
    assert(sol_min.units() == 50 * one);
    assert(sol_max.units() == 500 * one);

    let usd_min = Binary64 { bits: 0x3FE8_0000_0000_0000 };
    let usd_max = Binary64 { bits: 0x40F2_4F80_0000_0000 };
    lemma_value(usd_min, 0x0018_0000_0000_0000, 0x0020_0000_0000_0000);
    lemma_value(usd_max, 0x0012_4F80_0000_0000, 0x0010_0000_0000);
    assert(4 * usd_min.units() == 3 * one);
    assert(usd_max.units() == 75_000 * one);
    assert(7_500 * a <= a * w <= 75_000 * a) by (nonlinear_arith)
        requires
            7_500 <= w <= 75_000,
            0 <= a,
    ;
    lemma_nearest_between(a * w, 1, usd_min, usd_max);
    let usd = usd_per_book(tier, alch_price_usd);
    let u = usd.units() as int;

    let ratio_min = Binary64 { bits: 0x3F50_0000_0000_0000 };
    let ratio_max = Binary64 { bits: 0x4097_7000_0000_0000 };
    lemma_value(ratio_min, 0x0010_0000_0000_0000, 0x4000_0000_0000_0000);
    lemma_value(ratio_max, 0x0017_7000_0000_0000, 0x0400_0000_0000);
    assert(1_024 * ratio_min.units() == one);
    assert(ratio_max.units() == 1_500 * one);
    let low = ratio_min.units() as int;
    assert(low * s <= u * one) by (nonlinear_arith)
        requires
            1_024 * low == one,
            0 < one,
            s <= 500 * one,
            3 * one <= 4 * u,
            0 <= s,
    ;
    assert(u * one <= (1_500 * one) * s) by (nonlinear_arith)
        requires
            u <= 75_000 * one,
            50 * one <= s,
            0 < one,
    ;
    lemma_nearest_between(u * one, s, ratio_min, ratio_max);
    let ratio = sol_per_book(tier, alch_price_usd, sol_price_usd);

    let lamports_min = Binary64 { bits: 0x412D_CD65_0000_0000 };
    let lamports_max = Binary64 { bits: 0x4275_D3EF_7980_0000 };
    lemma_value(lamports_min, 0x001D_CD65_0000_0000, 0x0002_0000_0000);
    lemma_value(lamports_max, 0x0015_D3EF_7980_0000, 0x1000);
    assert(2 * lamports_min.units() == 1_953_125 * one);
    assert(lamports_max.units() == 1_500_000_000_000 * one);
    lemma_nearest_between(ratio.units() * LAMPORTS_PER_SOL, 1, lamports_min, lamports_max);
    let x = lamports_per_book_unrounded(tier, alch_price_usd, sol_price_usd).units() as int;
    assert(976_562 <= x / one <= 1_500_000_000_000) by (nonlinear_arith)
        requires
            1_953_125 * one <= 2 * x,
            x <= 1_500_000_000_000 * one,
            0 < one,
    ;
}

/// What one spellbook costs in lamports: three quarters of the tier's rune
/// cost, at the published prices.
pub fn lamports_per_book(tier: SpellTier, pricing: &PricingState) -> (r: u64)
    requires
        pricing.wf(),
    ensures
        r == book_price(tier, *pricing),
{
    if pricing.alch_price_usd.bits == 0 && pricing.sol_price_usd.bits == 0 {
        return 0;
    }
    proof {
        lemma_price_steps(tier, pricing.alch_price_usd, pricing.sol_price_usd);
    }
    let usd_value_per_book: Binary64 = pricing.alch_price_usd.times(tier.alch_equivalent());
    let sol_cost_per_book: Binary64 = usd_value_per_book.over(pricing.sol_price_usd);
    sol_cost_per_book.times(LAMPORTS_PER_SOL).truncated()
}

} // verus!
