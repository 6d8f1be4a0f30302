//! What holds of the system as a whole.
use crate::accounts::{BuySpellbooks, CastSpell, CraftRunes, UpdatePrices};
use crate::binary64::{lemma_nearest_error, lemma_nearest_exact, lemma_nearest_monotonic,
    lemma_nearest_near, lemma_units_ordered, lemma_value, nearest, Binary64};
use crate::bytes::{le_bytes, le_value, lemma_le_bytes, lemma_time_encoding_injective,
    twos_complement};
use crate::casting::{boosted, cast_refusal, lemma_boosted_bounds, rune_refund, seed,
    settled_global, settled_user, settlement, succeeds, BLOCKHASH_LENGTH,
    BUFF_DURATION, DRAWS};
use crate::chain::SystemInstruction;
use crate::error::SpellError;
use crate::events::CastOutcome;
use crate::key::Pubkey;
use crate::pricing::{book_price, lamports_per_book_unrounded, lemma_price_steps, price_refusal,
    repriced, sol_per_book, usd_per_book, LAMPORTS_PER_SOL, PRICE_LIFETIME};
use crate::runes::{burn_of, craft_refusal, crafted};
use crate::setup::{initial_global, initial_user};
use crate::spellbooks::{payment_refusal, purchase_refusal, purchased, total_price, MAX_QUANTITY};
use crate::state::{alch_price_ok, multiplier_ok, sol_price_ok, GlobalState, PricingState,
    UserState, ALCH_PRICE_MAX_BITS, ALCH_PRICE_MIN_BITS, ONE_BITS, SOL_PRICE_MAX_BITS,
    SOL_PRICE_MIN_BITS, TWO_BITS};
use crate::tier::SpellTier;
use vstd::arithmetic::div_mod::lemma_div_is_ordered;
use vstd::arithmetic::power::pow;
use vstd::arithmetic::power2::{lemma2_to64, lemma2_to64_rest, lemma_pow2_adds, lemma_pow2_pos,
    pow2};
use vstd::prelude::*;

verus! {

// Tiers

/// The tiers have different numbers, below four.
pub proof fn law_tier_codes(a: SpellTier, b: SpellTier)
    ensures
        a.code() < 4,
        a.code() == b.code() ==> a == b,
{
}

/// A dearer tier costs more runes, gives a larger boost and succeeds less
/// often.
pub proof fn law_tiers_ordered(a: SpellTier, b: SpellTier)
    requires
        a.code() < b.code(),
    ensures
        a.rune_cost() < b.rune_cost(),
        a.alch_equivalent() < b.alch_equivalent(),
        a.boost().units() < b.boost().units(),
        a.success_rate() > b.success_rate(),
{
    lemma_units_ordered(a.boost(), b.boost());
}

/// A spellbook is worth three quarters of the runes that its spell costs,
/// which have six decimals.
pub proof fn law_book_is_three_quarters(tier: SpellTier)
    ensures
        4 * (tier.alch_equivalent() * 1_000_000) == 3 * tier.rune_cost(),
{
}

/// What a successful cast adds, in percent.
pub open spec fn boost_percent(tier: SpellTier) -> int {
    match tier {
        SpellTier::Novice => 10,
        SpellTier::Adept => 25,
        SpellTier::Master => 50,
        SpellTier::Legendary => 100,
    }
}

/// The boost of a tier is the double closest to its percentage.
pub proof fn law_boosts(tier: SpellTier)
    ensures
        tier.boost() == nearest(boost_percent(tier) * pow2(1074), 100),
{
    lemma2_to64();
    lemma2_to64_rest();
    let b = tier.boost();
    let e = b.exponent();
    let p = pow2((e - 1) as nat) as int;
    lemma_pow2_pos((e - 1) as nat);
    lemma_pow2_adds((e - 1) as nat, (1075 - e) as nat);
    match tier {
        SpellTier::Novice => {
            assert(pow2(1074) == p * 0x100_0000_0000_0000);
            assert(b.units() == 0x19_9999_9999_999A * p);
        },
        SpellTier::Adept => {
            assert(pow2(1074) == p * 0x40_0000_0000_0000);
            assert(b.units() == 0x10_0000_0000_0000 * p);
        },
        SpellTier::Master => {
            assert(pow2(1074) == p * 0x20_0000_0000_0000);
            assert(b.units() == 0x10_0000_0000_0000 * p);
        },
        SpellTier::Legendary => {
            assert(pow2(1074) == p * 0x10_0000_0000_0000);
            assert(b.units() == 0x10_0000_0000_0000 * p);
        },
    }
    lemma_nearest_near(b, boost_percent(tier) * pow2(1074), 100);
}

// Prices

/// A price is accepted if and only if it lies within its limits: from the
/// double 0.0001 to 1 for ALCH, from 50 to 500 for SOL.
pub proof fn law_price_limits(price: Binary64)
    ensures
        alch_price_ok(price) <==> price.is_magnitude() && nearest(
            pow2(1074) as int,
            10_000,
        ).units() <= price.units() <= pow2(1074),
        sol_price_ok(price) <==> price.is_magnitude() && 50 * pow2(1074) <= price.units() <= 500
            * pow2(1074),
{
    let one = pow2(1074) as int;
    lemma2_to64();
    lemma2_to64_rest();
    lemma_pow2_adds(64, 2);
    let alch_min = Binary64 { bits: ALCH_PRICE_MIN_BITS };
    let p = pow2(1008) as int;
    lemma_pow2_pos(1008);
    lemma_pow2_adds(1008, 66);
    assert(alch_min.exponent() == 1009);
    assert(one == p * 0x4_0000_0000_0000_0000);
    assert(alch_min.units() == 0x1A_36E2_EB1C_432D * p);
    lemma_nearest_near(alch_min, one, 10_000);
    lemma_value(Binary64 { bits: ALCH_PRICE_MAX_BITS }, 0x10_0000_0000_0000, 0x10_0000_0000_0000);
    lemma_value(Binary64 { bits: SOL_PRICE_MIN_BITS }, 0x19_0000_0000_0000, 0x8000_0000_0000);
    lemma_value(Binary64 { bits: SOL_PRICE_MAX_BITS }, 0x1F_4000_0000_0000, 0x1000_0000_0000);
}

/// The authority that set the program up, and nobody else, may publish
/// prices within the limits.
pub proof fn law_only_authority_publishes(
    authority: Pubkey,
    treasury: Pubkey,
    alch_mint: Pubkey,
    bump: u8,
    pricing_state: PricingState,
    signer: Pubkey,
    alch_price_usd: Binary64,
    sol_price_usd: Binary64,
)
    ensures
        ({
            let accounts = UpdatePrices {
                pricing_state,
                global_state: initial_global(authority, treasury, alch_mint, bump),
                authority: signer,
            };
            &&& price_refusal(accounts, alch_price_usd, sol_price_usd) is None <==> signer
                == authority && alch_price_ok(alch_price_usd) && sol_price_ok(sol_price_usd)
            &&& signer != authority ==> price_refusal(accounts, alch_price_usd, sol_price_usd)
                == Some(SpellError::Unauthorized)
        }),
{
}

/// Publishing prices leaves the program-wide account alone.
pub proof fn law_publishing_keeps_global(
    accounts: UpdatePrices,
    alch_price_usd: Binary64,
    sol_price_usd: Binary64,
    now: i64,
)
    ensures
        repriced(accounts, alch_price_usd, sol_price_usd, now).global_state
            == accounts.global_state,
{
}

/// At published prices a spellbook is never free: it costs between about a
/// thousandth of a SOL and 1500 SOL.
pub proof fn law_book_price_bounds(tier: SpellTier, pricing: PricingState)
    requires
        pricing.is_published(),
    ensures
        976_562 <= book_price(tier, pricing) <= 1_500_000_000_000,
{
    lemma_price_steps(tier, pricing.alch_price_usd, pricing.sol_price_usd);
}

/// The price of a purchase always fits: no valid quantity at valid prices
/// overflows.
pub proof fn law_total_price_fits(
    accounts: BuySpellbooks,
    tier: SpellTier,
    quantity: u8,
    now: i64,
)
    requires
        accounts.pricing_state.wf(),
    ensures
        quantity <= MAX_QUANTITY ==> total_price(tier, quantity, accounts.pricing_state)
            <= 150_000_000_000_000,
        payment_refusal(accounts, tier, quantity, now) != Some(SpellError::Overflow),
{
    let price = book_price(tier, accounts.pricing_state);
    if accounts.pricing_state.is_unset() {
    } else {
        law_book_price_bounds(tier, accounts.pricing_state);
    }
    if quantity <= MAX_QUANTITY {
        assert(price * quantity as nat <= 150_000_000_000_000) by (nonlinear_arith)
            requires
                price <= 1_500_000_000_000,
                quantity <= 100,
        ;
    }
}

/// The price of a spellbook grows with what the book is worth in ALCH and
/// with the price of ALCH, and falls with the price of SOL.
pub proof fn law_book_price_monotonic(
    a: SpellTier,
    b: SpellTier,
    low: PricingState,
    high: PricingState,
)
    requires
        low.is_published(),
        high.is_published(),
        a.code() <= b.code(),
        low.alch_price_usd.units() <= high.alch_price_usd.units(),
        low.sol_price_usd.units() >= high.sol_price_usd.units(),
    ensures
        book_price(a, low) <= book_price(b, high),
{
    let one = pow2(1074) as int;
    lemma_pow2_pos(1074);
    lemma_price_steps(a, low.alch_price_usd, low.sol_price_usd);
    lemma_price_steps(b, high.alch_price_usd, high.sol_price_usd);
    let x1 = low.alch_price_usd.units() as int;
    let x2 = high.alch_price_usd.units() as int;
    let w1 = a.alch_equivalent() as int;
    let w2 = b.alch_equivalent() as int;
    assert(0 <= x1 * w1 <= x2 * w2) by (nonlinear_arith)
        requires
            0 <= x1 <= x2,
            0 <= w1 <= w2,
    ;
    lemma_nearest_monotonic(x1 * w1, 1, x2 * w2, 1);
    let u1 = usd_per_book(a, low.alch_price_usd).units() as int;
    let u2 = usd_per_book(b, high.alch_price_usd).units() as int;
    let s1 = low.sol_price_usd.units() as int;
    let s2 = high.sol_price_usd.units() as int;
    lemma_units_ordered(Binary64 { bits: 0 }, low.sol_price_usd);
    lemma_units_ordered(Binary64 { bits: 0 }, high.sol_price_usd);
    assert(0 <= u1 * one && 0 <= u2 * one && (u1 * one) * s2 <= (u2 * one) * s1)
        by (nonlinear_arith)
        requires
            0 <= u1 <= u2,
            0 <= s2 <= s1,
            0 < one,
    ;
    lemma_nearest_monotonic(u1 * one, s1, u2 * one, s2);
    let r1 = sol_per_book(a, low.alch_price_usd, low.sol_price_usd).units() as int;
    let r2 = sol_per_book(b, high.alch_price_usd, high.sol_price_usd).units() as int;
    lemma_nearest_monotonic(r1 * LAMPORTS_PER_SOL, 1, r2 * LAMPORTS_PER_SOL, 1);
    lemma_div_is_ordered(
        nearest(r1 * LAMPORTS_PER_SOL, 1).units() as int,
        nearest(r2 * LAMPORTS_PER_SOL, 1).units() as int,
        one,
    );
}

/// The price of a spellbook is the exact price `e` with its fraction dropped,
/// up to a thousandth of a lamport: `e - 1.001 < price <= e + 0.001`.
pub proof fn law_book_price_accurate(tier: SpellTier, pricing: PricingState)
    requires
        pricing.is_published(),
    ensures
        ({
            let price = book_price(tier, pricing) as int;
            let s = pricing.sol_price_usd.units() as int;
            // the exact price is `exact / s` lamports
            let exact = tier.alch_equivalent() * LAMPORTS_PER_SOL
                * pricing.alch_price_usd.units();
            &&& 1_000 * (price * s) <= 1_000 * exact + s
            &&& 1_000 * exact < 1_000 * ((price + 1) * s) + s
        }),
{
    let one = pow2(1074) as int;
    lemma_pow2_pos(1074);
    lemma2_to64();
    lemma2_to64_rest();
    let alch = pricing.alch_price_usd;
    let sol = pricing.sol_price_usd;
    lemma_price_steps(tier, alch, sol);
    let a = alch.units() as int;
    let s = sol.units() as int;
    let w = tier.alch_equivalent() as int;
    let usd = usd_per_book(tier, alch);
    let ratio = sol_per_book(tier, alch, sol);
    let lamports = lamports_per_book_unrounded(tier, alch, sol);
    let u = usd.units() as int;
    let r = ratio.units() as int;
    let l = lamports.units() as int;
    let usd_max = Binary64 { bits: 0x40F2_4F80_0000_0000 };
    let ratio_max = Binary64 { bits: 0x4097_7000_0000_0000 };
    let lamports_max = Binary64 { bits: 0x4275_D3EF_7980_0000 };
    lemma_units_ordered(usd, usd_max);
    lemma_units_ordered(ratio, ratio_max);
    lemma_units_ordered(lamports, lamports_max);
    lemma_value(usd_max, 0x12_4F80_0000_0000, 0x10_0000_0000);
    lemma_value(ratio_max, 0x17_7000_0000_0000, 0x400_0000_0000);
    lemma_value(lamports_max, 0x15_D3EF_7980_0000, 0x1000);
    lemma_value(Binary64 { bits: SOL_PRICE_MIN_BITS }, 0x19_0000_0000_0000, 0x8000_0000_0000);
    assert(0 <= a * w) by (nonlinear_arith)
        requires
            0 <= a,
            0 <= w,
    ;
    assert(0 <= u * one) by (nonlinear_arith)
        requires
            0 <= u,
            0 < one,
    ;
    lemma_nearest_error(a * w, 1);
    lemma_nearest_error(u * one, s);
    lemma_nearest_error(r * LAMPORTS_PER_SOL, 1);
    let x = a * w;
    // each step's error, brought to the scale of `l * s`
    assert(-(75_000 * (one * one)) <= 0x20_0000_0000_0000 * (u * one - x * one) <= 75_000 * (one
        * one))
        by (nonlinear_arith)
        requires
            0x20_0000_0000_0000 * (u - x) <= u,
            0x20_0000_0000_0000 * (x - u) <= u,
            u <= 75_000 * one,
            0 < one,
    ;
    assert(50 * (one * one) <= s * one) by (nonlinear_arith)
        requires
            50 * one <= s,
            0 < one,
    ;
    assert(r * s <= 1_500 * (s * one)) by (nonlinear_arith)
        requires
            r <= 1_500 * one,
            0 <= s,
    ;
    assert(-(1_500_000_000_000 * (s * one)) <= 0x20_0000_0000_0000 * (l * s - LAMPORTS_PER_SOL * (r
        * s))
        <= 1_500_000_000_000 * (s * one)) by (nonlinear_arith)
        requires
            0x20_0000_0000_0000 * (l - r * LAMPORTS_PER_SOL) <= l,
            0x20_0000_0000_0000 * (r * LAMPORTS_PER_SOL - l) <= l,
            l <= 1_500_000_000_000 * one,
            0 <= s,
    ;
    let so = s * one;
    let rs = r * s;
    let uo = u * one;
    let xo = x * one;
    assert(so > 0) by (nonlinear_arith)
        requires
            so == s * one,
            s >= 50 * one,
            one > 0,
    ;
    assert(-so < 1_000 * (l * s - LAMPORTS_PER_SOL * xo) < so);
    let price = book_price(tier, pricing) as int;
    assert(price * one <= l < (price + 1) * one) by (nonlinear_arith)
        requires
            price == l / one,
            0 < one,
    ;
    let exact = LAMPORTS_PER_SOL * x;
    assert(exact == w * LAMPORTS_PER_SOL * a) by (nonlinear_arith)
        requires
            exact == LAMPORTS_PER_SOL * (a * w),
    ;
    assert(LAMPORTS_PER_SOL * xo == exact * one) by (nonlinear_arith)
        requires
            exact == LAMPORTS_PER_SOL * x,
            xo == x * one,
    ;
    assert((price * s) * one <= l * s) by (nonlinear_arith)
        requires
            price * one <= l,
            0 <= s,
    ;
    assert(l * s <= ((price + 1) * s) * one) by (nonlinear_arith)
        requires
            l <= (price + 1) * one,
            0 <= s,
    ;
    let ps = price * s;
    let ps1 = (price + 1) * s;
    assert(1_000 * ps <= 1_000 * exact + s) by (nonlinear_arith)
        requires
            1_000 * (ps * one) <= 1_000 * (exact * one) + s * one,
            0 < one,
    ;
    assert(1_000 * exact < 1_000 * ps1 + s) by (nonlinear_arith)
        requires
            1_000 * (exact * one) < 1_000 * (ps1 * one) + s * one,
            0 < one,
    ;
}

/// Prices can be bought at for five minutes after they were published, and
/// not any longer.
pub proof fn law_prices_expire(
    update: UpdatePrices,
    alch_price_usd: Binary64,
    sol_price_usd: Binary64,
    published: i64,
    purchase: BuySpellbooks,
    tier: SpellTier,
    quantity: u8,
    now: i64,
)
    requires
        price_refusal(update, alch_price_usd, sol_price_usd) is None,
        purchase.pricing_state == repriced(
            update,
            alch_price_usd,
            sol_price_usd,
            published,
        ).pricing_state,
        0 < quantity <= MAX_QUANTITY,
    ensures
        now < published + PRICE_LIFETIME ==> payment_refusal(purchase, tier, quantity, now) is None,
        now >= published + PRICE_LIFETIME ==> payment_refusal(purchase, tier, quantity, now)
            == Some(SpellError::StalePrices),
{
    law_total_price_fits(purchase, tier, quantity, now);
}

// Crafting

/// One ALCH makes one rune: the user gains as many runes as ALCH is burned
/// and counted, and nothing else changes.
pub proof fn law_one_rune_per_alch(accounts: CraftRunes, amount: u64)
    requires
        craft_refusal(accounts, amount) is None,
    ensures
        ({
            let after = crafted(accounts, amount);
            &&& after.user_state.runes - accounts.user_state.runes == burn_of(
                accounts,
                amount,
            ).amount
            &&& after.global_state.total_alch_burned - accounts.global_state.total_alch_burned
                == burn_of(accounts, amount).amount
            &&& forall|tier: SpellTier| #[trigger]
                after.user_state.books(tier) == accounts.user_state.books(tier)
            &&& after.user_state.multiplier == accounts.user_state.multiplier
            &&& after.user_state.buff_expiry == accounts.user_state.buff_expiry
            &&& after.global_state.wf() == accounts.global_state.wf()
        }),
{
}

/// What is burned is the program's ALCH, out of a token account that the
/// signer owns.
pub proof fn law_burns_own_alch(accounts: CraftRunes, amount: u64)
    requires
        accounts.violation() is None,
    ensures
        burn_of(accounts, amount).mint == accounts.global_state.alch_mint,
        burn_of(accounts, amount).mint == accounts.user_alch_account.mint,
        burn_of(accounts, amount).from == accounts.user_alch_account.key,
        burn_of(accounts, amount).authority == accounts.user_alch_account.owner,
{
}

// Buying

/// What the payment moves is what is counted as collected, and the books
/// that the user gains are those that were asked for; books of other tiers,
/// runes and the spell at work stay as they are.
pub proof fn law_purchase_accounts_for_payment(
    accounts: BuySpellbooks,
    tier: SpellTier,
    quantity: u8,
    now: i64,
    payment: SystemInstruction,
)
    requires
        purchase_refusal(accounts, tier, quantity, now) is None,
        payment.is_transfer(
            accounts.user,
            accounts.global_state.treasury,
            total_price(tier, quantity, accounts.pricing_state) as u64,
        ),
    ensures
        ({
            let after = purchased(accounts, tier, quantity);
            &&& after.global_state.total_sol_collected - accounts.global_state.total_sol_collected
                == le_value(payment.data@.subrange(4, 12))
            &&& after.user_state.books(tier) - accounts.user_state.books(tier) == quantity
            &&& forall|other: SpellTier|
                other != tier ==> #[trigger] after.user_state.books(other)
                    == accounts.user_state.books(other)
            &&& after.user_state.runes == accounts.user_state.runes
            &&& after.user_state.multiplier == accounts.user_state.multiplier
            &&& after.user_state.buff_expiry == accounts.user_state.buff_expiry
            &&& after.global_state.wf() == accounts.global_state.wf()
        }),
{
    let lamports = total_price(tier, quantity, accounts.pricing_state);
    lemma_le_bytes(2, 4);
    lemma_le_bytes(lamports, 8);
    assert(pow(256, 8) == 0x1_0000_0000_0000_0000) by {
        reveal_with_fuel(pow, 9);
    }
    assert(payment.data@.subrange(4, 12) =~= le_bytes(lamports, 8));
}

/// A user who has bought a spellbook has one to cast with.
pub proof fn law_purchase_enables_cast(
    accounts: BuySpellbooks,
    tier: SpellTier,
    quantity: u8,
    bought: i64,
    now: i64,
)
    requires
        purchase_refusal(accounts, tier, quantity, bought) is None,
    ensures
        cast_refusal(purchased(accounts, tier, quantity).user_state, tier, now) != Some(
            SpellError::InsufficientBooks,
        ),
{
}

/// A user who has crafted the cost of a spell has the runes to cast it.
pub proof fn law_crafting_enables_cast(
    accounts: CraftRunes,
    amount: u64,
    tier: SpellTier,
    now: i64,
)
    requires
        craft_refusal(accounts, amount) is None,
        amount >= tier.rune_cost(),
    ensures
        cast_refusal(crafted(accounts, amount).user_state, tier, now) != Some(
            SpellError::InsufficientRunes,
        ),
{
}

// Casting

/// A new user has nothing to cast with.
pub proof fn law_new_user_cannot_cast(owner: Pubkey, bump: u8, tier: SpellTier, now: i64)
    ensures
        cast_refusal(initial_user(owner, bump), tier, now) == Some(SpellError::InsufficientRunes),
{
}

/// Either way a cast takes one spellbook of its tier and none of another. A
/// success takes the whole rune cost, a failure exactly nine tenths of it.
pub proof fn law_cast_costs(user: UserState, tier: SpellTier, now: i64, random_value: u32)
    requires
        cast_refusal(user, tier, now) is None,
    ensures
        ({
            let after = settled_user(user, tier, now, random_value);
            &&& user.books(tier) - after.books(tier) == 1
            &&& forall|other: SpellTier|
                other != tier ==> #[trigger] after.books(other) == user.books(other)
            &&& succeeds(tier, random_value) ==> user.runes - after.runes == tier.rune_cost()
            &&& !succeeds(tier, random_value) ==> 10 * (user.runes - after.runes) == 9
                * tier.rune_cost()
            &&& 10 * rune_refund(tier) == tier.rune_cost()
            &&& after.owner == user.owner
            &&& after.bump == user.bump
        }),
{
}

/// A failed cast leaves the multiplier and the last spell as they were.
pub proof fn law_failure_keeps_buff(user: UserState, tier: SpellTier, now: i64, random_value: u32)
    requires
        !succeeds(tier, random_value),
    ensures
        ({
            let after = settled_user(user, tier, now, random_value);
            &&& after.multiplier == user.multiplier
            &&& after.buff_expiry == user.buff_expiry
            &&& after.active_tier == user.active_tier
        }),
{
}

/// After a success no spell of any tier can be cast for ten days; from then
/// on the old spell is no hindrance.
pub proof fn law_buff_lasts_ten_days(
    user: UserState,
    tier: SpellTier,
    cast: i64,
    random_value: u32,
    next: SpellTier,
    now: i64,
)
    requires
        succeeds(tier, random_value),
        0 < cast + BUFF_DURATION <= i64::MAX,
    ensures
        now < cast + BUFF_DURATION <==> cast_refusal(
            settled_user(user, tier, cast, random_value),
            next,
            now,
        ) == Some(SpellError::BuffActive),
{
}

/// The draws out of a hundred by which a tier succeeds.
pub open spec fn lucky_draws(tier: SpellTier) -> Set<int> {
    Set::new(|d: int| 0 <= d < DRAWS && succeeds(tier, d as u32))
}

/// Exactly as many of the hundred draws succeed as the tier's rate says.
pub proof fn law_success_rate(tier: SpellTier)
    ensures
        lucky_draws(tier).finite(),
        lucky_draws(tier).len() == tier.success_rate(),
{
    vstd::set_lib::lemma_int_range(0, tier.success_rate() as int);
    assert(lucky_draws(tier) =~= vstd::set_lib::set_int_range(0, tier.success_rate() as int));
}

/// Every seed has the same length, and casts that differ in time, caster,
/// block hash or tier are decided by different seeds.
pub proof fn law_seeds_distinct(
    now1: i64,
    owner1: Pubkey,
    blockhashes1: Seq<u8>,
    tier1: SpellTier,
    now2: i64,
    owner2: Pubkey,
    blockhashes2: Seq<u8>,
    tier2: SpellTier,
)
    requires
        blockhashes1.len() >= BLOCKHASH_LENGTH,
        blockhashes2.len() >= BLOCKHASH_LENGTH,
    ensures
        seed(now1, owner1, blockhashes1, tier1).len() == 73,
        seed(now1, owner1, blockhashes1, tier1) == seed(now2, owner2, blockhashes2, tier2) ==> {
            &&& now1 == now2
            &&& owner1 == owner2
            &&& blockhashes1.subrange(0, 32) == blockhashes2.subrange(0, 32)
            &&& tier1 == tier2
        },
{
    let s1 = seed(now1, owner1, blockhashes1, tier1);
    let s2 = seed(now2, owner2, blockhashes2, tier2);
    lemma_le_bytes(twos_complement(now1), 8);
    lemma_le_bytes(twos_complement(now2), 8);
    if s1 == s2 {
        assert(s1.subrange(0, 8) =~= le_bytes(twos_complement(now1), 8));
        assert(s2.subrange(0, 8) =~= le_bytes(twos_complement(now2), 8));
        lemma_time_encoding_injective(now1, now2);
        assert(s1.subrange(8, 40) =~= owner1@);
        assert(s2.subrange(8, 40) =~= owner2@);
        Pubkey::lemma_same_bytes(owner1, owner2);
        assert(s1.subrange(40, 72) =~= blockhashes1.subrange(0, 32));
        assert(s2.subrange(40, 72) =~= blockhashes2.subrange(0, 32));
        assert(s1[72] == tier1.code());
        assert(s2[72] == tier2.code());
        law_tier_codes(tier1, tier2);
    }
}

/// A success never lowers the multiplier, and a legendary one takes any
/// multiplier to 2.
pub proof fn law_boosts_accumulate(multiplier: Binary64, tier: SpellTier)
    requires
        multiplier_ok(multiplier),
    ensures
        multiplier.units() <= boosted(multiplier, tier).units() <= 2 * pow2(1074),
        tier == SpellTier::Legendary ==> boosted(multiplier, tier).units() == 2 * pow2(1074),
{
    let one = Binary64 { bits: ONE_BITS };
    let two = Binary64 { bits: TWO_BITS };
    lemma_boosted_bounds(multiplier, tier);
    lemma2_to64();
    lemma2_to64_rest();
    lemma_value(one, 0x10_0000_0000_0000, 0x10_0000_0000_0000);
    lemma_value(two, 0x10_0000_0000_0000, 0x8_0000_0000_0000);
    if tier == SpellTier::Legendary {
        let sum = (multiplier.units() + tier.boost().units()) as int;
        lemma_nearest_exact(two);
        lemma_nearest_monotonic(two.units() as int, 1, sum, 1);
    }
}

/// A dearer tier never boosts less.
pub proof fn law_dearer_tier_boosts_more(multiplier: Binary64, a: SpellTier, b: SpellTier)
    requires
        multiplier_ok(multiplier),
        a.code() <= b.code(),
    ensures
        boosted(multiplier, a).units() <= boosted(multiplier, b).units(),
{
    if a.code() < b.code() {
        law_tiers_ordered(a, b);
    }
    lemma_nearest_monotonic(
        (multiplier.units() + a.boost().units()) as int,
        1,
        (multiplier.units() + b.boost().units()) as int,
        1,
    );
}

/// Casts keep count: every one is counted, a success also as such, and there
/// are never more successes than casts. The count of successes is therefore
/// never what refuses a cast.
pub proof fn law_casts_are_counted(
    before: CastSpell,
    tier: SpellTier,
    now: i64,
    random_value: u32,
    after: CastSpell,
    r: Result<CastOutcome, SpellError>,
)
    requires
        before.global_state.wf(),
        settlement(before, tier, now, random_value, after, r),
    ensures
        after.global_state.wf(),
        r is Ok ==> after.global_state.total_spells_cast == before.global_state.total_spells_cast
            + 1,
        r is Ok ==> (r->Ok_0 is Success <==> after.global_state.total_successes
            == before.global_state.total_successes + 1),
        r == Err::<CastOutcome, SpellError>(SpellError::Overflow) <==> cast_refusal(
            before.user_state,
            tier,
            now,
        ) is None && before.global_state.total_spells_cast == u64::MAX,
        r != Err::<CastOutcome, SpellError>(SpellError::Underflow),
{
}

/// No instruction of a user changes who runs the program, where payments go
/// or which token is burned, and none lowers a total.
pub proof fn law_settings_stay(
    craft: CraftRunes,
    amount: u64,
    purchase: BuySpellbooks,
    quantity: u8,
    bought: i64,
    global: GlobalState,
    tier: SpellTier,
    random_value: u32,
)
    requires
        craft_refusal(craft, amount) is None,
        purchase_refusal(purchase, tier, quantity, bought) is None,
        global.wf(),
        global.total_spells_cast < u64::MAX,
    ensures
        keeps_settings(craft.global_state, crafted(craft, amount).global_state),
        keeps_settings(purchase.global_state, purchased(purchase, tier, quantity).global_state),
        keeps_settings(global, settled_global(global, tier, random_value)),
{
}

/// The settings are the same, and no total is lower.
pub open spec fn keeps_settings(before: GlobalState, after: GlobalState) -> bool {
    &&& after.authority == before.authority
    &&& after.treasury == before.treasury
    &&& after.alch_mint == before.alch_mint
    &&& after.bump == before.bump
    &&& after.total_alch_burned >= before.total_alch_burned
    &&& after.total_sol_collected >= before.total_sol_collected
    &&& after.total_spells_cast >= before.total_spells_cast
    &&& after.total_successes >= before.total_successes
}

/// Users start with a valid account, and crafting, buying and casting keep it
/// valid: the multiplier never leaves the range from 1 to 2.
pub proof fn law_user_stays_valid(
    owner: Pubkey,
    bump: u8,
    craft: CraftRunes,
    amount: u64,
    purchase: BuySpellbooks,
    quantity: u8,
    user: UserState,
    tier: SpellTier,
    now: i64,
    random_value: u32,
)
    ensures
        initial_user(owner, bump).wf(),
        craft.user_state.wf() ==> crafted(craft, amount).user_state.wf(),
        purchase.user_state.wf() ==> purchased(purchase, tier, quantity).user_state.wf(),
        user.wf() ==> settled_user(user, tier, now, random_value).wf(),
{
    lemma_units_ordered(Binary64 { bits: ONE_BITS }, Binary64 { bits: TWO_BITS });
    if user.wf() {
        lemma_boosted_bounds(user.multiplier, tier);
    }
}

/// Prices are valid from the start and after every publication, and
/// purchases leave them alone.
pub proof fn law_prices_stay_valid(
    fresh: PricingState,
    update: UpdatePrices,
    alch_price_usd: Binary64,
    sol_price_usd: Binary64,
    now: i64,
    purchase: BuySpellbooks,
    tier: SpellTier,
    quantity: u8,
)
    ensures
        fresh.is_unset() ==> fresh.wf(),
        price_refusal(update, alch_price_usd, sol_price_usd) is None ==> repriced(
            update,
            alch_price_usd,
            sol_price_usd,
            now,
        ).pricing_state.is_published(),
        purchased(purchase, tier, quantity).pricing_state == purchase.pricing_state,
{
}

} // verus!
