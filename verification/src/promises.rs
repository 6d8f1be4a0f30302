//! What a caller can rely on: for every call, what comes out of it in terms
//! of what went in, and how the outcomes of several calls are related.
//!
//! `call_ensures(f, args, r)` says that a call of `f` with `args` returned
//! `r`; of an account that the call changes, `old` is what it held before and
//! `final` what it holds after.
use crate::accounts::{BuySpellbooks, CastSpell, CraftRunes, Initialize, InitializeUser,
    UpdatePrices};
use crate::binary64::{lemma_nearest_exact, lemma_nearest_exists, lemma_nearest_monotonic,
    lemma_nearest_rescaled, lemma_nearest_unique, lemma_pack, lemma_round, lemma_units_ordered,
    lemma_value, nearest, Binary64};
use crate::bytes::{le_bytes, le_value, lemma_le_bytes, twos_complement};
use crate::casting::{boosted_multiplier, cast_seed, cast_spell, check_cast, draw_from,
    lemma_boosted_bounds, seed, settle_cast, try_cast_spell};
use crate::chain::{sha256, SystemInstruction};
use crate::error::SpellError;
use crate::events::{CastOutcome, PriceUpdated, RunesCrafted, SpellbooksPurchased};
use crate::key::Pubkey;
use crate::laws::{boost_percent, law_price_limits, law_total_price_fits};
use crate::pricing::{book_price, check_prices, lamports_per_book, lamports_per_book_unrounded,
    lemma_price_steps, sol_per_book, update_prices, usd_per_book};
use crate::runes::{craft_runes, order_burn, BurnOrder, ConstraintViolation};
use crate::setup::{initialize, initialize_user};
use crate::spellbooks::{buy_spellbooks, check_quantity, order_payment, total_price};
use crate::state::{alch_price_ok, multiplier_ok, sol_price_ok, GlobalState, PricingState,
    UserState, ONE_BITS, TWO_BITS};
use crate::tier::SpellTier;
use vstd::arithmetic::power2::{lemma2_to64, lemma2_to64_rest, lemma_pow2_adds, lemma_pow2_pos,
    lemma_pow2_unfold, pow2};
use vstd::prelude::*;

verus! {

// Doubles

/// Zero is the first double, and from one pattern to the next the value grows
/// by one unit, or by `2^(e-1)` units where the exponent `e` is not zero.
/// The patterns of finite numbers that are not negative end below that of
/// infinity.
pub proof fn law_double_values(b: Binary64)
    ensures
        (Binary64 { bits: 0 }).units() == 0,
        b.is_magnitude() <==> b.bits < 0x7FF0_0000_0000_0000,
        b.bits + 1 < 0x7FF0_0000_0000_0000 ==> (Binary64 { bits: (b.bits + 1) as u64 }).units()
            - b.units() == (if b.bits < 0x10_0000_0000_0000 {
            1
        } else {
            pow2((b.bits / 0x10_0000_0000_0000 - 1) as nat) as int
        }),
{
    lemma2_to64();
    let f = 0x10_0000_0000_0000int;
    if b.bits + 1 < 0x7FF0_0000_0000_0000 {
        let next = Binary64 { bits: (b.bits + 1) as u64 };
        let e = b.exponent();
        if e > 0 {
            let q = f + b.fraction();
            let p = pow2((e - 1) as nat) as int;
            assert((q + 1) * p == q * p + p) by (nonlinear_arith);
            assert(b.units() == q * p);
            if b.fraction() == f - 1 {
                assert(next.exponent() == e + 1);
                assert(next.fraction() == 0);
                lemma_pow2_unfold(e);
                assert(next.units() == f * pow2(e));
                assert(f * (2 * p) == (q + 1) * p) by (nonlinear_arith)
                    requires
                        q + 1 == 2 * f,
                ;
            } else {
                assert(next.exponent() == e);
                assert(next.fraction() == b.fraction() + 1);
                assert(next.units() == (q + 1) * p);
            }
        } else if b.fraction() == f - 1 {
            assert(next.exponent() == 1);
            assert(next.fraction() == 0);
            assert(next.units() == f * pow2(0));
        }
    }
}

/// Rounding gives the closest double: no other one is closer, and of two that
/// are equally close it gives the one with the even pattern.
pub proof fn law_rounding(num: int, den: int, other: Binary64)
    requires
        num >= 0,
        den > 0,
        other.is_magnitude(),
    ensures
        nearest(num, den).is_magnitude(),
        ({
            let error = nearest(num, den).units() * den - num;
            let other_error = other.units() * den - num;
            let closest = if error >= 0 {
                error
            } else {
                -error
            };
            &&& closest <= other_error || closest <= -other_error
            &&& other != nearest(num, den) && (closest == other_error || closest == -other_error)
                ==> nearest(num, den).bits % 2 == 0
        }),
{
    lemma_nearest_exists(num, den);
}

/// Dropping the fraction gives the whole number below.
pub proof fn law_whole(b: Binary64)
    ensures
        b.whole() * pow2(1074) <= b.units() < (b.whole() + 1) * pow2(1074),
{
    let one = pow2(1074) as int;
    let u = b.units() as int;
    lemma_pow2_pos(1074);
    assert((u / one) * one <= u < (u / one + 1) * one) by (nonlinear_arith)
        requires
            0 < one,
    ;
}

/// A multiplier is valid if and only if it is a number from 1 to 2.
pub proof fn law_multiplier_limits(multiplier: Binary64)
    ensures
        multiplier_ok(multiplier) <==> multiplier.bits < 0x7FF0_0000_0000_0000 && pow2(1074)
            <= multiplier.units() <= 2 * pow2(1074),
{
    lemma2_to64();
    lemma2_to64_rest();
    lemma_value(Binary64 { bits: ONE_BITS }, 0x10_0000_0000_0000, 0x10_0000_0000_0000);
    lemma_value(Binary64 { bits: TWO_BITS }, 0x10_0000_0000_0000, 0x8_0000_0000_0000);
}

/// Which accounts are valid: successes do not exceed casts, prices are unset
/// or both within their limits, and a multiplier lies between 1 and 2.
pub proof fn law_valid_accounts(global: GlobalState, pricing: PricingState, user: UserState)
    ensures
        global.wf() <==> global.total_successes <= global.total_spells_cast,
        user.wf() <==> multiplier_ok(user.multiplier),
        pricing.wf() <==> (pricing.alch_price_usd.bits == 0 && pricing.sol_price_usd.bits == 0) || (
        alch_price_ok(pricing.alch_price_usd) && sol_price_ok(pricing.sol_price_usd)),
{
}

/// The checks for valid accounts accept unset prices and prices within their
/// limits, and multipliers from 1 to 2, and no others.
pub proof fn law_validity_checks(
    pricing: &PricingState,
    user: &UserState,
    pricing_valid: bool,
    user_valid: bool,
)
    requires
        call_ensures(PricingState::is_valid, (pricing,), pricing_valid),
        call_ensures(UserState::is_valid, (user,), user_valid),
    ensures
        pricing_valid <==> (pricing.alch_price_usd.bits == 0 && pricing.sol_price_usd.bits == 0)
            || prices_allowed(pricing.alch_price_usd, pricing.sol_price_usd),
        user_valid <==> user.multiplier.bits < 0x7FF0_0000_0000_0000 && pow2(1074)
            <= user.multiplier.units() <= 2 * pow2(1074),
{
    law_price_limits(pricing.alch_price_usd);
    law_price_limits(pricing.sol_price_usd);
    law_multiplier_limits(user.multiplier);
}

// Setting up

/// Setting up always succeeds; the signer becomes the authority, treasury and
/// token are those given, all totals are zero and the prices are untouched.
pub proof fn law_initialize(
    accounts: &mut Initialize,
    treasury: Pubkey,
    alch_mint: Pubkey,
    bump: u8,
    r: Result<(), SpellError>,
)
    requires
        call_ensures(initialize, (accounts, treasury, alch_mint, bump), r),
    ensures
        r is Ok,
        final(accounts).global_state.authority == old(accounts).authority,
        final(accounts).global_state.treasury == treasury,
        final(accounts).global_state.alch_mint == alch_mint,
        final(accounts).global_state.bump == bump,
        final(accounts).global_state.total_alch_burned == 0,
        final(accounts).global_state.total_sol_collected == 0,
        final(accounts).global_state.total_spells_cast == 0,
        final(accounts).global_state.total_successes == 0,
        final(accounts).pricing_state == old(accounts).pricing_state,
        final(accounts).authority == old(accounts).authority,
{
}

/// A new user owns the account, holds nothing, has the multiplier 1 and no
/// spell at work.
pub proof fn law_initialize_user(accounts: &mut InitializeUser, bump: u8, r: Result<(), SpellError>)
    requires
        call_ensures(initialize_user, (accounts, bump), r),
    ensures
        r is Ok,
        final(accounts).user_state.owner == old(accounts).user,
        final(accounts).user_state.runes == 0,
        forall|tier: SpellTier| #[trigger] final(accounts).user_state.books(tier) == 0,
        final(accounts).user_state.multiplier.units() == pow2(1074),
        final(accounts).user_state.multiplier.bits == 0x3FF0_0000_0000_0000,
        final(accounts).user_state.buff_expiry == 0,
        final(accounts).user_state.active_tier == 0,
        final(accounts).user_state.bump == bump,
        final(accounts).user == old(accounts).user,
{
    lemma2_to64();
    lemma2_to64_rest();
    lemma_value(Binary64 { bits: ONE_BITS }, 0x10_0000_0000_0000, 0x10_0000_0000_0000);
}

/// The books of each tier have a field of their own, and giving a user books
/// of one tier changes that field only.
pub proof fn law_books(user: UserState, tier: SpellTier, other: SpellTier, books: u64)
    ensures
        user.books(SpellTier::Novice) == user.novice_books,
        user.books(SpellTier::Adept) == user.adept_books,
        user.books(SpellTier::Master) == user.master_books,
        user.books(SpellTier::Legendary) == user.legendary_books,
        user.with_books(tier, books).books(other) == (if other == tier {
            books
        } else {
            user.books(other)
        }),
        user.with_books(tier, books).owner == user.owner,
        user.with_books(tier, books).runes == user.runes,
        user.with_books(tier, books).multiplier == user.multiplier,
        user.with_books(tier, books).buff_expiry == user.buff_expiry,
        user.with_books(tier, books).active_tier == user.active_tier,
        user.with_books(tier, books).bump == user.bump,
{
}

// Prices

/// Both prices lie within their limits: ALCH between the double closest to
/// 0.0001 and 1, SOL between 50 and 500.
pub open spec fn prices_allowed(alch_price_usd: Binary64, sol_price_usd: Binary64) -> bool {
    &&& alch_price_usd.bits < 0x7FF0_0000_0000_0000
    &&& sol_price_usd.bits < 0x7FF0_0000_0000_0000
    &&& nearest(pow2(1074) as int, 10_000).units() <= alch_price_usd.units() <= pow2(1074)
    &&& 50 * pow2(1074) <= sol_price_usd.units() <= 500 * pow2(1074)
}

/// Publishing succeeds if and only if the authority signs and both prices lie
/// within their limits. Then the account holds exactly the prices given and
/// the time, whatever it held before; otherwise nothing changes.
pub proof fn law_publication(
    accounts: &mut UpdatePrices,
    alch_price_usd: Binary64,
    sol_price_usd: Binary64,
    now: i64,
    r: Result<PriceUpdated, SpellError>,
)
    requires
        call_ensures(update_prices, (accounts, alch_price_usd, sol_price_usd, now), r),
    ensures
        r is Ok <==> old(accounts).authority == old(accounts).global_state.authority
            && prices_allowed(alch_price_usd, sol_price_usd),
        r == Err::<PriceUpdated, SpellError>(SpellError::Unauthorized) <==> old(accounts).authority
            != old(accounts).global_state.authority,
        r == Err::<PriceUpdated, SpellError>(SpellError::InvalidPrice) <==> old(accounts).authority
            == old(accounts).global_state.authority && !prices_allowed(
            alch_price_usd,
            sol_price_usd,
        ),
        r is Ok ==> {
            &&& final(accounts).pricing_state.alch_price_usd == alch_price_usd
            &&& final(accounts).pricing_state.sol_price_usd == sol_price_usd
            &&& final(accounts).pricing_state.last_update == now
            &&& r->Ok_0.alch_price_usd == alch_price_usd
            &&& r->Ok_0.sol_price_usd == sol_price_usd
            &&& r->Ok_0.timestamp == now
        },
        r is Err ==> final(accounts).pricing_state == old(accounts).pricing_state,
        final(accounts).global_state == old(accounts).global_state,
        final(accounts).authority == old(accounts).authority,
{
    law_price_limits(alch_price_usd);
    law_price_limits(sol_price_usd);
}

/// Checking prices gives what publishing them gives.
pub proof fn law_prices_checked(
    accounts: &mut UpdatePrices,
    alch_price_usd: Binary64,
    sol_price_usd: Binary64,
    now: i64,
    before: &UpdatePrices,
    checked: Result<(), SpellError>,
    r: Result<PriceUpdated, SpellError>,
)
    requires
        *before == *old(accounts),
        call_ensures(check_prices, (before, alch_price_usd, sol_price_usd), checked),
        call_ensures(update_prices, (accounts, alch_price_usd, sol_price_usd, now), r),
    ensures
        checked is Ok <==> r is Ok,
        checked is Err ==> r is Err && checked->Err_0 == r->Err_0,
{
}

/// A publication leaves no trace of earlier ones: what a book costs right
/// after it depends on the prices given alone.
pub proof fn law_publication_replaces(
    first: &mut UpdatePrices,
    second: &mut UpdatePrices,
    alch_price_usd: Binary64,
    sol_price_usd: Binary64,
    now1: i64,
    now2: i64,
    r1: Result<PriceUpdated, SpellError>,
    r2: Result<PriceUpdated, SpellError>,
    pricing1: &PricingState,
    pricing2: &PricingState,
    tier: SpellTier,
    price1: u64,
    price2: u64,
)
    requires
        call_ensures(update_prices, (first, alch_price_usd, sol_price_usd, now1), r1),
        call_ensures(update_prices, (second, alch_price_usd, sol_price_usd, now2), r2),
        r1 is Ok,
        r2 is Ok,
        *pricing1 == final(first).pricing_state,
        *pricing2 == final(second).pricing_state,
        call_ensures(lamports_per_book, (tier, pricing1), price1),
        call_ensures(lamports_per_book, (tier, pricing2), price2),
    ensures
        price1 == price2,
{
    law_price_limits(alch_price_usd);
}

/// The price of a book: three quarters of the spell's runes at the ALCH
/// price, rounded to a double; that over the SOL price, rounded; a thousand
/// million times that, rounded; and of this the whole lamports. As long as no
/// prices are published it is zero.
pub proof fn law_book_price(
    tier: SpellTier,
    pricing: &PricingState,
    price: u64,
    usd: Binary64,
    sol: Binary64,
    lamports: Binary64,
)
    requires
        call_ensures(lamports_per_book, (tier, pricing), price),
        prices_allowed(pricing.alch_price_usd, pricing.sol_price_usd),
        // runes have six decimals
        usd.is_nearest(3 * tier.rune_cost() * pricing.alch_price_usd.units(), 4_000_000),
        sol.is_nearest((usd.units() * pow2(1074)) as int, pricing.sol_price_usd.units() as int),
        lamports.is_nearest(1_000_000_000 * sol.units() as int, 1),
    ensures
        price * pow2(1074) <= lamports.units() < (price + 1) * pow2(1074),
{
    let alch_price = pricing.alch_price_usd;
    let sol_price = pricing.sol_price_usd;
    law_price_limits(alch_price);
    law_price_limits(sol_price);
    lemma_price_steps(tier, alch_price, sol_price);
    let a = alch_price.units() as int;
    let w = tier.alch_equivalent() as int;
    let c = 3 * tier.rune_cost();
    assert(c == w * 4_000_000);
    assert((a * w) * 4_000_000 == c * a && a * w >= 0) by (nonlinear_arith)
        requires
            c == w * 4_000_000,
            a >= 0,
            w >= 0,
    ;
    lemma_nearest_rescaled(a * w, 1, 4_000_000);
    assert(usd == usd_per_book(tier, alch_price));
    let one = pow2(1074) as int;
    let s = sol_price.units() as int;
    lemma_pow2_pos(1074);
    assert(usd.units() * one >= 0) by (nonlinear_arith)
        requires
            usd.units() >= 0,
            one > 0,
    ;
    lemma_nearest_exists(usd.units() * one, s);
    lemma_nearest_unique(sol, sol_per_book(tier, alch_price, sol_price), usd.units() * one, s);
    lemma_nearest_exists(1_000_000_000 * sol.units() as int, 1);
    lemma_nearest_unique(
        lamports,
        lamports_per_book_unrounded(tier, alch_price, sol_price),
        1_000_000_000 * sol.units() as int,
        1,
    );
    law_whole(lamports);
}

/// Before the first publication a book costs nothing.
pub proof fn law_book_price_unset(tier: SpellTier, pricing: &PricingState, price: u64)
    requires
        call_ensures(lamports_per_book, (tier, pricing), price),
        pricing.alch_price_usd.bits == 0,
        pricing.sol_price_usd.bits == 0,
    ensures
        price == 0,
{
}

// Crafting

/// Crafting succeeds if and only if the amount is not zero and neither the
/// user's runes nor the burned total leaves its type. Then both grow by the
/// amount, and nothing else changes; otherwise nothing changes at all.
pub proof fn law_crafting(
    accounts: &mut CraftRunes,
    amount: u64,
    r: Result<RunesCrafted, SpellError>,
)
    requires
        call_ensures(craft_runes, (accounts, amount), r),
    ensures
        r is Ok <==> {
            &&& amount > 0
            &&& old(accounts).user_state.runes + amount <= u64::MAX
            &&& old(accounts).global_state.total_alch_burned + amount <= u64::MAX
        },
        r == Err::<RunesCrafted, SpellError>(SpellError::InvalidAmount) <==> amount == 0,
        r is Err && amount > 0 ==> r->Err_0 == SpellError::Overflow,
        r is Ok ==> {
            &&& final(accounts).user_state.runes - old(accounts).user_state.runes == amount
            &&& final(accounts).global_state.total_alch_burned
                - old(accounts).global_state.total_alch_burned == amount
            &&& r->Ok_0.user == old(accounts).user
            &&& r->Ok_0.alch_burned == amount
            &&& r->Ok_0.runes_received == amount
            &&& r->Ok_0.total_runes == final(accounts).user_state.runes
        },
        r is Err ==> *final(accounts) == *old(accounts),
        *final(accounts) == (CraftRunes {
            user_state: UserState {
                runes: final(accounts).user_state.runes,
                ..old(accounts).user_state
            },
            global_state: GlobalState {
                total_alch_burned: final(accounts).global_state.total_alch_burned,
                ..old(accounts).global_state
            },
            ..*old(accounts)
        }),
{
}

/// A user who has just joined can craft the runes for any spell, as long as
/// the burned total can count them.
pub proof fn law_new_user_crafts(
    joined: &mut InitializeUser,
    bump: u8,
    joining: Result<(), SpellError>,
    accounts: &mut CraftRunes,
    tier: SpellTier,
    r: Result<RunesCrafted, SpellError>,
)
    requires
        call_ensures(initialize_user, (joined, bump), joining),
        old(accounts).user_state == final(joined).user_state,
        old(accounts).global_state.total_alch_burned + tier.rune_cost() <= u64::MAX,
        call_ensures(craft_runes, (accounts, tier.rune_cost()), r),
    ensures
        r is Ok,
        final(accounts).user_state.runes == tier.rune_cost(),
{
}

/// Crafting in two steps gives what crafting in one does.
pub proof fn law_crafting_adds_up(
    first: &mut CraftRunes,
    second: &mut CraftRunes,
    whole: &mut CraftRunes,
    a: u64,
    b: u64,
    sum: u64,
    r1: Result<RunesCrafted, SpellError>,
    r2: Result<RunesCrafted, SpellError>,
    r: Result<RunesCrafted, SpellError>,
)
    requires
        a > 0,
        b > 0,
        sum == a + b,
        *old(second) == *final(first),
        *old(whole) == *old(first),
        call_ensures(craft_runes, (first, a), r1),
        call_ensures(craft_runes, (second, b), r2),
        call_ensures(craft_runes, (whole, sum), r),
    ensures
        r is Ok <==> r1 is Ok && r2 is Ok,
        r is Ok ==> *final(whole) == *final(second) && r->Ok_0.total_runes == r2->Ok_0.total_runes,
{
}

/// Exactly the amount is burned, of the token at hand, out of the user's
/// token account and by the user's authority; only an amount of zero is
/// refused.
pub proof fn law_burn(accounts: &CraftRunes, amount: u64, r: Result<BurnOrder, SpellError>)
    requires
        call_ensures(order_burn, (accounts, amount), r),
    ensures
        r is Ok <==> amount > 0,
        r is Err ==> r->Err_0 == SpellError::InvalidAmount,
        r is Ok ==> {
            &&& r->Ok_0.amount == amount
            &&& r->Ok_0.mint == accounts.alch_mint
            &&& r->Ok_0.from == accounts.user_alch_account.key
            &&& r->Ok_0.authority == accounts.user
            &&& r->Ok_0.token_program == accounts.token_program
        },
{
}

/// The accounts are accepted if and only if the token account is the user's,
/// holds the token at hand, and that is the program's ALCH; of several faults
/// the first of these is told.
pub proof fn law_constraints(accounts: &CraftRunes, r: Result<(), ConstraintViolation>)
    requires
        call_ensures(CraftRunes::check_constraints, (accounts,), r),
    ensures
        r is Ok <==> {
            &&& accounts.user_alch_account.owner == accounts.user
            &&& accounts.user_alch_account.mint == accounts.alch_mint
            &&& accounts.alch_mint == accounts.global_state.alch_mint
        },
        r == Err::<(), ConstraintViolation>(ConstraintViolation::TokenOwner)
            <==> accounts.user_alch_account.owner != accounts.user,
        r == Err::<(), ConstraintViolation>(ConstraintViolation::TokenMint)
            <==> accounts.user_alch_account.owner == accounts.user
            && accounts.user_alch_account.mint != accounts.alch_mint,
{
}

// Buying

/// The number in the eight bytes from `at` on, the lowest first.
pub open spec fn number_at(s: Seq<u8>, at: int) -> int {
    s[at] + 0x100 * s[at + 1] + 0x1_0000 * s[at + 2] + 0x100_0000 * s[at + 3] + 0x1_0000_0000 * s[at
        + 4] + 0x100_0000_0000 * s[at + 5] + 0x1_0000_0000_0000 * s[at + 6] + 0x100_0000_0000_0000
        * s[at + 7]
}

/// Eight bytes of a number, the lowest first, are its digits to the base 256.
pub proof fn lemma_number(v: nat)
    requires
        v <= u64::MAX,
    ensures
        le_bytes(v, 8).len() == 8,
        number_at(le_bytes(v, 8), 0) == v,
{
    lemma_le_bytes(v, 8);
    let v1 = v / 256;
    let v2 = v1 / 256;
    let v3 = v2 / 256;
    let v4 = v3 / 256;
    let v5 = v4 / 256;
    let v6 = v5 / 256;
    let v7 = v6 / 256;
    lemma_le_bytes(v1, 7);
    lemma_le_bytes(v2, 6);
    lemma_le_bytes(v3, 5);
    lemma_le_bytes(v4, 4);
    lemma_le_bytes(v5, 3);
    lemma_le_bytes(v6, 2);
    lemma_le_bytes(v7, 1);
    let s = le_bytes(v, 8);
    assert(s[0] == v % 256);
    assert(s[1] == le_bytes(v1, 7)[0] && s[1] == v1 % 256);
    assert(s[2] == le_bytes(v1, 7)[1] && s[2] == le_bytes(v2, 6)[0] && s[2] == v2 % 256);
    assert(s[3] == le_bytes(v1, 7)[2] && s[3] == le_bytes(v2, 6)[1] && s[3] == le_bytes(v3, 5)[0]);
    assert(s[4] == le_bytes(v1, 7)[3] && s[4] == le_bytes(v2, 6)[2] && s[4] == le_bytes(v3, 5)[1]
        && s[4] == le_bytes(v4, 4)[0]);
    assert(s[5] == le_bytes(v1, 7)[4] && s[5] == le_bytes(v2, 6)[3] && s[5] == le_bytes(v3, 5)[2]
        && s[5] == le_bytes(v4, 4)[1] && s[5] == le_bytes(v5, 3)[0]);
    assert(s[6] == le_bytes(v1, 7)[5] && s[6] == le_bytes(v2, 6)[4] && s[6] == le_bytes(v3, 5)[3]
        && s[6] == le_bytes(v4, 4)[2] && s[6] == le_bytes(v5, 3)[1] && s[6] == le_bytes(v6, 2)[0]);
    assert(s[7] == le_bytes(v1, 7)[6] && s[7] == le_bytes(v2, 6)[5] && s[7] == le_bytes(v3, 5)[4]
        && s[7] == le_bytes(v4, 4)[3] && s[7] == le_bytes(v5, 3)[2] && s[7] == le_bytes(v6, 2)[1]
        && s[7] == le_bytes(v7, 1)[0]);
}

/// From one to a hundred books can be bought at once.
pub proof fn law_quantity(quantity: u8, r: Result<(), SpellError>)
    requires
        call_ensures(check_quantity, (quantity,), r),
    ensures
        r is Ok <==> 1 <= quantity <= 100,
        r is Err ==> r->Err_0 == SpellError::InvalidAmount,
{
}

/// A payment is asked for if and only if one to a hundred books are bought at
/// prices younger than 300 seconds. It moves as many times the price of one
/// book as books are bought, from the user, who signs, to the treasury on
/// record.
pub proof fn law_payment(
    accounts: &BuySpellbooks,
    tier: SpellTier,
    quantity: u8,
    now: i64,
    pricing: &PricingState,
    price: u64,
    r: Result<SystemInstruction, SpellError>,
)
    requires
        accounts.pricing_state.wf(),
        *pricing == accounts.pricing_state,
        call_ensures(lamports_per_book, (tier, pricing), price),
        call_ensures(order_payment, (accounts, tier, quantity, now), r),
    ensures
        r is Ok <==> 1 <= quantity <= 100 && now - accounts.pricing_state.last_update < 300,
        r == Err::<SystemInstruction, SpellError>(SpellError::InvalidAmount) <==> !(1 <= quantity
            <= 100),
        r is Err && 1 <= quantity <= 100 ==> r->Err_0 == SpellError::StalePrices,
        r is Ok ==> {
            &&& forall|i: int| 0 <= i < 32 ==> #[trigger] r->Ok_0.program_id@[i] == 0
            &&& r->Ok_0.accounts@.len() == 2
            &&& r->Ok_0.accounts@[0].pubkey == accounts.user
            &&& r->Ok_0.accounts@[0].is_signer
            &&& r->Ok_0.accounts@[0].is_writable
            &&& r->Ok_0.accounts@[1].pubkey == accounts.global_state.treasury
            &&& !r->Ok_0.accounts@[1].is_signer
            &&& r->Ok_0.accounts@[1].is_writable
            &&& r->Ok_0.data@.len() == 12
            &&& r->Ok_0.data@[0] == 2
            &&& r->Ok_0.data@[1] == 0
            &&& r->Ok_0.data@[2] == 0
            &&& r->Ok_0.data@[3] == 0
            &&& number_at(r->Ok_0.data@, 4) == quantity * price
        },
{
    law_total_price_fits(*accounts, tier, quantity, now);
    if r is Ok {
        let total = (price * quantity) as nat;
        assert(price * quantity == quantity * price) by (nonlinear_arith);
        assert(total >= 0) by (nonlinear_arith)
            requires
                total == price * quantity,
        ;
        lemma_number(total);
        lemma_le_bytes(2, 4);
        lemma_le_bytes(0, 3);
        lemma_le_bytes(0, 2);
        lemma_le_bytes(0, 1);
        let head = le_bytes(2, 4);
        assert(head[0] == 2);
        assert(head[1] == le_bytes(0, 3)[0]);
        assert(head[2] == le_bytes(0, 3)[1] && le_bytes(0, 3)[1] == le_bytes(0, 2)[0]);
        assert(head[3] == le_bytes(0, 3)[2] && le_bytes(0, 3)[2] == le_bytes(0, 2)[1]
            && le_bytes(0, 2)[1] == le_bytes(0, 1)[0]);
        let data = r->Ok_0.data@;
        assert(data == head + le_bytes(total, 8));
        assert(data[4] == le_bytes(total, 8)[0] && data[5] == le_bytes(total, 8)[1]);
        assert(data[6] == le_bytes(total, 8)[2] && data[7] == le_bytes(total, 8)[3]);
        assert(data[8] == le_bytes(total, 8)[4] && data[9] == le_bytes(total, 8)[5]);
        assert(data[10] == le_bytes(total, 8)[6] && data[11] == le_bytes(total, 8)[7]);
    }
}

/// A purchase succeeds if and only if one to a hundred books are bought at
/// prices younger than 300 seconds, and neither the books nor the collected
/// total leave their type. Then the user has as many more books of the tier,
/// and what is reported as paid and counted as collected is as many times the
/// price of one book. Nothing else changes, and nothing at all where the
/// purchase is refused.
pub proof fn law_purchase(
    accounts: &mut BuySpellbooks,
    tier: SpellTier,
    quantity: u8,
    now: i64,
    pricing: &PricingState,
    price: u64,
    r: Result<SpellbooksPurchased, SpellError>,
)
    requires
        old(accounts).pricing_state.wf(),
        *pricing == old(accounts).pricing_state,
        call_ensures(lamports_per_book, (tier, pricing), price),
        call_ensures(buy_spellbooks, (accounts, tier, quantity, now), r),
    ensures
        r is Ok <==> {
            &&& 1 <= quantity <= 100
            &&& now - old(accounts).pricing_state.last_update < 300
            &&& old(accounts).user_state.books(tier) + quantity <= u64::MAX
            &&& old(accounts).global_state.total_sol_collected + quantity * price <= u64::MAX
        },
        r == Err::<SpellbooksPurchased, SpellError>(SpellError::InvalidAmount) <==> !(1 <= quantity
            <= 100),
        r == Err::<SpellbooksPurchased, SpellError>(SpellError::StalePrices) <==> 1 <= quantity
            <= 100 && now - old(accounts).pricing_state.last_update >= 300,
        r is Err && 1 <= quantity <= 100 && now - old(accounts).pricing_state.last_update < 300
            ==> r->Err_0 == SpellError::Overflow,
        r is Ok ==> {
            &&& final(accounts).user_state.books(tier) - old(accounts).user_state.books(tier)
                == quantity
            &&& final(accounts).global_state.total_sol_collected
                - old(accounts).global_state.total_sol_collected == quantity * price
            &&& r->Ok_0.sol_paid == quantity * price
            &&& r->Ok_0.user == old(accounts).user
            &&& r->Ok_0.tier == tier.code()
            &&& r->Ok_0.quantity == quantity
            &&& r->Ok_0.alch_price == old(accounts).pricing_state.alch_price_usd
            &&& r->Ok_0.sol_price == old(accounts).pricing_state.sol_price_usd
        },
        r is Err ==> *final(accounts) == *old(accounts),
        forall|other: SpellTier|
            other != tier ==> #[trigger] final(accounts).user_state.books(other)
                == old(accounts).user_state.books(other),
        *final(accounts) == (BuySpellbooks {
            user_state: UserState {
                novice_books: final(accounts).user_state.novice_books,
                adept_books: final(accounts).user_state.adept_books,
                master_books: final(accounts).user_state.master_books,
                legendary_books: final(accounts).user_state.legendary_books,
                ..old(accounts).user_state
            },
            global_state: GlobalState {
                total_sol_collected: final(accounts).global_state.total_sol_collected,
                ..old(accounts).global_state
            },
            ..*old(accounts)
        }),
{
    law_total_price_fits(*old(accounts), tier, quantity, now);
    assert(price * quantity == quantity * price) by (nonlinear_arith);
}

/// Buying in two steps costs what buying at once does.
pub proof fn law_purchases_add_up(
    first: &mut BuySpellbooks,
    second: &mut BuySpellbooks,
    whole: &mut BuySpellbooks,
    tier: SpellTier,
    a: u8,
    b: u8,
    sum: u8,
    now: i64,
    r1: Result<SpellbooksPurchased, SpellError>,
    r2: Result<SpellbooksPurchased, SpellError>,
    r: Result<SpellbooksPurchased, SpellError>,
)
    requires
        sum == a + b,
        old(first).pricing_state.wf(),
        *old(second) == *final(first),
        *old(whole) == *old(first),
        call_ensures(buy_spellbooks, (first, tier, a, now), r1),
        call_ensures(buy_spellbooks, (second, tier, b, now), r2),
        call_ensures(buy_spellbooks, (whole, tier, sum, now), r),
        r1 is Ok,
        r2 is Ok,
        sum <= 100,
    ensures
        r is Ok,
        r->Ok_0.sol_paid == r1->Ok_0.sol_paid + r2->Ok_0.sol_paid,
        *final(whole) == *final(second),
{
    law_total_price_fits(*old(first), tier, a, now);
    law_total_price_fits(*old(first), tier, b, now);
    law_total_price_fits(*old(first), tier, sum, now);
    let price = book_price(tier, old(first).pricing_state);
    assert(price * sum as nat == price * a as nat + price * b as nat) by (nonlinear_arith)
        requires
            sum == a + b,
    ;
}

/// What is paid is what is reported: the payment that is asked for moves what
/// the purchase then counts.
pub proof fn law_payment_is_what_is_counted(
    before: &BuySpellbooks,
    accounts: &mut BuySpellbooks,
    tier: SpellTier,
    quantity: u8,
    now: i64,
    payment: Result<SystemInstruction, SpellError>,
    r: Result<SpellbooksPurchased, SpellError>,
)
    requires
        *before == *old(accounts),
        before.pricing_state.wf(),
        call_ensures(order_payment, (before, tier, quantity, now), payment),
        call_ensures(buy_spellbooks, (accounts, tier, quantity, now), r),
        r is Ok,
    ensures
        payment is Ok,
        number_at(payment->Ok_0.data@, 4) == r->Ok_0.sol_paid,
        r->Ok_0.sol_paid == final(accounts).global_state.total_sol_collected
            - old(accounts).global_state.total_sol_collected,
{
    let total = total_price(tier, quantity, before.pricing_state);
    lemma_number(total);
    lemma_le_bytes(2, 4);
    let data = payment->Ok_0.data@;
    assert(data == le_bytes(2, 4) + le_bytes(total, 8));
    assert(data[4] == le_bytes(total, 8)[0] && data[5] == le_bytes(total, 8)[1]);
    assert(data[6] == le_bytes(total, 8)[2] && data[7] == le_bytes(total, 8)[3]);
    assert(data[8] == le_bytes(total, 8)[4] && data[9] == le_bytes(total, 8)[5]);
    assert(data[10] == le_bytes(total, 8)[6] && data[11] == le_bytes(total, 8)[7]);
}

// Casting

/// A user may cast if and only if no spell is at work, the runes suffice and
/// a book is there; of several faults the first of these is told.
pub proof fn law_cast_check(user: &UserState, tier: SpellTier, now: i64, r: Result<(), SpellError>)
    requires
        call_ensures(check_cast, (user, tier, now), r),
    ensures
        ({
            let at_work = 0 < user.buff_expiry && now < user.buff_expiry;
            &&& r is Ok <==> !at_work && user.runes >= tier.rune_cost() && user.books(tier) >= 1
            &&& r == Err::<(), SpellError>(SpellError::BuffActive) <==> at_work
            &&& r == Err::<(), SpellError>(SpellError::InsufficientRunes) <==> !at_work
                && user.runes < tier.rune_cost()
            &&& r == Err::<(), SpellError>(SpellError::InsufficientBooks) <==> !at_work
                && user.runes >= tier.rune_cost() && user.books(tier) == 0
        }),
{
}

/// What decides a cast: eight bytes of the time, the lowest first and
/// negative times counted back from `2^64`; the 32 bytes of the caster; the
/// first 32 bytes of the block hashes; and the tier's number.
pub proof fn law_seed(now: i64, owner: &Pubkey, blockhashes: &[u8], tier: SpellTier, r: Vec<u8>)
    requires
        blockhashes@.len() >= 32,
        call_ensures(cast_seed, (now, owner, blockhashes, tier), r),
    ensures
        r@.len() == 73,
        number_at(r@, 0) == (if now >= 0 {
            now as int
        } else {
            now + 0x1_0000_0000_0000_0000
        }),
        forall|i: int| 0 <= i < 32 ==> r@[8 + i] == #[trigger] owner@[i],
        forall|i: int| 0 <= i < 32 ==> r@[40 + i] == #[trigger] blockhashes@[i],
        r@[72] == tier.code(),
{
    let time = le_bytes(twos_complement(now), 8);
    lemma_number(twos_complement(now));
    assert(r@ == seed(now, *owner, blockhashes@, tier));
    assert(r@[0] == time[0] && r@[1] == time[1] && r@[2] == time[2] && r@[3] == time[3]);
    assert(r@[4] == time[4] && r@[5] == time[5] && r@[6] == time[6] && r@[7] == time[7]);
    let picked = blockhashes@.subrange(0, 32);
    assert forall|i: int| 0 <= i < 32 implies r@[40 + i] == #[trigger] blockhashes@[i] by {
        assert(picked[i] == blockhashes@[i]);
    }
}

/// A digest's draw: the number in its first four bytes, the lowest first,
/// modulo a hundred.
pub proof fn law_draw(digest: &[u8; 32], r: u32)
    requires
        call_ensures(draw_from, (digest,), r),
    ensures
        r == (digest@[0] + 0x100 * digest@[1] + 0x1_0000 * digest@[2] + 0x100_0000 * digest@[3])
            % 100,
{
    reveal_with_fuel(le_value, 5);
    let s = digest@.subrange(0, 4);
    assert(s.drop_first() =~= digest@.subrange(1, 4));
    assert(s.drop_first().drop_first() =~= digest@.subrange(2, 4));
    assert(s.drop_first().drop_first().drop_first() =~= digest@.subrange(3, 4));
    assert(s.drop_first().drop_first().drop_first().drop_first() =~= Seq::<u8>::empty());
}

/// A tier's boost in 16ths of the step between doubles from 1 to 2.
spec fn boost_sixteenths(tier: SpellTier) -> int {
    match tier {
        SpellTier::Novice => 0x19_9999_9999_999A,
        SpellTier::Adept => 0x40_0000_0000_0000,
        SpellTier::Master => 0x80_0000_0000_0000,
        SpellTier::Legendary => 0x100_0000_0000_0000,
    }
}

proof fn lemma_boost_units(tier: SpellTier)
    ensures
        16 * tier.boost().units() == boost_sixteenths(tier) * pow2(1022),
{
    lemma2_to64();
    let b = tier.boost();
    match tier {
        SpellTier::Novice => {
            lemma_pow2_adds(1018, 4);
            let x = pow2(1018);
            assert(pow2(1022) == x * 16);
            assert(b.units() == 0x19_9999_9999_999A * x);
        },
        SpellTier::Adept => {
            lemma_pow2_adds(1020, 2);
            let x = pow2(1020);
            assert(pow2(1022) == x * 4);
            assert(b.units() == 0x10_0000_0000_0000 * x);
        },
        SpellTier::Master => {
            lemma_pow2_adds(1021, 1);
            let x = pow2(1021);
            assert(pow2(1022) == x * 2);
            assert(b.units() == 0x10_0000_0000_0000 * x);
        },
        SpellTier::Legendary => {
            assert(b.units() == 0x10_0000_0000_0000 * pow2(1022));
        },
    }
}

/// Adding a tier's boost, itself a rounded double, rounds to the same double
/// as adding the exact percentage does, up to 2.
#[verifier::spinoff_prover]
proof fn lemma_boost_rounds(multiplier: Binary64, tier: SpellTier)
    requires
        multiplier_ok(multiplier),
    ensures
        ({
            let exact = nearest(
                100 * multiplier.units() + boost_percent(tier) * pow2(1074),
                100,
            );
            let sum = nearest((multiplier.units() + tier.boost().units()) as int, 1);
            &&& exact == sum || (exact.units() >= 2 * pow2(1074) && sum.units() >= 2 * pow2(1074))
            &&& multiplier.units() < 2 * pow2(1074) ==> exact.units() > multiplier.units()
        }),
{
    lemma2_to64();
    lemma2_to64_rest();
    let one = Binary64 { bits: ONE_BITS };
    let two = Binary64 { bits: TWO_BITS };
    lemma_value(one, 0x10_0000_0000_0000, 0x10_0000_0000_0000);
    lemma_value(two, 0x10_0000_0000_0000, 0x8_0000_0000_0000);
    lemma_units_ordered(one, multiplier);
    lemma_units_ordered(multiplier, two);
    lemma_nearest_exact(two);
    let p = pow2(1022) as int;
    lemma_pow2_pos(1022);
    lemma_pow2_adds(1022, 52);
    let f = 0x10_0000_0000_0000int;
    assert(pow2(1074) == p * f);
    let m = multiplier.units() as int;
    let b = tier.boost();
    let num = 100 * m + boost_percent(tier) * pow2(1074);
    let sum = m + b.units() as int;
    lemma_nearest_exists(num, 100);
    lemma_nearest_exists(sum, 1);
    let sixteenths = boost_sixteenths(tier);
    lemma_boost_units(tier);
    if multiplier == two {
        lemma_nearest_monotonic(two.units() as int, 1, num, 100);
        lemma_nearest_monotonic(two.units() as int, 1, sum, 1);
    } else {
        assert(multiplier.exponent() == 1023);
        let q = f + multiplier.fraction();
        assert(m == q * p);
        // whole steps of the boost, and what is left of it
        let (steps, rest, left): (int, int, int) = match tier {
            SpellTier::Novice => (450_359_962_737_049, 60, 10),
            SpellTier::Adept => (f / 4, 0, 0),
            SpellTier::Master => (f / 2, 0, 0),
            SpellTier::Legendary => (f, 0, 0),
        };
        assert(boost_percent(tier) * f == 100 * steps + rest);
        assert(sixteenths == 16 * steps + left);
        let k = q + steps;
        let pct = boost_percent(tier);
        assert(num == (k * 100 + rest) * p) by (nonlinear_arith)
            requires
                num == 100 * (q * p) + pct * (p * f),
                pct * f == 100 * steps + rest,
                k == q + steps,
        ;
        assert(16 * sum == (k * 16 + left) * p) by (nonlinear_arith)
            requires
                16 * sum == 16 * (q * p) + sixteenths * p,
                sixteenths == 16 * steps + left,
                k == q + steps,
        ;
        let next = Binary64 { bits: (multiplier.bits + 1) as u64 };
        lemma_pack(q + 1, 1023);
        assert(next.units() == (q + 1) * p);
        lemma_nearest_exact(next);
        assert((q + 1) * p > q * p) by (nonlinear_arith)
            requires
                p > 0,
        ;
        assert(((q + 1) * p) * 100 <= num) by (nonlinear_arith)
            requires
                num == (k * 100 + rest) * p,
                k >= q + 1,
                rest >= 0,
                p > 0,
        ;
        lemma_nearest_monotonic(next.units() as int, 1, num, 100);
        if k < 2 * f {
            lemma_round(k, rest, 100, 1023);
            lemma_round(k, left, 16, 1023);
            lemma_nearest_rescaled(sum, 1, 16);
            let low = Binary64 { bits: (1023 * f + (k - f)) as u64 };
            let high = Binary64 { bits: (1023 * f + (k + 1 - f)) as u64 };
            if tier == SpellTier::Novice {
                assert(high.is_nearest(num, 100));
                assert(high.is_nearest(sum * 16, 16));
                lemma_nearest_unique(high, nearest(num, 100), num, 100);
            } else {
                assert(low.is_nearest(num, 100));
                assert(low.is_nearest(sum * 16, 16));
                lemma_nearest_unique(low, nearest(num, 100), num, 100);
            }
        } else {
            let u2 = two.units() as int;
            assert(u2 == 2 * f * p);
            assert(u2 * 100 <= num) by (nonlinear_arith)
                requires
                    u2 == 2 * f * p,
                    num == (k * 100 + rest) * p,
                    k >= 2 * f,
                    rest >= 0,
                    p > 0,
            ;
            assert(u2 <= sum) by (nonlinear_arith)
                requires
                    u2 == 2 * f * p,
                    16 * sum == (k * 16 + left) * p,
                    k >= 2 * f,
                    left >= 0,
                    p > 0,
            ;
            lemma_nearest_monotonic(u2, 1, num, 100);
            lemma_nearest_monotonic(u2, 1, sum, 1);
        }
    }
}

/// The multiplier `boosted` is the double closest to `multiplier` plus the
/// tier's percentage, or 2 where that is more.
pub open spec fn is_boosted(multiplier: Binary64, tier: SpellTier, boosted: Binary64) -> bool {
    let percent: int = match tier {
        SpellTier::Novice => 10,
        SpellTier::Adept => 25,
        SpellTier::Master => 50,
        SpellTier::Legendary => 100,
    };
    let sum = nearest(100 * multiplier.units() + percent * pow2(1074), 100);
    if sum.units() < 2 * pow2(1074) {
        boosted == sum
    } else {
        boosted.bits == 0x4000_0000_0000_0000
    }
}

/// A boost gives the double closest to the multiplier plus 10, 25, 50 or 100
/// percent, up to 2. It raises every multiplier that is below 2.
pub proof fn law_boost(multiplier: Binary64, tier: SpellTier, r: Binary64)
    requires
        multiplier_ok(multiplier),
        call_ensures(boosted_multiplier, (multiplier, tier), r),
    ensures
        is_boosted(multiplier, tier, r),
        r.units() <= 2 * pow2(1074),
        multiplier.units() < 2 * pow2(1074) ==> r.units() > multiplier.units(),
        multiplier.units() == 2 * pow2(1074) ==> r == multiplier,
{
    let two = Binary64 { bits: TWO_BITS };
    lemma2_to64();
    lemma2_to64_rest();
    lemma_value(two, 0x10_0000_0000_0000, 0x8_0000_0000_0000);
    lemma_boost_rounds(multiplier, tier);
    lemma_boosted_bounds(multiplier, tier);
    lemma_units_ordered(multiplier, two);
    lemma_units_ordered(r, two);
}

/// Whether a draw makes a tier's cast succeed: 70, 50, 35 or 20 of a hundred.
pub open spec fn is_lucky(tier: SpellTier, random_value: u32) -> bool {
    match tier {
        SpellTier::Novice => random_value < 70,
        SpellTier::Adept => random_value < 50,
        SpellTier::Master => random_value < 35,
        SpellTier::Legendary => random_value < 20,
    }
}

/// A cast is carried out if and only if the user may cast and the counters
/// can count it. It takes one book; a lucky one takes the runes, boosts the
/// multiplier and works for 864000 seconds, any other gives back a tenth of
/// the runes and leaves the spell at work alone. Nothing else changes, and
/// nothing at all where the cast is refused.
pub proof fn law_cast(
    accounts: &mut CastSpell,
    tier: SpellTier,
    now: i64,
    random_value: u32,
    user: &UserState,
    checked: Result<(), SpellError>,
    r: Result<CastOutcome, SpellError>,
)
    requires
        old(accounts).user_state.wf(),
        *user == old(accounts).user_state,
        call_ensures(check_cast, (user, tier, now), checked),
        call_ensures(settle_cast, (accounts, tier, now, random_value), r),
    ensures
        r is Ok <==> {
            &&& checked is Ok
            &&& old(accounts).global_state.total_spells_cast < u64::MAX
            &&& is_lucky(tier, random_value) ==> old(accounts).global_state.total_successes
                < u64::MAX
        },
        checked is Err ==> r is Err && r->Err_0 == checked->Err_0,
        r is Err && checked is Ok ==> r->Err_0 == SpellError::Overflow,
        r is Err ==> *final(accounts) == *old(accounts),
        r is Ok ==> {
            &&& old(accounts).user_state.books(tier) - final(accounts).user_state.books(tier) == 1
            &&& final(accounts).global_state.total_spells_cast
                - old(accounts).global_state.total_spells_cast == 1
        },
        r is Ok && is_lucky(tier, random_value) ==> {
            &&& old(accounts).user_state.runes - final(accounts).user_state.runes
                == tier.rune_cost()
            &&& is_boosted(
                old(accounts).user_state.multiplier,
                tier,
                final(accounts).user_state.multiplier,
            )
            &&& old(accounts).user_state.multiplier.units() < 2 * pow2(1074)
                ==> final(accounts).user_state.multiplier.units() > old(
                accounts,
            ).user_state.multiplier.units()
            &&& now + 864_000 <= i64::MAX ==> final(accounts).user_state.buff_expiry == now
                + 864_000
            &&& final(accounts).user_state.active_tier == tier.code()
            &&& final(accounts).global_state.total_successes
                - old(accounts).global_state.total_successes == 1
            &&& r->Ok_0 is Success
            &&& r->Ok_0->Success_0.user == old(accounts).user_state.owner
            &&& r->Ok_0->Success_0.tier == tier.code()
            &&& r->Ok_0->Success_0.multiplier == final(accounts).user_state.multiplier
            &&& r->Ok_0->Success_0.expiry == final(accounts).user_state.buff_expiry
            &&& r->Ok_0->Success_0.random_value == random_value
        },
        r is Ok && !is_lucky(tier, random_value) ==> {
            &&& 10 * (old(accounts).user_state.runes - final(accounts).user_state.runes) == 9
                * tier.rune_cost()
            &&& final(accounts).user_state.multiplier == old(accounts).user_state.multiplier
            &&& final(accounts).user_state.buff_expiry == old(accounts).user_state.buff_expiry
            &&& final(accounts).user_state.active_tier == old(accounts).user_state.active_tier
            &&& final(accounts).global_state.total_successes == old(
                accounts,
            ).global_state.total_successes
            &&& r->Ok_0 is Failure
            &&& r->Ok_0->Failure_0.user == old(accounts).user_state.owner
            &&& r->Ok_0->Failure_0.tier == tier.code()
            &&& 10 * r->Ok_0->Failure_0.rune_refund == tier.rune_cost()
            &&& r->Ok_0->Failure_0.random_value == random_value
        },
        forall|other: SpellTier|
            other != tier ==> #[trigger] final(accounts).user_state.books(other)
                == old(accounts).user_state.books(other),
        final(accounts).user_state.owner == old(accounts).user_state.owner,
        final(accounts).user_state.bump == old(accounts).user_state.bump,
        final(accounts).user == old(accounts).user,
        final(accounts).recent_blockhashes == old(accounts).recent_blockhashes,
        final(accounts).global_state == (GlobalState {
            total_spells_cast: final(accounts).global_state.total_spells_cast,
            total_successes: final(accounts).global_state.total_successes,
            ..old(accounts).global_state
        }),
{
    let m = old(accounts).user_state.multiplier;
    let two = Binary64 { bits: TWO_BITS };
    lemma2_to64();
    lemma2_to64_rest();
    lemma_value(two, 0x10_0000_0000_0000, 0x8_0000_0000_0000);
    lemma_boost_rounds(m, tier);
}

/// Casting a spell does what settling it with the draw of its seed's digest
/// does: the draw rests on the time, the caster, the first 32 bytes of the
/// block hashes and the tier, and on nothing else that the accounts hold.
pub proof fn law_cast_follows_digest(
    accounts: &mut CastSpell,
    settled: &mut CastSpell,
    tier: SpellTier,
    now: i64,
    owner: &Pubkey,
    blockhashes: &[u8],
    seed_data: Vec<u8>,
    digest: &[u8; 32],
    random_value: u32,
    r: Result<CastOutcome, SpellError>,
    expected: Result<CastOutcome, SpellError>,
)
    requires
        *old(settled) == *old(accounts),
        *owner == old(accounts).user_state.owner,
        blockhashes@.len() >= 32,
        old(accounts).recent_blockhashes@.len() >= 32,
        blockhashes@.subrange(0, 32) == old(accounts).recent_blockhashes@.subrange(0, 32),
        call_ensures(cast_seed, (now, owner, blockhashes, tier), seed_data),
        digest@ == sha256(seed_data@),
        call_ensures(draw_from, (digest,), random_value),
        call_ensures(settle_cast, (settled, tier, now, random_value), expected),
        call_ensures(cast_spell, (accounts, tier, now), r),
    ensures
        r == expected,
        *final(accounts) == *final(settled),
{
}

/// The draw that a cast reports.
pub open spec fn reported_draw(outcome: CastOutcome) -> u32 {
    match outcome {
        CastOutcome::Success(event) => event.random_value,
        CastOutcome::Failure(event) => event.random_value,
    }
}

/// Two casts of one tier at one time by one caster, with the same first 32
/// bytes of block hashes, draw the same.
pub proof fn law_same_inputs_same_draw(
    first: &mut CastSpell,
    second: &mut CastSpell,
    tier: SpellTier,
    now: i64,
    r1: Result<CastOutcome, SpellError>,
    r2: Result<CastOutcome, SpellError>,
)
    requires
        old(first).user_state.owner == old(second).user_state.owner,
        old(first).recent_blockhashes@.len() >= 32,
        old(second).recent_blockhashes@.len() >= 32,
        old(first).recent_blockhashes@.subrange(0, 32) == old(second).recent_blockhashes@.subrange(
            0,
            32,
        ),
        call_ensures(cast_spell, (first, tier, now), r1),
        call_ensures(cast_spell, (second, tier, now), r2),
        r1 is Ok,
        r2 is Ok,
    ensures
        reported_draw(r1->Ok_0) == reported_draw(r2->Ok_0),
{
}

/// The draw that a cast reports is the number in the first four bytes of the
/// digest of its seed, modulo a hundred.
pub proof fn law_reported_draw(
    accounts: &mut CastSpell,
    tier: SpellTier,
    now: i64,
    owner: &Pubkey,
    blockhashes: &[u8],
    seed_data: Vec<u8>,
    digest: &[u8; 32],
    r: Result<CastOutcome, SpellError>,
)
    requires
        *owner == old(accounts).user_state.owner,
        blockhashes@ == old(accounts).recent_blockhashes@,
        call_ensures(cast_seed, (now, owner, blockhashes, tier), seed_data),
        digest@ == sha256(seed_data@),
        call_ensures(cast_spell, (accounts, tier, now), r),
        r is Ok,
    ensures
        reported_draw(r->Ok_0) == (digest@[0] + 0x100 * digest@[1] + 0x1_0000 * digest@[2]
            + 0x100_0000 * digest@[3]) % 100,
{
    reveal_with_fuel(le_value, 5);
    let s = digest@.subrange(0, 4);
    assert(s.drop_first() =~= digest@.subrange(1, 4));
    assert(s.drop_first().drop_first() =~= digest@.subrange(2, 4));
    assert(s.drop_first().drop_first().drop_first() =~= digest@.subrange(3, 4));
    assert(s.drop_first().drop_first().drop_first().drop_first() =~= Seq::<u8>::empty());
}

/// Trying to cast does what casting does. It gives up, and changes nothing,
/// only where the user may cast and either a block hash is missing or a
/// countable success would expire at a time that no longer fits.
pub proof fn law_try_cast(
    accounts: &mut CastSpell,
    direct: &mut CastSpell,
    tier: SpellTier,
    now: i64,
    user: &UserState,
    checked: Result<(), SpellError>,
    owner: &Pubkey,
    blockhashes: &[u8],
    seed_data: Vec<u8>,
    digest: &[u8; 32],
    random_value: u32,
    r: Option<Result<CastOutcome, SpellError>>,
    expected: Result<CastOutcome, SpellError>,
)
    requires
        *old(direct) == *old(accounts),
        *user == old(accounts).user_state,
        *owner == old(accounts).user_state.owner,
        blockhashes@ == old(accounts).recent_blockhashes@,
        call_ensures(check_cast, (user, tier, now), checked),
        call_ensures(cast_seed, (now, owner, blockhashes, tier), seed_data),
        digest@ == sha256(seed_data@),
        call_ensures(draw_from, (digest,), random_value),
        call_ensures(cast_spell, (direct, tier, now), expected),
        call_ensures(try_cast_spell, (accounts, tier, now), r),
    ensures
        r is None <==> {
            &&& checked is Ok
            &&& blockhashes@.len() < 32 || {
                &&& now + 864_000 > i64::MAX
                &&& old(accounts).global_state.total_spells_cast < u64::MAX
                &&& is_lucky(tier, random_value)
            }
        },
        r is Some ==> r->Some_0 == expected && *final(accounts) == *final(direct),
        r is None ==> *final(accounts) == *old(accounts),
{
}

/// Where a user may not cast, casting and trying to cast give the reason, and
/// change nothing, whatever block hashes there are. Where the user may, but
/// fewer than 32 bytes of block hashes are there, trying gives up.
pub proof fn law_refused_cast(
    accounts: &mut CastSpell,
    trying: &mut CastSpell,
    tier: SpellTier,
    now: i64,
    user: &UserState,
    checked: Result<(), SpellError>,
    r: Result<CastOutcome, SpellError>,
    tried: Option<Result<CastOutcome, SpellError>>,
)
    requires
        *old(trying) == *old(accounts),
        *user == old(accounts).user_state,
        call_ensures(check_cast, (user, tier, now), checked),
        call_ensures(cast_spell, (accounts, tier, now), r),
        call_ensures(try_cast_spell, (trying, tier, now), tried),
    ensures
        checked is Err ==> {
            &&& r == Err::<CastOutcome, SpellError>(checked->Err_0)
            &&& tried == Some(r)
            &&& *final(accounts) == *old(accounts)
            &&& *final(trying) == *old(trying)
        },
        checked is Ok && old(trying).recent_blockhashes@.len() < 32 ==> tried is None
            && *final(trying) == *old(trying),
{
}

/// Whoever has cast with success casts no spell before 864000 seconds are
/// over, at times that are not negative.
pub proof fn law_spell_works_ten_days(
    accounts: &mut CastSpell,
    tier: SpellTier,
    now: i64,
    random_value: u32,
    r: Result<CastOutcome, SpellError>,
    user: &UserState,
    next: SpellTier,
    later: i64,
    checked: Result<(), SpellError>,
)
    requires
        0 <= now,
        now + 864_000 <= i64::MAX,
        call_ensures(settle_cast, (accounts, tier, now, random_value), r),
        r is Ok,
        r->Ok_0 is Success,
        *user == final(accounts).user_state,
        call_ensures(check_cast, (user, next, later), checked),
    ensures
        later - now < 864_000 <==> checked == Err::<(), SpellError>(SpellError::BuffActive),
{
}

// What may be called when

/// Setting up, publishing and crafting, and the checks before them, can be
/// asked for with any accounts and any amounts.
pub proof fn law_always_answered(
    setup: &mut Initialize,
    join: &mut InitializeUser,
    update: &mut UpdatePrices,
    prices: &UpdatePrices,
    craft: &mut CraftRunes,
    burn: &CraftRunes,
    user: &UserState,
    k1: Pubkey,
    k2: Pubkey,
    bump: u8,
    alch_price_usd: Binary64,
    sol_price_usd: Binary64,
    now: i64,
    amount: u64,
    quantity: u8,
    tier: SpellTier,
    digest: &[u8; 32],
)
    ensures
        call_requires(initialize, (setup, k1, k2, bump)),
        call_requires(initialize_user, (join, bump)),
        call_requires(update_prices, (update, alch_price_usd, sol_price_usd, now)),
        call_requires(check_prices, (prices, alch_price_usd, sol_price_usd)),
        call_requires(craft_runes, (craft, amount)),
        call_requires(order_burn, (burn, amount)),
        call_requires(CraftRunes::check_constraints, (burn,)),
        call_requires(check_quantity, (quantity,)),
        call_requires(check_cast, (user, tier, now)),
        call_requires(draw_from, (digest,)),
{
}

/// A purchase can be asked for at unset prices and at prices within their
/// limits, as long as their age fits the type of a time.
pub proof fn law_purchase_answered(
    accounts: &mut BuySpellbooks,
    before: &BuySpellbooks,
    pricing: &PricingState,
    tier: SpellTier,
    quantity: u8,
    now: i64,
)
    requires
        *before == *old(accounts),
        *pricing == before.pricing_state,
        (pricing.alch_price_usd.bits == 0 && pricing.sol_price_usd.bits == 0) || prices_allowed(
            pricing.alch_price_usd,
            pricing.sol_price_usd,
        ),
        i64::MIN <= now - pricing.last_update <= i64::MAX,
    ensures
        call_requires(lamports_per_book, (tier, pricing)),
        call_requires(order_payment, (before, tier, quantity, now)),
        call_requires(buy_spellbooks, (accounts, tier, quantity, now)),
{
    law_price_limits(pricing.alch_price_usd);
    law_price_limits(pricing.sol_price_usd);
}

/// A cast can be tried by every user with a multiplier from 1 to 2, and asked
/// for where a block hash is there and the expiry would fit.
pub proof fn law_cast_answered(
    trying: &mut CastSpell,
    settling: &mut CastSpell,
    casting: &mut CastSpell,
    owner: &Pubkey,
    blockhashes: &[u8],
    multiplier: Binary64,
    tier: SpellTier,
    now: i64,
    random_value: u32,
)
    requires
        multiplier.bits < 0x7FF0_0000_0000_0000,
        pow2(1074) <= multiplier.units() <= 2 * pow2(1074),
        old(trying).user_state.multiplier == multiplier,
        old(settling).user_state.multiplier == multiplier,
        old(casting).user_state.multiplier == multiplier,
        old(casting).recent_blockhashes@.len() >= 32,
        blockhashes@.len() >= 32,
    ensures
        call_requires(boosted_multiplier, (multiplier, tier)),
        call_requires(try_cast_spell, (trying, tier, now)),
        call_requires(cast_seed, (now, owner, blockhashes, tier)),
        now + 864_000 <= i64::MAX ==> call_requires(
            settle_cast,
            (settling, tier, now, random_value),
        ),
        now + 864_000 <= i64::MAX ==> call_requires(cast_spell, (casting, tier, now)),
{
    law_multiplier_limits(multiplier);
}

} // verus!
