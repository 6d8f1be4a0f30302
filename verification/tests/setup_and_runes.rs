use alchemy_spells::accounts::{CraftRunes, Initialize, InitializeUser, TokenAccount};
use alchemy_spells::binary64::Binary64;
use alchemy_spells::error::SpellError;
use alchemy_spells::events::RunesCrafted;
use alchemy_spells::key::Pubkey;
use alchemy_spells::runes::{craft_runes, order_burn, BurnOrder, ConstraintViolation};
use alchemy_spells::setup::{initialize, initialize_user};
use alchemy_spells::state::{GlobalState, PricingState, UserState};
use alchemy_spells::tier::SpellTier;

fn key(b: u8) -> Pubkey {
    Pubkey { bytes: [b; 32] }
}

fn global() -> GlobalState {
    GlobalState {
        authority: key(1),
        treasury: key(2),
        alch_mint: key(3),
        total_alch_burned: 40,
        total_sol_collected: 50,
        total_spells_cast: 6,
        total_successes: 5,
        bump: 254,
    }
}

fn user() -> UserState {
    UserState {
        owner: key(7),
        runes: 100,
        novice_books: 1,
        adept_books: 2,
        master_books: 3,
        legendary_books: 4,
        multiplier: Binary64 { bits: 1.25f64.to_bits() },
        buff_expiry: 99,
        active_tier: 1,
        bump: 253,
    }
}

fn crafting() -> CraftRunes {
    CraftRunes {
        user_state: user(),
        global_state: global(),
        user: key(7),
        user_alch_account: TokenAccount { key: key(8), owner: key(7), mint: key(3) },
        alch_mint: key(3),
        token_program: key(9),
    }
}

#[test]
fn initialize_resets_everything_but_prices() {
    let prices = PricingState {
        alch_price_usd: Binary64 { bits: 0.5f64.to_bits() },
        sol_price_usd: Binary64 { bits: 100.0f64.to_bits() },
        last_update: 12,
    };
    let mut a = Initialize { global_state: global(), pricing_state: prices, authority: key(11) };
    assert_eq!(initialize(&mut a, key(12), key(13), 200), Ok(()));
    assert_eq!(
        a.global_state,
        GlobalState {
            authority: key(11),
            treasury: key(12),
            alch_mint: key(13),
            total_alch_burned: 0,
            total_sol_collected: 0,
            total_spells_cast: 0,
            total_successes: 0,
            bump: 200,
        }
    );
    assert_eq!(a.pricing_state, prices);
    assert_eq!(a.authority, key(11));
}

#[test]
fn initialize_user_starts_from_nothing() {
    let mut a = InitializeUser { user_state: user(), user: key(21) };
    assert_eq!(initialize_user(&mut a, 201), Ok(()));
    assert_eq!(
        a.user_state,
        UserState {
            owner: key(21),
            runes: 0,
            novice_books: 0,
            adept_books: 0,
            master_books: 0,
            legendary_books: 0,
            multiplier: Binary64 { bits: 1.0f64.to_bits() },
            buff_expiry: 0,
            active_tier: 0,
            bump: 201,
        }
    );
    assert!(a.user_state.is_valid());
}

#[test]
fn one_alch_makes_one_rune() {
    let mut a = crafting();
    let before = a;
    assert_eq!(
        order_burn(&a, 25),
        Ok(BurnOrder {
            token_program: key(9),
            mint: key(3),
            from: key(8),
            authority: key(7),
            amount: 25,
        })
    );
    assert_eq!(
        craft_runes(&mut a, 25),
        Ok(RunesCrafted { user: key(7), alch_burned: 25, runes_received: 25, total_runes: 125 })
    );
    assert_eq!(a.user_state, UserState { runes: 125, ..before.user_state });
    assert_eq!(a.global_state, GlobalState { total_alch_burned: 65, ..before.global_state });
}

#[test]
fn nothing_is_crafted_from_nothing() {
    let mut a = crafting();
    let before = a;
    assert_eq!(order_burn(&a, 0), Err(SpellError::InvalidAmount));
    assert_eq!(craft_runes(&mut a, 0), Err(SpellError::InvalidAmount));
    assert_eq!(a, before);
}

#[test]
fn crafting_overflows() {
    let mut a = crafting();
    let before = a;
    assert_eq!(craft_runes(&mut a, u64::MAX - 99), Err(SpellError::Overflow));
    assert_eq!(a, before);
    assert!(craft_runes(&mut a, u64::MAX - 100).is_ok());
    assert_eq!(a.user_state.runes, u64::MAX);

    let mut b = crafting();
    b.global_state.total_alch_burned = u64::MAX;
    let before = b;
    assert_eq!(craft_runes(&mut b, 1), Err(SpellError::Overflow));
    assert_eq!(b, before);
}

#[test]
fn only_own_alch_is_burned() {
    assert_eq!(crafting().check_constraints(), Ok(()));
    let mut a = crafting();
    a.user_alch_account.owner = key(99);
    assert_eq!(a.check_constraints(), Err(ConstraintViolation::TokenOwner));
    let mut a = crafting();
    a.user_alch_account.mint = key(99);
    assert_eq!(a.check_constraints(), Err(ConstraintViolation::TokenMint));
    let mut a = crafting();
    a.user_alch_account.mint = key(99);
    a.alch_mint = key(99);
    assert_eq!(a.check_constraints(), Err(ConstraintViolation::AlchMint));
}

#[test]
fn validity_of_user_accounts() {
    let with = |x: f64| UserState { multiplier: Binary64 { bits: x.to_bits() }, ..user() };
    assert!(with(1.0).is_valid());
    assert!(with(2.0).is_valid());
    assert!(!with(0.99).is_valid());
    assert!(!with(2.01).is_valid());
    assert!(!with(f64::NAN).is_valid());
    assert!(!with(-1.5).is_valid());
}

#[test]
fn tier_numbers_and_bytes() {
    assert_eq!(SpellTier::Novice.to_bytes(), [0]);
    assert_eq!(SpellTier::Adept.to_bytes(), [1]);
    assert_eq!(SpellTier::Master.to_bytes(), [2]);
    assert_eq!(SpellTier::Legendary.to_bytes(), [3]);
    assert_eq!(SpellTier::Legendary.code(), 3);
    assert_eq!(user().books(SpellTier::Novice), 1);
    assert_eq!(user().books(SpellTier::Adept), 2);
    assert_eq!(user().books(SpellTier::Master), 3);
    assert_eq!(user().books(SpellTier::Legendary), 4);
}

#[test]
fn tier_table() {
    let rows = [
        (SpellTier::Novice, 10_000_000_000u64, 70u32, 0.10f64, 7_500u64),
        (SpellTier::Adept, 20_000_000_000, 50, 0.25, 15_000),
        (SpellTier::Master, 50_000_000_000, 35, 0.50, 37_500),
        (SpellTier::Legendary, 100_000_000_000, 20, 1.00, 75_000),
    ];
    for (tier, cost, rate, boost, worth) in rows {
        assert_eq!(tier.rune_cost(), cost);
        assert_eq!(tier.success_rate(), rate);
        assert_eq!(tier.boost().bits, boost.to_bits());
        assert_eq!(tier.alch_equivalent(), worth);
        assert_eq!(worth * 1_000_000 * 4, cost * 3);
    }
}

#[test]
fn error_messages() {
    assert_eq!(SpellError::Unauthorized.message(), "Unauthorized");
    assert_eq!(SpellError::InvalidAmount.message(), "Invalid amount");
    assert_eq!(SpellError::InvalidPrice.message(), "Invalid price");
    assert_eq!(SpellError::StalePrices.message(), "Prices are stale");
    assert_eq!(SpellError::InsufficientRunes.message(), "Insufficient runes");
    assert_eq!(SpellError::InsufficientBooks.message(), "Insufficient spellbooks");
    assert_eq!(SpellError::BuffActive.message(), "Buff already active");
    assert_eq!(SpellError::Overflow.message(), "Arithmetic overflow");
    assert_eq!(SpellError::Underflow.message(), "Arithmetic underflow");
}
