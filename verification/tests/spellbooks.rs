use alchemy_spells::accounts::BuySpellbooks;
use alchemy_spells::binary64::Binary64;
use alchemy_spells::chain::AccountMeta;
use alchemy_spells::error::SpellError;
use alchemy_spells::events::SpellbooksPurchased;
use alchemy_spells::key::Pubkey;
use alchemy_spells::spellbooks::{buy_spellbooks, check_quantity, order_payment};
use alchemy_spells::state::{GlobalState, PricingState, UserState};
use alchemy_spells::tier::SpellTier;

fn key(b: u8) -> Pubkey {
    Pubkey { bytes: [b; 32] }
}

fn accounts() -> BuySpellbooks {
    BuySpellbooks {
        user_state: UserState {
            owner: key(7),
            runes: 100,
            novice_books: 1,
            adept_books: 2,
            master_books: 3,
            legendary_books: 4,
            multiplier: Binary64 { bits: 1.0f64.to_bits() },
            buff_expiry: 0,
            active_tier: 0,
            bump: 253,
        },
        global_state: GlobalState {
            authority: key(1),
            treasury: key(2),
            alch_mint: key(3),
            total_alch_burned: 40,
            total_sol_collected: 50,
            total_spells_cast: 6,
            total_successes: 5,
            bump: 254,
        },
        pricing_state: PricingState {
            alch_price_usd: Binary64 { bits: 0.0123f64.to_bits() },
            sol_price_usd: Binary64 { bits: 147.31f64.to_bits() },
            last_update: 1_000,
        },
        user: key(7),
        treasury: key(2),
    }
}

#[test]
fn payment_is_a_system_transfer() {
    let payment = order_payment(&accounts(), SpellTier::Adept, 3, 1_100).unwrap();
    assert_eq!(payment.program_id, key(0));
    assert_eq!(
        payment.accounts,
        vec![
            AccountMeta { pubkey: key(7), is_signer: true, is_writable: true },
            AccountMeta { pubkey: key(2), is_signer: false, is_writable: true },
        ]
    );
    let mut data = vec![2u8, 0, 0, 0];
    data.extend_from_slice(&3_757_382_388u64.to_le_bytes());
    assert_eq!(payment.data, data);
}

#[test]
fn payment_goes_to_the_treasury_on_record() {
    let mut a = accounts();
    a.treasury = key(66);
    let payment = order_payment(&a, SpellTier::Novice, 1, 1_100).unwrap();
    assert_eq!(payment.accounts[1].pubkey, key(2));
}

#[test]
fn books_are_credited() {
    let mut a = accounts();
    let before = a;
    assert_eq!(
        buy_spellbooks(&mut a, SpellTier::Adept, 3, 1_100),
        Ok(SpellbooksPurchased {
            user: key(7),
            tier: 1,
            quantity: 3,
            sol_paid: 3_757_382_388,
            alch_price: before.pricing_state.alch_price_usd,
            sol_price: before.pricing_state.sol_price_usd,
        })
    );
    assert_eq!(a.user_state, UserState { adept_books: 5, ..before.user_state });
    assert_eq!(
        a.global_state,
        GlobalState { total_sol_collected: 3_757_382_438, ..before.global_state }
    );
    assert_eq!(a.pricing_state, before.pricing_state);
}

#[test]
fn each_tier_has_its_own_books() {
    let mut a = accounts();
    buy_spellbooks(&mut a, SpellTier::Novice, 10, 1_000).unwrap();
    buy_spellbooks(&mut a, SpellTier::Master, 20, 1_000).unwrap();
    buy_spellbooks(&mut a, SpellTier::Legendary, 30, 1_000).unwrap();
    assert_eq!(a.user_state.novice_books, 11);
    assert_eq!(a.user_state.adept_books, 2);
    assert_eq!(a.user_state.master_books, 23);
    assert_eq!(a.user_state.legendary_books, 34);
}

#[test]
fn quantities() {
    assert_eq!(check_quantity(0), Err(SpellError::InvalidAmount));
    assert_eq!(check_quantity(1), Ok(()));
    assert_eq!(check_quantity(100), Ok(()));
    assert_eq!(check_quantity(101), Err(SpellError::InvalidAmount));
    assert_eq!(check_quantity(255), Err(SpellError::InvalidAmount));
    let mut a = accounts();
    let before = a;
    assert_eq!(buy_spellbooks(&mut a, SpellTier::Novice, 0, 1_000), Err(SpellError::InvalidAmount));
    assert_eq!(buy_spellbooks(&mut a, SpellTier::Novice, 101, 9_000), Err(SpellError::InvalidAmount));
    assert_eq!(order_payment(&a, SpellTier::Novice, 101, 1_000), Err(SpellError::InvalidAmount));
    assert_eq!(a, before);
}

#[test]
fn prices_hold_for_five_minutes() {
    let mut a = accounts();
    assert!(order_payment(&a, SpellTier::Novice, 1, 1_299).is_ok());
    assert_eq!(order_payment(&a, SpellTier::Novice, 1, 1_300), Err(SpellError::StalePrices));
    let before = a;
    assert_eq!(buy_spellbooks(&mut a, SpellTier::Novice, 1, 1_300), Err(SpellError::StalePrices));
    assert_eq!(a, before);
    // a clock that runs behind the publication is no hindrance
    assert!(buy_spellbooks(&mut a, SpellTier::Novice, 1, -5).is_ok());
}

#[test]
fn purchases_overflow() {
    let mut a = accounts();
    a.user_state.novice_books = u64::MAX - 1;
    let before = a;
    assert_eq!(buy_spellbooks(&mut a, SpellTier::Novice, 2, 1_000), Err(SpellError::Overflow));
    assert_eq!(a, before);
    assert!(buy_spellbooks(&mut a, SpellTier::Novice, 1, 1_000).is_ok());

    let mut b = accounts();
    b.global_state.total_sol_collected = u64::MAX - 1;
    let before = b;
    assert_eq!(buy_spellbooks(&mut b, SpellTier::Novice, 1, 1_000), Err(SpellError::Overflow));
    assert_eq!(b, before);
}

#[test]
fn largest_purchase_fits() {
    let mut a = accounts();
    a.pricing_state.alch_price_usd = Binary64 { bits: 1.0f64.to_bits() };
    a.pricing_state.sol_price_usd = Binary64 { bits: 50.0f64.to_bits() };
    let event = buy_spellbooks(&mut a, SpellTier::Legendary, 100, 1_000).unwrap();
    assert_eq!(event.sol_paid, 150_000_000_000_000);
}

#[test]
fn before_the_first_prices_books_cost_nothing() {
    let mut a = accounts();
    a.pricing_state = PricingState::default();
    let event = buy_spellbooks(&mut a, SpellTier::Legendary, 100, 299).unwrap();
    assert_eq!(event.sol_paid, 0);
    assert_eq!(buy_spellbooks(&mut a, SpellTier::Legendary, 1, 300), Err(SpellError::StalePrices));
}
