use alchemy_spells::accounts::UpdatePrices;
use alchemy_spells::binary64::Binary64;
use alchemy_spells::error::SpellError;
use alchemy_spells::events::PriceUpdated;
use alchemy_spells::key::Pubkey;
use alchemy_spells::pricing::{check_prices, lamports_per_book, update_prices};
use alchemy_spells::state::{GlobalState, PricingState};
use alchemy_spells::tier::SpellTier;

const TIERS: [SpellTier; 4] =
    [SpellTier::Novice, SpellTier::Adept, SpellTier::Master, SpellTier::Legendary];
const WORTH: [f64; 4] = [7500.0, 15000.0, 37500.0, 75000.0];

fn key(b: u8) -> Pubkey {
    Pubkey { bytes: [b; 32] }
}

fn double(x: f64) -> Binary64 {
    Binary64 { bits: x.to_bits() }
}

fn accounts(signer: u8) -> UpdatePrices {
    UpdatePrices {
        pricing_state: PricingState::default(),
        global_state: GlobalState {
            authority: key(1),
            treasury: key(2),
            alch_mint: key(3),
            total_alch_burned: 4,
            total_sol_collected: 5,
            total_spells_cast: 6,
            total_successes: 5,
            bump: 254,
        },
        authority: key(signer),
    }
}

fn pricing(alch: f64, sol: f64) -> PricingState {
    PricingState { alch_price_usd: double(alch), sol_price_usd: double(sol), last_update: 0 }
}

#[test]
fn authority_publishes_prices() {
    let mut a = accounts(1);
    let before = a;
    let event = update_prices(&mut a, double(0.0123), double(147.31), 1_700_000_000);
    assert_eq!(
        event,
        Ok(PriceUpdated {
            alch_price_usd: double(0.0123),
            sol_price_usd: double(147.31),
            timestamp: 1_700_000_000,
        })
    );
    assert_eq!(a.global_state, before.global_state);
    assert_eq!(a.authority, before.authority);
    assert_eq!(
        a.pricing_state,
        PricingState {
            alch_price_usd: double(0.0123),
            sol_price_usd: double(147.31),
            last_update: 1_700_000_000,
        }
    );
}

#[test]
fn others_may_not_publish() {
    let mut a = accounts(9);
    let before = a;
    assert_eq!(update_prices(&mut a, double(0.01), double(100.0), 1), Err(SpellError::Unauthorized));
    assert_eq!(a, before);
    // the signer is looked at before the prices
    assert_eq!(check_prices(&a, double(7.0), double(100.0)), Err(SpellError::Unauthorized));
}

#[test]
fn signer_is_compared_to_the_last_byte() {
    let mut a = accounts(1);
    a.authority.bytes[31] = 0;
    assert_eq!(check_prices(&a, double(0.01), double(100.0)), Err(SpellError::Unauthorized));
}

#[test]
fn price_limits() {
    let a = accounts(1);
    let refused = Err(SpellError::InvalidPrice);
    assert_eq!(check_prices(&a, double(0.0001), double(50.0)), Ok(()));
    assert_eq!(check_prices(&a, double(1.0), double(500.0)), Ok(()));
    let below = |x: f64| Binary64 { bits: x.to_bits() - 1 };
    let above = |x: f64| Binary64 { bits: x.to_bits() + 1 };
    assert_eq!(check_prices(&a, below(0.0001), double(50.0)), refused);
    assert_eq!(check_prices(&a, above(1.0), double(50.0)), refused);
    assert_eq!(check_prices(&a, double(0.01), below(50.0)), refused);
    assert_eq!(check_prices(&a, double(0.01), above(500.0)), refused);
}

#[test]
fn odd_doubles_are_no_prices() {
    let a = accounts(1);
    for x in [f64::NAN, f64::INFINITY, f64::NEG_INFINITY, 0.0, -0.0, -0.5, -100.0, f64::MIN_POSITIVE] {
        assert_eq!(check_prices(&a, double(x), double(100.0)), Err(SpellError::InvalidPrice));
        assert_eq!(check_prices(&a, double(0.5), double(x)), Err(SpellError::InvalidPrice));
    }
}

#[test]
fn price_checks_agree_with_the_machine() {
    let a = accounts(1);
    let mut bits: u64 = 0x0123_4567_89AB_CDEF;
    for _ in 0..20_000 {
        bits = bits.wrapping_mul(6364136223846793005).wrapping_add(1442695040888963407);
        let x = f64::from_bits(bits ^ (bits >> 29));
        let alch = x >= 0.0001 && x <= 1.0;
        let sol = x >= 50.0 && x <= 500.0;
        assert_eq!(check_prices(&a, double(x), double(100.0)).is_ok(), alch);
        assert_eq!(check_prices(&a, double(0.5), double(x)).is_ok(), sol);
    }
}

#[test]
fn exact_book_prices() {
    let cases: [(f64, f64, [u64; 4]); 5] = [
        (0.0001, 50.0, [15_000_000, 30_000_000, 75_000_000, 150_000_000]),
        (1.0, 50.0, [150_000_000_000, 300_000_000_000, 750_000_000_000, 1_500_000_000_000]),
        (0.0001, 500.0, [1_500_000, 3_000_000, 7_500_000, 15_000_000]),
        (0.0123, 147.31, [626_230_398, 1_252_460_796, 3_131_151_992, 6_262_303_984]),
        (1.0, 500.0, [15_000_000_000, 30_000_000_000, 75_000_000_000, 150_000_000_000]),
    ];
    for (alch, sol, expected) in cases {
        for i in 0..4 {
            assert_eq!(lamports_per_book(TIERS[i], &pricing(alch, sol)), expected[i]);
        }
    }
}

#[test]
fn book_prices_agree_with_the_machine() {
    let mut state: u64 = 88172645463325252;
    let mut next = || {
        state ^= state << 13;
        state ^= state >> 7;
        state ^= state << 17;
        (state >> 11) as f64 / (1u64 << 53) as f64
    };
    for _ in 0..20_000 {
        let alch = (0.0001 + next() * 0.9999).min(1.0);
        let sol = 50.0 + next() * 450.0;
        for i in 0..4 {
            let expected = (WORTH[i] * alch / sol * 1_000_000_000.0) as u64;
            assert_eq!(lamports_per_book(TIERS[i], &pricing(alch, sol)), expected);
        }
    }
}

#[test]
fn small_alch_prices_agree_with_the_machine() {
    let mut alch = 0.0001f64;
    while alch <= 1.0 {
        for sol in [50.0, 63.7, 99.99, 128.0, 255.9, 311.1, 499.5, 500.0] {
            for i in 0..4 {
                let expected = (WORTH[i] * alch / sol * 1_000_000_000.0) as u64;
                assert_eq!(lamports_per_book(TIERS[i], &pricing(alch, sol)), expected);
            }
        }
        alch *= 1.0137;
    }
}

#[test]
fn unset_prices_make_no_lamports() {
    let expected = (7500.0 * 0.0f64 / 0.0f64 * 1_000_000_000.0) as u64;
    assert_eq!(expected, 0);
    for tier in TIERS {
        assert_eq!(lamports_per_book(tier, &PricingState::default()), expected);
    }
}

#[test]
fn book_prices_rise_with_tier_and_alch_and_fall_with_sol() {
    let base = lamports_per_book(SpellTier::Adept, &pricing(0.02, 150.0));
    assert!(lamports_per_book(SpellTier::Master, &pricing(0.02, 150.0)) > base);
    assert!(lamports_per_book(SpellTier::Adept, &pricing(0.03, 150.0)) > base);
    assert!(lamports_per_book(SpellTier::Adept, &pricing(0.02, 160.0)) < base);
}

#[test]
fn validity_of_pricing_accounts() {
    assert!(PricingState::default().is_valid());
    assert_eq!(PricingState::default().last_update, 0);
    assert!(pricing(0.5, 100.0).is_valid());
    assert!(!pricing(0.0, 100.0).is_valid());
    assert!(!pricing(0.5, 0.0).is_valid());
    assert!(!pricing(f64::NAN, 100.0).is_valid());
}
