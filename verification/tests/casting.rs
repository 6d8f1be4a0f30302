use alchemy_spells::accounts::CastSpell;
use alchemy_spells::binary64::Binary64;
use alchemy_spells::casting::{
    boosted_multiplier, cast_seed, cast_spell, check_cast, draw_from, settle_cast, try_cast_spell,
};
use alchemy_spells::error::SpellError;
use alchemy_spells::events::{CastOutcome, SpellCastFailure, SpellCastSuccess};
use alchemy_spells::key::Pubkey;
use alchemy_spells::state::{GlobalState, UserState};
use alchemy_spells::tier::SpellTier;

const TIERS: [SpellTier; 4] =
    [SpellTier::Novice, SpellTier::Adept, SpellTier::Master, SpellTier::Legendary];
const BOOSTS: [f64; 4] = [0.10, 0.25, 0.50, 1.00];

fn key(b: u8) -> Pubkey {
    Pubkey { bytes: [b; 32] }
}

fn double(x: f64) -> Binary64 {
    Binary64 { bits: x.to_bits() }
}

fn user() -> UserState {
    UserState {
        owner: key(7),
        runes: 300_000_000_000,
        novice_books: 5,
        adept_books: 6,
        master_books: 7,
        legendary_books: 8,
        multiplier: double(1.0),
        buff_expiry: 0,
        active_tier: 0,
        bump: 253,
    }
}

fn global() -> GlobalState {
    GlobalState {
        authority: key(1),
        treasury: key(2),
        alch_mint: key(3),
        total_alch_burned: 40,
        total_sol_collected: 50,
        total_spells_cast: 60,
        total_successes: 20,
        bump: 254,
    }
}

fn accounts() -> CastSpell {
    CastSpell {
        user_state: user(),
        global_state: global(),
        user: key(7),
        recent_blockhashes: vec![9; 40],
    }
}

fn random_value(outcome: &CastOutcome) -> u32 {
    match outcome {
        CastOutcome::Success(e) => e.random_value,
        CastOutcome::Failure(e) => e.random_value,
    }
}

#[test]
fn seed_layout() {
    let seed = cast_seed(-2, &key(7), &[9; 33], SpellTier::Master);
    let mut expected = vec![0xFEu8, 0xFF, 0xFF, 0xFF, 0xFF, 0xFF, 0xFF, 0xFF];
    expected.extend_from_slice(&[7; 32]);
    expected.extend_from_slice(&[9; 32]);
    expected.push(2);
    assert_eq!(seed, expected);
    assert_eq!(cast_seed(0x0102_0304, &key(7), &[9; 32], SpellTier::Novice)[..8], [4, 3, 2, 1, 0, 0, 0, 0]);
    assert_eq!(cast_seed(i64::MIN, &key(7), &[9; 32], SpellTier::Novice)[..8], [0, 0, 0, 0, 0, 0, 0, 0x80]);
}

#[test]
fn draws_are_little_endian_modulo_a_hundred() {
    let mut digest = [0u8; 32];
    assert_eq!(draw_from(&digest), 0);
    digest[0] = 99;
    assert_eq!(draw_from(&digest), 99);
    digest[0] = 0;
    digest[1] = 1;
    assert_eq!(draw_from(&digest), 56);
    digest = [0xFF; 32];
    assert_eq!(draw_from(&digest), 95);
    digest[3] = 0x12;
    assert_eq!(draw_from(&digest), 0x12FF_FFFFu32 % 100);
}

#[test]
fn digests_decide() {
    let rows = [
        (1_700_000_000i64, [66u32, 41, 51, 18]),
        (1_700_000_001, [64, 84, 44, 58]),
        (1_700_000_002, [89, 28, 27, 11]),
        (-5, [74, 40, 1, 43]),
    ];
    for (now, draws) in rows {
        for i in 0..4 {
            let mut a = accounts();
            let outcome = cast_spell(&mut a, TIERS[i], now).unwrap();
            assert_eq!(random_value(&outcome), draws[i]);
            assert_eq!(
                matches!(outcome, CastOutcome::Success(_)),
                draws[i] < TIERS[i].success_rate()
            );
        }
    }
}

#[test]
fn success_boosts_for_ten_days() {
    let mut a = accounts();
    assert_eq!(
        cast_spell(&mut a, SpellTier::Novice, 1_700_000_000),
        Ok(CastOutcome::Success(SpellCastSuccess {
            user: key(7),
            tier: 0,
            multiplier: double(1.1),
            expiry: 1_700_864_000,
            random_value: 66,
        }))
    );
    assert_eq!(
        a.user_state,
        UserState {
            runes: 290_000_000_000,
            novice_books: 4,
            multiplier: double(1.1),
            buff_expiry: 1_700_864_000,
            active_tier: 0,
            ..user()
        }
    );
    assert_eq!(
        a.global_state,
        GlobalState { total_spells_cast: 61, total_successes: 21, ..global() }
    );
    assert_eq!(a.recent_blockhashes, vec![9; 40]);
    assert_eq!(a.user, key(7));
    assert_eq!(
        cast_spell(&mut a, SpellTier::Adept, 1_700_863_999),
        Err(SpellError::BuffActive)
    );
    assert!(cast_spell(&mut a, SpellTier::Adept, 1_700_864_000).is_ok());
}

#[test]
fn failure_gives_back_a_tenth() {
    let mut a = accounts();
    assert_eq!(
        cast_spell(&mut a, SpellTier::Master, 1_700_000_000),
        Ok(CastOutcome::Failure(SpellCastFailure {
            user: key(7),
            tier: 2,
            rune_refund: 5_000_000_000,
            random_value: 51,
        }))
    );
    assert_eq!(
        a.user_state,
        UserState { runes: 255_000_000_000, master_books: 6, ..user() }
    );
    assert_eq!(a.global_state, GlobalState { total_spells_cast: 61, ..global() });
}

#[test]
fn settling_every_draw() {
    for tier in TIERS {
        let mut successes = 0;
        for draw in 0..100 {
            let mut a = accounts();
            match settle_cast(&mut a, tier, 1_000, draw).unwrap() {
                CastOutcome::Success(e) => {
                    successes += 1;
                    assert_eq!(e.expiry, 865_000);
                    assert_eq!(e.tier, tier.code());
                    assert_eq!(a.user_state.active_tier, tier.code());
                    assert_eq!(a.user_state.runes, user().runes - tier.rune_cost());
                }
                CastOutcome::Failure(e) => {
                    assert_eq!(e.rune_refund, tier.rune_cost() / 10);
                    assert_eq!(a.user_state.multiplier, user().multiplier);
                    assert_eq!(
                        a.user_state.runes,
                        user().runes - tier.rune_cost() + tier.rune_cost() / 10
                    );
                }
            }
            assert_eq!(a.user_state.books(tier), user().books(tier) - 1);
        }
        assert_eq!(successes, tier.success_rate());
    }
}

#[test]
fn resources_are_checked() {
    for tier in TIERS {
        let mut poor = user();
        poor.runes = tier.rune_cost() - 1;
        assert_eq!(check_cast(&poor, tier, 0), Err(SpellError::InsufficientRunes));
        poor.runes = tier.rune_cost();
        assert_eq!(check_cast(&poor, tier, 0), Ok(()));
    }
    let bookless =
        UserState { novice_books: 0, adept_books: 0, master_books: 0, legendary_books: 0, ..user() };
    for tier in TIERS {
        assert_eq!(check_cast(&bookless, tier, 0), Err(SpellError::InsufficientBooks));
    }
    let mut both = bookless;
    both.runes = 0;
    assert_eq!(check_cast(&both, SpellTier::Novice, 0), Err(SpellError::InsufficientRunes));
    both.buff_expiry = 10;
    assert_eq!(check_cast(&both, SpellTier::Novice, 9), Err(SpellError::BuffActive));
    assert_eq!(check_cast(&both, SpellTier::Novice, 10), Err(SpellError::InsufficientRunes));
}

#[test]
fn an_expiry_that_is_not_positive_never_blocks() {
    let old = UserState { buff_expiry: -1, ..user() };
    assert_eq!(check_cast(&old, SpellTier::Novice, -100), Ok(()));
}

#[test]
fn refused_casts_change_nothing() {
    let mut a = accounts();
    a.user_state.runes = 0;
    a.recent_blockhashes = vec![];
    assert_eq!(cast_spell(&mut a, SpellTier::Novice, 5), Err(SpellError::InsufficientRunes));
    assert_eq!(a.user_state, UserState { runes: 0, ..user() });
    assert_eq!(a.global_state, global());
}

#[test]
fn cast_counters_overflow() {
    let mut a = accounts();
    a.global_state.total_spells_cast = u64::MAX;
    assert_eq!(settle_cast(&mut a, SpellTier::Novice, 5, 0), Err(SpellError::Overflow));
    assert_eq!(settle_cast(&mut a, SpellTier::Novice, 5, 99), Err(SpellError::Overflow));
    assert_eq!(a.user_state, user());
    let mut a = accounts();
    a.global_state.total_successes = u64::MAX;
    assert_eq!(settle_cast(&mut a, SpellTier::Novice, 5, 0), Err(SpellError::Overflow));
    assert_eq!(a.user_state, user());
    assert!(settle_cast(&mut a, SpellTier::Novice, 5, 99).is_ok());
}

#[test]
fn casts_that_cannot_be_decided() {
    let mut a = accounts();
    a.recent_blockhashes = vec![9; 31];
    assert_eq!(try_cast_spell(&mut a, SpellTier::Novice, 5), None);
    assert_eq!(a.user_state, user());
    a.user_state.novice_books = 0;
    assert_eq!(
        try_cast_spell(&mut a, SpellTier::Novice, 5),
        Some(Err(SpellError::InsufficientBooks))
    );
}

#[test]
fn casts_at_the_end_of_time() {
    // the draw at the last second is 83, and 61 a second earlier
    let mut a = accounts();
    let outcome = try_cast_spell(&mut a, SpellTier::Novice, i64::MAX).unwrap().unwrap();
    assert_eq!(random_value(&outcome), 83);
    let mut a = accounts();
    assert_eq!(try_cast_spell(&mut a, SpellTier::Novice, i64::MAX - 1), None);
    assert_eq!(a.user_state, user());
    assert_eq!(a.global_state, global());
    a.global_state.total_spells_cast = u64::MAX;
    assert_eq!(
        try_cast_spell(&mut a, SpellTier::Novice, i64::MAX - 1),
        Some(Err(SpellError::Overflow))
    );
}

#[test]
fn boosts_agree_with_the_machine() {
    let mut state: u64 = 88172645463325252;
    for _ in 0..20_000 {
        state ^= state << 13;
        state ^= state >> 7;
        state ^= state << 17;
        let m = f64::from_bits(1.0f64.to_bits() + (state >> 12));
        for i in 0..4 {
            let expected = (m + BOOSTS[i]).min(2.0);
            assert_eq!(boosted_multiplier(double(m), TIERS[i]), double(expected));
        }
    }
    for i in 0..4 {
        assert_eq!(boosted_multiplier(double(2.0), TIERS[i]), double(2.0));
    }
}

#[test]
fn boosts_accumulate_up_to_two() {
    let mut machine = 1.0f64;
    let mut m = double(1.0);
    for _ in 0..12 {
        machine = (machine + 0.10).min(2.0);
        m = boosted_multiplier(m, SpellTier::Novice);
        assert_eq!(m, double(machine));
    }
    assert_eq!(m, double(2.0));
}
