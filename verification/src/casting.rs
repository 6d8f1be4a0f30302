//! Casting spells.
use crate::accounts::CastSpell;
use crate::binary64::{lemma_nearest_exact, lemma_nearest_exists, lemma_nearest_monotonic,
    lemma_units_ordered, nearest, Binary64};
use crate::bytes::{first_u32, le_bytes, le_value, push_i64, push_prefix, twos_complement};
use crate::chain::{hash, sha256};
use crate::error::SpellError;
use crate::events::{CastOutcome, SpellCastFailure, SpellCastSuccess};
use crate::key::Pubkey;
use crate::state::{multiplier_ok, GlobalState, UserState, ONE_BITS, TWO_BITS};
use crate::tier::SpellTier;
use vstd::prelude::*;

verus! {

/// Seconds for which a spell works: ten days.
pub const BUFF_DURATION: i64 = 864_000;

/// How many bytes of the recent block hashes go into a seed.
pub const BLOCKHASH_LENGTH: usize = 32;

/// The sides of the die that decides a cast.
pub const DRAWS: u32 = 100;

/// Why a user cannot cast, if they cannot: the last spell still works, or
/// runes or spellbooks are missing.
pub open spec fn cast_refusal(user: UserState, tier: SpellTier, now: i64) -> Option<SpellError> {
    if user.buff_expiry > 0 && now < user.buff_expiry {
        Some(SpellError::BuffActive)
    } else if user.runes < tier.rune_cost() {
        Some(SpellError::InsufficientRunes)
    } else if user.books(tier) < 1 {
        Some(SpellError::InsufficientBooks)
    } else {
        None
    }
}

/// Decides whether a user can cast.
pub fn check_cast(user: &UserState, tier: SpellTier, now: i64) -> (r: Result<(), SpellError>)
    ensures
        r == (match cast_refusal(*user, tier, now) {
            Some(error) => Err(error),
            None => Ok(()),
        }),
{
    if user.buff_expiry > 0 && now < user.buff_expiry {
        return Err(SpellError::BuffActive);
    }
    if user.runes < tier.rune_cost() {
        return Err(SpellError::InsufficientRunes);
    }
    if user.books(tier) < 1 {
        return Err(SpellError::InsufficientBooks);
    }
    Ok(())
}

/// What a cast is decided by: the time, the caster, the latest block hash and
/// the tier.
pub open spec fn seed(now: i64, owner: Pubkey, blockhashes: Seq<u8>, tier: SpellTier) -> Seq<u8> {
    le_bytes(twos_complement(now), 8) + owner@ + blockhashes.subrange(0, BLOCKHASH_LENGTH as int)
        + seq![tier.code()]
}

/// Puts together what a cast is decided by.
pub fn cast_seed(now: i64, owner: &Pubkey, blockhashes: &[u8], tier: SpellTier) -> (r: Vec<u8>)
    requires
        blockhashes@.len() >= BLOCKHASH_LENGTH,
    ensures
        r@ == seed(now, *owner, blockhashes@, tier),
{
    let mut seed_data: Vec<u8> = Vec::new();
    push_i64(&mut seed_data, now);
    push_prefix(&mut seed_data, owner.bytes.as_slice(), 32);
    push_prefix(&mut seed_data, blockhashes, BLOCKHASH_LENGTH);
    push_prefix(&mut seed_data, tier.to_bytes().as_slice(), 1);
    proof {
        assert(owner@.subrange(0, 32) =~= owner@);
        assert(seq![tier.code()].subrange(0, 1) =~= seq![tier.code()]);
    }
    seed_data
}

/// The draw that a digest makes: its first four bytes as a number, modulo a
/// hundred.
pub open spec fn draw(digest: Seq<u8>) -> u32 {
    (le_value(digest.subrange(0, 4)) % DRAWS as nat) as u32
}

/// The draw that a digest makes.
pub fn draw_from(digest: &[u8; 32]) -> (r: u32)
    ensures
        r == draw(digest@),
        r < DRAWS,
{
    first_u32(digest) % DRAWS
}

/// A draw decides for success as often as the tier's rate says.
pub open spec fn succeeds(tier: SpellTier, random_value: u32) -> bool {
    random_value < tier.success_rate()
}

/// The multiplier after a successful cast: the boost is added, up to 2.
pub open spec fn boosted(multiplier: Binary64, tier: SpellTier) -> Binary64 {
    let sum = nearest((multiplier.units() + tier.boost().units()) as int, 1);
    if sum.units() < (Binary64 { bits: TWO_BITS }).units() {
        sum
    } else {
        Binary64 { bits: TWO_BITS }
    }
}

/// A boost never lowers the multiplier and never takes it above 2.
pub proof fn lemma_boosted_bounds(multiplier: Binary64, tier: SpellTier)
    requires
        multiplier_ok(multiplier),
    ensures
        multiplier_ok(boosted(multiplier, tier)),
        multiplier.units() <= boosted(multiplier, tier).units(),
{
    lemma_nearest_exact(multiplier);
    let sum = (multiplier.units() + tier.boost().units()) as int;
    lemma_nearest_exists(sum, 1);
    lemma_nearest_monotonic(multiplier.units() as int, 1, sum, 1);
    lemma_units_ordered(Binary64 { bits: ONE_BITS }, Binary64 { bits: TWO_BITS });
}

/// The multiplier after a successful cast.
pub fn boosted_multiplier(multiplier: Binary64, tier: SpellTier) -> (r: Binary64)
    requires
        multiplier_ok(multiplier),
    ensures
        r == boosted(multiplier, tier),
        multiplier_ok(r),
{
    let two: Binary64 = Binary64 { bits: TWO_BITS };
    proof {
        lemma_boosted_bounds(multiplier, tier);
        lemma_units_ordered(Binary64 { bits: ONE_BITS }, multiplier);
        lemma_units_ordered(multiplier, two);
        lemma_nearest_exists(
            (multiplier.units() + tier.boost().units()) as int,
            1,
        );
    }
    let sum: Binary64 = multiplier.plus(tier.boost());
    proof {
        lemma_units_ordered(sum, two);
    }
    if sum.bits < two.bits {
        sum
    } else {
        two
    }
}

/// Why a cast with this draw is refused, if it is.
pub open spec fn settlement_refusal(
    accounts: CastSpell,
    tier: SpellTier,
    now: i64,
    random_value: u32,
) -> Option<SpellError> {
    match cast_refusal(accounts.user_state, tier, now) {
        Some(error) => Some(error),
        None => {
            if accounts.global_state.total_spells_cast == u64::MAX {
                Some(SpellError::Overflow)
            } else if succeeds(tier, random_value) && accounts.global_state.total_successes
                == u64::MAX {
                Some(SpellError::Overflow)
            } else {
                None
            }
        },
    }
}

/// Runes given back after a failed cast: a tenth of the cost.
pub open spec fn rune_refund(tier: SpellTier) -> u64 {
    tier.rune_cost() / 10
}

/// The user's account after a cast with this draw. Either way the runes and
/// one spellbook are gone; a success boosts the multiplier for ten days, a
/// failure gives back a tenth of the runes.
pub open spec fn settled_user(
    user: UserState,
    tier: SpellTier,
    now: i64,
    random_value: u32,
) -> UserState {
    let paid = UserState {
        runes: (user.runes - tier.rune_cost()) as u64,
        ..user.with_books(tier, (user.books(tier) - 1) as u64)
    };
    if succeeds(tier, random_value) {
        UserState {
            multiplier: boosted(user.multiplier, tier),
            buff_expiry: (now + BUFF_DURATION) as i64,
            active_tier: tier.code(),
            ..paid
        }
    } else {
        UserState { runes: (paid.runes + rune_refund(tier)) as u64, ..paid }
    }
}

/// The program-wide account after a cast with this draw: the cast is counted,
/// and so is its success.
pub open spec fn settled_global(
    global: GlobalState,
    tier: SpellTier,
    random_value: u32,
) -> GlobalState {
    GlobalState {
        total_spells_cast: (global.total_spells_cast + 1) as u64,
        total_successes: if succeeds(tier, random_value) {
            (global.total_successes + 1) as u64
        } else {
            global.total_successes
        },
        ..global
    }
}

/// What is reported of a cast with this draw.
pub open spec fn outcome(
    user: UserState,
    tier: SpellTier,
    now: i64,
    random_value: u32,
) -> CastOutcome {
    if succeeds(tier, random_value) {
        CastOutcome::Success(
            SpellCastSuccess {
                user: user.owner,
                tier: tier.code(),
                multiplier: boosted(user.multiplier, tier),
                expiry: (now + BUFF_DURATION) as i64,
                random_value,
            },
        )
    } else {
        CastOutcome::Failure(
            SpellCastFailure {
                user: user.owner,
                tier: tier.code(),
                rune_refund: rune_refund(tier),
                random_value,
            },
        )
    }
}

/// What a cast with this draw does to the accounts, and what it reports: the
/// refusal, with nothing changed, or the outcome.
pub open spec fn settlement(
    before: CastSpell,
    tier: SpellTier,
    now: i64,
    random_value: u32,
    after: CastSpell,
    r: Result<CastOutcome, SpellError>,
) -> bool {
    match settlement_refusal(before, tier, now, random_value) {
        Some(error) => {
            &&& r == Err::<CastOutcome, SpellError>(error)
            &&& after == before
        },
        None => {
            &&& r == Ok::<CastOutcome, SpellError>(
                outcome(before.user_state, tier, now, random_value),
            )
            &&& after == (CastSpell {
                user_state: settled_user(before.user_state, tier, now, random_value),
                global_state: settled_global(before.global_state, tier, random_value),
                ..before
            })
        },
    }
}

/// Carries out a cast whose draw is known.
pub fn settle_cast(accounts: &mut CastSpell, tier: SpellTier, now: i64, random_value: u32) -> (r:
    Result<CastOutcome, SpellError>)
    requires
        old(accounts).user_state.wf(),
        cast_refusal(old(accounts).user_state, tier, now) is None && old(
            accounts,
        ).global_state.total_spells_cast < u64::MAX && succeeds(tier, random_value) ==> now
            + BUFF_DURATION <= i64::MAX,
    ensures
        settlement(*old(accounts), tier, now, random_value, *final(accounts), r),
        final(accounts).user_state.wf(),
{
    if let Err(error) = check_cast(&accounts.user_state, tier, now) {
        return Err(error);
    }
    let user: UserState = accounts.user_state;
    let global: GlobalState = accounts.global_state;
    let rune_cost: u64 = tier.rune_cost();
    let runes: u64 = match user.runes.checked_sub(rune_cost) {
        Some(runes) => runes,
        None => {
            return Err(SpellError::Underflow);
        },
    };
    let total_spells_cast: u64 = match global.total_spells_cast.checked_add(1) {
        Some(total) => total,
        None => {
            return Err(SpellError::Overflow);
        },
    };
    if random_value < tier.success_rate() {
        let multiplier: Binary64 = boosted_multiplier(user.multiplier, tier);
        let expiry: i64 = now + BUFF_DURATION;
        let total_successes: u64 = match global.total_successes.checked_add(1) {
            Some(total) => total,
            None => {
                return Err(SpellError::Overflow);
            },
        };
        accounts.user_state.runes = runes;
        accounts.user_state.set_books(tier, user.books(tier) - 1);
        accounts.user_state.multiplier = multiplier;
        accounts.user_state.buff_expiry = expiry;
        accounts.user_state.active_tier = tier.code();
        accounts.global_state.total_spells_cast = total_spells_cast;
        accounts.global_state.total_successes = total_successes;
        Ok(
            CastOutcome::Success(
                SpellCastSuccess {
                    user: user.owner,
                    tier: tier.code(),
                    multiplier,
                    expiry,
                    random_value,
                },
            ),
        )
    } else {
        let refund: u64 = rune_cost / 10;
        let refunded: u64 = match runes.checked_add(refund) {
            Some(runes) => runes,
            None => {
                return Err(SpellError::Overflow);
            },
        };
        accounts.user_state.runes = refunded;
        accounts.user_state.set_books(tier, user.books(tier) - 1);
        accounts.global_state.total_spells_cast = total_spells_cast;
        Ok(
            CastOutcome::Failure(
                SpellCastFailure {
                    user: user.owner,
                    tier: tier.code(),
                    rune_refund: refund,
                    random_value,
                },
            ),
        )
    }
}

/// The draw of a cast: what the digest of its seed makes.
pub open spec fn cast_draw(accounts: CastSpell, tier: SpellTier, now: i64) -> u32 {
    draw(
        sha256(
            seed(now, accounts.user_state.owner, accounts.recent_blockhashes@, tier),
        ),
    )
}

/// A cast that is refused needs no block hash, and one that fails needs no
/// expiry; otherwise the first block hash must be there, and the time ten
/// days ahead must fit the type of a time.
pub open spec fn can_decide(accounts: CastSpell, tier: SpellTier, now: i64) -> bool {
    cast_refusal(accounts.user_state, tier, now) is None ==> {
        &&& accounts.recent_blockhashes@.len() >= BLOCKHASH_LENGTH
        &&& accounts.global_state.total_spells_cast < u64::MAX && succeeds(
            tier,
            cast_draw(accounts, tier, now),
        ) ==> now + BUFF_DURATION <= i64::MAX
    }
}

/// Draws for a cast: the digest of the time, the caster, the latest block
/// hash and the tier decides.
fn draw_cast(accounts: &CastSpell, tier: SpellTier, now: i64) -> (r: u32)
    requires
        accounts.recent_blockhashes@.len() >= BLOCKHASH_LENGTH,
    ensures
        r == cast_draw(*accounts, tier, now),
{
    let seed_data: Vec<u8> = cast_seed(
        now,
        &accounts.user_state.owner,
        accounts.recent_blockhashes.as_slice(),
        tier,
    );
    let random_seed: [u8; 32] = hash(seed_data.as_slice());
    draw_from(&random_seed)
}

/// Casts a spell: consumes runes and a spellbook, and lets the draw decide
/// whether the spell takes effect.
pub fn cast_spell(accounts: &mut CastSpell, tier: SpellTier, now: i64) -> (r: Result<
    CastOutcome,
    SpellError,
>)
    requires
        old(accounts).user_state.wf(),
        can_decide(*old(accounts), tier, now),
    ensures
        settlement(
            *old(accounts),
            tier,
            now,
            cast_draw(*old(accounts), tier, now),
            *final(accounts),
            r,
        ),
        final(accounts).user_state.wf(),
{
    if let Err(error) = check_cast(&accounts.user_state, tier, now) {
        return Err(error);
    }
    let random_value: u32 = draw_cast(accounts, tier, now);
    settle_cast(accounts, tier, now, random_value)
}

/// Casts a spell, or gives `None` and changes nothing where the cast cannot
/// be decided: the block hashes are too short, or the expiry would not fit.
pub fn try_cast_spell(accounts: &mut CastSpell, tier: SpellTier, now: i64) -> (r: Option<
    Result<CastOutcome, SpellError>,
>)
    requires
        old(accounts).user_state.wf(),
    ensures
        r is Some <==> can_decide(*old(accounts), tier, now),
        match r {
            Some(result) => settlement(
                *old(accounts),
                tier,
                now,
                cast_draw(*old(accounts), tier, now),
                *final(accounts),
                result,
            ),
            None => *final(accounts) == *old(accounts),
        },
        final(accounts).user_state.wf(),
{
    if let Ok(()) = check_cast(&accounts.user_state, tier, now) {
        if accounts.recent_blockhashes.len() < BLOCKHASH_LENGTH {
            return None;
        }
        if now > i64::MAX - BUFF_DURATION && accounts.global_state.total_spells_cast < u64::MAX
            && draw_cast(accounts, tier, now) < tier.success_rate() {
            return None;
        }
    }
    Some(cast_spell(accounts, tier, now))
}

} // verus!
