//! What the program's accounts hold.
use crate::binary64::Binary64;
use crate::key::Pubkey;
use crate::tier::SpellTier;
use vstd::prelude::*;

verus! {

/// The double `1.0`, the multiplier of a user who has cast nothing yet.
pub const ONE_BITS: u64 = 0x3FF0_0000_0000_0000;

/// The double `2.0`, the largest multiplier.
pub const TWO_BITS: u64 = 0x4000_0000_0000_0000;

/// The double `0.0001`, the lowest ALCH price in USD.
pub const ALCH_PRICE_MIN_BITS: u64 = 0x3F1A_36E2_EB1C_432D;

/// The double `1.0`, the highest ALCH price in USD.
pub const ALCH_PRICE_MAX_BITS: u64 = 0x3FF0_0000_0000_0000;

/// The double `50.0`, the lowest SOL price in USD.
pub const SOL_PRICE_MIN_BITS: u64 = 0x4049_0000_0000_0000;

/// The double `500.0`, the highest SOL price in USD.
pub const SOL_PRICE_MAX_BITS: u64 = 0x407F_4000_0000_0000;

/// The program-wide account.
#[derive(Clone, Copy, Debug, PartialEq, Eq)]
pub struct GlobalState {
    pub authority: Pubkey,
    pub treasury: Pubkey,
    pub alch_mint: Pubkey,
    pub total_alch_burned: u64,
    pub total_sol_collected: u64,
    pub total_spells_cast: u64,
    pub total_successes: u64,
    pub bump: u8,
}

impl GlobalState {
    /// No more casts have succeeded than were made.
    pub open spec fn wf(self) -> bool {
        self.total_successes <= self.total_spells_cast
    }
}

/// An ALCH price that may be published: from 0.0001 to 1 USD.
pub open spec fn alch_price_ok(price: Binary64) -> bool {
    price.lies_within(
        Binary64 { bits: ALCH_PRICE_MIN_BITS },
        Binary64 { bits: ALCH_PRICE_MAX_BITS },
    )
}

/// A SOL price that may be published: from 50 to 500 USD.
pub open spec fn sol_price_ok(price: Binary64) -> bool {
    price.lies_within(
        Binary64 { bits: SOL_PRICE_MIN_BITS },
        Binary64 { bits: SOL_PRICE_MAX_BITS },
    )
}

/// The published prices.
#[derive(Clone, Copy, Debug, PartialEq, Eq)]
pub struct PricingState {
    pub alch_price_usd: Binary64,
    pub sol_price_usd: Binary64,
    pub last_update: i64,
}

impl PricingState {
    /// Prices were published, and lie within their limits.
    pub open spec fn is_published(self) -> bool {
        alch_price_ok(self.alch_price_usd) && sol_price_ok(self.sol_price_usd)
    }

    /// The account is as it was created: both prices are zero.
    pub open spec fn is_unset(self) -> bool {
        self.alch_price_usd.bits == 0 && self.sol_price_usd.bits == 0
    }

    pub open spec fn wf(self) -> bool {
        self.is_published() || self.is_unset()
    }

    /// Decides whether the prices are valid: published ones, or none yet.
    pub fn is_valid(&self) -> (r: bool)
        ensures
            r == self.wf(),
    {
        (self.alch_price_usd.bits == 0 && self.sol_price_usd.bits == 0) || (is_alch_price(
            self.alch_price_usd,
        ) && is_sol_price(self.sol_price_usd))
    }
}

impl Default for PricingState {
    /// A newly created account, in which every byte is zero.
    fn default() -> (r: PricingState)
        ensures
            r.is_unset(),
            r.last_update == 0,
    {
        PricingState {
            alch_price_usd: Binary64 { bits: 0 },
            sol_price_usd: Binary64 { bits: 0 },
            last_update: 0,
        }
    }
}

/// Decides whether an ALCH price may be published.
pub(crate) fn is_alch_price(price: Binary64) -> (r: bool)
    ensures
        r == alch_price_ok(price),
{
    price.is_within(
        Binary64 { bits: ALCH_PRICE_MIN_BITS },
        Binary64 { bits: ALCH_PRICE_MAX_BITS },
    )
}

/// Decides whether a SOL price may be published.
pub(crate) fn is_sol_price(price: Binary64) -> (r: bool)
    ensures
        r == sol_price_ok(price),
{
    price.is_within(Binary64 { bits: SOL_PRICE_MIN_BITS }, Binary64 { bits: SOL_PRICE_MAX_BITS })
}

/// A multiplier that a user can have: from 1 to 2.
pub open spec fn multiplier_ok(multiplier: Binary64) -> bool {
    multiplier.lies_within(Binary64 { bits: ONE_BITS }, Binary64 { bits: TWO_BITS })
}

/// A user's account.
#[derive(Clone, Copy, Debug, PartialEq, Eq)]
pub struct UserState {
    pub owner: Pubkey,
    pub runes: u64,
    pub novice_books: u64,
    pub adept_books: u64,
    pub master_books: u64,
    pub legendary_books: u64,
    pub multiplier: Binary64,
    pub buff_expiry: i64,
    pub active_tier: u8,
    pub bump: u8,
}

impl UserState {
    /// The multiplier lies between 1 and 2.
    pub open spec fn wf(self) -> bool {
        multiplier_ok(self.multiplier)
    }

    /// Decides whether the multiplier is valid.
    pub fn is_valid(&self) -> (r: bool)
        ensures
            r == self.wf(),
    {
        self.multiplier.is_within(Binary64 { bits: ONE_BITS }, Binary64 { bits: TWO_BITS })
    }

    pub open spec fn spec_books(&self, tier: SpellTier) -> u64 {
        match tier {
            SpellTier::Novice => self.novice_books,
            SpellTier::Adept => self.adept_books,
            SpellTier::Master => self.master_books,
            SpellTier::Legendary => self.legendary_books,
        }
    }

    /// Spellbooks of one tier that the user holds.
    #[verifier::when_used_as_spec(spec_books)]
    pub fn books(&self, tier: SpellTier) -> (r: u64)
        ensures
            r == self.books(tier),
    {
        match tier {
            SpellTier::Novice => self.novice_books,
            SpellTier::Adept => self.adept_books,
            SpellTier::Master => self.master_books,
            SpellTier::Legendary => self.legendary_books,
        }
    }

    /// This account with another number of spellbooks of one tier.
    pub open spec fn with_books(self, tier: SpellTier, books: u64) -> UserState {
        match tier {
            SpellTier::Novice => UserState { novice_books: books, ..self },
            SpellTier::Adept => UserState { adept_books: books, ..self },
            SpellTier::Master => UserState { master_books: books, ..self },
            SpellTier::Legendary => UserState { legendary_books: books, ..self },
        }
    }

    pub(crate) fn set_books(&mut self, tier: SpellTier, books: u64)
        ensures
            *final(self) == old(self).with_books(tier, books),
    {
        match tier {
            SpellTier::Novice => { self.novice_books = books; },
            SpellTier::Adept => { self.adept_books = books; },
            SpellTier::Master => { self.master_books = books; },
            SpellTier::Legendary => { self.legendary_books = books; },
        }
    }
}

} // verus!
