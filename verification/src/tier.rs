//! Spell tiers and what each of them costs and gives.
use crate::binary64::Binary64;
use vstd::prelude::*;

verus! {

/// The tiers of spells, from the cheapest to the dearest.
#[derive(Clone, Copy, Debug, PartialEq, Eq, Structural)]
pub enum SpellTier {
    Novice,
    Adept,
    Master,
    Legendary,
}

/// The double `0.10`.
pub const BOOST_NOVICE_BITS: u64 = 0x3FB9_9999_9999_999A;

/// The double `0.25`.
pub const BOOST_ADEPT_BITS: u64 = 0x3FD0_0000_0000_0000;

/// The double `0.50`.
pub const BOOST_MASTER_BITS: u64 = 0x3FE0_0000_0000_0000;

/// The double `1.00`.
pub const BOOST_LEGENDARY_BITS: u64 = 0x3FF0_0000_0000_0000;

impl SpellTier {
    pub open spec fn spec_code(&self) -> u8 {
        match self {
            SpellTier::Novice => 0,
            SpellTier::Adept => 1,
            SpellTier::Master => 2,
            SpellTier::Legendary => 3,
        }
    }

    /// The tier's number, by which events and accounts record it.
    #[verifier::when_used_as_spec(spec_code)]
    pub fn code(&self) -> (r: u8)
        ensures
            r == self.code(),
    {
        match self {
            SpellTier::Novice => 0,
            SpellTier::Adept => 1,
            SpellTier::Master => 2,
            SpellTier::Legendary => 3,
        }
    }

    /// The tier's number as one byte.
    pub fn to_bytes(&self) -> (r: [u8; 1])
        ensures
            r@ == seq![self.code()],
    {
        [self.code()]
    }

    pub open spec fn spec_rune_cost(&self) -> u64 {
        match self {
            SpellTier::Novice => 10_000_000_000,
            SpellTier::Adept => 20_000_000_000,
            SpellTier::Master => 50_000_000_000,
            SpellTier::Legendary => 100_000_000_000,
        }
    }

    /// Runes that a cast consumes, with six decimals.
    #[verifier::when_used_as_spec(spec_rune_cost)]
    pub fn rune_cost(&self) -> (r: u64)
        ensures
            r == self.rune_cost(),
    {
        match self {
            SpellTier::Novice => 10_000_000_000,
            SpellTier::Adept => 20_000_000_000,
            SpellTier::Master => 50_000_000_000,
            SpellTier::Legendary => 100_000_000_000,
        }
    }

    pub open spec fn spec_success_rate(&self) -> u32 {
        match self {
            SpellTier::Novice => 70,
            SpellTier::Adept => 50,
            SpellTier::Master => 35,
            SpellTier::Legendary => 20,
        }
    }

    /// Casts out of a hundred that succeed.
    #[verifier::when_used_as_spec(spec_success_rate)]
    pub fn success_rate(&self) -> (r: u32)
        ensures
            r == self.success_rate(),
    {
        match self {
            SpellTier::Novice => 70,
            SpellTier::Adept => 50,
            SpellTier::Master => 35,
            SpellTier::Legendary => 20,
        }
    }

    pub open spec fn spec_boost(&self) -> Binary64 {
        match self {
            SpellTier::Novice => Binary64 { bits: BOOST_NOVICE_BITS },
            SpellTier::Adept => Binary64 { bits: BOOST_ADEPT_BITS },
            SpellTier::Master => Binary64 { bits: BOOST_MASTER_BITS },
            SpellTier::Legendary => Binary64 { bits: BOOST_LEGENDARY_BITS },
        }
    }

    /// What a successful cast adds to the multiplier.
    #[verifier::when_used_as_spec(spec_boost)]
    pub fn boost(&self) -> (r: Binary64)
        ensures
            r == self.boost(),
    {
        match self {
            SpellTier::Novice => Binary64 { bits: BOOST_NOVICE_BITS },
            SpellTier::Adept => Binary64 { bits: BOOST_ADEPT_BITS },
            SpellTier::Master => Binary64 { bits: BOOST_MASTER_BITS },
            SpellTier::Legendary => Binary64 { bits: BOOST_LEGENDARY_BITS },
        }
    }

    pub open spec fn spec_alch_equivalent(&self) -> u64 {
        match self {
            SpellTier::Novice => 7_500,
            SpellTier::Adept => 15_000,
            SpellTier::Master => 37_500,
            SpellTier::Legendary => 75_000,
        }
    }

    /// What a spellbook is worth, in whole ALCH.
    #[verifier::when_used_as_spec(spec_alch_equivalent)]
    pub fn alch_equivalent(&self) -> (r: u64)
        ensures
            r == self.alch_equivalent(),
    {
        match self {
            SpellTier::Novice => 7_500,
            SpellTier::Adept => 15_000,
            SpellTier::Master => 37_500,
            SpellTier::Legendary => 75_000,
        }
    }
}

} // verus!
