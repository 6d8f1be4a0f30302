//! Reasons for which an instruction is refused.
use vstd::prelude::*;

verus! {

/// Why an instruction was refused.
#[derive(Clone, Copy, Debug, PartialEq, Eq, Structural)]
pub enum SpellError {
    Unauthorized,
    InvalidAmount,
    InvalidPrice,
    StalePrices,
    InsufficientRunes,
    InsufficientBooks,
    BuffActive,
    Overflow,
    Underflow,
}

impl SpellError {
    pub open spec fn spec_message(&self) -> &'static str {
        match self {
            SpellError::Unauthorized => "Unauthorized",
            SpellError::InvalidAmount => "Invalid amount",
            SpellError::InvalidPrice => "Invalid price",
            SpellError::StalePrices => "Prices are stale",
            SpellError::InsufficientRunes => "Insufficient runes",
            SpellError::InsufficientBooks => "Insufficient spellbooks",
            SpellError::BuffActive => "Buff already active",
            SpellError::Overflow => "Arithmetic overflow",
            SpellError::Underflow => "Arithmetic underflow",
        }
    }

    /// The message shown to the caller.
    #[verifier::when_used_as_spec(spec_message)]
    pub fn message(&self) -> (r: &'static str)
        ensures
            r@ == self.message()@,
    {
        match self {
            SpellError::Unauthorized => "Unauthorized",
            SpellError::InvalidAmount => "Invalid amount",
            SpellError::InvalidPrice => "Invalid price",
            SpellError::StalePrices => "Prices are stale",
            SpellError::InsufficientRunes => "Insufficient runes",
            SpellError::InsufficientBooks => "Insufficient spellbooks",
            SpellError::BuffActive => "Buff already active",
            SpellError::Overflow => "Arithmetic overflow",
            SpellError::Underflow => "Arithmetic underflow",
        }
    }
}

} // verus!
