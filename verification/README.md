# alchemy_spells

The rules of the Alchemy spell system: users burn ALCH for runes, pay SOL for
spellbooks, and spend both on spells that may boost their multiplier for ten
days.

`src/` is the library, written in Verus. Every function says in its contract
what it returns and what it changes; `src/laws.rs` states and proves what holds
of the system as a whole. Prices and multipliers are doubles, held by their bit
patterns; `src/binary64.rs` carries out the arithmetic on them with integers and
proves it correctly rounded. `src/chain.rs` holds the two calls into the Solana
program library that the rules rest on.

`app/` is the Anchor program: it reads accounts and the clock, moves tokens and
SOL, and hands plain values to the library.
