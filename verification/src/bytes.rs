//! Little-endian encodings.
use vstd::arithmetic::power::pow;
use vstd::prelude::*;

verus! {

/// The lowest `n` bytes of `v`, the lowest first.
pub open spec fn le_bytes(v: nat, n: nat) -> Seq<u8>
    decreases n,
{
    if n == 0 {
        Seq::empty()
    } else {
        seq![(v % 256) as u8] + le_bytes(v / 256, (n - 1) as nat)
    }
}

/// The number whose bytes are `s`, the lowest first.
pub open spec fn le_value(s: Seq<u8>) -> nat
    decreases s.len(),
{
    if s.len() == 0 {
        0
    } else {
        s[0] as nat + 256 * le_value(s.drop_first())
    }
}

/// The two's complement encoding of a signed number.
pub open spec fn twos_complement(v: i64) -> nat {
    if v >= 0 {
        v as nat
    } else {
        (v + 0x1_0000_0000_0000_0000) as nat
    }
}

/// `n` bytes give back the number that they encode, if it fits them.
pub proof fn lemma_le_bytes(v: nat, n: nat)
    ensures
        le_bytes(v, n).len() == n,
        v < pow(256, n) ==> le_value(le_bytes(v, n)) == v,
    decreases n,
{
    reveal(pow);
    if n > 0 {
        lemma_le_bytes(v / 256, (n - 1) as nat);
        assert(le_bytes(v, n).drop_first() =~= le_bytes(v / 256, (n - 1) as nat));
    }
}

/// Different times have different encodings.
pub proof fn lemma_time_encoding_injective(a: i64, b: i64)
    requires
        le_bytes(twos_complement(a), 8) == le_bytes(twos_complement(b), 8),
    ensures
        a == b,
{
    assert(pow(256, 8) == 0x1_0000_0000_0000_0000) by {
        reveal_with_fuel(pow, 9);
    }
    lemma_le_bytes(twos_complement(a), 8);
    lemma_le_bytes(twos_complement(b), 8);
}

/// The two's complement encoding of a signed number.
fn to_unsigned(v: i64) -> (r: u64)
    ensures
        r == twos_complement(v),
{
    if v >= 0 {
        v as u64
    } else {
        (v as i128 + 0x1_0000_0000_0000_0000) as u64
    }
}

/// Appends the eight bytes of a signed number.
pub(crate) fn push_i64(out: &mut Vec<u8>, v: i64)
    ensures
        final(out)@ == old(out)@ + le_bytes(twos_complement(v), 8),
{
    let mut rest: u64 = to_unsigned(v);
    let mut i: u64 = 0;
    let ghost goal = out@ + le_bytes(rest as nat, 8);
    while i < 8
        invariant
            i <= 8,
            out@ + le_bytes(rest as nat, (8 - i) as nat) =~= goal,
        decreases 8 - i,
    {
        out.push((rest % 256) as u8);
        assert(out@ + le_bytes((rest / 256) as nat, (7 - i) as nat) =~= goal);
        rest = rest / 256;
        i = i + 1;
    }
}

/// Appends a copy of `n` bytes of `from`.
pub(crate) fn push_prefix(out: &mut Vec<u8>, from: &[u8], n: usize)
    requires
        n <= from@.len(),
    ensures
        final(out)@ == old(out)@ + from@.subrange(0, n as int),
{
    let mut i: usize = 0;
    let ghost before = out@;
    while i < n
        invariant
            i <= n <= from@.len(),
            out@ =~= before + from@.subrange(0, i as int),
        decreases n - i,
    {
        out.push(from[i]);
        i = i + 1;
    }
}

/// The number in the first four bytes.
pub(crate) fn first_u32(bytes: &[u8; 32]) -> (r: u32)
    ensures
        r == le_value(bytes@.subrange(0, 4)),
{
    proof {
        reveal_with_fuel(le_value, 5);
        let s = bytes@.subrange(0, 4);
        assert(s.drop_first() =~= bytes@.subrange(1, 4));
        assert(s.drop_first().drop_first() =~= bytes@.subrange(2, 4));
        assert(s.drop_first().drop_first().drop_first() =~= bytes@.subrange(3, 4));
        assert(s.drop_first().drop_first().drop_first().drop_first() =~= Seq::<u8>::empty());
    }
    bytes[0] as u32 + 256 * (bytes[1] as u32) + 0x1_0000 * (bytes[2] as u32) + 0x100_0000 * (
    bytes[3] as u32)
}

} // verus!
