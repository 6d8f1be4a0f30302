//! Calls into the Solana program library.
use crate::bytes::le_bytes;
use crate::key::Pubkey;
use anchor_lang::solana_program;
use vstd::prelude::*;

verus! {

/// The SHA-256 digest of `data`.
pub uninterp spec fn sha256(data: Seq<u8>) -> Seq<u8>;

/// Calls `solana_program::hash::hash`. Claimed of it: the result is the
/// SHA-256 digest of the bytes handed over, and nothing else decides it.
#[verifier::external_body]
pub(crate) fn hash(data: &[u8]) -> (r: [u8; 32])
    ensures
        r@ == sha256(data@),
{
    solana_program::hash::hash(data).to_bytes()
}

/// An account that an instruction names, and what the instruction may do
/// with it.
#[derive(Clone, Copy, Debug, PartialEq, Eq)]
pub struct AccountMeta {
    pub pubkey: Pubkey,
    pub is_signer: bool,
    pub is_writable: bool,
}

/// An instruction of the system program.
#[derive(Debug, PartialEq, Eq)]
pub struct SystemInstruction {
    pub program_id: Pubkey,
    pub accounts: Vec<AccountMeta>,
    pub data: Vec<u8>,
}

impl SystemInstruction {
    /// This moves `lamports` from the account `from`, which has to sign, to
    /// the account `to`.
    pub open spec fn is_transfer(self, from: Pubkey, to: Pubkey, lamports: u64) -> bool {
        &&& self.program_id@ == Seq::new(32, |i: int| 0u8)
        &&& self.accounts@ == seq![
            AccountMeta { pubkey: from, is_signer: true, is_writable: true },
            AccountMeta { pubkey: to, is_signer: false, is_writable: true },
        ]
        &&& self.data@ == le_bytes(2, 4) + le_bytes(lamports as nat, 8)
    }
}

/// Calls `solana_program::system_instruction::transfer`. Claimed of it: the
/// instruction is for the system program, whose address is all zeros; it
/// names the payer, who signs, and the payee, both writable; and its data is
/// the number 2 of the variant `Transfer` in four bytes and the lamports in
/// eight, as `bincode` writes them.
#[verifier::external_body]
#[allow(deprecated)]
pub(crate) fn transfer(from: &Pubkey, to: &Pubkey, lamports: u64) -> (r: SystemInstruction)
    ensures
        r.is_transfer(*from, *to, lamports),
{
    let from = solana_program::pubkey::Pubkey::new_from_array(from.bytes);
    let to = solana_program::pubkey::Pubkey::new_from_array(to.bytes);
    let instruction = solana_program::system_instruction::transfer(&from, &to, lamports);
    let meta = |m: &solana_program::instruction::AccountMeta| AccountMeta {
        pubkey: Pubkey { bytes: m.pubkey.to_bytes() },
        is_signer: m.is_signer,
        is_writable: m.is_writable,
    };
    SystemInstruction {
        program_id: Pubkey { bytes: instruction.program_id.to_bytes() },
        accounts: instruction.accounts.iter().map(meta).collect(),
        data: instruction.data,
    }
}

} // verus!
