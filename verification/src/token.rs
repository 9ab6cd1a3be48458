//! The instructions for the token ledger through which rewards are issued.

use crate::account::{AccountMeta, AccountMetaView, Instruction, InstructionView};
use crate::address::{rent_sysvar_bytes, token_program_bytes, Address};
use crate::wire::{from_le_u64, le_u64};
use solana_program::pubkey::Pubkey;
use vstd::prelude::*;

verus! {

/// The number of decimal places of the reward token.
pub const REWARD_DECIMALS: u8 = 9;

/// The number of base units in one reward token.
pub const BASE_UNITS_PER_TOKEN: u64 = 1_000_000_000;

/// The number of reward tokens issued for a new introduction.
pub const INTRO_REWARD_TOKENS: u64 = 10;

/// The number of reward tokens issued for a reply.
pub const REPLY_REWARD_TOKENS: u64 = 5;

/// The number of bytes that the mint of the reward token takes in its slot.
pub const MINT_SIZE: u64 = 82;

/// The instruction that has the token program issue `amount` base units of
/// `mint` to `destination` on the authority of `authority` alone.
pub open spec fn mint_to_instruction(
    mint: Seq<u8>,
    destination: Seq<u8>,
    authority: Seq<u8>,
    amount: u64,
) -> InstructionView {
    InstructionView {
        program_id: token_program_bytes(),
        accounts: seq![
            AccountMetaView { pubkey: mint, is_signer: false, is_writable: true },
            AccountMetaView { pubkey: destination, is_signer: false, is_writable: true },
            AccountMetaView { pubkey: authority, is_signer: true, is_writable: false },
        ],
        data: seq![7u8] + le_u64(amount),
    }
}

/// The instruction that has the token program set up `mint` with `decimals`
/// decimal places, `authority` as the only one who may issue, and nobody who
/// may freeze.
pub open spec fn initialize_mint_instruction(
    mint: Seq<u8>,
    authority: Seq<u8>,
    decimals: u8,
) -> InstructionView {
    InstructionView {
        program_id: token_program_bytes(),
        accounts: seq![
            AccountMetaView { pubkey: mint, is_signer: false, is_writable: true },
            AccountMetaView { pubkey: rent_sysvar_bytes(), is_signer: false, is_writable: false },
        ],
        data: seq![0u8, decimals] + authority + seq![0u8],
    }
}

/// The number of base units that `instruction` has the token program issue:
/// the amount of an instruction to issue, and nothing for any other.
pub open spec fn issued_by(instruction: InstructionView) -> nat {
    if instruction.program_id == token_program_bytes() && instruction.data.len() == 9
        && instruction.data[0] == 7 {
        from_le_u64(instruction.data.skip(1)) as nat
    } else {
        0
    }
}

/// Calls `spl_token::instruction::mint_to` with no further signers. It fails
/// unless `token_program` is the token program's own address; else it names
/// the mint and the destination as writable, the authority as the signer, and
/// packs the tag 7 and the amount as eight little-endian bytes.
#[verifier::external_body]
pub(crate) fn mint_to(
    token_program: &Address,
    mint: &Address,
    destination: &Address,
    authority: &Address,
    amount: u64,
) -> (r: Option<Instruction>)
    ensures
        r.is_some() == (token_program@ == token_program_bytes()),
        r matches Some(i) ==> i@ == mint_to_instruction(mint@, destination@, authority@, amount),
{
    let key = |a: &Address| Pubkey::new_from_array(a.bytes);
    let (program, mint, to, by) = (key(token_program), key(mint), key(destination), key(authority));
    let made = spl_token::instruction::mint_to(&program, &mint, &to, &by, &[], amount).ok()?;
    let meta = |m: &solana_program::instruction::AccountMeta| AccountMeta {
        pubkey: Address { bytes: m.pubkey.to_bytes() },
        is_signer: m.is_signer,
        is_writable: m.is_writable,
    };
    let accounts = made.accounts.iter().map(meta).collect();
    Some(Instruction { program_id: Address { bytes: made.program_id.to_bytes() }, accounts, data: made.data })
}

/// Calls `spl_token::instruction::initialize_mint` with no freeze authority.
/// It fails unless `token_program` is the token program's own address; else it
/// names the mint as writable and the rent sysvar, and packs the tag 0, the
/// decimals, the authority and a 0 for the absent freeze authority.
#[verifier::external_body]
pub(crate) fn initialize_mint(
    token_program: &Address,
    mint: &Address,
    authority: &Address,
    decimals: u8,
) -> (r: Option<Instruction>)
    ensures
        r.is_some() == (token_program@ == token_program_bytes()),
        r matches Some(i) ==> i@ == initialize_mint_instruction(mint@, authority@, decimals),
{
    let key = |a: &Address| Pubkey::new_from_array(a.bytes);
    let (program, mint, by) = (key(token_program), key(mint), key(authority));
    let made = spl_token::instruction::initialize_mint(&program, &mint, &by, None, decimals).ok()?;
    let meta = |m: &solana_program::instruction::AccountMeta| AccountMeta {
        pubkey: Address { bytes: m.pubkey.to_bytes() },
        is_signer: m.is_signer,
        is_writable: m.is_writable,
    };
    let accounts = made.accounts.iter().map(meta).collect();
    Some(Instruction { program_id: Address { bytes: made.program_id.to_bytes() }, accounts, data: made.data })
}

} // verus!
