//! The storage slots that an operation is handed, and what an operation asks
//! of the host in return.

use crate::address::{seeds_view, Address};
use vstd::prelude::*;

verus! {

/// A storage slot as an operation sees it: where it lies, whether its key has
/// signed the operation, the program that owns it and the bytes it holds. A
/// slot that holds no bytes has not been allocated yet.
#[derive(Clone, Debug, PartialEq, Eq)]
pub struct Account {
    pub key: Address,
    pub is_signer: bool,
    pub owner: Address,
    pub data: Vec<u8>,
}

/// What an `Account` holds.
pub struct AccountView {
    pub key: Seq<u8>,
    pub is_signer: bool,
    pub owner: Seq<u8>,
    pub data: Seq<u8>,
}

impl View for Account {
    type V = AccountView;

    open spec fn view(&self) -> AccountView {
        AccountView {
            key: self.key@,
            is_signer: self.is_signer,
            owner: self.owner@,
            data: self.data@,
        }
    }
}

/// What a list of slots holds.
pub open spec fn accounts_view(accounts: Seq<Account>) -> Seq<AccountView> {
    accounts.map_values(|a: Account| a@)
}

/// A slot that an instruction for another program names.
#[derive(Clone, Copy, Debug, PartialEq, Eq)]
pub struct AccountMeta {
    pub pubkey: Address,
    pub is_signer: bool,
    pub is_writable: bool,
}

/// What an `AccountMeta` holds.
pub struct AccountMetaView {
    pub pubkey: Seq<u8>,
    pub is_signer: bool,
    pub is_writable: bool,
}

impl View for AccountMeta {
    type V = AccountMetaView;

    open spec fn view(&self) -> AccountMetaView {
        AccountMetaView {
            pubkey: self.pubkey@,
            is_signer: self.is_signer,
            is_writable: self.is_writable,
        }
    }
}

/// An instruction for another program.
#[derive(Clone, Debug, PartialEq, Eq)]
pub struct Instruction {
    pub program_id: Address,
    pub accounts: Vec<AccountMeta>,
    pub data: Vec<u8>,
}

/// What an `Instruction` holds.
pub struct InstructionView {
    pub program_id: Seq<u8>,
    pub accounts: Seq<AccountMetaView>,
    pub data: Seq<u8>,
}

impl View for Instruction {
    type V = InstructionView;

    open spec fn view(&self) -> InstructionView {
        InstructionView {
            program_id: self.program_id@,
            accounts: self.accounts@.map_values(|m: AccountMeta| m@),
            data: self.data@,
        }
    }
}

/// A slot that the host is to allocate: `space` zero bytes at `slot`, owned by
/// `owner`, paid for by `payer` and signed for with the seeds of the slot.
#[derive(Clone, Debug, PartialEq, Eq)]
pub struct Allocation {
    pub payer: Address,
    pub slot: Address,
    pub space: u64,
    pub owner: Address,
    pub signer_seeds: Vec<Vec<u8>>,
}

/// What an `Allocation` holds.
pub struct AllocationView {
    pub payer: Seq<u8>,
    pub slot: Seq<u8>,
    pub space: u64,
    pub owner: Seq<u8>,
    pub signer_seeds: Seq<Seq<u8>>,
}

impl View for Allocation {
    type V = AllocationView;

    open spec fn view(&self) -> AllocationView {
        AllocationView {
            payer: self.payer@,
            slot: self.slot@,
            space: self.space,
            owner: self.owner@,
            signer_seeds: seeds_view(self.signer_seeds@),
        }
    }
}

/// An instruction that the host is to pass on, signed for with the seeds of a
/// derived address.
#[derive(Clone, Debug, PartialEq, Eq)]
pub struct Invocation {
    pub instruction: Instruction,
    pub signer_seeds: Vec<Vec<u8>>,
}

/// What an `Invocation` holds.
pub struct InvocationView {
    pub instruction: InstructionView,
    pub signer_seeds: Seq<Seq<u8>>,
}

impl View for Invocation {
    type V = InvocationView;

    open spec fn view(&self) -> InvocationView {
        InvocationView {
            instruction: self.instruction@,
            signer_seeds: seeds_view(self.signer_seeds@),
        }
    }
}

/// What a successful operation asks of the host: the slots to allocate, in
/// order, and then the instructions to pass on, in order. The operation has
/// already written to its slots what they hold once the host has done so.
#[derive(Clone, Debug, PartialEq, Eq)]
pub struct Effects {
    pub allocations: Vec<Allocation>,
    pub invocations: Vec<Invocation>,
}

/// What an `Effects` holds.
pub struct EffectsView {
    pub allocations: Seq<AllocationView>,
    pub invocations: Seq<InvocationView>,
}

impl View for Effects {
    type V = EffectsView;

    open spec fn view(&self) -> EffectsView {
        EffectsView {
            allocations: self.allocations@.map_values(|a: Allocation| a@),
            invocations: self.invocations@.map_values(|i: Invocation| i@),
        }
    }
}

} // verus!
