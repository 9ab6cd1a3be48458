//! The four operations of the ledger: each checks the references it is
//! handed, writes to its slots what they hold afterwards, and returns what it
//! asks of the host.
//!
//! An operation is one unit: it either succeeds, or fails and leaves every
//! slot as it was. It takes the slots that it is handed to be distinct, and
//! it holds each of them against the address that its place in the list
//! requires before it reads or writes any of them.

use crate::account::{
    accounts_view, Account, AccountView, Allocation, AllocationView, Effects, EffectsView,
    Invocation, InvocationView,
};
use crate::address::{
    associated_token_address, get_associated_token_address, rent_sysvar_bytes, rent_sysvar_id,
    seeds_view, system_program_bytes, system_program_id, token_program_bytes, token_program_id,
    Address,
};
use crate::error::{custom, IntroError, ProgramError};
use crate::instruction::{unpack_spec, StudentInstruction, StudentInstructionView};
use crate::state::{
    counter_bytes, counter_tag, intro_bytes, intro_tag, lemma_tag_lengths, parse_counter,
    parse_intro, parse_reply, reply_bytes, reply_tag, ReplyCount, ReplyCountView,
    StudentIntroState, StudentIntroView, StudentReplyState, StudentReplyView,
};
use crate::token::{
    initialize_mint, initialize_mint_instruction, mint_to, mint_to_instruction,
    BASE_UNITS_PER_TOKEN, INTRO_REWARD_TOKENS, MINT_SIZE, REPLY_REWARD_TOKENS, REWARD_DECIMALS,
};
use crate::validation::{
    authority_seeds, counter_seeds, intro_seeds, is_derived, mint_seeds, reply_seeds, salt_of,
    seeds_of_authority, seeds_of_counter, seeds_of_intro, seeds_of_mint, seeds_of_reply,
    seeds_with_salt, verify_derived, verify_known, with_salt,
};
use crate::wire::{lemma_parse_string_layout, parse_string, zeros};
use vstd::prelude::*;
use vstd::slice::slice_to_vec;

verus! {

/// The number of bytes that the slot of an introduction or of a reply holds.
pub const RECORD_CAPACITY: usize = 1000;

/// Whether a slot has been allocated: whether it holds any bytes.
pub open spec fn allocated(slot: AccountView) -> bool {
    slot.data.len() > 0
}

/// The bytes that a slot holds once it is allocated: its own where it was
/// allocated before, and `capacity` zero bytes where it was not.
pub open spec fn slot_bytes(slot: AccountView, capacity: nat) -> Seq<u8> {
    if allocated(slot) {
        slot.data
    } else {
        zeros(capacity)
    }
}

/// The bytes of a slot after a record has been written at its start.
pub open spec fn overwritten(data: Seq<u8>, record: Seq<u8>) -> Seq<u8> {
    record + data.skip(record.len() as int)
}

/// The slot after it has been given to `owner` with `data` in it.
pub open spec fn rewritten(slot: AccountView, owner: Seq<u8>, data: Seq<u8>) -> AccountView {
    AccountView { key: slot.key, is_signer: slot.is_signer, owner, data }
}

/// What is asked of the host for a slot: nothing where it is allocated
/// already, and else that it be allocated.
pub open spec fn allocation_for(
    slot: AccountView,
    payer: Seq<u8>,
    space: u64,
    owner: Seq<u8>,
    signer_seeds: Seq<Seq<u8>>,
) -> Seq<AllocationView> {
    if allocated(slot) {
        seq![]
    } else {
        seq![AllocationView { payer, slot: slot.key, space, owner, signer_seeds }]
    }
}

/// The issuance of `tokens` reward tokens to `wallet`, on the authority of
/// the address that `program` derives for it.
pub open spec fn reward(
    program: Seq<u8>,
    mint: Seq<u8>,
    wallet: Seq<u8>,
    authority: Seq<u8>,
    tokens: u64,
) -> InvocationView {
    InvocationView {
        instruction: mint_to_instruction(
            mint,
            wallet,
            authority,
            (tokens * BASE_UNITS_PER_TOKEN) as u64,
        ),
        signer_seeds: with_salt(authority_seeds(), salt_of(authority_seeds(), program)),
    }
}

/// The introduction that `writer` publishes.
pub open spec fn new_intro(writer: Seq<u8>, name: Seq<char>, message: Seq<char>) -> StudentIntroView {
    StudentIntroView { discriminator: intro_tag(), is_initialized: true, writer, name, message }
}

/// A reply counter that has counted `counter` replies.
pub open spec fn new_counter(counter: u64) -> ReplyCountView {
    ReplyCountView { discriminator: counter_tag(), is_initialized: true, counter }
}

/// The bytes of a slot in which a record may be created, where `flag` is the
/// mark of the record that `slot_bytes` holds, if any: the slot is not
/// allocated yet or is this program's own, a record is laid out in it, and
/// that record is not initialized.
pub open spec fn blank_slot(
    program: Seq<u8>,
    slot: AccountView,
    capacity: nat,
    flag: Option<bool>,
) -> Result<Seq<u8>, ProgramError> {
    if allocated(slot) && slot.owner != program {
        Err(ProgramError::IllegalOwner)
    } else if flag.is_none() {
        Err(ProgramError::InvalidAccountData)
    } else if flag.unwrap() {
        Err(ProgramError::AccountAlreadyInitialized)
    } else {
        Ok(slot_bytes(slot, capacity))
    }
}

/// The mark of the introduction laid out in `data`, if any.
pub open spec fn intro_flag(data: Seq<u8>) -> Option<bool> {
    match parse_intro(data) {
        Some(r) => Some(r.is_initialized),
        None => None,
    }
}

/// The mark of the reply laid out in `data`, if any.
pub open spec fn reply_flag(data: Seq<u8>) -> Option<bool> {
    match parse_reply(data) {
        Some(r) => Some(r.is_initialized),
        None => None,
    }
}

/// The mark of the reply counter laid out in `data`, if any.
pub open spec fn counter_flag(data: Seq<u8>) -> Option<bool> {
    match parse_counter(data) {
        Some(r) => Some(r.is_initialized),
        None => None,
    }
}

/// The bytes of a slot in which an introduction may be created.
pub open spec fn blank_intro(program: Seq<u8>, slot: AccountView) -> Result<Seq<u8>, ProgramError> {
    let capacity = RECORD_CAPACITY as nat;
    blank_slot(program, slot, capacity, intro_flag(slot_bytes(slot, capacity)))
}

/// The bytes of a slot in which a reply may be created.
pub open spec fn blank_reply(program: Seq<u8>, slot: AccountView) -> Result<Seq<u8>, ProgramError> {
    let capacity = RECORD_CAPACITY as nat;
    blank_slot(program, slot, capacity, reply_flag(slot_bytes(slot, capacity)))
}

/// The bytes of a slot in which a reply counter may be created.
pub open spec fn blank_counter(program: Seq<u8>, slot: AccountView) -> Result<
    Seq<u8>,
    ProgramError,
> {
    let capacity = ReplyCount::SIZE as nat;
    blank_slot(program, slot, capacity, counter_flag(slot_bytes(slot, capacity)))
}

/// The reply counter that a slot holds, where it is this program's own and
/// holds an initialized one.
pub open spec fn active_counter(program: Seq<u8>, slot: AccountView) -> Result<
    ReplyCountView,
    ProgramError,
> {
    if slot.owner != program {
        Err(ProgramError::IllegalOwner)
    } else if !allocated(slot) {
        Err(custom(IntroError::UninitializedAccount))
    } else {
        match parse_counter(slot.data) {
            None => Err(ProgramError::InvalidAccountData),
            Some(c) => if c.is_initialized {
                Ok(c)
            } else {
                Err(custom(IntroError::UninitializedAccount))
            },
        }
    }
}

/// Whether the references through which a reward is issued to `actor` are
/// the ones they have to be: the mint and the authority over it are the
/// addresses that `program` derives for them, `wallet` is the token account
/// associated with the actor for the mint, and the allocator and the token
/// program are the well-known ones.
pub open spec fn reward_references_hold(
    program: Seq<u8>,
    actor: Seq<u8>,
    mint: Seq<u8>,
    authority: Seq<u8>,
    wallet: Seq<u8>,
    allocator: Seq<u8>,
    token_program: Seq<u8>,
) -> bool {
    &&& is_derived(mint, mint_seeds(), program)
    &&& is_derived(authority, authority_seeds(), program)
    &&& associated_token_address(actor, mint) == Some(wallet)
    &&& token_program == token_program_bytes()
    &&& allocator == system_program_bytes()
}

/// The first fault in the references of a new
/// introduction: the actor, the slots of the introduction and of its reply
/// counter, and the references through which the reward is issued, in this
/// order.
pub open spec fn student_intro_reference_fault(program: Seq<u8>, accounts: Seq<AccountView>) -> Option<
    ProgramError,
> {
    if accounts.len() < 8 {
        Some(ProgramError::NotEnoughAccountKeys)
    } else if !accounts[0].is_signer {
        Some(ProgramError::MissingRequiredSignature)
    } else if !is_derived(accounts[1].key, intro_seeds(accounts[0].key), program) {
        Some(custom(IntroError::InvalidPDA))
    } else if !is_derived(accounts[2].key, counter_seeds(accounts[1].key), program) {
        Some(custom(IntroError::InvalidPDA))
    } else if !reward_references_hold(
        program,
        accounts[0].key,
        accounts[3].key,
        accounts[4].key,
        accounts[5].key,
        accounts[6].key,
        accounts[7].key,
    ) {
        Some(custom(IntroError::IncorrectAccountError))
    } else {
        None
    }
}

/// What the creation of an introduction comes to: the fault with which it
/// ends, or the slots as they are afterwards and what is asked of the host.
pub open spec fn student_intro_spec(
    program: Seq<u8>,
    accounts: Seq<AccountView>,
    name: Seq<char>,
    message: Seq<char>,
) -> Result<(Seq<AccountView>, EffectsView), ProgramError> {
    match student_intro_reference_fault(program, accounts) {
        Some(fault) => Err(fault),
        None => {
            let record = intro_bytes(new_intro(accounts[0].key, name, message));
            let count = counter_bytes(new_counter(0));
            if StudentIntroState::spec_account_size(name, message) > RECORD_CAPACITY {
                Err(custom(IntroError::InvalidDataLength))
            } else {
                match blank_intro(program, accounts[1]) {
                    Err(fault) => Err(fault),
                    Ok(intro_data) => match blank_counter(program, accounts[2]) {
                        Err(fault) => Err(fault),
                        Ok(counter_data) => if record.len() > intro_data.len() || count.len()
                            > counter_data.len() {
                            Err(ProgramError::BorshIoError)
                        } else {
                            Ok(
                                (
                                    accounts.update(
                                        1,
                                        rewritten(
                                            accounts[1],
                                            program,
                                            overwritten(intro_data, record),
                                        ),
                                    ).update(
                                        2,
                                        rewritten(
                                            accounts[2],
                                            program,
                                            overwritten(counter_data, count),
                                        ),
                                    ),
                                    EffectsView {
                                        allocations: allocation_for(
                                            accounts[1],
                                            accounts[0].key,
                                            RECORD_CAPACITY as u64,
                                            program,
                                            with_salt(
                                                intro_seeds(accounts[0].key),
                                                salt_of(intro_seeds(accounts[0].key), program),
                                            ),
                                        ) + allocation_for(
                                            accounts[2],
                                            accounts[0].key,
                                            ReplyCount::SIZE as u64,
                                            program,
                                            with_salt(
                                                counter_seeds(accounts[1].key),
                                                salt_of(counter_seeds(accounts[1].key), program),
                                            ),
                                        ),
                                        invocations: seq![
                                            reward(
                                                program,
                                                accounts[3].key,
                                                accounts[5].key,
                                                accounts[4].key,
                                                INTRO_REWARD_TOKENS,
                                            ),
                                        ],
                                    },
                                ),
                            )
                        },
                    },
                }
            }
        },
    }
}

/// Returns the bytes that a slot holds once it is allocated.
fn slot_contents(slot: &Account, capacity: usize) -> (data: Vec<u8>)
    ensures
        data@ == slot_bytes(slot@, capacity as nat),
{
    if slot.data.len() > 0 {
        slice_to_vec(slot.data.as_slice())
    } else {
        vec![0u8; capacity]
    }
}

/// Finds the fault for which no record may be created in a slot, where
/// `flag` is the mark of the record that its bytes hold.
fn check_blank(program_id: &Address, slot: &Account, flag: Option<bool>) -> (r: Result<
    (),
    ProgramError,
>)
    ensures
        forall|capacity: nat|
            match r {
                Ok(_) => #[trigger] blank_slot(program_id@, slot@, capacity, flag) == Ok::<
                    Seq<u8>,
                    ProgramError,
                >(slot_bytes(slot@, capacity)),
                Err(fault) => blank_slot(program_id@, slot@, capacity, flag) == Err::<
                    Seq<u8>,
                    ProgramError,
                >(fault),
            },
{
    if slot.data.len() > 0 && !slot.owner.same(program_id) {
        return Err(ProgramError::IllegalOwner);
    }
    match flag {
        None => Err(ProgramError::InvalidAccountData),
        Some(true) => Err(ProgramError::AccountAlreadyInitialized),
        Some(false) => Ok(()),
    }
}

/// Returns the bytes of a slot in which an introduction may be created.
fn read_blank_intro(program_id: &Address, slot: &Account) -> (r: Result<Vec<u8>, ProgramError>)
    ensures
        match r {
            Ok(data) => blank_intro(program_id@, slot@) == Ok::<Seq<u8>, ProgramError>(data@),
            Err(fault) => blank_intro(program_id@, slot@) == Err::<Seq<u8>, ProgramError>(fault),
        },
{
    let data = slot_contents(slot, RECORD_CAPACITY);
    let flag = match StudentIntroState::try_from_slice_unchecked(data.as_slice()) {
        Some(found) => Some(found.is_initialized()),
        None => None,
    };
    match check_blank(program_id, slot, flag) {
        Ok(_) => Ok(data),
        Err(fault) => Err(fault),
    }
}

/// Returns the bytes of a slot in which a reply may be created.
fn read_blank_reply(program_id: &Address, slot: &Account) -> (r: Result<Vec<u8>, ProgramError>)
    ensures
        match r {
            Ok(data) => blank_reply(program_id@, slot@) == Ok::<Seq<u8>, ProgramError>(data@),
            Err(fault) => blank_reply(program_id@, slot@) == Err::<Seq<u8>, ProgramError>(fault),
        },
{
    let data = slot_contents(slot, RECORD_CAPACITY);
    let flag = match StudentReplyState::try_from_slice_unchecked(data.as_slice()) {
        Some(found) => Some(found.is_initialized()),
        None => None,
    };
    match check_blank(program_id, slot, flag) {
        Ok(_) => Ok(data),
        Err(fault) => Err(fault),
    }
}

/// Returns the bytes of a slot in which a reply counter may be created.
fn read_blank_counter(program_id: &Address, slot: &Account) -> (r: Result<Vec<u8>, ProgramError>)
    ensures
        match r {
            Ok(data) => blank_counter(program_id@, slot@) == Ok::<Seq<u8>, ProgramError>(data@),
            Err(fault) => blank_counter(program_id@, slot@) == Err::<Seq<u8>, ProgramError>(fault),
        },
{
    let data = slot_contents(slot, ReplyCount::SIZE);
    let flag = match ReplyCount::try_from_slice_unchecked(data.as_slice()) {
        Some(found) => Some(found.is_initialized()),
        None => None,
    };
    match check_blank(program_id, slot, flag) {
        Ok(_) => Ok(data),
        Err(fault) => Err(fault),
    }
}

/// Returns the reply counter that a slot holds, where it is this program's
/// own and holds an initialized one.
fn read_active_counter(program_id: &Address, slot: &Account) -> (r: Result<
    ReplyCount,
    ProgramError,
>)
    ensures
        match r {
            Ok(c) => active_counter(program_id@, slot@) == Ok::<ReplyCountView, ProgramError>(c@),
            Err(fault) => active_counter(program_id@, slot@) == Err::<
                ReplyCountView,
                ProgramError,
            >(fault),
        },
{
    if !slot.owner.same(program_id) {
        return Err(ProgramError::IllegalOwner);
    }
    if slot.data.len() == 0 {
        return Err(ProgramError::from(IntroError::UninitializedAccount));
    }
    match ReplyCount::try_from_slice_unchecked(slot.data.as_slice()) {
        None => Err(ProgramError::InvalidAccountData),
        Some(found) => {
            if found.is_initialized() {
                Ok(found)
            } else {
                Err(ProgramError::from(IntroError::UninitializedAccount))
            }
        },
    }
}

/// Writes a record at the start of the bytes of a slot.
fn overwrite(data: &Vec<u8>, record: Vec<u8>) -> (out: Vec<u8>)
    requires
        record@.len() <= data@.len(),
    ensures
        out@ == overwritten(data@, record@),
{
    let mut out = record;
    let mut i: usize = out.len();
    while i < data.len()
        invariant
            record@.len() <= i <= data@.len(),
            out@ == record@ + data@.subrange(record@.len() as int, i as int),
        decreases data@.len() - i,
    {
        out.push(data[i]);
        i += 1;
    }
    out
}

/// Asks for the allocation of a slot unless it is allocated already.
fn ask_allocation(
    asked: &mut Vec<Allocation>,
    slot: &Account,
    payer: &Address,
    space: u64,
    owner: &Address,
    signer_seeds: Vec<Vec<u8>>,
)
    ensures
        final(asked)@.map_values(|a: Allocation| a@) == old(asked)@.map_values(|a: Allocation| a@)
            + allocation_for(slot@, payer@, space, owner@, seeds_view(signer_seeds@)),
{
    if slot.data.len() == 0 {
        let allocation = Allocation {
            payer: *payer,
            slot: slot.key,
            space,
            owner: *owner,
            signer_seeds,
        };
        asked.push(allocation);
    }
}

/// Asks for the issuance of `tokens` reward tokens to `wallet`.
fn ask_reward(
    token_program: &Address,
    mint: &Address,
    wallet: &Address,
    authority: &Address,
    salt: u8,
    tokens: u64,
) -> (asked: Vec<Invocation>)
    requires
        token_program@ == token_program_bytes(),
        tokens <= 10,
    ensures
        asked@.map_values(|i: Invocation| i@) == seq![
            InvocationView {
                instruction: mint_to_instruction(
                    mint@,
                    wallet@,
                    authority@,
                    (tokens * BASE_UNITS_PER_TOKEN) as u64,
                ),
                signer_seeds: with_salt(authority_seeds(), salt),
            },
        ],
{
    let mut asked: Vec<Invocation> = Vec::new();
    match mint_to(token_program, mint, wallet, authority, tokens * BASE_UNITS_PER_TOKEN) {
        Some(instruction) => {
            let signer_seeds = seeds_with_salt(seeds_of_authority(), salt);
            asked.push(Invocation { instruction, signer_seeds });
        },
        None => {},
    }
    asked
}

/// Returns the bytes of the slot of a reply counter after one more reply,
/// where `counter` is the counter that the slot holds.
fn advance_counter(slot: &Account, counter: ReplyCount) -> (data: Vec<u8>)
    requires
        parse_counter(slot@.data) == Some(counter@),
        counter.counter < u64::MAX,
    ensures
        data@ == overwritten(slot@.data, counter_bytes(advanced(counter@))),
{
    proof {
        lemma_parse_string_layout(slot@.data);
    }
    let mut counter_data = counter;
    counter_data.counter += 1;
    match counter_data.try_to_vec() {
        Some(count) => overwrite(&slot.data, count),
        None => slice_to_vec(slot.data.as_slice()),
    }
}

/// Holds the references through which a reward is issued against the
/// addresses that they have to be. Returns the salt of the authority over the
/// mint.
fn verify_reward_references(
    program_id: &Address,
    actor: &Address,
    token_mint: &Address,
    mint_auth: &Address,
    user_ata: &Address,
    system_program: &Address,
    token_program: &Address,
) -> (r: Result<u8, ProgramError>)
    ensures
        match r {
            Ok(salt) => reward_references_hold(
                program_id@,
                actor@,
                token_mint@,
                mint_auth@,
                user_ata@,
                system_program@,
                token_program@,
            ) && salt == salt_of(authority_seeds(), program_id@),
            Err(fault) => !reward_references_hold(
                program_id@,
                actor@,
                token_mint@,
                mint_auth@,
                user_ata@,
                system_program@,
                token_program@,
            ) && fault == custom(IntroError::IncorrectAccountError),
        },
{
    let mismatch = IntroError::IncorrectAccountError;
    match verify_derived(&seeds_of_mint(), program_id, token_mint, mismatch) {
        Ok(_) => {},
        Err(fault) => { return Err(fault); },
    }
    let mint_auth_bump = match verify_derived(&seeds_of_authority(), program_id, mint_auth, mismatch) {
        Ok(salt) => salt,
        Err(fault) => { return Err(fault); },
    };
    match get_associated_token_address(actor, token_mint) {
        Some(expected) => {
            if !expected.same(user_ata) {
                return Err(ProgramError::from(mismatch));
            }
        },
        None => { return Err(ProgramError::from(mismatch)); },
    }
    match verify_known(&token_program_id(), token_program) {
        Ok(_) => {},
        Err(fault) => { return Err(fault); },
    }
    match verify_known(&system_program_id(), system_program) {
        Ok(_) => {},
        Err(fault) => { return Err(fault); },
    }
    Ok(mint_auth_bump)
}

/// Tells whether a string alone takes more bytes than the slot of a record
/// holds.
fn outgrows_slot(s: &String) -> (r: bool)
    ensures
        r == (vstd::utf8::encode_utf8(s@).len() > RECORD_CAPACITY),
{
    s.as_str().as_bytes().len() > RECORD_CAPACITY
}

/// Creates the introduction of the actor and its reply counter, and issues
/// the reward for it.
///
/// The slots are, in this order: the actor, the introduction, its reply
/// counter, the mint of the reward token, the authority over the mint, the
/// actor's token account, the allocator and the token program. On success the
/// two record slots hold the new records; on failure no slot has changed.
pub fn student_intro(
    program_id: &Address,
    accounts: &mut Vec<Account>,
    name: String,
    message: String,
) -> (r: Result<Effects, ProgramError>)
    ensures
        match r {
            Ok(effects) => student_intro_spec(
                program_id@,
                accounts_view(old(accounts)@),
                name@,
                message@,
            ) == Ok::<(Seq<AccountView>, EffectsView), ProgramError>(
                (accounts_view(final(accounts)@), effects@),
            ),
            Err(fault) => student_intro_spec(
                program_id@,
                accounts_view(old(accounts)@),
                name@,
                message@,
            ) == Err::<(Seq<AccountView>, EffectsView), ProgramError>(fault) && *final(accounts)
                == *old(accounts),
        },
{
    if accounts.len() < 8 {
        return Err(ProgramError::NotEnoughAccountKeys);
    }
    let ghost before = accounts_view(accounts@);
    let writer = accounts[0].key;
    let intro = accounts[1].key;
    let counter = accounts[2].key;
    let token_mint = accounts[3].key;
    let mint_auth = accounts[4].key;
    let user_ata = accounts[5].key;
    let system_program = accounts[6].key;
    let token_program = accounts[7].key;

    if !accounts[0].is_signer {
        return Err(ProgramError::MissingRequiredSignature);
    }
    let seeds_intro = seeds_of_intro(&writer);
    let bump_seed = match verify_derived(&seeds_intro, program_id, &intro, IntroError::InvalidPDA) {
        Ok(salt) => salt,
        Err(fault) => { return Err(fault); },
    };
    let seeds_counter = seeds_of_counter(&intro);
    let counter_bump_seed = match verify_derived(
        &seeds_counter,
        program_id,
        &counter,
        IntroError::InvalidPDA,
    ) {
        Ok(salt) => salt,
        Err(fault) => { return Err(fault); },
    };
    let mint_auth_bump = match verify_reward_references(
        program_id,
        &writer,
        &token_mint,
        &mint_auth,
        &user_ata,
        &system_program,
        &token_program,
    ) {
        Ok(salt) => salt,
        Err(fault) => { return Err(fault); },
    };

    if outgrows_slot(&name) || outgrows_slot(&message) || StudentIntroState::get_account_size(
        name.clone(),
        message.clone(),
    ) > RECORD_CAPACITY {
        return Err(ProgramError::from(IntroError::InvalidDataLength));
    }
    let intro_data = match read_blank_intro(program_id, &accounts[1]) {
        Ok(data) => data,
        Err(fault) => { return Err(fault); },
    };
    let counter_data = match read_blank_counter(program_id, &accounts[2]) {
        Ok(data) => data,
        Err(fault) => { return Err(fault); },
    };
    proof {
        lemma_tag_lengths();
    }
    let intro_record = StudentIntroState {
        discriminator: StudentIntroState::DISCRIMINATOR.to_owned(),
        is_initialized: true,
        writer,
        name,
        message,
    };
    let counter_record = ReplyCount {
        discriminator: ReplyCount::DISCRIMINATOR.to_owned(),
        is_initialized: true,
        counter: 0,
    };
    let (record, count) = match (intro_record.try_to_vec(), counter_record.try_to_vec()) {
        (Some(r), Some(c)) => (r, c),
        _ => { return Err(ProgramError::BorshIoError); },
    };
    if record.len() > intro_data.len() || count.len() > counter_data.len() {
        return Err(ProgramError::BorshIoError);
    }
    let mut allocations: Vec<Allocation> = Vec::new();
    ask_allocation(
        &mut allocations,
        &accounts[1],
        &writer,
        RECORD_CAPACITY as u64,
        program_id,
        seeds_with_salt(seeds_intro, bump_seed),
    );
    ask_allocation(
        &mut allocations,
        &accounts[2],
        &writer,
        ReplyCount::SIZE as u64,
        program_id,
        seeds_with_salt(seeds_counter, counter_bump_seed),
    );
    let invocations = ask_reward(
        &token_program,
        &token_mint,
        &user_ata,
        &mint_auth,
        mint_auth_bump,
        INTRO_REWARD_TOKENS,
    );
    let intro_slot = Account {
        key: intro,
        is_signer: accounts[1].is_signer,
        owner: *program_id,
        data: overwrite(&intro_data, record),
    };
    let counter_slot = Account {
        key: counter,
        is_signer: accounts[2].is_signer,
        owner: *program_id,
        data: overwrite(&counter_data, count),
    };
    accounts[1] = intro_slot;
    accounts[2] = counter_slot;
    let effects = Effects { allocations, invocations };
    proof {
        let after = student_intro_spec(program_id@, before, name@, message@);
        assert(accounts_view(accounts@) =~= after.unwrap().0);
    }
    Ok(effects)
}

/// The first fault in the references of an update: the
/// owner of the introduction's slot, the actor, and the slot of the
/// introduction, in this order.
pub open spec fn update_intro_reference_fault(program: Seq<u8>, accounts: Seq<AccountView>) -> Option<
    ProgramError,
> {
    if accounts.len() < 2 {
        Some(ProgramError::NotEnoughAccountKeys)
    } else if accounts[1].owner != program {
        Some(ProgramError::IllegalOwner)
    } else if !accounts[0].is_signer {
        Some(ProgramError::MissingRequiredSignature)
    } else if !is_derived(accounts[1].key, intro_seeds(accounts[0].key), program) {
        Some(custom(IntroError::InvalidPDA))
    } else {
        None
    }
}

/// The introduction with another message.
pub open spec fn with_message(r: StudentIntroView, message: Seq<char>) -> StudentIntroView {
    StudentIntroView {
        discriminator: r.discriminator,
        is_initialized: r.is_initialized,
        writer: r.writer,
        name: r.name,
        message,
    }
}

/// What the update of an introduction comes to: the fault with which it ends,
/// or the slots as they are afterwards and what is asked of the host, which is
/// nothing. The name of the payload is held against the capacity and is
/// otherwise ignored.
pub open spec fn update_intro_spec(
    program: Seq<u8>,
    accounts: Seq<AccountView>,
    name: Seq<char>,
    message: Seq<char>,
) -> Result<(Seq<AccountView>, EffectsView), ProgramError> {
    match update_intro_reference_fault(program, accounts) {
        Some(fault) => Err(fault),
        None => {
            let data = accounts[1].data;
            if !allocated(accounts[1]) {
                Err(custom(IntroError::UninitializedAccount))
            } else if parse_intro(data).is_none() {
                Err(ProgramError::InvalidAccountData)
            } else if !parse_intro(data).unwrap().is_initialized {
                Err(custom(IntroError::UninitializedAccount))
            } else if StudentIntroState::spec_account_size(name, message) > RECORD_CAPACITY {
                Err(custom(IntroError::InvalidDataLength))
            } else {
                let record = intro_bytes(with_message(parse_intro(data).unwrap(), message));
                if record.len() > data.len() {
                    Err(ProgramError::BorshIoError)
                } else {
                    Ok(
                        (
                            accounts.update(
                                1,
                                rewritten(accounts[1], program, overwritten(data, record)),
                            ),
                            EffectsView { allocations: seq![], invocations: seq![] },
                        ),
                    )
                }
            }
        },
    }
}

/// Replaces the message of the actor's introduction.
///
/// The slots are, in this order: the actor and the introduction. On success
/// the slot of the introduction holds the record with the new message and its
/// other fields as they were; on failure no slot has changed. No reward is
/// issued.
pub fn update_intro(
    program_id: &Address,
    accounts: &mut Vec<Account>,
    name: String,
    message: String,
) -> (r: Result<Effects, ProgramError>)
    ensures
        match r {
            Ok(effects) => update_intro_spec(
                program_id@,
                accounts_view(old(accounts)@),
                name@,
                message@,
            ) == Ok::<(Seq<AccountView>, EffectsView), ProgramError>(
                (accounts_view(final(accounts)@), effects@),
            ),
            Err(fault) => update_intro_spec(
                program_id@,
                accounts_view(old(accounts)@),
                name@,
                message@,
            ) == Err::<(Seq<AccountView>, EffectsView), ProgramError>(fault) && *final(accounts)
                == *old(accounts),
        },
{
    if accounts.len() < 2 {
        return Err(ProgramError::NotEnoughAccountKeys);
    }
    let ghost before = accounts_view(accounts@);
    let writer = accounts[0].key;
    let pda_intro = accounts[1].key;

    if !accounts[1].owner.same(program_id) {
        return Err(ProgramError::IllegalOwner);
    }
    if !accounts[0].is_signer {
        return Err(ProgramError::MissingRequiredSignature);
    }
    match verify_derived(&seeds_of_intro(&writer), program_id, &pda_intro, IntroError::InvalidPDA) {
        Ok(_) => {},
        Err(fault) => { return Err(fault); },
    }
    if accounts[1].data.len() == 0 {
        return Err(ProgramError::from(IntroError::UninitializedAccount));
    }
    let mut intro_data = match StudentIntroState::try_from_slice_unchecked(
        accounts[1].data.as_slice(),
    ) {
        Some(found) => found,
        None => { return Err(ProgramError::InvalidAccountData); },
    };
    if !intro_data.is_initialized() {
        return Err(ProgramError::from(IntroError::UninitializedAccount));
    }
    if outgrows_slot(&name) || outgrows_slot(&message) || StudentIntroState::get_account_size(
        name.clone(),
        message.clone(),
    ) > RECORD_CAPACITY {
        return Err(ProgramError::from(IntroError::InvalidDataLength));
    }
    proof {
        let data = before[1].data;
        let n1 = parse_string(data).unwrap().1;
        lemma_parse_string_layout(data);
        lemma_parse_string_layout(data.skip(n1 + 33));
    }
    intro_data.message = message;
    let record = match intro_data.try_to_vec() {
        Some(r) => r,
        None => { return Err(ProgramError::BorshIoError); },
    };
    if record.len() > accounts[1].data.len() {
        return Err(ProgramError::BorshIoError);
    }
    let intro_slot = Account {
        key: pda_intro,
        is_signer: accounts[1].is_signer,
        owner: *program_id,
        data: overwrite(&accounts[1].data, record),
    };
    accounts[1] = intro_slot;
    let effects = Effects { allocations: Vec::new(), invocations: Vec::new() };
    proof {
        let after = update_intro_spec(program_id@, before, name@, message@);
        assert(accounts_view(accounts@) =~= after.unwrap().0);
        assert(effects@.allocations =~= after.unwrap().1.allocations);
        assert(effects@.invocations =~= after.unwrap().1.invocations);
    }
    Ok(effects)
}

/// The first fault in the references of a reply: the references through
/// which the reward is issued, and the slot of the reply counter, in this
/// order.
pub open spec fn reply_intro_reference_fault(program: Seq<u8>, accounts: Seq<AccountView>) -> Option<
    ProgramError,
> {
    if accounts.len() < 9 {
        Some(ProgramError::NotEnoughAccountKeys)
    } else if !reward_references_hold(
        program,
        accounts[0].key,
        accounts[4].key,
        accounts[5].key,
        accounts[6].key,
        accounts[7].key,
        accounts[8].key,
    ) {
        Some(custom(IntroError::IncorrectAccountError))
    } else if !is_derived(accounts[2].key, counter_seeds(accounts[1].key), program) {
        Some(custom(IntroError::InvalidPDA))
    } else {
        None
    }
}

/// The reply of `replier` to the introduction at `intro`.
pub open spec fn new_reply(
    intro: Seq<u8>,
    replier: Seq<u8>,
    name: Seq<char>,
    message: Seq<char>,
) -> StudentReplyView {
    StudentReplyView {
        discriminator: reply_tag(),
        is_initialized: true,
        intro,
        replier,
        name,
        message,
    }
}

/// The reply counter after one more reply.
pub open spec fn advanced(c: ReplyCountView) -> ReplyCountView {
    ReplyCountView {
        discriminator: c.discriminator,
        is_initialized: c.is_initialized,
        counter: (c.counter + 1) as u64,
    }
}

/// What a reply comes to: the fault with which it ends, or the slots as they
/// are afterwards and what is asked of the host. The references come first,
/// then the reply counter, then the address of the reply, which the count
/// found in the counter derives; only then is the signature of the actor
/// asked for, before the payload is held against the capacity and before
/// anything is written.
pub open spec fn reply_intro_spec(
    program: Seq<u8>,
    accounts: Seq<AccountView>,
    name: Seq<char>,
    message: Seq<char>,
) -> Result<(Seq<AccountView>, EffectsView), ProgramError> {
    match reply_intro_reference_fault(program, accounts) {
        Some(fault) => Err(fault),
        None => {
            let record = reply_bytes(new_reply(accounts[1].key, accounts[0].key, name, message));
            match active_counter(program, accounts[2]) {
                Err(fault) => Err(fault),
                Ok(c) => if !is_derived(
                    accounts[3].key,
                    reply_seeds(accounts[1].key, c.counter),
                    program,
                ) {
                    Err(custom(IntroError::InvalidPDA))
                } else if !accounts[0].is_signer {
                    Err(ProgramError::MissingRequiredSignature)
                } else if StudentReplyState::spec_account_size(name, message) > RECORD_CAPACITY {
                    Err(custom(IntroError::InvalidDataLength))
                } else {
                    match blank_reply(program, accounts[3]) {
                        Err(fault) => Err(fault),
                        Ok(reply_data) => if c.counter == u64::MAX {
                            Err(ProgramError::ArithmeticOverflow)
                        } else if record.len() > reply_data.len() {
                            Err(ProgramError::BorshIoError)
                        } else {
                            Ok(
                                (
                                    accounts.update(
                                        3,
                                        rewritten(
                                            accounts[3],
                                            program,
                                            overwritten(reply_data, record),
                                        ),
                                    ).update(
                                        2,
                                        rewritten(
                                            accounts[2],
                                            program,
                                            overwritten(
                                                accounts[2].data,
                                                counter_bytes(advanced(c)),
                                            ),
                                        ),
                                    ),
                                    EffectsView {
                                        allocations: allocation_for(
                                            accounts[3],
                                            accounts[0].key,
                                            RECORD_CAPACITY as u64,
                                            program,
                                            with_salt(
                                                reply_seeds(accounts[1].key, c.counter),
                                                salt_of(
                                                    reply_seeds(accounts[1].key, c.counter),
                                                    program,
                                                ),
                                            ),
                                        ),
                                        invocations: seq![
                                            reward(
                                                program,
                                                accounts[4].key,
                                                accounts[6].key,
                                                accounts[5].key,
                                                REPLY_REWARD_TOKENS,
                                            ),
                                        ],
                                    },
                                ),
                            )
                        },
                    }
                },
            }
        },
    }
}

/// Attaches a reply of the actor to an introduction, advances the reply
/// counter of the introduction, and issues the reward for the reply.
///
/// The slots are, in this order: the actor, the introduction, its reply
/// counter, the reply, the mint of the reward token, the authority over the
/// mint, the actor's token account, the allocator and the token program. The
/// signature of the actor is asked for once the references, the reply counter
/// and the address of the reply are in order. On success the slot of the
/// reply holds the new record and the counter is one higher; on failure no
/// slot has changed.
pub fn reply_intro(
    program_id: &Address,
    accounts: &mut Vec<Account>,
    name: String,
    message: String,
) -> (r: Result<Effects, ProgramError>)
    ensures
        match r {
            Ok(effects) => reply_intro_spec(
                program_id@,
                accounts_view(old(accounts)@),
                name@,
                message@,
            ) == Ok::<(Seq<AccountView>, EffectsView), ProgramError>(
                (accounts_view(final(accounts)@), effects@),
            ),
            Err(fault) => reply_intro_spec(
                program_id@,
                accounts_view(old(accounts)@),
                name@,
                message@,
            ) == Err::<(Seq<AccountView>, EffectsView), ProgramError>(fault) && *final(accounts)
                == *old(accounts),
        },
{
    if accounts.len() < 9 {
        return Err(ProgramError::NotEnoughAccountKeys);
    }
    let ghost before = accounts_view(accounts@);
    let replier = accounts[0].key;
    let pda_intro = accounts[1].key;
    let pda_counter = accounts[2].key;
    let pda_reply = accounts[3].key;
    let token_mint = accounts[4].key;
    let mint_auth = accounts[5].key;
    let user_ata = accounts[6].key;
    let system_program = accounts[7].key;
    let token_program = accounts[8].key;

    let mint_auth_bump = match verify_reward_references(
        program_id,
        &replier,
        &token_mint,
        &mint_auth,
        &user_ata,
        &system_program,
        &token_program,
    ) {
        Ok(salt) => salt,
        Err(fault) => { return Err(fault); },
    };
    match verify_derived(
        &seeds_of_counter(&pda_intro),
        program_id,
        &pda_counter,
        IntroError::InvalidPDA,
    ) {
        Ok(_) => {},
        Err(fault) => { return Err(fault); },
    }
    let counter_data = match read_active_counter(program_id, &accounts[2]) {
        Ok(found) => found,
        Err(fault) => { return Err(fault); },
    };
    let seeds_reply = seeds_of_reply(&pda_intro, counter_data.counter);
    let bump_seed = match verify_derived(&seeds_reply, program_id, &pda_reply, IntroError::InvalidPDA) {
        Ok(salt) => salt,
        Err(fault) => { return Err(fault); },
    };
    if !accounts[0].is_signer {
        return Err(ProgramError::MissingRequiredSignature);
    }
    if outgrows_slot(&name) || outgrows_slot(&message) || StudentReplyState::get_account_size(
        name.clone(),
        message.clone(),
    ) > RECORD_CAPACITY {
        return Err(ProgramError::from(IntroError::InvalidDataLength));
    }
    let reply_data = match read_blank_reply(program_id, &accounts[3]) {
        Ok(data) => data,
        Err(fault) => { return Err(fault); },
    };
    if counter_data.counter == u64::MAX {
        return Err(ProgramError::ArithmeticOverflow);
    }
    proof {
        lemma_tag_lengths();
    }
    let reply_record = StudentReplyState {
        discriminator: StudentReplyState::DISCRIMINATOR.to_owned(),
        is_initialized: true,
        intro: pda_intro,
        replier,
        name,
        message,
    };
    let record = match reply_record.try_to_vec() {
        Some(r) => r,
        None => { return Err(ProgramError::BorshIoError); },
    };
    if record.len() > reply_data.len() {
        return Err(ProgramError::BorshIoError);
    }
    let counter_after = advance_counter(&accounts[2], counter_data);
    let mut allocations: Vec<Allocation> = Vec::new();
    ask_allocation(
        &mut allocations,
        &accounts[3],
        &replier,
        RECORD_CAPACITY as u64,
        program_id,
        seeds_with_salt(seeds_reply, bump_seed),
    );
    let invocations = ask_reward(
        &token_program,
        &token_mint,
        &user_ata,
        &mint_auth,
        mint_auth_bump,
        REPLY_REWARD_TOKENS,
    );
    let reply_slot = Account {
        key: pda_reply,
        is_signer: accounts[3].is_signer,
        owner: *program_id,
        data: overwrite(&reply_data, record),
    };
    let counter_slot = Account {
        key: pda_counter,
        is_signer: accounts[2].is_signer,
        owner: *program_id,
        data: counter_after,
    };
    accounts[3] = reply_slot;
    accounts[2] = counter_slot;
    let effects = Effects { allocations, invocations };
    proof {
        let after = reply_intro_spec(program_id@, before, name@, message@);
        assert(accounts_view(accounts@) =~= after.unwrap().0);
    }
    Ok(effects)
}

/// The first fault in the references of the setup of the
/// reward token: the mint, the token program, the authority over the mint, the
/// allocator and the rent parameters, in this order.
pub open spec fn initialize_token_mint_reference_fault(program: Seq<u8>, accounts: Seq<AccountView>) -> Option<
    ProgramError,
> {
    if accounts.len() < 6 {
        Some(ProgramError::NotEnoughAccountKeys)
    } else if !is_derived(accounts[1].key, mint_seeds(), program) {
        Some(custom(IntroError::IncorrectAccountError))
    } else if accounts[4].key != token_program_bytes() {
        Some(custom(IntroError::IncorrectAccountError))
    } else if !is_derived(accounts[2].key, authority_seeds(), program) {
        Some(custom(IntroError::IncorrectAccountError))
    } else if accounts[3].key != system_program_bytes() {
        Some(custom(IntroError::IncorrectAccountError))
    } else if accounts[5].key != rent_sysvar_bytes() {
        Some(custom(IntroError::IncorrectAccountError))
    } else {
        None
    }
}

/// What the setup of the reward token comes to: the fault with which it ends,
/// or the slots as they are afterwards and what is asked of the host. The slot
/// of the mint is handed to the token program as the host allocates it; what
/// the token program writes to it is not this program's to say.
pub open spec fn initialize_token_mint_spec(program: Seq<u8>, accounts: Seq<AccountView>) -> Result<
    (Seq<AccountView>, EffectsView),
    ProgramError,
> {
    match initialize_token_mint_reference_fault(program, accounts) {
        Some(fault) => Err(fault),
        None => {
            let signer_seeds = with_salt(mint_seeds(), salt_of(mint_seeds(), program));
            if allocated(accounts[1]) {
                Err(ProgramError::AccountAlreadyInitialized)
            } else {
                Ok(
                    (
                        accounts.update(
                            1,
                            rewritten(accounts[1], accounts[4].key, zeros(MINT_SIZE as nat)),
                        ),
                        EffectsView {
                            allocations: seq![
                                AllocationView {
                                    payer: accounts[0].key,
                                    slot: accounts[1].key,
                                    space: MINT_SIZE,
                                    owner: accounts[4].key,
                                    signer_seeds,
                                },
                            ],
                            invocations: seq![
                                InvocationView {
                                    instruction: initialize_mint_instruction(
                                        accounts[1].key,
                                        accounts[2].key,
                                        REWARD_DECIMALS,
                                    ),
                                    signer_seeds,
                                },
                            ],
                        },
                    ),
                )
            }
        },
    }
}

/// Sets up the mint of the reward token, once for the whole deployment.
///
/// The slots are, in this order: the actor who pays, the mint, the authority
/// over the mint, the allocator, the token program and the rent parameters.
/// On success the slot of the mint is allocated to the token program; on
/// failure no slot has changed.
pub fn initialize_token_mint(program_id: &Address, accounts: &mut Vec<Account>) -> (r: Result<
    Effects,
    ProgramError,
>)
    ensures
        match r {
            Ok(effects) => initialize_token_mint_spec(program_id@, accounts_view(old(accounts)@))
                == Ok::<(Seq<AccountView>, EffectsView), ProgramError>(
                (accounts_view(final(accounts)@), effects@),
            ),
            Err(fault) => initialize_token_mint_spec(program_id@, accounts_view(old(accounts)@))
                == Err::<(Seq<AccountView>, EffectsView), ProgramError>(fault) && *final(accounts)
                == *old(accounts),
        },
{
    if accounts.len() < 6 {
        return Err(ProgramError::NotEnoughAccountKeys);
    }
    let ghost before = accounts_view(accounts@);
    let initializer = accounts[0].key;
    let token_mint = accounts[1].key;
    let mint_auth = accounts[2].key;
    let system_program = accounts[3].key;
    let token_program = accounts[4].key;
    let sysvar_rent = accounts[5].key;

    let seeds_mint = seeds_of_mint();
    let mint_bump = match verify_derived(
        &seeds_mint,
        program_id,
        &token_mint,
        IntroError::IncorrectAccountError,
    ) {
        Ok(salt) => salt,
        Err(fault) => { return Err(fault); },
    };
    match verify_known(&token_program_id(), &token_program) {
        Ok(_) => {},
        Err(fault) => { return Err(fault); },
    }
    match verify_derived(
        &seeds_of_authority(),
        program_id,
        &mint_auth,
        IntroError::IncorrectAccountError,
    ) {
        Ok(_) => {},
        Err(fault) => { return Err(fault); },
    }
    match verify_known(&system_program_id(), &system_program) {
        Ok(_) => {},
        Err(fault) => { return Err(fault); },
    }
    match verify_known(&rent_sysvar_id(), &sysvar_rent) {
        Ok(_) => {},
        Err(fault) => { return Err(fault); },
    }
    if accounts[1].data.len() > 0 {
        return Err(ProgramError::AccountAlreadyInitialized);
    }
    let instruction = match initialize_mint(&token_program, &token_mint, &mint_auth, REWARD_DECIMALS) {
        Some(made) => made,
        None => { return Err(ProgramError::from(IntroError::IncorrectAccountError)); },
    };
    let mut allocations: Vec<Allocation> = Vec::new();
    allocations.push(
        Allocation {
            payer: initializer,
            slot: token_mint,
            space: MINT_SIZE,
            owner: token_program,
            signer_seeds: seeds_with_salt(seeds_mint, mint_bump),
        },
    );
    let mut invocations: Vec<Invocation> = Vec::new();
    invocations.push(
        Invocation { instruction, signer_seeds: seeds_with_salt(seeds_of_mint(), mint_bump) },
    );
    let mint_slot = Account {
        key: token_mint,
        is_signer: accounts[1].is_signer,
        owner: token_program,
        data: vec![0u8; 82],
    };
    assert(mint_slot.data@ =~= zeros(MINT_SIZE as nat));
    accounts[1] = mint_slot;
    let effects = Effects { allocations, invocations };
    proof {
        let after = initialize_token_mint_spec(program_id@, before);
        assert(accounts_view(accounts@) =~= after.unwrap().0);
        assert(effects@.allocations =~= after.unwrap().1.allocations);
        assert(effects@.invocations =~= after.unwrap().1.invocations);
    }
    Ok(effects)
}

/// What an operation comes to: the fault with which it ends, or the slots as
/// they are afterwards and what is asked of the host.
pub open spec fn dispatch_spec(
    program: Seq<u8>,
    accounts: Seq<AccountView>,
    instruction: StudentInstructionView,
) -> Result<(Seq<AccountView>, EffectsView), ProgramError> {
    match instruction {
        StudentInstructionView::StudentIntro { name, message } => student_intro_spec(
            program,
            accounts,
            name,
            message,
        ),
        StudentInstructionView::UpdateIntro { name, message } => update_intro_spec(
            program,
            accounts,
            name,
            message,
        ),
        StudentInstructionView::ReplyIntro { name, message } => reply_intro_spec(
            program,
            accounts,
            name,
            message,
        ),
        StudentInstructionView::InitializeMint => initialize_token_mint_spec(program, accounts),
    }
}

/// What an encoded operation comes to: the fault with which it ends, or the
/// slots as they are afterwards and what is asked of the host.
pub open spec fn process_instruction_spec(
    program: Seq<u8>,
    accounts: Seq<AccountView>,
    instruction_data: Seq<u8>,
) -> Result<(Seq<AccountView>, EffectsView), ProgramError> {
    match unpack_spec(instruction_data) {
        Ok(instruction) => dispatch_spec(program, accounts, instruction),
        Err(fault) => Err(fault),
    }
}

/// Hands an operation to the one of the four handlers that it names.
pub fn dispatch(
    program_id: &Address,
    accounts: &mut Vec<Account>,
    instruction: StudentInstruction,
) -> (r: Result<Effects, ProgramError>)
    ensures
        match r {
            Ok(effects) => dispatch_spec(program_id@, accounts_view(old(accounts)@), instruction@)
                == Ok::<(Seq<AccountView>, EffectsView), ProgramError>(
                (accounts_view(final(accounts)@), effects@),
            ),
            Err(fault) => dispatch_spec(program_id@, accounts_view(old(accounts)@), instruction@)
                == Err::<(Seq<AccountView>, EffectsView), ProgramError>(fault) && *final(accounts)
                == *old(accounts),
        },
{
    match instruction {
        StudentInstruction::StudentIntro { name, message } => {
            student_intro(program_id, accounts, name, message)
        },
        StudentInstruction::UpdateIntro { name, message } => {
            update_intro(program_id, accounts, name, message)
        },
        StudentInstruction::ReplyIntro { name, message } => {
            reply_intro(program_id, accounts, name, message)
        },
        StudentInstruction::InitializeMint => initialize_token_mint(program_id, accounts),
    }
}

/// Decodes an operation and hands it to its handler.
pub fn process_instruction(
    program_id: &Address,
    accounts: &mut Vec<Account>,
    instruction_data: &[u8],
) -> (r: Result<Effects, ProgramError>)
    ensures
        match r {
            Ok(effects) => process_instruction_spec(
                program_id@,
                accounts_view(old(accounts)@),
                instruction_data@,
            ) == Ok::<(Seq<AccountView>, EffectsView), ProgramError>(
                (accounts_view(final(accounts)@), effects@),
            ),
            Err(fault) => process_instruction_spec(
                program_id@,
                accounts_view(old(accounts)@),
                instruction_data@,
            ) == Err::<(Seq<AccountView>, EffectsView), ProgramError>(fault) && *final(accounts)
                == *old(accounts),
        },
{
    let instruction = match StudentInstruction::unpack(instruction_data) {
        Ok(instruction) => instruction,
        Err(fault) => { return Err(fault); },
    };
    dispatch(program_id, accounts, instruction)
}

} // verus!
