use solana_program::pubkey::Pubkey;
use student_intro::account::{Account, AccountMeta, Effects, Instruction};
use student_intro::address::Address;
use student_intro::error::{IntroError, ProgramError};
use student_intro::instruction::StudentInstruction;
use student_intro::processor::{
    dispatch, initialize_token_mint, process_instruction, reply_intro, student_intro, update_intro,
};
use student_intro::state::{ReplyCount, StudentIntroState, StudentReplyState};

fn program() -> Address {
    Address::new([7u8; 32])
}

fn actor(tag: u8) -> Address {
    let mut bytes = [0u8; 32];
    bytes[0] = tag;
    bytes[31] = 200;
    Address::new(bytes)
}

fn key(a: &Address) -> Pubkey {
    Pubkey::new_from_array(a.bytes)
}

fn derive(seeds: &[&[u8]], program: &Address) -> (Address, u8) {
    let (found, salt) = Pubkey::find_program_address(seeds, &key(program));
    (Address::new(found.to_bytes()), salt)
}

fn intro_of(writer: &Address) -> (Address, u8) {
    derive(&[&writer.bytes, b"intro"], &program())
}

fn counter_of(intro: &Address) -> (Address, u8) {
    derive(&[&intro.bytes, b"counter"], &program())
}

fn reply_of(intro: &Address, n: u64) -> (Address, u8) {
    derive(&[&intro.bytes, &n.to_be_bytes()], &program())
}

fn mint() -> (Address, u8) {
    derive(&[b"token_mint"], &program())
}

fn authority() -> (Address, u8) {
    derive(&[b"token_auth"], &program())
}

fn wallet_of(owner: &Address) -> Address {
    let found = spl_associated_token_account::get_associated_token_address(
        &key(owner),
        &key(&mint().0),
    );
    Address::new(found.to_bytes())
}

fn system_program() -> Address {
    Address::new(solana_program::system_program::id().to_bytes())
}

fn token_program() -> Address {
    Address::new(spl_token::id().to_bytes())
}

fn rent_sysvar() -> Address {
    Address::new(solana_program::sysvar::rent::id().to_bytes())
}

fn vacant(key: Address) -> Account {
    Account { key, is_signer: false, owner: system_program(), data: Vec::new() }
}

fn signer(key: Address) -> Account {
    Account { key, is_signer: true, owner: system_program(), data: Vec::new() }
}

fn create_accounts(writer: &Address) -> Vec<Account> {
    let (intro, _) = intro_of(writer);
    let (counter, _) = counter_of(&intro);
    vec![
        signer(*writer),
        vacant(intro),
        vacant(counter),
        vacant(mint().0),
        vacant(authority().0),
        vacant(wallet_of(writer)),
        vacant(system_program()),
        vacant(token_program()),
    ]
}

fn reply_accounts(replier: &Address, intro: &Account, counter: &Account, n: u64) -> Vec<Account> {
    vec![
        signer(*replier),
        intro.clone(),
        counter.clone(),
        vacant(reply_of(&intro.key, n).0),
        vacant(mint().0),
        vacant(authority().0),
        vacant(wallet_of(replier)),
        vacant(system_program()),
        vacant(token_program()),
    ]
}

fn setup_accounts(payer: &Address) -> Vec<Account> {
    vec![
        signer(*payer),
        vacant(mint().0),
        vacant(authority().0),
        vacant(system_program()),
        vacant(token_program()),
        vacant(rent_sysvar()),
    ]
}

fn custom(e: IntroError) -> ProgramError {
    ProgramError::Custom(e.code())
}

fn text(n: usize) -> String {
    "x".repeat(n)
}

fn converted(made: solana_program::instruction::Instruction) -> Instruction {
    Instruction {
        program_id: Address::new(made.program_id.to_bytes()),
        accounts: made
            .accounts
            .iter()
            .map(|m| AccountMeta {
                pubkey: Address::new(m.pubkey.to_bytes()),
                is_signer: m.is_signer,
                is_writable: m.is_writable,
            })
            .collect(),
        data: made.data,
    }
}

fn created(writer: &Address, name: &str, message: &str) -> (Vec<Account>, Effects) {
    let mut accounts = create_accounts(writer);
    let effects =
        student_intro(&program(), &mut accounts, name.to_string(), message.to_string()).unwrap();
    (accounts, effects)
}

#[test]
fn create_writes_both_records() {
    let writer = actor(1);
    let (accounts, _) = created(&writer, "Alice", "hi");
    let intro = StudentIntroState::try_from_slice_unchecked(&accounts[1].data).unwrap();
    assert_eq!(intro.discriminator, "intro");
    assert!(intro.is_initialized);
    assert_eq!(intro.writer, writer);
    assert_eq!(intro.name, "Alice");
    assert_eq!(intro.message, "hi");
    let counter = ReplyCount::try_from_slice_unchecked(&accounts[2].data).unwrap();
    assert_eq!(counter.discriminator, "counter");
    assert!(counter.is_initialized);
    assert_eq!(counter.counter, 0);
    assert_eq!(accounts[1].data.len(), 1000);
    assert_eq!(accounts[2].data.len(), 20);
    assert_eq!(accounts[1].owner, program());
    assert_eq!(accounts[2].owner, program());
}

#[test]
fn create_leaves_other_slots_alone() {
    let writer = actor(1);
    let before = create_accounts(&writer);
    let (after, _) = created(&writer, "Alice", "hi");
    assert_eq!(after.len(), 8);
    assert_eq!(after[0], before[0]);
    for i in 3..8 {
        assert_eq!(after[i], before[i]);
    }
    assert_eq!(after[1].key, before[1].key);
    assert_eq!(after[2].key, before[2].key);
}

#[test]
fn create_asks_for_two_allocations() {
    let writer = actor(1);
    let (intro, intro_salt) = intro_of(&writer);
    let (counter, counter_salt) = counter_of(&intro);
    let (_, effects) = created(&writer, "Alice", "hi");
    assert_eq!(effects.allocations.len(), 2);
    let first = &effects.allocations[0];
    assert_eq!(first.payer, writer);
    assert_eq!(first.slot, intro);
    assert_eq!(first.space, 1000);
    assert_eq!(first.owner, program());
    assert_eq!(
        first.signer_seeds,
        vec![writer.bytes.to_vec(), b"intro".to_vec(), vec![intro_salt]]
    );
    let second = &effects.allocations[1];
    assert_eq!(second.payer, writer);
    assert_eq!(second.slot, counter);
    assert_eq!(second.space, 20);
    assert_eq!(second.owner, program());
    assert_eq!(
        second.signer_seeds,
        vec![intro.bytes.to_vec(), b"counter".to_vec(), vec![counter_salt]]
    );
}

#[test]
fn create_issues_ten_tokens() {
    let writer = actor(1);
    let (_, effects) = created(&writer, "Alice", "hi");
    assert_eq!(effects.invocations.len(), 1);
    let asked = &effects.invocations[0];
    let expected = spl_token::instruction::mint_to(
        &spl_token::id(),
        &key(&mint().0),
        &key(&wallet_of(&writer)),
        &key(&authority().0),
        &[],
        10_000_000_000,
    )
    .unwrap();
    assert_eq!(asked.instruction, converted(expected));
    assert_eq!(asked.instruction.data, vec![7, 0, 228, 11, 84, 2, 0, 0, 0]);
    assert_eq!(asked.signer_seeds, vec![b"token_auth".to_vec(), vec![authority().1]]);
}

#[test]
fn create_twice_is_refused_the_second_time() {
    let writer = actor(1);
    let (mut accounts, _) = created(&writer, "Alice", "hi");
    let left = accounts.clone();
    let again = student_intro(&program(), &mut accounts, "Alice".to_string(), "hi".to_string());
    assert_eq!(again, Err(ProgramError::AccountAlreadyInitialized));
    assert_eq!(accounts, left);
    let other = student_intro(&program(), &mut accounts, "Bob".to_string(), "yo".to_string());
    assert_eq!(other, Err(ProgramError::AccountAlreadyInitialized));
}

#[test]
fn create_twice_is_refused_for_every_identity() {
    for tag in 0..12u8 {
        let writer = actor(tag);
        let (mut accounts, _) = created(&writer, "Name", "Message");
        let again =
            student_intro(&program(), &mut accounts, "Name".to_string(), "Message".to_string());
        assert_eq!(again, Err(ProgramError::AccountAlreadyInitialized));
    }
}

#[test]
fn create_needs_eight_slots() {
    let writer = actor(1);
    for n in 0..8 {
        let mut accounts = create_accounts(&writer);
        accounts.truncate(n);
        let before = accounts.clone();
        let r = student_intro(&program(), &mut accounts, "Alice".to_string(), "hi".to_string());
        assert_eq!(r, Err(ProgramError::NotEnoughAccountKeys));
        assert_eq!(accounts, before);
    }
}

#[test]
fn create_needs_the_signature_of_the_actor() {
    let writer = actor(1);
    let mut accounts = create_accounts(&writer);
    accounts[0].is_signer = false;
    let before = accounts.clone();
    let r = student_intro(&program(), &mut accounts, "Alice".to_string(), "hi".to_string());
    assert_eq!(r, Err(ProgramError::MissingRequiredSignature));
    assert_eq!(accounts, before);
}

#[test]
fn create_refuses_a_foreign_introduction_slot() {
    let writer = actor(1);
    let mut accounts = create_accounts(&writer);
    accounts[1].key = intro_of(&actor(2)).0;
    let r = student_intro(&program(), &mut accounts, "Alice".to_string(), "hi".to_string());
    assert_eq!(r, Err(custom(IntroError::InvalidPDA)));
    assert_eq!(r, Err(ProgramError::Custom(1)));
}

#[test]
fn create_refuses_a_foreign_counter_slot() {
    let writer = actor(1);
    let mut accounts = create_accounts(&writer);
    accounts[2].key = counter_of(&intro_of(&actor(2)).0).0;
    let r = student_intro(&program(), &mut accounts, "Alice".to_string(), "hi".to_string());
    assert_eq!(r, Err(custom(IntroError::InvalidPDA)));
}

#[test]
fn create_refuses_wrong_reward_references() {
    let writer = actor(1);
    for position in 3..8 {
        let mut accounts = create_accounts(&writer);
        accounts[position].key = actor(99);
        let before = accounts.clone();
        let r = student_intro(&program(), &mut accounts, "Alice".to_string(), "hi".to_string());
        assert_eq!(r, Err(custom(IntroError::IncorrectAccountError)), "position {}", position);
        assert_eq!(r, Err(ProgramError::Custom(3)));
        assert_eq!(accounts, before);
    }
}

#[test]
fn create_refuses_the_token_account_of_another_actor() {
    let writer = actor(1);
    let mut accounts = create_accounts(&writer);
    accounts[5].key = wallet_of(&actor(2));
    let r = student_intro(&program(), &mut accounts, "Alice".to_string(), "hi".to_string());
    assert_eq!(r, Err(custom(IntroError::IncorrectAccountError)));
}

#[test]
fn create_refuses_swapped_programs() {
    let writer = actor(1);
    let mut accounts = create_accounts(&writer);
    accounts.swap(6, 7);
    let r = student_intro(&program(), &mut accounts, "Alice".to_string(), "hi".to_string());
    assert_eq!(r, Err(custom(IntroError::IncorrectAccountError)));
}

#[test]
fn create_accepts_exactly_the_capacity() {
    let writer = actor(1);
    let mut accounts = create_accounts(&writer);
    let name = text(400);
    let message = text(550);
    assert_eq!(StudentIntroState::get_account_size(name.clone(), message.clone()), 1000);
    let r = student_intro(&program(), &mut accounts, name.clone(), message.clone());
    assert!(r.is_ok());
    let intro = StudentIntroState::try_from_slice_unchecked(&accounts[1].data).unwrap();
    assert_eq!(intro.name, name);
    assert_eq!(intro.message, message);
    assert_eq!(accounts[1].data.len(), 1000);
}

#[test]
fn create_refuses_one_byte_over_the_capacity() {
    let writer = actor(1);
    let mut accounts = create_accounts(&writer);
    let before = accounts.clone();
    let r = student_intro(&program(), &mut accounts, text(400), text(551));
    assert_eq!(r, Err(custom(IntroError::InvalidDataLength)));
    assert_eq!(r, Err(ProgramError::Custom(2)));
    assert_eq!(accounts, before);
}

#[test]
fn create_counts_bytes_not_letters() {
    let writer = actor(1);
    let mut accounts = create_accounts(&writer);
    // 475 two-byte letters take 950 bytes.
    let r = student_intro(&program(), &mut accounts, String::new(), "é".repeat(475));
    assert!(r.is_ok());
    let mut accounts = create_accounts(&writer);
    let r = student_intro(&program(), &mut accounts, "a".to_string(), "é".repeat(475));
    assert_eq!(r, Err(custom(IntroError::InvalidDataLength)));
}

#[test]
fn create_refuses_huge_payloads() {
    let writer = actor(1);
    let mut accounts = create_accounts(&writer);
    let r = student_intro(&program(), &mut accounts, text(100_000), text(3));
    assert_eq!(r, Err(custom(IntroError::InvalidDataLength)));
}

#[test]
fn create_checks_references_before_the_payload() {
    let writer = actor(1);
    let mut accounts = create_accounts(&writer);
    accounts[1].key = actor(50);
    let r = student_intro(&program(), &mut accounts, text(2000), text(2000));
    assert_eq!(r, Err(custom(IntroError::InvalidPDA)));
}

#[test]
fn create_refuses_a_slot_of_another_owner() {
    let writer = actor(1);
    let mut accounts = create_accounts(&writer);
    accounts[1].owner = actor(60);
    accounts[1].data = vec![0u8; 1000];
    let r = student_intro(&program(), &mut accounts, "Alice".to_string(), "hi".to_string());
    assert_eq!(r, Err(ProgramError::IllegalOwner));
    let mut accounts = create_accounts(&writer);
    accounts[2].owner = actor(60);
    accounts[2].data = vec![0u8; 20];
    let r = student_intro(&program(), &mut accounts, "Alice".to_string(), "hi".to_string());
    assert_eq!(r, Err(ProgramError::IllegalOwner));
}

#[test]
fn create_refuses_a_slot_without_a_record() {
    let writer = actor(1);
    let mut accounts = create_accounts(&writer);
    accounts[1].owner = program();
    accounts[1].data = vec![255u8; 1000];
    let before = accounts.clone();
    let r = student_intro(&program(), &mut accounts, "Alice".to_string(), "hi".to_string());
    assert_eq!(r, Err(ProgramError::InvalidAccountData));
    assert_eq!(accounts, before);
}

#[test]
fn create_fills_an_allocated_blank_slot_without_asking_for_it() {
    let writer = actor(1);
    let mut accounts = create_accounts(&writer);
    accounts[1].owner = program();
    accounts[1].data = vec![0u8; 1000];
    let effects =
        student_intro(&program(), &mut accounts, "Alice".to_string(), "hi".to_string()).unwrap();
    assert_eq!(effects.allocations.len(), 1);
    assert_eq!(effects.allocations[0].slot, accounts[2].key);
    assert_eq!(effects.invocations.len(), 1);
}

#[test]
fn create_refuses_a_slot_that_is_too_small() {
    let writer = actor(1);
    let mut accounts = create_accounts(&writer);
    accounts[1].owner = program();
    accounts[1].data = vec![0u8; 56];
    let before = accounts.clone();
    let r = student_intro(&program(), &mut accounts, "Alice".to_string(), "hi".to_string());
    assert_eq!(r, Err(ProgramError::BorshIoError));
    assert_eq!(accounts, before);
    accounts[1].data = vec![0u8; 57];
    let r = student_intro(&program(), &mut accounts, "Alice".to_string(), "hi".to_string());
    assert!(r.is_ok());
}

#[test]
fn update_replaces_the_message_only() {
    let writer = actor(1);
    let (created, _) = created(&writer, "Alice", "hi");
    let mut accounts = vec![created[0].clone(), created[1].clone()];
    let effects =
        update_intro(&program(), &mut accounts, "Mallory".to_string(), "hello".to_string())
            .unwrap();
    assert!(effects.allocations.is_empty());
    assert!(effects.invocations.is_empty());
    let intro = StudentIntroState::try_from_slice_unchecked(&accounts[1].data).unwrap();
    assert_eq!(intro.discriminator, "intro");
    assert!(intro.is_initialized);
    assert_eq!(intro.writer, writer);
    assert_eq!(intro.name, "Alice");
    assert_eq!(intro.message, "hello");
    assert_eq!(accounts[1].data.len(), 1000);
    assert_eq!(accounts[0], created[0]);
}

#[test]
fn update_with_a_shorter_message_keeps_the_slot_size() {
    let writer = actor(1);
    let (created, _) = created(&writer, "Alice", "a long first message");
    let mut accounts = vec![created[0].clone(), created[1].clone()];
    update_intro(&program(), &mut accounts, "Alice".to_string(), "x".to_string()).unwrap();
    let intro = StudentIntroState::try_from_slice_unchecked(&accounts[1].data).unwrap();
    assert_eq!(intro.message, "x");
    assert_eq!(accounts[1].data.len(), 1000);
}

#[test]
fn update_needs_two_slots() {
    let writer = actor(1);
    let (created, _) = created(&writer, "Alice", "hi");
    let mut accounts = vec![created[0].clone()];
    let r = update_intro(&program(), &mut accounts, "Alice".to_string(), "hello".to_string());
    assert_eq!(r, Err(ProgramError::NotEnoughAccountKeys));
    let mut accounts: Vec<Account> = Vec::new();
    let r = update_intro(&program(), &mut accounts, "Alice".to_string(), "hello".to_string());
    assert_eq!(r, Err(ProgramError::NotEnoughAccountKeys));
}

#[test]
fn update_refuses_a_slot_of_another_owner() {
    let writer = actor(1);
    let (created, _) = created(&writer, "Alice", "hi");
    let mut accounts = vec![created[0].clone(), created[1].clone()];
    accounts[1].owner = system_program();
    accounts[0].is_signer = false;
    let before = accounts.clone();
    let r = update_intro(&program(), &mut accounts, "Alice".to_string(), "hello".to_string());
    assert_eq!(r, Err(ProgramError::IllegalOwner));
    assert_eq!(accounts, before);
}

#[test]
fn update_needs_the_signature_of_the_actor() {
    let writer = actor(1);
    let (created, _) = created(&writer, "Alice", "hi");
    let mut accounts = vec![created[0].clone(), created[1].clone()];
    accounts[0].is_signer = false;
    let r = update_intro(&program(), &mut accounts, "Alice".to_string(), "hello".to_string());
    assert_eq!(r, Err(ProgramError::MissingRequiredSignature));
}

#[test]
fn update_of_a_foreign_slot_is_refused_whatever_the_payload() {
    let alice = actor(1);
    let bob = actor(2);
    let (of_alice, _) = created(&alice, "Alice", "hi");
    let payloads = [
        ("Bob".to_string(), "mine now".to_string()),
        (String::new(), String::new()),
        (text(5000), text(5000)),
        (text(400), text(550)),
    ];
    for (name, message) in payloads {
        let mut accounts = vec![signer(bob), of_alice[1].clone()];
        let before = accounts.clone();
        let r = update_intro(&program(), &mut accounts, name, message);
        assert_eq!(r, Err(custom(IntroError::InvalidPDA)));
        assert_eq!(r, Err(ProgramError::Custom(1)));
        assert_eq!(accounts, before);
    }
}

#[test]
fn update_of_a_foreign_slot_is_refused_even_if_nothing_is_stored() {
    let bob = actor(2);
    let mut stray = vacant(actor(77));
    stray.owner = program();
    let mut accounts = vec![signer(bob), stray];
    let r = update_intro(&program(), &mut accounts, "Bob".to_string(), "hello".to_string());
    assert_eq!(r, Err(custom(IntroError::InvalidPDA)));
}

#[test]
fn update_before_creation_is_refused() {
    let writer = actor(1);
    let mut slot = vacant(intro_of(&writer).0);
    slot.owner = program();
    let mut accounts = vec![signer(writer), slot];
    let r = update_intro(&program(), &mut accounts, "Alice".to_string(), "hello".to_string());
    assert_eq!(r, Err(custom(IntroError::UninitializedAccount)));
    assert_eq!(r, Err(ProgramError::Custom(0)));
    accounts[1].data = vec![0u8; 1000];
    let before = accounts.clone();
    let r = update_intro(&program(), &mut accounts, "Alice".to_string(), "hello".to_string());
    assert_eq!(r, Err(custom(IntroError::UninitializedAccount)));
    assert_eq!(accounts, before);
}

#[test]
fn update_refuses_a_slot_without_a_record() {
    let writer = actor(1);
    let mut slot = vacant(intro_of(&writer).0);
    slot.owner = program();
    slot.data = vec![9u8; 1000];
    let mut accounts = vec![signer(writer), slot];
    let r = update_intro(&program(), &mut accounts, "Alice".to_string(), "hello".to_string());
    assert_eq!(r, Err(ProgramError::InvalidAccountData));
}

#[test]
fn update_accepts_exactly_the_capacity() {
    let writer = actor(1);
    let name = text(400);
    let (created, _) = created(&writer, &name, "hi");
    let mut accounts = vec![created[0].clone(), created[1].clone()];
    let message = text(550);
    let r = update_intro(&program(), &mut accounts, name.clone(), message.clone());
    assert!(r.is_ok());
    let intro = StudentIntroState::try_from_slice_unchecked(&accounts[1].data).unwrap();
    assert_eq!(intro.name, name);
    assert_eq!(intro.message, message);
    assert_eq!(accounts[1].data.len(), 1000);
}

#[test]
fn update_refuses_one_byte_over_the_capacity() {
    let writer = actor(1);
    let name = text(400);
    let (created, _) = created(&writer, &name, "hi");
    let mut accounts = vec![created[0].clone(), created[1].clone()];
    let before = accounts.clone();
    let r = update_intro(&program(), &mut accounts, name, text(551));
    assert_eq!(r, Err(custom(IntroError::InvalidDataLength)));
    assert_eq!(accounts, before);
}

#[test]
fn update_holds_the_name_of_the_payload_against_the_capacity() {
    let writer = actor(1);
    let (created, _) = created(&writer, "Alice", "hi");
    let mut accounts = vec![created[0].clone(), created[1].clone()];
    let r = update_intro(&program(), &mut accounts, text(949), "hi".to_string());
    assert_eq!(r, Err(custom(IntroError::InvalidDataLength)));
    let r = update_intro(&program(), &mut accounts, text(948), "hi".to_string());
    assert!(r.is_ok());
    let intro = StudentIntroState::try_from_slice_unchecked(&accounts[1].data).unwrap();
    assert_eq!(intro.name, "Alice");
}

#[test]
fn update_refuses_a_record_that_outgrows_its_slot() {
    let writer = actor(1);
    let (created, _) = created(&writer, &text(400), "hi");
    let mut accounts = vec![created[0].clone(), created[1].clone()];
    let before = accounts.clone();
    // The payload fits by its own short name, the record with the stored
    // name does not.
    let r = update_intro(&program(), &mut accounts, "a".to_string(), text(700));
    assert_eq!(r, Err(ProgramError::BorshIoError));
    assert_eq!(accounts, before);
}

#[test]
fn reply_writes_the_record_and_advances_the_counter() {
    let alice = actor(1);
    let bob = actor(2);
    let (created, _) = created(&alice, "Alice", "hi");
    let mut accounts = reply_accounts(&bob, &created[1], &created[2], 0);
    let before = accounts.clone();
    reply_intro(&program(), &mut accounts, "Bob".to_string(), "welcome".to_string()).unwrap();
    let reply = StudentReplyState::try_from_slice_unchecked(&accounts[3].data).unwrap();
    assert_eq!(reply.discriminator, "reply");
    assert!(reply.is_initialized);
    assert_eq!(reply.intro, created[1].key);
    assert_eq!(reply.replier, bob);
    assert_eq!(reply.name, "Bob");
    assert_eq!(reply.message, "welcome");
    assert_eq!(accounts[3].data.len(), 1000);
    assert_eq!(accounts[3].owner, program());
    let counter = ReplyCount::try_from_slice_unchecked(&accounts[2].data).unwrap();
    assert_eq!(counter.counter, 1);
    assert_eq!(counter.discriminator, "counter");
    assert!(counter.is_initialized);
    assert_eq!(accounts[2].data.len(), 20);
    for i in [0, 1, 4, 5, 6, 7, 8] {
        assert_eq!(accounts[i], before[i]);
    }
}

#[test]
fn reply_asks_for_one_allocation_and_five_tokens() {
    let alice = actor(1);
    let bob = actor(2);
    let (created, _) = created(&alice, "Alice", "hi");
    let mut accounts = reply_accounts(&bob, &created[1], &created[2], 0);
    let effects =
        reply_intro(&program(), &mut accounts, "Bob".to_string(), "welcome".to_string()).unwrap();
    let (slot, salt) = reply_of(&created[1].key, 0);
    assert_eq!(effects.allocations.len(), 1);
    assert_eq!(effects.allocations[0].payer, bob);
    assert_eq!(effects.allocations[0].slot, slot);
    assert_eq!(effects.allocations[0].space, 1000);
    assert_eq!(effects.allocations[0].owner, program());
    assert_eq!(
        effects.allocations[0].signer_seeds,
        vec![created[1].key.bytes.to_vec(), vec![0, 0, 0, 0, 0, 0, 0, 0], vec![salt]]
    );
    assert_eq!(effects.invocations.len(), 1);
    let expected = spl_token::instruction::mint_to(
        &spl_token::id(),
        &key(&mint().0),
        &key(&wallet_of(&bob)),
        &key(&authority().0),
        &[],
        5_000_000_000,
    )
    .unwrap();
    assert_eq!(effects.invocations[0].instruction, converted(expected));
    assert_eq!(
        effects.invocations[0].signer_seeds,
        vec![b"token_auth".to_vec(), vec![authority().1]]
    );
}

#[test]
fn replies_take_consecutive_numbers() {
    let alice = actor(1);
    let (created, _) = created(&alice, "Alice", "hi");
    let intro = created[1].clone();
    let mut counter = created[2].clone();
    for k in 1..=20u64 {
        let replier = actor(100 + k as u8);
        let mut accounts = reply_accounts(&replier, &intro, &counter, k - 1);
        let expected = derive(&[&intro.key.bytes, &(k - 1).to_be_bytes()], &program()).0;
        assert_eq!(accounts[3].key, expected);
        reply_intro(&program(), &mut accounts, format!("r{}", k), format!("m{}", k)).unwrap();
        assert_eq!(accounts[3].key, expected);
        counter = accounts[2].clone();
        let count = ReplyCount::try_from_slice_unchecked(&counter.data).unwrap();
        assert_eq!(count.counter, k);
    }
}

#[test]
fn reply_at_a_stale_number_is_refused() {
    let alice = actor(1);
    let bob = actor(2);
    let (created, _) = created(&alice, "Alice", "hi");
    let mut first = reply_accounts(&bob, &created[1], &created[2], 0);
    reply_intro(&program(), &mut first, "Bob".to_string(), "welcome".to_string()).unwrap();
    // The slot of reply 0 again, against the counter that stands at 1.
    let mut accounts = reply_accounts(&bob, &first[1], &first[2], 0);
    let before = accounts.clone();
    let r = reply_intro(&program(), &mut accounts, "Bob".to_string(), "again".to_string());
    assert_eq!(r, Err(custom(IntroError::InvalidPDA)));
    assert_eq!(accounts, before);
    // And a number that is not reached yet.
    let mut accounts = reply_accounts(&bob, &first[1], &first[2], 2);
    let r = reply_intro(&program(), &mut accounts, "Bob".to_string(), "again".to_string());
    assert_eq!(r, Err(custom(IntroError::InvalidPDA)));
}

#[test]
fn reply_into_a_taken_slot_is_refused() {
    let alice = actor(1);
    let bob = actor(2);
    let (created, _) = created(&alice, "Alice", "hi");
    let mut first = reply_accounts(&bob, &created[1], &created[2], 0);
    reply_intro(&program(), &mut first, "Bob".to_string(), "welcome".to_string()).unwrap();
    // The reply is there, but the counter is handed in as it was before.
    let mut accounts = reply_accounts(&bob, &created[1], &created[2], 0);
    accounts[3] = first[3].clone();
    let before = accounts.clone();
    let r = reply_intro(&program(), &mut accounts, "Bob".to_string(), "again".to_string());
    assert_eq!(r, Err(ProgramError::AccountAlreadyInitialized));
    assert_eq!(accounts, before);
}

#[test]
fn reply_needs_nine_slots() {
    let alice = actor(1);
    let bob = actor(2);
    let (created, _) = created(&alice, "Alice", "hi");
    for n in 0..9 {
        let mut accounts = reply_accounts(&bob, &created[1], &created[2], 0);
        accounts.truncate(n);
        let r = reply_intro(&program(), &mut accounts, "Bob".to_string(), "welcome".to_string());
        assert_eq!(r, Err(ProgramError::NotEnoughAccountKeys));
    }
}

#[test]
fn reply_needs_the_signature_of_the_actor() {
    let alice = actor(1);
    let bob = actor(2);
    let (created, _) = created(&alice, "Alice", "hi");
    let mut accounts = reply_accounts(&bob, &created[1], &created[2], 0);
    accounts[0].is_signer = false;
    let before = accounts.clone();
    let r = reply_intro(&program(), &mut accounts, "Bob".to_string(), "welcome".to_string());
    assert_eq!(r, Err(ProgramError::MissingRequiredSignature));
    assert_eq!(accounts, before);
}

#[test]
fn unsigned_reply_with_a_wrong_reward_reference_is_refused_for_the_reference() {
    let alice = actor(1);
    let bob = actor(2);
    let (created, _) = created(&alice, "Alice", "hi");
    for position in [4, 5, 6, 8] {
        let mut accounts = reply_accounts(&bob, &created[1], &created[2], 0);
        accounts[0].is_signer = false;
        accounts[position].key = actor(99);
        let before = accounts.clone();
        let r = reply_intro(&program(), &mut accounts, "Bob".to_string(), "welcome".to_string());
        assert_eq!(r, Err(ProgramError::Custom(3)), "position {}", position);
        assert_eq!(accounts, before);
    }
}

#[test]
fn unsigned_reply_at_a_wrong_address_is_refused_for_the_address() {
    let alice = actor(1);
    let bob = actor(2);
    let (created, _) = created(&alice, "Alice", "hi");
    let mut first = reply_accounts(&bob, &created[1], &created[2], 0);
    reply_intro(&program(), &mut first, "Bob".to_string(), "welcome".to_string()).unwrap();
    // The counter stands at 1: the slots for 0 and for 2 are wrong, and so is
    // the slot for the count laid out least significant byte first.
    let little_endian = derive(&[&first[1].key.bytes, &1u64.to_le_bytes()], &program()).0;
    let wrong = [reply_of(&first[1].key, 0).0, reply_of(&first[1].key, 2).0, little_endian];
    for slot in wrong {
        for signed in [true, false] {
            let mut accounts = reply_accounts(&bob, &first[1], &first[2], 1);
            accounts[0].is_signer = signed;
            accounts[3] = vacant(slot);
            let before = accounts.clone();
            let r =
                reply_intro(&program(), &mut accounts, "Bob".to_string(), "again".to_string());
            assert_eq!(r, Err(ProgramError::Custom(1)));
            assert_eq!(accounts, before);
        }
    }
}

#[test]
fn unsigned_reply_is_refused_before_the_payload_is_measured() {
    let alice = actor(1);
    let bob = actor(2);
    let (created, _) = created(&alice, "Alice", "hi");
    let mut accounts = reply_accounts(&bob, &created[1], &created[2], 0);
    accounts[0].is_signer = false;
    let before = accounts.clone();
    let r = reply_intro(&program(), &mut accounts, text(18), text(5000));
    assert_eq!(r, Err(ProgramError::MissingRequiredSignature));
    assert_eq!(accounts, before);
}

#[test]
fn unsigned_reply_to_a_counter_of_another_owner_is_refused_for_the_owner() {
    let alice = actor(1);
    let bob = actor(2);
    let (created, _) = created(&alice, "Alice", "hi");
    let mut accounts = reply_accounts(&bob, &created[1], &created[2], 0);
    accounts[0].is_signer = false;
    accounts[2].owner = actor(60);
    accounts[3].key = actor(61);
    let r = reply_intro(&program(), &mut accounts, "Bob".to_string(), "welcome".to_string());
    assert_eq!(r, Err(ProgramError::IllegalOwner));
}

#[test]
fn reply_refuses_wrong_reward_references() {
    let alice = actor(1);
    let bob = actor(2);
    let (created, _) = created(&alice, "Alice", "hi");
    for position in 4..9 {
        let mut accounts = reply_accounts(&bob, &created[1], &created[2], 0);
        accounts[position].key = actor(99);
        let before = accounts.clone();
        let r = reply_intro(&program(), &mut accounts, "Bob".to_string(), "welcome".to_string());
        assert_eq!(r, Err(custom(IntroError::IncorrectAccountError)), "position {}", position);
        assert_eq!(accounts, before);
    }
}

#[test]
fn reply_refuses_the_counter_of_another_introduction() {
    let alice = actor(1);
    let carol = actor(3);
    let bob = actor(2);
    let (of_alice, _) = created(&alice, "Alice", "hi");
    let (of_carol, _) = created(&carol, "Carol", "hey");
    let mut accounts = reply_accounts(&bob, &of_alice[1], &of_carol[2], 0);
    let before = accounts.clone();
    let r = reply_intro(&program(), &mut accounts, "Bob".to_string(), "welcome".to_string());
    assert_eq!(r, Err(custom(IntroError::InvalidPDA)));
    assert_eq!(accounts, before);
}

#[test]
fn reply_refuses_a_counter_of_another_owner() {
    let alice = actor(1);
    let bob = actor(2);
    let (created, _) = created(&alice, "Alice", "hi");
    let mut accounts = reply_accounts(&bob, &created[1], &created[2], 0);
    accounts[2].owner = actor(60);
    let r = reply_intro(&program(), &mut accounts, "Bob".to_string(), "welcome".to_string());
    assert_eq!(r, Err(ProgramError::IllegalOwner));
}

#[test]
fn reply_before_creation_is_refused() {
    let alice = actor(1);
    let bob = actor(2);
    let (intro, _) = intro_of(&alice);
    let mut counter = vacant(counter_of(&intro).0);
    counter.owner = program();
    let mut accounts = reply_accounts(&bob, &vacant(intro), &counter, 0);
    let r = reply_intro(&program(), &mut accounts, "Bob".to_string(), "welcome".to_string());
    assert_eq!(r, Err(custom(IntroError::UninitializedAccount)));
    accounts[2].data = vec![0u8; 20];
    let r = reply_intro(&program(), &mut accounts, "Bob".to_string(), "welcome".to_string());
    assert_eq!(r, Err(custom(IntroError::UninitializedAccount)));
    accounts[2].data = vec![3u8; 20];
    let r = reply_intro(&program(), &mut accounts, "Bob".to_string(), "welcome".to_string());
    assert_eq!(r, Err(ProgramError::InvalidAccountData));
}

#[test]
fn reply_accepts_exactly_the_capacity() {
    let alice = actor(1);
    let bob = actor(2);
    let (created, _) = created(&alice, "Alice", "hi");
    let mut accounts = reply_accounts(&bob, &created[1], &created[2], 0);
    let name = text(18);
    let message = text(900);
    assert_eq!(StudentReplyState::get_account_size(name.clone(), message.clone()), 1000);
    let r = reply_intro(&program(), &mut accounts, name, message.clone());
    assert!(r.is_ok());
    let reply = StudentReplyState::try_from_slice_unchecked(&accounts[3].data).unwrap();
    assert_eq!(reply.message, message);
}

#[test]
fn reply_refuses_one_byte_over_the_capacity() {
    let alice = actor(1);
    let bob = actor(2);
    let (created, _) = created(&alice, "Alice", "hi");
    let mut accounts = reply_accounts(&bob, &created[1], &created[2], 0);
    let before = accounts.clone();
    let r = reply_intro(&program(), &mut accounts, text(18), text(901));
    assert_eq!(r, Err(custom(IntroError::InvalidDataLength)));
    assert_eq!(accounts, before);
}

#[test]
fn reply_refuses_a_slot_of_another_owner() {
    let alice = actor(1);
    let bob = actor(2);
    let (created, _) = created(&alice, "Alice", "hi");
    let mut accounts = reply_accounts(&bob, &created[1], &created[2], 0);
    accounts[3].owner = actor(60);
    accounts[3].data = vec![0u8; 1000];
    let r = reply_intro(&program(), &mut accounts, "Bob".to_string(), "welcome".to_string());
    assert_eq!(r, Err(ProgramError::IllegalOwner));
    accounts[3].owner = program();
    accounts[3].data = vec![0u8; 88];
    let r = reply_intro(&program(), &mut accounts, "Bob".to_string(), "hello".to_string());
    assert_eq!(r, Err(ProgramError::BorshIoError));
    accounts[3].data = vec![7u8; 1000];
    let r = reply_intro(&program(), &mut accounts, "Bob".to_string(), "hello".to_string());
    assert_eq!(r, Err(ProgramError::InvalidAccountData));
}

#[test]
fn reply_cannot_advance_a_full_counter() {
    let alice = actor(1);
    let bob = actor(2);
    let (created, _) = created(&alice, "Alice", "hi");
    let full = ReplyCount {
        discriminator: "counter".to_string(),
        is_initialized: true,
        counter: u64::MAX,
    };
    let mut counter = created[2].clone();
    counter.data = full.try_to_vec().unwrap();
    let mut accounts = reply_accounts(&bob, &created[1], &counter, u64::MAX);
    let before = accounts.clone();
    let r = reply_intro(&program(), &mut accounts, "Bob".to_string(), "welcome".to_string());
    assert_eq!(r, Err(ProgramError::ArithmeticOverflow));
    assert_eq!(accounts, before);
}

#[test]
fn setup_allocates_the_mint_for_the_token_program() {
    let payer = actor(9);
    let mut accounts = setup_accounts(&payer);
    let before = accounts.clone();
    let effects = initialize_token_mint(&program(), &mut accounts).unwrap();
    let (slot, salt) = mint();
    assert_eq!(effects.allocations.len(), 1);
    assert_eq!(effects.allocations[0].payer, payer);
    assert_eq!(effects.allocations[0].slot, slot);
    assert_eq!(effects.allocations[0].space, 82);
    assert_eq!(effects.allocations[0].owner, token_program());
    assert_eq!(effects.allocations[0].signer_seeds, vec![b"token_mint".to_vec(), vec![salt]]);
    assert_eq!(effects.invocations.len(), 1);
    let expected = spl_token::instruction::initialize_mint(
        &spl_token::id(),
        &key(&slot),
        &key(&authority().0),
        None,
        9,
    )
    .unwrap();
    assert_eq!(effects.invocations[0].instruction, converted(expected));
    assert_eq!(effects.invocations[0].instruction.data.len(), 35);
    assert_eq!(effects.invocations[0].instruction.data[0], 0);
    assert_eq!(effects.invocations[0].instruction.data[1], 9);
    assert_eq!(effects.invocations[0].instruction.data[34], 0);
    assert_eq!(effects.invocations[0].signer_seeds, vec![b"token_mint".to_vec(), vec![salt]]);
    assert_eq!(accounts[1].owner, token_program());
    assert_eq!(accounts[1].data, vec![0u8; 82]);
    for i in [0, 2, 3, 4, 5] {
        assert_eq!(accounts[i], before[i]);
    }
}

#[test]
fn setup_twice_is_refused_the_second_time() {
    let payer = actor(9);
    let mut accounts = setup_accounts(&payer);
    initialize_token_mint(&program(), &mut accounts).unwrap();
    let left = accounts.clone();
    let again = initialize_token_mint(&program(), &mut accounts);
    assert_eq!(again, Err(ProgramError::AccountAlreadyInitialized));
    assert_eq!(accounts, left);
}

#[test]
fn setup_needs_six_slots() {
    let payer = actor(9);
    for n in 0..6 {
        let mut accounts = setup_accounts(&payer);
        accounts.truncate(n);
        let r = initialize_token_mint(&program(), &mut accounts);
        assert_eq!(r, Err(ProgramError::NotEnoughAccountKeys));
    }
}

#[test]
fn setup_refuses_wrong_references() {
    let payer = actor(9);
    for position in 1..6 {
        let mut accounts = setup_accounts(&payer);
        accounts[position].key = actor(99);
        let before = accounts.clone();
        let r = initialize_token_mint(&program(), &mut accounts);
        assert_eq!(r, Err(custom(IntroError::IncorrectAccountError)), "position {}", position);
        assert_eq!(accounts, before);
    }
}

#[test]
fn setup_does_not_ask_for_a_signature() {
    let payer = actor(9);
    let mut accounts = setup_accounts(&payer);
    accounts[0].is_signer = false;
    assert!(initialize_token_mint(&program(), &mut accounts).is_ok());
}

#[test]
fn another_program_derives_other_addresses() {
    let writer = actor(1);
    let mut accounts = create_accounts(&writer);
    let other = Address::new([8u8; 32]);
    let r = student_intro(&other, &mut accounts, "Alice".to_string(), "hi".to_string());
    assert_eq!(r, Err(custom(IntroError::InvalidPDA)));
}

#[test]
fn dispatch_hands_each_operation_to_its_handler() {
    let alice = actor(1);
    let bob = actor(2);
    let mut accounts = create_accounts(&alice);
    let made = dispatch(
        &program(),
        &mut accounts,
        StudentInstruction::StudentIntro { name: "Alice".to_string(), message: "hi".to_string() },
    )
    .unwrap();
    assert_eq!(made.allocations.len(), 2);
    let mut update = vec![accounts[0].clone(), accounts[1].clone()];
    let updated = dispatch(
        &program(),
        &mut update,
        StudentInstruction::UpdateIntro { name: "Alice".to_string(), message: "yo".to_string() },
    )
    .unwrap();
    assert!(updated.invocations.is_empty());
    let mut reply = reply_accounts(&bob, &accounts[1], &accounts[2], 0);
    let replied = dispatch(
        &program(),
        &mut reply,
        StudentInstruction::ReplyIntro { name: "Bob".to_string(), message: "yo".to_string() },
    )
    .unwrap();
    assert_eq!(replied.allocations.len(), 1);
    let mut setup = setup_accounts(&alice);
    let set = dispatch(&program(), &mut setup, StudentInstruction::InitializeMint).unwrap();
    assert_eq!(set.allocations[0].space, 82);
}

fn encoded(opcode: u8, name: &str, message: &str) -> Vec<u8> {
    let mut bytes = vec![opcode];
    bytes.extend_from_slice(&(name.len() as u32).to_le_bytes());
    bytes.extend_from_slice(name.as_bytes());
    bytes.extend_from_slice(&(message.len() as u32).to_le_bytes());
    bytes.extend_from_slice(message.as_bytes());
    bytes
}

#[test]
fn process_instruction_decodes_and_dispatches() {
    let alice = actor(1);
    let bob = actor(2);
    let mut accounts = create_accounts(&alice);
    let made = process_instruction(&program(), &mut accounts, &encoded(0, "Alice", "hi")).unwrap();
    assert_eq!(made.invocations[0].instruction.data, vec![7, 0, 228, 11, 84, 2, 0, 0, 0]);
    let mut update = vec![accounts[0].clone(), accounts[1].clone()];
    process_instruction(&program(), &mut update, &encoded(1, "ignored", "hello")).unwrap();
    let intro = StudentIntroState::try_from_slice_unchecked(&update[1].data).unwrap();
    assert_eq!(intro.name, "Alice");
    assert_eq!(intro.message, "hello");
    let mut reply = reply_accounts(&bob, &update[1], &accounts[2], 0);
    let replied = process_instruction(&program(), &mut reply, &encoded(2, "Bob", "welcome")).unwrap();
    assert_eq!(replied.invocations[0].instruction.data, vec![7, 0, 242, 5, 42, 1, 0, 0, 0]);
}

#[test]
fn process_instruction_refuses_malformed_operations() {
    let alice = actor(1);
    let mut accounts = create_accounts(&alice);
    let before = accounts.clone();
    let mut trailing = encoded(0, "Alice", "hi");
    trailing.push(0);
    let mut cut = encoded(0, "Alice", "hi");
    cut.pop();
    for data in [Vec::new(), vec![0], vec![3], encoded(3, "Alice", "hi"), trailing, cut] {
        let r = process_instruction(&program(), &mut accounts, &data);
        assert_eq!(r, Err(ProgramError::InvalidInstructionData));
        assert_eq!(accounts, before);
    }
}
