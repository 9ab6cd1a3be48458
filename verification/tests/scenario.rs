use std::collections::HashMap;

use solana_program::pubkey::Pubkey;
use student_intro::account::{Account, Effects};
use student_intro::address::Address;
use student_intro::error::ProgramError;
use student_intro::processor::{initialize_token_mint, process_instruction};
use student_intro::state::{ReplyCount, StudentIntroState, StudentReplyState};

/// A host for the ledger: it keeps the slots, allocates what is asked, and
/// keeps the balances that the issued rewards add up to.
struct Host {
    program: Address,
    slots: HashMap<[u8; 32], (Address, Vec<u8>)>,
    balances: HashMap<[u8; 32], u64>,
    allocated: Vec<Address>,
}

fn host_key(a: &Address) -> Pubkey {
    Pubkey::new_from_array(a.bytes)
}

fn person(tag: u8) -> Address {
    let mut bytes = [0u8; 32];
    bytes[0] = tag;
    bytes[17] = 3;
    Address::new(bytes)
}

fn operation_bytes(opcode: u8, name: &str, message: &str) -> Vec<u8> {
    let mut bytes = vec![opcode];
    bytes.extend_from_slice(&(name.len() as u32).to_le_bytes());
    bytes.extend_from_slice(name.as_bytes());
    bytes.extend_from_slice(&(message.len() as u32).to_le_bytes());
    bytes.extend_from_slice(message.as_bytes());
    bytes
}

impl Host {
    fn new() -> Host {
        Host {
            program: Address::new([42u8; 32]),
            slots: HashMap::new(),
            balances: HashMap::new(),
            allocated: Vec::new(),
        }
    }

    fn derive(&self, seeds: &[&[u8]]) -> Address {
        Address::new(Pubkey::find_program_address(seeds, &host_key(&self.program)).0.to_bytes())
    }

    fn intro_of(&self, writer: &Address) -> Address {
        self.derive(&[&writer.bytes, b"intro"])
    }

    fn counter_of(&self, intro: &Address) -> Address {
        self.derive(&[&intro.bytes, b"counter"])
    }

    fn reply_of(&self, intro: &Address, n: u64) -> Address {
        self.derive(&[&intro.bytes, &n.to_be_bytes()])
    }

    fn mint(&self) -> Address {
        self.derive(&[b"token_mint"])
    }

    fn wallet_of(&self, owner: &Address) -> Address {
        Address::new(
            spl_associated_token_account::get_associated_token_address(
                &host_key(owner),
                &host_key(&self.mint()),
            )
            .to_bytes(),
        )
    }

    fn slot(&self, at: Address, is_signer: bool) -> Account {
        match self.slots.get(&at.bytes) {
            Some((owner, data)) => {
                Account { key: at, is_signer, owner: *owner, data: data.clone() }
            }
            None => Account {
                key: at,
                is_signer,
                owner: Address::new(solana_program::system_program::id().to_bytes()),
                data: Vec::new(),
            },
        }
    }

    fn reward_slots(&self, who: &Address) -> Vec<Account> {
        vec![
            self.slot(self.mint(), false),
            self.slot(self.derive(&[b"token_auth"]), false),
            self.slot(self.wallet_of(who), false),
            self.slot(Address::new(solana_program::system_program::id().to_bytes()), false),
            self.slot(Address::new(spl_token::id().to_bytes()), false),
        ]
    }

    /// Keeps what a successful operation has left, and does what it asks.
    fn commit(&mut self, accounts: Vec<Account>, effects: &Effects) {
        for asked in &effects.allocations {
            assert!(!self.slots.contains_key(&asked.slot.bytes));
            self.allocated.push(asked.slot);
        }
        for account in accounts {
            if !account.data.is_empty() {
                self.slots.insert(account.key.bytes, (account.owner, account.data));
            }
        }
        for asked in &effects.invocations {
            let data = &asked.instruction.data;
            if asked.instruction.program_id.bytes == spl_token::id().to_bytes() && data[0] == 7 {
                let mut amount = [0u8; 8];
                amount.copy_from_slice(&data[1..9]);
                let to = asked.instruction.accounts[1].pubkey;
                *self.balances.entry(to.bytes).or_insert(0) += u64::from_le_bytes(amount);
            }
        }
    }

    fn run(&mut self, mut accounts: Vec<Account>, data: &[u8]) -> Result<(), ProgramError> {
        let effects = process_instruction(&self.program, &mut accounts, data)?;
        self.commit(accounts, &effects);
        Ok(())
    }

    fn setup(&mut self, payer: &Address) -> Result<(), ProgramError> {
        let mut accounts = vec![
            self.slot(*payer, true),
            self.slot(self.mint(), false),
            self.slot(self.derive(&[b"token_auth"]), false),
            self.slot(Address::new(solana_program::system_program::id().to_bytes()), false),
            self.slot(Address::new(spl_token::id().to_bytes()), false),
            self.slot(Address::new(solana_program::sysvar::rent::id().to_bytes()), false),
        ];
        let effects = initialize_token_mint(&self.program, &mut accounts)?;
        self.commit(accounts, &effects);
        Ok(())
    }

    fn create(&mut self, writer: &Address, name: &str, message: &str) -> Result<(), ProgramError> {
        let intro = self.intro_of(writer);
        let mut accounts = vec![
            self.slot(*writer, true),
            self.slot(intro, false),
            self.slot(self.counter_of(&intro), false),
        ];
        accounts.extend(self.reward_slots(writer));
        self.run(accounts, &operation_bytes(0, name, message))
    }

    fn update(&mut self, writer: &Address, name: &str, message: &str) -> Result<(), ProgramError> {
        let accounts = vec![self.slot(*writer, true), self.slot(self.intro_of(writer), false)];
        self.run(accounts, &operation_bytes(1, name, message))
    }

    fn reply(
        &mut self,
        replier: &Address,
        intro: &Address,
        name: &str,
        message: &str,
    ) -> Result<(), ProgramError> {
        let n = self.count(intro);
        let mut accounts = vec![
            self.slot(*replier, true),
            self.slot(*intro, false),
            self.slot(self.counter_of(intro), false),
            self.slot(self.reply_of(intro, n), false),
        ];
        accounts.extend(self.reward_slots(replier));
        self.run(accounts, &operation_bytes(2, name, message))
    }

    fn count(&self, intro: &Address) -> u64 {
        match self.slots.get(&self.counter_of(intro).bytes) {
            Some((_, data)) => ReplyCount::try_from_slice_unchecked(data).unwrap().counter,
            None => 0,
        }
    }

    fn intro(&self, writer: &Address) -> StudentIntroState {
        let (_, data) = &self.slots[&self.intro_of(writer).bytes];
        StudentIntroState::try_from_slice_unchecked(data).unwrap()
    }

    fn balance(&self, who: &Address) -> u64 {
        *self.balances.get(&self.wallet_of(who).bytes).unwrap_or(&0)
    }
}

const TOKEN: u64 = 1_000_000_000;

#[test]
fn introduction_reply_and_update_end_to_end() {
    let mut host = Host::new();
    let a = person(1);
    let b = person(2);
    host.setup(&person(9)).unwrap();

    host.create(&a, "Alice", "hi").unwrap();
    let intro = host.intro_of(&a);
    let record = host.intro(&a);
    assert!(record.is_initialized);
    assert_eq!(record.writer, a);
    assert_eq!(record.name, "Alice");
    assert_eq!(record.message, "hi");
    assert_eq!(host.count(&intro), 0);
    assert!(host.slots.contains_key(&host.counter_of(&intro).bytes));
    assert_eq!(host.balance(&a), 10 * TOKEN);

    host.reply(&b, &intro, "Bob", "welcome").unwrap();
    let at = host.reply_of(&intro, 0);
    let (owner, data) = &host.slots[&at.bytes];
    assert_eq!(*owner, host.program);
    let reply = StudentReplyState::try_from_slice_unchecked(data).unwrap();
    assert!(reply.is_initialized);
    assert_eq!(reply.intro, intro);
    assert_eq!(reply.replier, b);
    assert_eq!(reply.message, "welcome");
    assert_eq!(host.count(&intro), 1);
    assert_eq!(host.balance(&b), 5 * TOKEN);
    assert_eq!(host.balance(&a), 10 * TOKEN);

    host.update(&a, "Alice", "hello").unwrap();
    let record = host.intro(&a);
    assert_eq!(record.message, "hello");
    assert_eq!(record.name, "Alice");
    assert!(record.is_initialized);
    assert_eq!(host.balance(&a), 10 * TOKEN);
    assert_eq!(host.balance(&b), 5 * TOKEN);
    assert_eq!(host.count(&intro), 1);
}

#[test]
fn every_identity_creates_once() {
    let mut host = Host::new();
    host.setup(&person(9)).unwrap();
    for tag in 1..8u8 {
        let who = person(tag);
        assert_eq!(host.create(&who, "Name", "first"), Ok(()));
        assert_eq!(
            host.create(&who, "Name", "second"),
            Err(ProgramError::AccountAlreadyInitialized)
        );
        assert_eq!(host.intro(&who).message, "first");
        assert_eq!(host.balance(&who), 10 * TOKEN);
    }
}

#[test]
fn setup_runs_once() {
    let mut host = Host::new();
    assert_eq!(host.setup(&person(9)), Ok(()));
    assert_eq!(host.setup(&person(9)), Err(ProgramError::AccountAlreadyInitialized));
    assert_eq!(host.setup(&person(8)), Err(ProgramError::AccountAlreadyInitialized));
    assert_eq!(host.allocated, vec![host.mint()]);
}

#[test]
fn replies_are_numbered_without_gaps() {
    let mut host = Host::new();
    let a = person(1);
    host.create(&a, "Alice", "hi").unwrap();
    let intro = host.intro_of(&a);
    for k in 1..=12u64 {
        let replier = person(20 + (k % 3) as u8);
        host.reply(&replier, &intro, "r", &format!("reply {}", k)).unwrap();
        assert_eq!(host.count(&intro), k);
        let at = host.reply_of(&intro, k - 1);
        let (_, data) = &host.slots[&at.bytes];
        let reply = StudentReplyState::try_from_slice_unchecked(data).unwrap();
        assert_eq!(reply.message, format!("reply {}", k));
        assert_eq!(reply.replier, replier);
        assert!(!host.slots.contains_key(&host.reply_of(&intro, k).bytes));
    }
    assert_eq!(host.allocated.len(), 2 + 12);
}

#[test]
fn each_introduction_has_its_own_thread() {
    let mut host = Host::new();
    let a = person(1);
    let b = person(2);
    host.create(&a, "Alice", "hi").unwrap();
    host.create(&b, "Bob", "yo").unwrap();
    let of_a = host.intro_of(&a);
    let of_b = host.intro_of(&b);
    host.reply(&b, &of_a, "Bob", "one").unwrap();
    host.reply(&b, &of_a, "Bob", "two").unwrap();
    host.reply(&a, &of_b, "Alice", "three").unwrap();
    assert_eq!(host.count(&of_a), 2);
    assert_eq!(host.count(&of_b), 1);
    assert_eq!(host.balance(&a), 15 * TOKEN);
    assert_eq!(host.balance(&b), 20 * TOKEN);
}

#[test]
fn rewards_add_up_over_a_run_of_operations() {
    let mut host = Host::new();
    host.setup(&person(9)).unwrap();
    let a = person(1);
    let b = person(2);
    let mut due_a = 0u64;
    let mut due_b = 0u64;
    assert!(host.update(&a, "Alice", "too early").is_err());
    assert!(host.reply(&b, &host.intro_of(&a), "Bob", "too early").is_err());
    host.create(&a, "Alice", "hi").unwrap();
    due_a += 10;
    assert!(host.create(&a, "Alice", "hi").is_err());
    for round in 0..5 {
        host.reply(&b, &host.intro_of(&a), "Bob", "again").unwrap();
        due_b += 5;
        host.update(&a, "Alice", &format!("round {}", round)).unwrap();
        assert!(host.create(&a, "A", &"x".repeat(2000)).is_err());
        host.reply(&a, &host.intro_of(&a), "Alice", "to myself").unwrap();
        due_a += 5;
        assert_eq!(host.balance(&a), due_a * TOKEN);
        assert_eq!(host.balance(&b), due_b * TOKEN);
    }
    host.create(&b, "Bob", "yo").unwrap();
    due_b += 10;
    assert_eq!(host.balance(&a), 35 * TOKEN);
    assert_eq!(host.balance(&a), due_a * TOKEN);
    assert_eq!(host.balance(&b), 35 * TOKEN);
    assert_eq!(host.balance(&b), due_b * TOKEN);
    assert_eq!(host.balance(&person(9)), 0);
}

#[test]
fn a_failed_operation_changes_nothing() {
    let mut host = Host::new();
    let a = person(1);
    let b = person(2);
    host.create(&a, "Alice", "hi").unwrap();
    let slots = host.slots.clone();
    let balances = host.balances.clone();
    assert!(host.create(&a, "Alice", "again").is_err());
    assert!(host.update(&b, "Bob", "nothing there").is_err());
    assert!(host.update(&a, "Alice", &"x".repeat(1000)).is_err());
    assert!(host.reply(&b, &host.intro_of(&b), "Bob", "no such thread").is_err());
    assert!(host.reply(&b, &host.intro_of(&a), "Bob", &"x".repeat(1000)).is_err());
    assert_eq!(host.slots, slots);
    assert_eq!(host.balances, balances);
}
