//! What holds of the operations of the ledger, whatever they are handed.

use crate::account::{AccountView, EffectsView, InvocationView};
use crate::error::{custom, IntroError, ProgramError};
use crate::instruction::StudentInstructionView;
use crate::processor::{
    active_counter, advanced, allocated, blank_counter, blank_intro, blank_reply, dispatch_spec,
    initialize_token_mint_spec, new_counter, new_intro, new_reply, reply_intro_reference_fault, reply_intro_spec, reward_references_hold,
    student_intro_reference_fault,
    student_intro_spec, update_intro_reference_fault, update_intro_spec, with_message,
    RECORD_CAPACITY,
};
use crate::state::{
    counter_bytes, intro_bytes, intro_tag, lemma_counter_round_trip, lemma_intro_round_trip,
    lemma_parse_counter_zeros, lemma_parse_intro_zeros, lemma_parse_reply_zeros,
    lemma_reply_round_trip, lemma_tag_lengths, parse_counter, parse_intro, parse_reply,
    reply_bytes, ReplyCount, StudentIntroState, StudentIntroView, StudentReplyState,
};
use crate::token::{
    issued_by, mint_to_instruction, BASE_UNITS_PER_TOKEN, INTRO_REWARD_TOKENS,
    REPLY_REWARD_TOKENS,
};
use crate::validation::{intro_seeds, is_derived, reply_seeds};
use crate::wire::{le_u64, lemma_le_u64_round_trip, lemma_parse_string_layout, parse_string};
use vstd::prelude::*;
use vstd::utf8::encode_utf8;

verus! {

/// An introduction is created once. After a creation has succeeded, another
/// creation on the slots that it left, with any name and message that fit a
/// slot, ends with `AccountAlreadyInitialized`.
pub proof fn lemma_second_creation_is_refused(
    program: Seq<u8>,
    accounts: Seq<AccountView>,
    name: Seq<char>,
    message: Seq<char>,
    name_again: Seq<char>,
    message_again: Seq<char>,
)
    requires
        student_intro_spec(program, accounts, name, message) is Ok,
        accounts[0].key.len() == 32,
        StudentIntroState::spec_account_size(name_again, message_again) <= RECORD_CAPACITY,
    ensures
        student_intro_spec(
            program,
            student_intro_spec(program, accounts, name, message)->Ok_0.0,
            name_again,
            message_again,
        ) == Err::<(Seq<AccountView>, EffectsView), ProgramError>(
            ProgramError::AccountAlreadyInitialized,
        ),
{
    let record = new_intro(accounts[0].key, name, message);
    let intro_data = blank_intro(program, accounts[1])->Ok_0;
    lemma_tag_lengths();
    lemma_intro_round_trip(record, intro_data.skip(intro_bytes(record).len() as int));
}

/// A creation leaves the introduction as it was given, marked as initialized
/// and with the actor as its writer, and leaves the reply counter at zero.
pub proof fn lemma_creation_writes_records(
    program: Seq<u8>,
    accounts: Seq<AccountView>,
    name: Seq<char>,
    message: Seq<char>,
)
    requires
        student_intro_spec(program, accounts, name, message) is Ok,
        accounts[0].key.len() == 32,
    ensures
        parse_intro(student_intro_spec(program, accounts, name, message)->Ok_0.0[1].data) == Some(
            new_intro(accounts[0].key, name, message),
        ),
        parse_counter(student_intro_spec(program, accounts, name, message)->Ok_0.0[2].data)
            == Some(new_counter(0)),
{
    let record = new_intro(accounts[0].key, name, message);
    let intro_data = blank_intro(program, accounts[1])->Ok_0;
    let counter_data = blank_counter(program, accounts[2])->Ok_0;
    lemma_tag_lengths();
    lemma_intro_round_trip(record, intro_data.skip(intro_bytes(record).len() as int));
    lemma_counter_round_trip(
        new_counter(0),
        counter_data.skip(counter_bytes(new_counter(0)).len() as int),
    );
}

/// An update changes the message of the introduction and nothing else of it:
/// the name, the writer and the marks stay as they were.
pub proof fn lemma_update_changes_message_only(
    program: Seq<u8>,
    accounts: Seq<AccountView>,
    name: Seq<char>,
    message: Seq<char>,
)
    requires
        update_intro_spec(program, accounts, name, message) is Ok,
    ensures
        parse_intro(accounts[1].data) is Some,
        parse_intro(update_intro_spec(program, accounts, name, message)->Ok_0.0[1].data) == Some(
            with_message(parse_intro(accounts[1].data)->Some_0, message),
        ),
        update_intro_spec(program, accounts, name, message)->Ok_0.0[1].data.len()
            == accounts[1].data.len(),
{
    let data = accounts[1].data;
    let stored = parse_intro(data)->Some_0;
    let n1 = parse_string(data)->Some_0.1;
    let record = with_message(stored, message);
    lemma_parse_string_layout(data);
    lemma_parse_string_layout(data.skip(n1 + 33));
    lemma_intro_round_trip(record, data.skip(intro_bytes(record).len() as int));
}

/// A reply is written once. The slot that a successful reply leaves is no
/// place for another reply: one is refused there with
/// `AccountAlreadyInitialized`.
pub proof fn lemma_reply_is_written_once(
    program: Seq<u8>,
    accounts: Seq<AccountView>,
    name: Seq<char>,
    message: Seq<char>,
)
    requires
        reply_intro_spec(program, accounts, name, message) is Ok,
        accounts[0].key.len() == 32,
        accounts[1].key.len() == 32,
    ensures
        parse_reply(reply_intro_spec(program, accounts, name, message)->Ok_0.0[3].data) == Some(
            new_reply(accounts[1].key, accounts[0].key, name, message),
        ),
        blank_reply(program, reply_intro_spec(program, accounts, name, message)->Ok_0.0[3])
            == Err::<Seq<u8>, ProgramError>(ProgramError::AccountAlreadyInitialized),
{
    let record = new_reply(accounts[1].key, accounts[0].key, name, message);
    let reply_data = blank_reply(program, accounts[3])->Ok_0;
    lemma_tag_lengths();
    lemma_reply_round_trip(record, reply_data.skip(reply_bytes(record).len() as int));
}

/// A reply takes the address that its introduction and the number of the
/// replies before it derive, and leaves the reply counter one higher.
pub proof fn lemma_reply_takes_next_number(
    program: Seq<u8>,
    accounts: Seq<AccountView>,
    name: Seq<char>,
    message: Seq<char>,
)
    requires
        reply_intro_spec(program, accounts, name, message) is Ok,
    ensures
        parse_counter(accounts[2].data) is Some,
        is_derived(
            accounts[3].key,
            reply_seeds(accounts[1].key, parse_counter(accounts[2].data)->Some_0.counter),
            program,
        ),
        parse_counter(reply_intro_spec(program, accounts, name, message)->Ok_0.0[2].data) is Some,
        parse_counter(
            reply_intro_spec(program, accounts, name, message)->Ok_0.0[2].data,
        )->Some_0.counter == parse_counter(accounts[2].data)->Some_0.counter + 1,
{
    let before = parse_counter(accounts[2].data)->Some_0;
    let count = counter_bytes(advanced(before));
    lemma_parse_string_layout(accounts[2].data);
    lemma_counter_round_trip(advanced(before), accounts[2].data.skip(count.len() as int));
}

/// One reply in a run of replies: the slots that it is handed, and its
/// payload.
pub struct ReplyStep {
    pub accounts: Seq<AccountView>,
    pub name: Seq<char>,
    pub message: Seq<char>,
}

/// The slots that a reply of a run leaves.
pub open spec fn left_by(program: Seq<u8>, step: ReplyStep) -> Seq<AccountView> {
    reply_intro_spec(program, step.accounts, step.name, step.message)->Ok_0.0
}

/// Whether `steps` is a run of successful replies to the introduction at
/// `intro`, from its creation on: the first reply finds the reply counter at
/// zero, and each later one finds in it what the reply before has left.
pub open spec fn is_reply_run(program: Seq<u8>, intro: Seq<u8>, steps: Seq<ReplyStep>) -> bool {
    &&& forall|i: int|
        0 <= i < steps.len() ==> {
            &&& #[trigger] reply_intro_spec(
                program,
                steps[i].accounts,
                steps[i].name,
                steps[i].message,
            ) is Ok
            &&& steps[i].accounts[1].key == intro
        }
    &&& steps.len() > 0 ==> (parse_counter(steps[0].accounts[2].data) matches Some(c)
        && c.counter == 0)
    &&& forall|i: int|
        0 < i < steps.len() ==> (#[trigger] steps[i]).accounts[2].data == left_by(
            program,
            steps[i - 1],
        )[2].data
}

/// In a run of replies to one introduction, the reply at place `k`, counted
/// from 1, takes the address that the introduction derives with the number
/// `k - 1`, and leaves the reply counter at `k`.
pub proof fn lemma_replies_are_numbered(
    program: Seq<u8>,
    intro: Seq<u8>,
    steps: Seq<ReplyStep>,
    k: int,
)
    requires
        is_reply_run(program, intro, steps),
        1 <= k <= steps.len(),
    ensures
        k - 1 <= u64::MAX,
        is_derived(steps[k - 1].accounts[3].key, reply_seeds(intro, (k - 1) as u64), program),
        parse_counter(left_by(program, steps[k - 1])[2].data) matches Some(c) && c.counter == k,
    decreases k,
{
    let step = steps[k - 1];
    lemma_reply_takes_next_number(program, step.accounts, step.name, step.message);
    if k > 1 {
        lemma_replies_are_numbered(program, intro, steps, k - 1);
    }
}

/// A new introduction that takes more than the capacity of a slot is refused
/// with `InvalidDataLength`, once its references hold.
pub proof fn lemma_creation_over_capacity_is_refused(
    program: Seq<u8>,
    accounts: Seq<AccountView>,
    name: Seq<char>,
    message: Seq<char>,
)
    requires
        student_intro_reference_fault(program, accounts) is None,
        StudentIntroState::spec_account_size(name, message) > RECORD_CAPACITY,
    ensures
        student_intro_spec(program, accounts, name, message) == Err::<
            (Seq<AccountView>, EffectsView),
            ProgramError,
        >(custom(IntroError::InvalidDataLength)),
{
}

/// A new introduction that takes no more than the capacity of a slot, the
/// whole of it included, is created in slots that are not allocated yet, once
/// its references hold.
pub proof fn lemma_creation_within_capacity_succeeds(
    program: Seq<u8>,
    accounts: Seq<AccountView>,
    name: Seq<char>,
    message: Seq<char>,
)
    requires
        student_intro_reference_fault(program, accounts) is None,
        accounts[0].key.len() == 32,
        !allocated(accounts[1]),
        !allocated(accounts[2]),
        StudentIntroState::spec_account_size(name, message) <= RECORD_CAPACITY,
    ensures
        student_intro_spec(program, accounts, name, message) is Ok,
{
    lemma_tag_lengths();
    lemma_parse_intro_zeros(RECORD_CAPACITY as nat);
    lemma_parse_counter_zeros(ReplyCount::SIZE as nat);
}

/// An update whose payload takes more than the capacity of a slot is refused
/// with `InvalidDataLength`, once its references hold and the introduction is
/// active.
pub proof fn lemma_update_over_capacity_is_refused(
    program: Seq<u8>,
    accounts: Seq<AccountView>,
    name: Seq<char>,
    message: Seq<char>,
)
    requires
        update_intro_reference_fault(program, accounts) is None,
        parse_intro(accounts[1].data) matches Some(r) && r.is_initialized,
        StudentIntroState::spec_account_size(name, message) > RECORD_CAPACITY,
    ensures
        update_intro_spec(program, accounts, name, message) == Err::<
            (Seq<AccountView>, EffectsView),
            ProgramError,
        >(custom(IntroError::InvalidDataLength)),
{
    // A slot in which a record is laid out holds bytes.
    lemma_parse_string_layout(accounts[1].data);
}

/// An update whose payload takes no more than the capacity of a slot, the
/// whole of it included, succeeds on an active introduction, once its
/// references hold and the introduction with the new message fits the bytes
/// of its slot.
pub proof fn lemma_update_within_capacity_succeeds(
    program: Seq<u8>,
    accounts: Seq<AccountView>,
    name: Seq<char>,
    message: Seq<char>,
)
    requires
        update_intro_reference_fault(program, accounts) is None,
        parse_intro(accounts[1].data) matches Some(r) && r.is_initialized && intro_bytes(
            with_message(r, message),
        ).len() <= accounts[1].data.len(),
        StudentIntroState::spec_account_size(name, message) <= RECORD_CAPACITY,
    ensures
        update_intro_spec(program, accounts, name, message) is Ok,
{
    // A slot in which a record is laid out holds bytes.
    lemma_parse_string_layout(accounts[1].data);
}

/// An introduction with a new message fits a slot of the full capacity where
/// the payload of the update fits it and names a name that is no shorter than
/// the one that the introduction has.
pub proof fn lemma_update_fits_under_longer_name(
    stored: StudentIntroView,
    name: Seq<char>,
    message: Seq<char>,
)
    requires
        stored.discriminator == intro_tag(),
        stored.writer.len() == 32,
        encode_utf8(stored.name).len() <= encode_utf8(name).len(),
        StudentIntroState::spec_account_size(name, message) <= RECORD_CAPACITY,
    ensures
        intro_bytes(with_message(stored, message)).len() <= RECORD_CAPACITY,
{
    lemma_tag_lengths();
}

/// A reply that names a wrong mint, authority over the mint, token account,
/// token program or allocator is refused with `IncorrectAccountError`,
/// whether the actor has signed or not.
pub proof fn lemma_reply_with_wrong_reward_reference_is_refused(
    program: Seq<u8>,
    accounts: Seq<AccountView>,
    name: Seq<char>,
    message: Seq<char>,
)
    requires
        accounts.len() >= 9,
        !reward_references_hold(
            program,
            accounts[0].key,
            accounts[4].key,
            accounts[5].key,
            accounts[6].key,
            accounts[7].key,
            accounts[8].key,
        ),
    ensures
        reply_intro_spec(program, accounts, name, message) == Err::<
            (Seq<AccountView>, EffectsView),
            ProgramError,
        >(custom(IntroError::IncorrectAccountError)),
{
}

/// A reply that names another slot than the one that the introduction and
/// the count found in its reply counter derive is refused with `InvalidPDA`,
/// whether the actor has signed or not and whatever its payload.
pub proof fn lemma_reply_at_wrong_address_is_refused(
    program: Seq<u8>,
    accounts: Seq<AccountView>,
    name: Seq<char>,
    message: Seq<char>,
)
    requires
        reply_intro_reference_fault(program, accounts) is None,
        active_counter(program, accounts[2]) matches Ok(c) && !is_derived(
            accounts[3].key,
            reply_seeds(accounts[1].key, c.counter),
            program,
        ),
    ensures
        reply_intro_spec(program, accounts, name, message) == Err::<
            (Seq<AccountView>, EffectsView),
            ProgramError,
        >(custom(IntroError::InvalidPDA)),
{
}

/// A reply that the actor has not signed is refused with
/// `MissingRequiredSignature`, once its references hold and it names the slot
/// that is next in its thread, whatever its payload.
pub proof fn lemma_unsigned_reply_is_refused(
    program: Seq<u8>,
    accounts: Seq<AccountView>,
    name: Seq<char>,
    message: Seq<char>,
)
    requires
        reply_intro_reference_fault(program, accounts) is None,
        active_counter(program, accounts[2]) matches Ok(c) && is_derived(
            accounts[3].key,
            reply_seeds(accounts[1].key, c.counter),
            program,
        ),
        !accounts[0].is_signer,
    ensures
        reply_intro_spec(program, accounts, name, message) == Err::<
            (Seq<AccountView>, EffectsView),
            ProgramError,
        >(ProgramError::MissingRequiredSignature),
{
}

/// A reply that takes more than the capacity of a slot is refused with
/// `InvalidDataLength`, once its references hold, it names the slot that is
/// next in its thread, and the actor has signed.
pub proof fn lemma_reply_over_capacity_is_refused(
    program: Seq<u8>,
    accounts: Seq<AccountView>,
    name: Seq<char>,
    message: Seq<char>,
)
    requires
        reply_intro_reference_fault(program, accounts) is None,
        active_counter(program, accounts[2]) matches Ok(c) && is_derived(
            accounts[3].key,
            reply_seeds(accounts[1].key, c.counter),
            program,
        ),
        accounts[0].is_signer,
        StudentReplyState::spec_account_size(name, message) > RECORD_CAPACITY,
    ensures
        reply_intro_spec(program, accounts, name, message) == Err::<
            (Seq<AccountView>, EffectsView),
            ProgramError,
        >(custom(IntroError::InvalidDataLength)),
{
}

/// A reply that takes no more than the capacity of a slot, the whole of it
/// included, is written to a slot that is not allocated yet, once its
/// references hold, it names the slot that is next in its thread, the actor
/// has signed, and the reply counter can still be advanced.
pub proof fn lemma_reply_within_capacity_succeeds(
    program: Seq<u8>,
    accounts: Seq<AccountView>,
    name: Seq<char>,
    message: Seq<char>,
)
    requires
        reply_intro_reference_fault(program, accounts) is None,
        accounts[0].key.len() == 32,
        accounts[1].key.len() == 32,
        active_counter(program, accounts[2]) matches Ok(c) && c.counter < u64::MAX && is_derived(
            accounts[3].key,
            reply_seeds(accounts[1].key, c.counter),
            program,
        ),
        accounts[0].is_signer,
        !allocated(accounts[3]),
        StudentReplyState::spec_account_size(name, message) <= RECORD_CAPACITY,
    ensures
        reply_intro_spec(program, accounts, name, message) is Ok,
{
    lemma_tag_lengths();
    lemma_parse_reply_zeros(RECORD_CAPACITY as nat);
}

/// An update that names another slot than the one that the actor's
/// introduction has is refused with `InvalidPDA`, whatever its payload.
pub proof fn lemma_update_of_foreign_slot_is_refused(
    program: Seq<u8>,
    accounts: Seq<AccountView>,
    name: Seq<char>,
    message: Seq<char>,
)
    requires
        accounts.len() >= 2,
        accounts[1].owner == program,
        accounts[0].is_signer,
        !is_derived(accounts[1].key, intro_seeds(accounts[0].key), program),
    ensures
        update_intro_spec(program, accounts, name, message) == Err::<
            (Seq<AccountView>, EffectsView),
            ProgramError,
        >(custom(IntroError::InvalidPDA)),
{
}

/// The number of base units that the instructions asked of the host issue.
pub open spec fn issued(invocations: Seq<InvocationView>) -> nat
    decreases invocations.len(),
{
    if invocations.len() == 0 {
        0
    } else {
        issued(invocations.drop_last()) + issued_by(invocations.last().instruction)
    }
}

/// The number of base units that an operation issues: what its instructions
/// issue where it succeeds, and nothing where it fails.
pub open spec fn issued_in(
    program: Seq<u8>,
    accounts: Seq<AccountView>,
    instruction: StudentInstructionView,
) -> nat {
    match dispatch_spec(program, accounts, instruction) {
        Ok((_, effects)) => issued(effects.invocations),
        Err(_) => 0,
    }
}

/// The number of reward tokens that is due for an operation: 10 for a new
/// introduction, 5 for a reply, and none for anything else or for an
/// operation that fails.
pub open spec fn tokens_due(
    program: Seq<u8>,
    accounts: Seq<AccountView>,
    instruction: StudentInstructionView,
) -> nat {
    if dispatch_spec(program, accounts, instruction) is Err {
        0
    } else {
        match instruction {
            StudentInstructionView::StudentIntro { .. } => INTRO_REWARD_TOKENS as nat,
            StudentInstructionView::ReplyIntro { .. } => REPLY_REWARD_TOKENS as nat,
            _ => 0,
        }
    }
}

/// An instruction to issue an amount issues that amount.
pub proof fn lemma_issuance_issues_amount(
    mint: Seq<u8>,
    wallet: Seq<u8>,
    authority: Seq<u8>,
    amount: u64,
)
    ensures
        issued_by(mint_to_instruction(mint, wallet, authority, amount)) == amount,
{
    let data = mint_to_instruction(mint, wallet, authority, amount).data;
    lemma_le_u64_round_trip(amount);
    assert(data.skip(1) =~= le_u64(amount));
}

/// A successful creation of an introduction issues 10 reward tokens.
pub proof fn lemma_creation_issues_ten(
    program: Seq<u8>,
    accounts: Seq<AccountView>,
    name: Seq<char>,
    message: Seq<char>,
)
    requires
        student_intro_spec(program, accounts, name, message) is Ok,
    ensures
        issued(student_intro_spec(program, accounts, name, message)->Ok_0.1.invocations) == 10
            * BASE_UNITS_PER_TOKEN,
{
    let asked = student_intro_spec(program, accounts, name, message)->Ok_0.1.invocations;
    lemma_issuance_issues_amount(
        accounts[3].key,
        accounts[5].key,
        accounts[4].key,
        (INTRO_REWARD_TOKENS * BASE_UNITS_PER_TOKEN) as u64,
    );
    assert(issued(asked.drop_last()) == 0);
}

/// A successful reply issues 5 reward tokens.
pub proof fn lemma_reply_issues_five(
    program: Seq<u8>,
    accounts: Seq<AccountView>,
    name: Seq<char>,
    message: Seq<char>,
)
    requires
        reply_intro_spec(program, accounts, name, message) is Ok,
    ensures
        issued(reply_intro_spec(program, accounts, name, message)->Ok_0.1.invocations) == 5
            * BASE_UNITS_PER_TOKEN,
{
    let asked = reply_intro_spec(program, accounts, name, message)->Ok_0.1.invocations;
    lemma_issuance_issues_amount(
        accounts[4].key,
        accounts[6].key,
        accounts[5].key,
        (REPLY_REWARD_TOKENS * BASE_UNITS_PER_TOKEN) as u64,
    );
    assert(issued(asked.drop_last()) == 0);
}

/// A successful update issues nothing.
pub proof fn lemma_update_issues_nothing(
    program: Seq<u8>,
    accounts: Seq<AccountView>,
    name: Seq<char>,
    message: Seq<char>,
)
    requires
        update_intro_spec(program, accounts, name, message) is Ok,
    ensures
        issued(update_intro_spec(program, accounts, name, message)->Ok_0.1.invocations) == 0,
{
}

/// A successful setup of the mint issues nothing.
pub proof fn lemma_setup_issues_nothing(program: Seq<u8>, accounts: Seq<AccountView>)
    requires
        initialize_token_mint_spec(program, accounts) is Ok,
    ensures
        issued(initialize_token_mint_spec(program, accounts)->Ok_0.1.invocations) == 0,
{
    let asked = initialize_token_mint_spec(program, accounts)->Ok_0.1.invocations;
    assert(issued(asked.drop_last()) == 0);
}

/// Every operation issues exactly the reward that is due for it: 10 tokens
/// for a new introduction, 5 for a reply, and nothing for an update, for the
/// setup of the mint or for an operation that fails.
pub proof fn lemma_reward_is_exact(
    program: Seq<u8>,
    accounts: Seq<AccountView>,
    instruction: StudentInstructionView,
)
    ensures
        issued_in(program, accounts, instruction) == tokens_due(program, accounts, instruction)
            * BASE_UNITS_PER_TOKEN,
{
    if dispatch_spec(program, accounts, instruction) is Ok {
        match instruction {
            StudentInstructionView::StudentIntro { name, message } => {
                lemma_creation_issues_ten(program, accounts, name, message);
            },
            StudentInstructionView::ReplyIntro { name, message } => {
                lemma_reply_issues_five(program, accounts, name, message);
            },
            StudentInstructionView::UpdateIntro { name, message } => {
                lemma_update_issues_nothing(program, accounts, name, message);
            },
            StudentInstructionView::InitializeMint => {
                lemma_setup_issues_nothing(program, accounts);
            },
        }
    }
}

/// One operation of a run: the slots that it is handed, and what it is.
pub struct Operation {
    pub accounts: Seq<AccountView>,
    pub instruction: StudentInstructionView,
}

/// The number of base units that a run of operations issues.
pub open spec fn issued_over(program: Seq<u8>, run: Seq<Operation>) -> nat
    decreases run.len(),
{
    if run.len() == 0 {
        0
    } else {
        issued_over(program, run.drop_last()) + issued_in(
            program,
            run.last().accounts,
            run.last().instruction,
        )
    }
}

/// The number of reward tokens that is due for a run of operations.
pub open spec fn tokens_due_over(program: Seq<u8>, run: Seq<Operation>) -> nat
    decreases run.len(),
{
    if run.len() == 0 {
        0
    } else {
        tokens_due_over(program, run.drop_last()) + tokens_due(
            program,
            run.last().accounts,
            run.last().instruction,
        )
    }
}

/// Over any run of operations exactly the rewards that are due are issued: 10
/// tokens for each introduction created and 5 for each reply attached.
pub proof fn lemma_rewards_are_exact(program: Seq<u8>, run: Seq<Operation>)
    ensures
        issued_over(program, run) == tokens_due_over(program, run) * BASE_UNITS_PER_TOKEN,
    decreases run.len(),
{
    if run.len() > 0 {
        lemma_rewards_are_exact(program, run.drop_last());
        lemma_reward_is_exact(program, run.last().accounts, run.last().instruction);
    }
}

} // verus!
