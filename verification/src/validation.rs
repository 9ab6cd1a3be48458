//! The checks that hold every supplied reference against the address that it
//! has to be.

use crate::address::{derived_address, find_program_address, seeds_view, Address};
use crate::error::{custom, IntroError, ProgramError};
use crate::state::{counter_tag, intro_tag};
use crate::wire::{be_bytes, be_u64};
use vstd::prelude::*;
use vstd::slice::slice_to_vec;
use vstd::utf8::encode_utf8;

verus! {

/// Whether `supplied` is the address derived from `seeds` under `program`.
pub open spec fn is_derived(supplied: Seq<u8>, seeds: Seq<Seq<u8>>, program: Seq<u8>) -> bool {
    derived_address(seeds, program) matches Some((a, _)) && a == supplied
}

/// The salt with which `seeds` derive their address under `program`.
pub open spec fn salt_of(seeds: Seq<Seq<u8>>, program: Seq<u8>) -> u8 {
    derived_address(seeds, program).unwrap().1
}

/// The seeds of the address that signs: the seeds of the address, and its salt.
pub open spec fn with_salt(seeds: Seq<Seq<u8>>, salt: u8) -> Seq<Seq<u8>> {
    seeds.push(seq![salt])
}

/// The seeds of the introduction of `writer`.
pub open spec fn intro_seeds(writer: Seq<u8>) -> Seq<Seq<u8>> {
    seq![writer, encode_utf8(intro_tag())]
}

/// The seeds of the reply counter of the introduction at `intro`.
pub open spec fn counter_seeds(intro: Seq<u8>) -> Seq<Seq<u8>> {
    seq![intro, encode_utf8(counter_tag())]
}

/// The seeds of the reply with sequence number `n` to the introduction at
/// `intro`.
pub open spec fn reply_seeds(intro: Seq<u8>, n: u64) -> Seq<Seq<u8>> {
    seq![intro, be_u64(n)]
}

/// The seeds of the mint of the reward token.
pub open spec fn mint_seeds() -> Seq<Seq<u8>> {
    seq![encode_utf8("token_mint"@)]
}

/// The seeds of the authority over the mint of the reward token.
pub open spec fn authority_seeds() -> Seq<Seq<u8>> {
    seq![encode_utf8("token_auth"@)]
}

/// Returns the bytes of a tag.
pub fn tag_seed(tag: &str) -> (seed: Vec<u8>)
    ensures
        seed@ == encode_utf8(tag@),
{
    slice_to_vec(tag.as_bytes())
}

/// Returns the seeds of the introduction of `writer`.
pub fn seeds_of_intro(writer: &Address) -> (seeds: Vec<Vec<u8>>)
    ensures
        seeds_view(seeds@) == intro_seeds(writer@),
{
    let mut seeds: Vec<Vec<u8>> = Vec::new();
    seeds.push(writer.to_vec());
    seeds.push(tag_seed("intro"));
    seeds
}

/// Returns the seeds of the reply counter of the introduction at `intro`.
pub fn seeds_of_counter(intro: &Address) -> (seeds: Vec<Vec<u8>>)
    ensures
        seeds_view(seeds@) == counter_seeds(intro@),
{
    let mut seeds: Vec<Vec<u8>> = Vec::new();
    seeds.push(intro.to_vec());
    seeds.push(tag_seed("counter"));
    seeds
}

/// Returns the seeds of the reply with sequence number `n` to the
/// introduction at `intro`.
pub fn seeds_of_reply(intro: &Address, n: u64) -> (seeds: Vec<Vec<u8>>)
    ensures
        seeds_view(seeds@) == reply_seeds(intro@, n),
{
    let mut seeds: Vec<Vec<u8>> = Vec::new();
    seeds.push(intro.to_vec());
    seeds.push(be_bytes(n));
    seeds
}

/// Returns the seeds of the mint of the reward token.
pub fn seeds_of_mint() -> (seeds: Vec<Vec<u8>>)
    ensures
        seeds_view(seeds@) == mint_seeds(),
{
    let mut seeds: Vec<Vec<u8>> = Vec::new();
    seeds.push(tag_seed("token_mint"));
    seeds
}

/// Returns the seeds of the authority over the mint of the reward token.
pub fn seeds_of_authority() -> (seeds: Vec<Vec<u8>>)
    ensures
        seeds_view(seeds@) == authority_seeds(),
{
    let mut seeds: Vec<Vec<u8>> = Vec::new();
    seeds.push(tag_seed("token_auth"));
    seeds
}

/// Adds the salt to the seeds of an address: the seeds with which the address
/// signs.
pub fn seeds_with_salt(seeds: Vec<Vec<u8>>, salt: u8) -> (signer: Vec<Vec<u8>>)
    ensures
        seeds_view(signer@) == with_salt(seeds_view(seeds@), salt),
{
    let mut signer = seeds;
    let mut last: Vec<u8> = Vec::new();
    last.push(salt);
    signer.push(last);
    signer
}

/// Derives the address of `seeds` under `program` again and holds the
/// supplied reference against it. Returns the salt where they are equal, and
/// `mismatch` where they are not or where the seeds derive no address.
pub fn verify_derived(
    seeds: &Vec<Vec<u8>>,
    program: &Address,
    supplied: &Address,
    mismatch: IntroError,
) -> (r: Result<u8, ProgramError>)
    ensures
        match r {
            Ok(salt) => is_derived(supplied@, seeds_view(seeds@), program@) && salt == salt_of(
                seeds_view(seeds@),
                program@,
            ),
            Err(e) => !is_derived(supplied@, seeds_view(seeds@), program@) && e == custom(mismatch),
        },
{
    match find_program_address(seeds, program) {
        Some((derived, salt)) => {
            if derived.same(supplied) {
                Ok(salt)
            } else {
                Err(ProgramError::from(mismatch))
            }
        },
        None => Err(ProgramError::from(mismatch)),
    }
}

/// Holds a supplied reference against the one address that it has to be.
/// Returns `IncorrectAccountError` where they differ.
pub fn verify_known(expected: &Address, supplied: &Address) -> (r: Result<(), ProgramError>)
    ensures
        match r {
            Ok(_) => supplied@ == expected@,
            Err(e) => supplied@ != expected@ && e == custom(IntroError::IncorrectAccountError),
        },
{
    if expected.same(supplied) {
        Ok(())
    } else {
        Err(ProgramError::from(IntroError::IncorrectAccountError))
    }
}

} // verus!
