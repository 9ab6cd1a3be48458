//! Addresses and their deterministic derivation from seeds.

use vstd::prelude::*;

verus! {

/// A 32-byte identifier of an actor, a program or a storage slot.
#[derive(Clone, Copy, Debug)]
pub struct Address {
    pub bytes: [u8; 32],
}

impl View for Address {
    type V = Seq<u8>;

    open spec fn view(&self) -> Seq<u8> {
        self.bytes@
    }
}

impl Address {
    /// Wraps 32 bytes as an address.
    pub fn new(bytes: [u8; 32]) -> (a: Address)
        ensures
            a@ == bytes@,
    {
        Address { bytes }
    }

    /// Reads the address laid out in the 32 bytes of `data` from `pos` on.
    pub fn from_slice(data: &[u8], pos: usize) -> (a: Address)
        requires
            pos + 32 <= data@.len(),
        ensures
            a@ == data@.subrange(pos as int, pos + 32),
    {
        let mut bytes = [0u8; 32];
        let mut i: usize = 0;
        while i < 32
            invariant
                i <= 32,
                pos + 32 <= data.len(),
                forall|j: int| 0 <= j < i ==> bytes[j] == data@[pos + j],
            decreases 32 - i,
        {
            bytes[i] = data[pos + i];
            i += 1;
        }
        Address { bytes }
    }

    /// Returns the 32 bytes in a vector.
    pub fn to_vec(&self) -> (v: Vec<u8>)
        ensures
            v@ == self@,
    {
        let mut v: Vec<u8> = Vec::new();
        let mut i: usize = 0;
        while i < 32
            invariant
                i <= 32,
                v@.len() == i,
                forall|j: int| 0 <= j < i ==> v@[j] == self.bytes[j],
            decreases 32 - i,
        {
            v.push(self.bytes[i]);
            i += 1;
        }
        v
    }

    /// Tells whether two addresses hold the same bytes.
    pub fn same(&self, other: &Address) -> (r: bool)
        ensures
            r == (self@ == other@),
    {
        let mut i: usize = 0;
        while i < 32
            invariant
                i <= 32,
                forall|j: int| 0 <= j < i ==> self.bytes[j] == other.bytes[j],
            decreases 32 - i,
        {
            if self.bytes[i] != other.bytes[i] {
                return false;
            }
            i += 1;
        }
        assert(self@ =~= other@);
        true
    }
}

impl PartialEq for Address {
    fn eq(&self, other: &Address) -> (r: bool) {
        self.same(other)
    }
}

impl Eq for Address {

}

impl vstd::std_specs::cmp::PartialEqSpecImpl for Address {
    open spec fn obeys_eq_spec() -> bool {
        true
    }

    open spec fn eq_spec(&self, other: &Address) -> bool {
        self@ == other@
    }
}

/// The address of the token program.
pub const TOKEN_PROGRAM_ID: [u8; 32] = [
    6, 221, 246, 225, 215, 101, 161, 147, 217, 203, 225, 70, 206, 235, 121, 172,
    28, 180, 133, 237, 95, 91, 55, 145, 58, 140, 245, 133, 126, 255, 0, 169,
];

/// The address of the allocator, the system program.
pub const SYSTEM_PROGRAM_ID: [u8; 32] = [
    0, 0, 0, 0, 0, 0, 0, 0, 0, 0, 0, 0, 0, 0, 0, 0,
    0, 0, 0, 0, 0, 0, 0, 0, 0, 0, 0, 0, 0, 0, 0, 0,
];

/// The address under which the host publishes its rent parameters.
pub const RENT_SYSVAR_ID: [u8; 32] = [
    6, 167, 213, 23, 25, 44, 92, 81, 33, 140, 201, 76, 61, 74, 241, 127,
    88, 218, 238, 8, 155, 161, 253, 68, 227, 219, 217, 138, 0, 0, 0, 0,
];

/// The address of the program that owns the associated token accounts.
pub const ASSOCIATED_TOKEN_PROGRAM_ID: [u8; 32] = [
    140, 151, 37, 143, 78, 36, 137, 241, 187, 61, 16, 41, 20, 142, 13, 131,
    11, 90, 19, 153, 218, 255, 16, 132, 4, 142, 123, 216, 219, 233, 248, 89,
];

/// The address of the token program, as bytes.
pub open spec fn token_program_bytes() -> Seq<u8> {
    TOKEN_PROGRAM_ID@
}

/// The address of the allocator, as bytes.
pub open spec fn system_program_bytes() -> Seq<u8> {
    SYSTEM_PROGRAM_ID@
}

/// The address of the rent parameters, as bytes.
pub open spec fn rent_sysvar_bytes() -> Seq<u8> {
    RENT_SYSVAR_ID@
}

/// The address of the associated token account program, as bytes.
pub open spec fn associated_token_program_bytes() -> Seq<u8> {
    ASSOCIATED_TOKEN_PROGRAM_ID@
}

/// Calls `spl_token::id`, the address that the token program declares for
/// itself: `TokenkegQfeZyiNwAJbNbGKPFXCWuBvf9Ss623VQ5DA` in base 58, which
/// are the bytes of `TOKEN_PROGRAM_ID`.
#[verifier::external_body]
pub(crate) fn token_program_id() -> (a: Address)
    ensures
        a@ == token_program_bytes(),
{
    Address { bytes: spl_token::id().to_bytes() }
}

/// Calls `solana_program::system_program::id`, the address that the system
/// program declares for itself: `11111111111111111111111111111111` in base
/// 58, which are the 32 zero bytes of `SYSTEM_PROGRAM_ID`.
#[verifier::external_body]
pub(crate) fn system_program_id() -> (a: Address)
    ensures
        a@ == system_program_bytes(),
{
    Address { bytes: solana_program::system_program::id().to_bytes() }
}

/// Calls `solana_program::sysvar::rent::id`, the address that the rent sysvar
/// declares for itself: `SysvarRent111111111111111111111111111111111` in
/// base 58, which are the bytes of `RENT_SYSVAR_ID`.
#[verifier::external_body]
pub(crate) fn rent_sysvar_id() -> (a: Address)
    ensures
        a@ == rent_sysvar_bytes(),
{
    Address { bytes: solana_program::sysvar::rent::id().to_bytes() }
}

/// Calls `spl_associated_token_account::id`, the address that the associated
/// token account program declares for itself:
/// `ATokenGPvbdGVxr1b2hvZbsiqW5xWH25efTNsLJA8knL` in base 58, which are the
/// bytes of `ASSOCIATED_TOKEN_PROGRAM_ID`.
#[verifier::external_body]
pub(crate) fn associated_token_program_id() -> (a: Address)
    ensures
        a@ == associated_token_program_bytes(),
{
    Address { bytes: spl_associated_token_account::id().to_bytes() }
}

/// The address and salt that the host derives from `seeds` under `program`,
/// or `None` where it derives none.
pub uninterp spec fn derived_address(seeds: Seq<Seq<u8>>, program: Seq<u8>) -> Option<(Seq<u8>, u8)>;

/// The byte strings that a list of seeds holds.
pub open spec fn seeds_view(seeds: Seq<Vec<u8>>) -> Seq<Seq<u8>> {
    seeds.map_values(|s: Vec<u8>| s@)
}

/// The most seeds that an address is derived from.
pub const MAX_SEEDS: usize = 15;

/// The most bytes that a seed holds.
pub const MAX_SEED_LEN: usize = 32;

/// Whether there are too many seeds, or one of them is too long, for an
/// address to be derived from them.
pub open spec fn seeds_out_of_bounds(seeds: Seq<Seq<u8>>) -> bool {
    seeds.len() > MAX_SEEDS || exists|i: int| 0 <= i < seeds.len() && seeds[i].len() > MAX_SEED_LEN
}

/// Calls `solana_program::pubkey::Pubkey::try_find_program_address`, which
/// searches the salts from 255 downwards for the first one whose hash with
/// the seeds and the program id is no curve point. The result depends on the
/// arguments alone and is named `derived_address`. It is `None` where, with
/// the salt, there are more than 16 seeds, or where a seed is longer than 32
/// bytes.
#[verifier::external_body]
fn host_find_program_address(seeds: &Vec<Vec<u8>>, program: &Address) -> (r: Option<(Address, u8)>)
    ensures
        match r {
            Some((a, salt)) => derived_address(seeds_view(seeds@), program@) == Some((a@, salt)),
            None => derived_address(seeds_view(seeds@), program@) is None,
        },
        seeds_out_of_bounds(seeds_view(seeds@)) ==> r is None,
{
    let parts: Vec<&[u8]> = seeds.iter().map(|s| s.as_slice()).collect();
    let id = solana_program::pubkey::Pubkey::new_from_array(program.bytes);
    solana_program::pubkey::Pubkey::try_find_program_address(&parts, &id)
        .map(|(a, salt)| (Address { bytes: a.to_bytes() }, salt))
}

/// Derives the address and salt for `seeds` under `program`: the same for the
/// same seeds and program, whoever derives them. No address is derived from
/// more than 15 seeds, nor from a seed of more than 32 bytes.
pub fn find_program_address(seeds: &Vec<Vec<u8>>, program: &Address) -> (r: Option<(Address, u8)>)
    ensures
        match r {
            Some((a, salt)) => derived_address(seeds_view(seeds@), program@) == Some((a@, salt)),
            None => derived_address(seeds_view(seeds@), program@) is None,
        },
        seeds_out_of_bounds(seeds_view(seeds@)) ==> r is None,
{
    host_find_program_address(seeds, program)
}

/// The token account that is associated with `wallet` for the tokens of
/// `mint`: the address derived from the wallet, the token program and the mint
/// under the associated token account program.
pub open spec fn associated_token_address(wallet: Seq<u8>, mint: Seq<u8>) -> Option<Seq<u8>> {
    match derived_address(
        seq![wallet, token_program_bytes(), mint],
        associated_token_program_bytes(),
    ) {
        Some((a, _)) => Some(a),
        None => None,
    }
}

/// Derives the token account that is associated with `wallet` for the tokens
/// of `mint`.
pub fn get_associated_token_address(wallet: &Address, mint: &Address) -> (r: Option<Address>)
    ensures
        match r {
            Some(a) => associated_token_address(wallet@, mint@) == Some(a@),
            None => associated_token_address(wallet@, mint@).is_none(),
        },
{
    let mut seeds: Vec<Vec<u8>> = Vec::new();
    seeds.push(wallet.to_vec());
    seeds.push(token_program_id().to_vec());
    seeds.push(mint.to_vec());
    assert(seeds_view(seeds@) =~= seq![wallet@, token_program_bytes(), mint@]);
    match find_program_address(&seeds, &associated_token_program_id()) {
        Some((a, _)) => Some(a),
        None => None,
    }
}

} // verus!
