//! Byte layout of the values that records and operations are made of.

use vstd::prelude::*;
use vstd::slice::slice_subrange;
use vstd::utf8::{decode_utf8, encode_utf8, valid_utf8};

verus! {

/// The four bytes of `n`, least significant first.
pub open spec fn le_u32(n: u32) -> Seq<u8> {
    seq![
        (n % 256) as u8,
        (n / 256 % 256) as u8,
        (n / 65536 % 256) as u8,
        (n / 16777216 % 256) as u8,
    ]
}

/// The number whose bytes, least significant first, are the first four of `b`.
pub open spec fn from_le_u32(b: Seq<u8>) -> u32
    recommends
        b.len() >= 4,
{
    (b[0] + 256 * b[1] + 65536 * b[2] + 16777216 * b[3]) as u32
}

/// Reading back the bytes of a number gives the number.
pub proof fn lemma_le_u32_round_trip(n: u32)
    ensures
        le_u32(n).len() == 4,
        from_le_u32(le_u32(n)) == n,
{
}

/// The eight bytes of `n`, least significant first.
pub open spec fn le_u64(n: u64) -> Seq<u8> {
    seq![
        (n % 256) as u8,
        (n / 0x100 % 256) as u8,
        (n / 0x1_0000 % 256) as u8,
        (n / 0x100_0000 % 256) as u8,
        (n / 0x1_0000_0000 % 256) as u8,
        (n / 0x100_0000_0000 % 256) as u8,
        (n / 0x1_0000_0000_0000 % 256) as u8,
        (n / 0x100_0000_0000_0000 % 256) as u8,
    ]
}

/// The number whose bytes, least significant first, are the first eight of `b`.
pub open spec fn from_le_u64(b: Seq<u8>) -> u64
    recommends
        b.len() >= 8,
{
    (b[0] + 0x100 * b[1] + 0x1_0000 * b[2] + 0x100_0000 * b[3] + 0x1_0000_0000 * b[4]
        + 0x100_0000_0000 * b[5] + 0x1_0000_0000_0000 * b[6] + 0x100_0000_0000_0000 * b[7]) as u64
}

/// Reading back the bytes of a number gives the number.
pub proof fn lemma_le_u64_round_trip(n: u64)
    ensures
        le_u64(n).len() == 8,
        from_le_u64(le_u64(n)) == n,
{
    let q1 = n as int / 0x100;
    let q2 = q1 / 0x100;
    let q3 = q2 / 0x100;
    let q4 = q3 / 0x100;
    let q5 = q4 / 0x100;
    let q6 = q5 / 0x100;
    let q7 = q6 / 0x100;
    assert(q2 == n as int / 0x1_0000);
    assert(q3 == n as int / 0x100_0000);
    assert(q4 == n as int / 0x1_0000_0000);
    assert(q5 == n as int / 0x100_0000_0000);
    assert(q6 == n as int / 0x1_0000_0000_0000);
    assert(q7 == n as int / 0x100_0000_0000_0000);
    assert(q7 < 256);
}

/// The eight bytes of `n`, most significant first.
pub open spec fn be_u64(n: u64) -> Seq<u8> {
    seq![
        (n / 0x100_0000_0000_0000 % 256) as u8,
        (n / 0x1_0000_0000_0000 % 256) as u8,
        (n / 0x100_0000_0000 % 256) as u8,
        (n / 0x1_0000_0000 % 256) as u8,
        (n / 0x100_0000 % 256) as u8,
        (n / 0x1_0000 % 256) as u8,
        (n / 0x100 % 256) as u8,
        (n % 256) as u8,
    ]
}

/// The layout of a flag: one byte, 1 for `true` and 0 for `false`.
pub open spec fn flag_byte(flag: bool) -> u8 {
    if flag {
        1
    } else {
        0
    }
}

/// The flag laid out at the start of `b`, or `None` where the first byte is
/// missing or is neither 0 nor 1.
pub open spec fn parse_flag(b: Seq<u8>) -> Option<bool> {
    if b.len() >= 1 && b[0] == 0 {
        Some(false)
    } else if b.len() >= 1 && b[0] == 1 {
        Some(true)
    } else {
        None
    }
}

/// `n` bytes that are all zero: what a freshly allocated slot holds.
pub open spec fn zeros(n: nat) -> Seq<u8> {
    Seq::new(n, |i: int| 0u8)
}

/// Whether a string is short enough to be laid out.
pub open spec fn can_lay_out(s: Seq<char>) -> bool {
    encode_utf8(s).len() <= u32::MAX
}

/// The layout of a string: its length in bytes as four bytes, least
/// significant first, and then its UTF-8 encoding.
pub open spec fn string_bytes(s: Seq<char>) -> Seq<u8> {
    le_u32(encode_utf8(s).len() as u32) + encode_utf8(s)
}

/// The string laid out at the start of `b`, with the number of bytes that it
/// takes, or `None` where no string is laid out there.
#[verifier::opaque]
pub open spec fn parse_string(b: Seq<u8>) -> Option<(Seq<char>, int)> {
    if b.len() < 4 {
        None
    } else {
        let n = from_le_u32(b.subrange(0, 4)) as int;
        if b.len() - 4 < n || !valid_utf8(b.subrange(4, 4 + n)) {
            None
        } else {
            Some((decode_utf8(b.subrange(4, 4 + n)), 4 + n))
        }
    }
}

/// Calls `borsh::BorshSerialize::try_to_vec` on a `String`, which writes the
/// byte length as a little-endian `u32` followed by the UTF-8 bytes, and fails
/// where the length does not fit in a `u32`.
#[verifier::external_body]
fn borsh_string_to_vec(s: &String) -> (r: Option<Vec<u8>>)
    ensures
        can_lay_out(s@) ==> r.is_some() && r.unwrap()@ == string_bytes(s@),
        !can_lay_out(s@) ==> r.is_none(),
{
    borsh::BorshSerialize::try_to_vec(s).ok()
}

/// Calls `borsh::BorshDeserialize::deserialize` for `String`, which reads a
/// little-endian `u32` length, takes that many bytes and accepts them if they
/// are valid UTF-8. Returns the string with the number of bytes left over.
#[verifier::external_body]
fn borsh_string_from_slice(input: &[u8]) -> (r: Option<(String, usize)>)
    ensures
        match r {
            Some((s, left)) => left <= input@.len() && parse_string(input@) == Some(
                (s@, input@.len() - left),
            ),
            None => parse_string(input@).is_none(),
        },
{
    let mut rest = input;
    match <String as borsh::BorshDeserialize>::deserialize(&mut rest) {
        Ok(s) => Some((s, rest.len())),
        Err(_) => None,
    }
}

/// Appends the layout of `s` to `out`. Returns `false`, leaving `out` as it
/// was, where the string is too long to be laid out.
pub fn put_string(out: &mut Vec<u8>, s: &String) -> (ok: bool)
    ensures
        ok == can_lay_out(s@),
        ok ==> final(out)@ == old(out)@ + string_bytes(s@),
        !ok ==> final(out)@ == old(out)@,
{
    match borsh_string_to_vec(s) {
        Some(mut bytes) => {
            out.append(&mut bytes);
            true
        },
        None => false,
    }
}

/// Reads the string laid out in `data` from `pos` on. Returns it with the
/// position behind it.
pub fn take_string(data: &[u8], pos: usize) -> (r: Option<(String, usize)>)
    requires
        pos <= data@.len(),
    ensures
        match r {
            Some((s, next)) => pos <= next <= data@.len() && parse_string(data@.skip(pos as int))
                == Some((s@, next - pos)),
            None => parse_string(data@.skip(pos as int)).is_none(),
        },
{
    let tail = slice_subrange(data, pos, data.len());
    match borsh_string_from_slice(tail) {
        Some((s, left)) => Some((s, data.len() - left)),
        None => None,
    }
}

/// A string that is laid out and read back is the same string, whatever
/// follows it.
pub proof fn lemma_string_round_trip(s: Seq<char>, tail: Seq<u8>)
    requires
        can_lay_out(s),
    ensures
        string_bytes(s).len() == 4 + encode_utf8(s).len(),
        parse_string(string_bytes(s) + tail) == Some((s, 4 + encode_utf8(s).len() as int)),
{
    broadcast use vstd::utf8::encode_utf8_valid_utf8, vstd::utf8::encode_utf8_decode_utf8;

    reveal(parse_string);
    let body = encode_utf8(s);
    let n = body.len() as u32;
    let b = string_bytes(s) + tail;
    lemma_le_u32_round_trip(n);
    assert(b.subrange(0, 4) =~= le_u32(n));
    assert(b.subrange(4, 4 + n) =~= body);
}

/// Appends the eight bytes of `n`, least significant first, to `out`.
pub fn put_u64(out: &mut Vec<u8>, n: u64)
    ensures
        final(out)@ == old(out)@ + le_u64(n),
{
    out.push((n % 256) as u8);
    out.push((n / 0x100 % 256) as u8);
    out.push((n / 0x1_0000 % 256) as u8);
    out.push((n / 0x100_0000 % 256) as u8);
    out.push((n / 0x1_0000_0000 % 256) as u8);
    out.push((n / 0x100_0000_0000 % 256) as u8);
    out.push((n / 0x1_0000_0000_0000 % 256) as u8);
    out.push((n / 0x100_0000_0000_0000 % 256) as u8);
}

/// Reads the number laid out in the eight bytes of `data` from `pos` on.
pub fn take_u64(data: &[u8], pos: usize) -> (n: u64)
    requires
        pos + 8 <= data@.len(),
    ensures
        n == from_le_u64(data@.skip(pos as int)),
{
    let b0: u64 = data[pos] as u64;
    let b1: u64 = data[pos + 1] as u64;
    let b2: u64 = data[pos + 2] as u64;
    let b3: u64 = data[pos + 3] as u64;
    let b4: u64 = data[pos + 4] as u64;
    let b5: u64 = data[pos + 5] as u64;
    let b6: u64 = data[pos + 6] as u64;
    let b7: u64 = data[pos + 7] as u64;
    b0 + 0x100 * b1 + 0x1_0000 * b2 + 0x100_0000 * b3 + 0x1_0000_0000 * b4 + 0x100_0000_0000 * b5
        + 0x1_0000_0000_0000 * b6 + 0x100_0000_0000_0000 * b7
}

/// The eight bytes of `n`, most significant first.
pub fn be_bytes(n: u64) -> (out: Vec<u8>)
    ensures
        out@ == be_u64(n),
{
    let mut out: Vec<u8> = Vec::new();
    out.push((n / 0x100_0000_0000_0000 % 256) as u8);
    out.push((n / 0x1_0000_0000_0000 % 256) as u8);
    out.push((n / 0x100_0000_0000 % 256) as u8);
    out.push((n / 0x1_0000_0000 % 256) as u8);
    out.push((n / 0x100_0000 % 256) as u8);
    out.push((n / 0x1_0000 % 256) as u8);
    out.push((n / 0x100 % 256) as u8);
    out.push((n % 256) as u8);
    out
}

/// Reads the flag laid out in `data` at `pos`.
pub fn take_flag(data: &[u8], pos: usize) -> (r: Option<bool>)
    requires
        pos <= data@.len(),
    ensures
        r == parse_flag(data@.skip(pos as int)),
{
    if pos < data.len() && data[pos] == 0 {
        Some(false)
    } else if pos < data.len() && data[pos] == 1 {
        Some(true)
    } else {
        None
    }
}

/// The bytes of the number that four bytes spell are those four bytes.
pub proof fn lemma_le_u32_of_bytes(s: Seq<u8>)
    requires
        s.len() == 4,
    ensures
        le_u32(from_le_u32(s)) == s,
{
    let n = from_le_u32(s);
    assert(n == s[0] + 256 * s[1] + 65536 * s[2] + 16777216 * s[3]);
    assert(n % 256 == s[0]);
    assert(n / 256 == s[1] + 256 * s[2] + 65536 * s[3]);
    assert(n / 65536 == s[2] + 256 * s[3]);
    assert(n / 16777216 == s[3]);
    assert(le_u32(n) =~= s);
}

/// A string that is read takes its own layout, which is what was read.
pub proof fn lemma_parse_string_layout(b: Seq<u8>)
    requires
        parse_string(b).is_some(),
    ensures
        can_lay_out(parse_string(b).unwrap().0),
        parse_string(b).unwrap().1 == string_bytes(parse_string(b).unwrap().0).len(),
        parse_string(b).unwrap().1 <= b.len(),
        string_bytes(parse_string(b).unwrap().0) == b.subrange(0, parse_string(b).unwrap().1),
{
    reveal(parse_string);
    let head = b.subrange(0, 4);
    let n = from_le_u32(head);
    let body = b.subrange(4, 4 + n);
    assert(encode_utf8(decode_utf8(body)) == body) by {
        vstd::utf8::decode_utf8_encode_utf8(body);
    }
    assert(le_u32(n) == head) by {
        lemma_le_u32_of_bytes(head);
    }
}

/// At the start of zero bytes the empty string is laid out.
pub proof fn lemma_parse_string_zeros(b: Seq<u8>)
    requires
        b.len() >= 4,
        forall|i: int| 0 <= i < 4 ==> b[i] == 0,
    ensures
        parse_string(b) == Some((Seq::<char>::empty(), 4int)),
{
    reveal(parse_string);
}

} // verus!
