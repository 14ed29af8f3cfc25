//! Fixed-width integers as bytes: little-endian, big-endian and host order.
//!
//! The spec functions here are the vocabulary in which every wire layout of
//! this crate is stated. Host order is `vstd::endian::endianness()`.

use vstd::endian::{endianness, Endian};
use vstd::prelude::*;

verus! {

/// The two bytes of `x` in the order `e`.
pub open spec fn u16_bytes(e: Endian, x: u16) -> Seq<u8> {
    match e {
        Endian::Little => seq![(x % 256) as u8, (x / 256) as u8],
        Endian::Big => seq![(x / 256) as u8, (x % 256) as u8],
    }
}

/// The four bytes of `x` in the order `e`.
pub open spec fn u32_bytes(e: Endian, x: u32) -> Seq<u8> {
    match e {
        Endian::Little => seq![
            (x % 256) as u8,
            (x / 256 % 256) as u8,
            (x / 65536 % 256) as u8,
            (x / 16777216) as u8,
        ],
        Endian::Big => seq![
            (x / 16777216) as u8,
            (x / 65536 % 256) as u8,
            (x / 256 % 256) as u8,
            (x % 256) as u8,
        ],
    }
}

/// The number that `s[i]`, `s[i + 1]` spell in the order `e`.
pub open spec fn u16_at(e: Endian, s: Seq<u8>, i: int) -> u16 {
    match e {
        Endian::Little => (s[i] + 256 * s[i + 1]) as u16,
        Endian::Big => (256 * s[i] + s[i + 1]) as u16,
    }
}

/// The number that `s[i]` to `s[i + 3]` spell in the order `e`.
pub open spec fn u32_at(e: Endian, s: Seq<u8>, i: int) -> u32 {
    match e {
        Endian::Little => (s[i] + 256 * s[i + 1] + 65536 * s[i + 2] + 16777216 * s[i + 3]) as u32,
        Endian::Big => (16777216 * s[i] + 65536 * s[i + 1] + 256 * s[i + 2] + s[i + 3]) as u32,
    }
}

/// The number that `s[i]` to `s[i + 7]` spell, least significant byte first.
pub open spec fn u64_le_at(s: Seq<u8>, i: int) -> u64 {
    (u32_at(Endian::Little, s, i) + 4294967296 * u32_at(Endian::Little, s, i + 4)) as u64
}

/// Reading back what `u16_bytes` wrote gives the number again.
pub proof fn lemma_u16_round_trip(e: Endian, x: u16)
    ensures
        u16_bytes(e, x).len() == 2,
        u16_at(e, u16_bytes(e, x), 0) == x,
{
}

/// `u16::to_ne_bytes`: the two bytes of `x` in the order of the machine that
/// runs the program.
#[verifier::external_body]
pub(crate) fn u16_to_ne_bytes(x: u16) -> (r: [u8; 2])
    ensures
        r@ == u16_bytes(endianness(), x),
{
    x.to_ne_bytes()
}

/// `u32::to_ne_bytes`: the four bytes of `x` in the order of the machine that
/// runs the program.
#[verifier::external_body]
pub(crate) fn u32_to_ne_bytes(x: u32) -> (r: [u8; 4])
    ensures
        r@ == u32_bytes(endianness(), x),
{
    x.to_ne_bytes()
}

/// `u16::from_ne_bytes`: the number that two bytes spell in the order of the
/// machine that runs the program.
#[verifier::external_body]
pub(crate) fn u16_from_ne_bytes(b: [u8; 2]) -> (r: u16)
    ensures
        r == u16_at(endianness(), b@, 0),
{
    u16::from_ne_bytes(b)
}

/// `u32::from_ne_bytes`: the number that four bytes spell in the order of the
/// machine that runs the program.
#[verifier::external_body]
pub(crate) fn u32_from_ne_bytes(b: [u8; 4]) -> (r: u32)
    ensures
        r == u32_at(endianness(), b@, 0),
{
    u32::from_ne_bytes(b)
}

/// `bincode::ErrorKind`: what bincode reports when it cannot decode. A value
/// of it is carried, never looked into.
#[verifier::external_type_specification]
#[verifier::external_body]
pub struct ExBincodeErrorKind(bincode::ErrorKind);

/// `bincode::deserialize` at `u32`. With bincode's default options an integer
/// has a fixed width and is little-endian, and bytes behind it are let be: the
/// call succeeds exactly on four bytes or more, with the number that the first
/// four spell.
#[verifier::external_body]
pub(crate) fn bincode_u32(bytes: &[u8]) -> (r: Result<u32, Box<bincode::ErrorKind>>)
    ensures
        r is Ok <==> bytes@.len() >= 4,
        r matches Ok(v) ==> v == u32_at(Endian::Little, bytes@, 0),
{
    bincode::deserialize::<u32>(bytes)
}

/// `bincode::deserialize` at `u64`: as at `u32`, on eight bytes.
#[verifier::external_body]
pub(crate) fn bincode_u64(bytes: &[u8]) -> (r: Result<u64, Box<bincode::ErrorKind>>)
    ensures
        r is Ok <==> bytes@.len() >= 8,
        r matches Ok(v) ==> v == u64_le_at(bytes@, 0),
{
    bincode::deserialize::<u64>(bytes)
}

/// The two bytes of `x`, most significant first.
pub fn u16_to_be_bytes(x: u16) -> (r: [u8; 2])
    ensures
        r@ == u16_bytes(Endian::Big, x),
{
    let r: [u8; 2] = [(x / 256) as u8, (x % 256) as u8];
    assert(r@ =~= u16_bytes(Endian::Big, x));
    r
}

/// The number that two bytes spell, most significant first.
pub fn u16_from_be_bytes(b: [u8; 2]) -> (r: u16)
    ensures
        r == u16_at(Endian::Big, b@, 0),
{
    let hi: u16 = b[0] as u16;
    let lo: u16 = b[1] as u16;
    hi * 256 + lo
}

/// Appends `bytes` to `buf`.
pub fn put(buf: &mut Vec<u8>, bytes: &[u8])
    ensures
        final(buf)@ == old(buf)@ + bytes@,
{
    let mut i: usize = 0;
    while i < bytes.len()
        invariant
            i <= bytes.len(),
            buf@ == old(buf)@ + bytes@.subrange(0, i as int),
        decreases bytes.len() - i,
    {
        buf.push(bytes[i]);
        i += 1;
    }
    assert(bytes@.subrange(0, i as int) =~= bytes@);
}

} // verus!
