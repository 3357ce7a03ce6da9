use byteorder::{BigEndian, ByteOrder, LittleEndian};
use vstd::prelude::*;

verus! {

/// The number that the first two bytes of `b` spell, most significant first.
pub open spec fn be_u16(b: Seq<u8>) -> int
    recommends
        b.len() >= 2,
{
    b[0] as int * 0x100 + b[1] as int
}

/// The number that the first four bytes of `b` spell, most significant first.
pub open spec fn be_u32(b: Seq<u8>) -> int
    recommends
        b.len() >= 4,
{
    b[0] as int * 0x100_0000 + b[1] as int * 0x1_0000 + b[2] as int * 0x100 + b[3] as int
}

/// The number that the first two bytes of `b` spell, least significant first.
pub open spec fn le_u16(b: Seq<u8>) -> int
    recommends
        b.len() >= 2,
{
    b[0] as int + b[1] as int * 0x100
}

/// The number that the first three bytes of `b` spell, least significant first.
pub open spec fn le_u24(b: Seq<u8>) -> int
    recommends
        b.len() >= 3,
{
    b[0] as int + b[1] as int * 0x100 + b[2] as int * 0x1_0000
}

/// The number that the first four bytes of `b` spell, least significant first.
pub open spec fn le_u32(b: Seq<u8>) -> int
    recommends
        b.len() >= 4,
{
    b[0] as int + b[1] as int * 0x100 + b[2] as int * 0x1_0000 + b[3] as int * 0x100_0000
}

/// `byteorder::BigEndian::read_u32`: interprets the first four bytes of
/// `buf` as a big-endian number. The call panics on a shorter buffer, which
/// the precondition excludes.
#[verifier::external_body]
pub(crate) fn read_be_u32(buf: &[u8]) -> (r: u32)
    requires
        buf@.len() >= 4,
    ensures
        r as int == be_u32(buf@),
{
    BigEndian::read_u32(buf)
}

/// `byteorder::BigEndian::read_u16`: interprets the first two bytes of
/// `buf` as a big-endian number. The call panics on a shorter buffer, which
/// the precondition excludes.
#[verifier::external_body]
pub(crate) fn read_be_u16(buf: &[u8]) -> (r: u16)
    requires
        buf@.len() >= 2,
    ensures
        r as int == be_u16(buf@),
{
    BigEndian::read_u16(buf)
}

/// `byteorder::LittleEndian::read_u16`: interprets the first two bytes of
/// `buf` as a little-endian number. The call panics on a shorter buffer,
/// which the precondition excludes.
#[verifier::external_body]
pub(crate) fn read_le_u16(buf: &[u8]) -> (r: u16)
    requires
        buf@.len() >= 2,
    ensures
        r as int == le_u16(buf@),
{
    LittleEndian::read_u16(buf)
}

/// `byteorder::LittleEndian::read_u24`: interprets the first three bytes of
/// `buf` as a little-endian number, handed back in a `u32`. The call panics
/// on a shorter buffer, which the precondition excludes.
#[verifier::external_body]
pub(crate) fn read_le_u24(buf: &[u8]) -> (r: u32)
    requires
        buf@.len() >= 3,
    ensures
        r as int == le_u24(buf@),
{
    LittleEndian::read_u24(buf)
}

/// `byteorder::LittleEndian::read_u32`: interprets the first four bytes of
/// `buf` as a little-endian number. The call panics on a shorter buffer,
/// which the precondition excludes.
#[verifier::external_body]
pub(crate) fn read_le_u32(buf: &[u8]) -> (r: u32)
    requires
        buf@.len() >= 4,
    ensures
        r as int == le_u32(buf@),
{
    LittleEndian::read_u32(buf)
}

} // verus!
