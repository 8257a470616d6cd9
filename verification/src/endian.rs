//! Byte order of one encoded file, and the encoding of the multi-byte
//! integer fields of the header and section-info table in that order.

use vstd::prelude::*;
use vstd::arithmetic::div_mod::{lemma_fundamental_div_mod, lemma_div_denominator};

verus! {

/// Endianness of an SMX file.
///
/// This is the result of [`crate::smx::infer_endianness`] and
/// [`crate::smx::read_from`].
#[derive(Debug, Clone, Copy, PartialEq, Eq, Structural)]
pub enum Endianness {
    /// File is encoded in little-endian.
    Little,
    /// File is encoded in big-endian.
    Big,
}

/// The two bytes of `v` in the order `e`.
pub open spec fn u16_bytes(e: Endianness, v: u16) -> Seq<u8> {
    match e {
        Endianness::Little => seq![(v as int % 256) as u8, (v as int / 256) as u8],
        Endianness::Big => seq![(v as int / 256) as u8, (v as int % 256) as u8],
    }
}

/// The four bytes of `v` in the order `e`.
pub open spec fn u32_bytes(e: Endianness, v: u32) -> Seq<u8> {
    match e {
        Endianness::Little => seq![
            (v as int % 256) as u8,
            (v as int / 256 % 256) as u8,
            (v as int / 65536 % 256) as u8,
            (v as int / 16777216 % 256) as u8,
        ],
        Endianness::Big => seq![
            (v as int / 16777216 % 256) as u8,
            (v as int / 65536 % 256) as u8,
            (v as int / 256 % 256) as u8,
            (v as int % 256) as u8,
        ],
    }
}

/// The value that two bytes hold in the order `e`.
pub open spec fn u16_of_bytes(e: Endianness, b: Seq<u8>) -> u16
    recommends
        b.len() == 2,
{
    match e {
        Endianness::Little => (b[0] + 256 * b[1]) as u16,
        Endianness::Big => (b[1] + 256 * b[0]) as u16,
    }
}

/// The value that four bytes hold in the order `e`.
pub open spec fn u32_of_bytes(e: Endianness, b: Seq<u8>) -> u32
    recommends
        b.len() == 4,
{
    match e {
        Endianness::Little => (b[0] + 256 * b[1] + 65536 * b[2] + 16777216 * b[3]) as u32,
        Endianness::Big => (b[3] + 256 * b[2] + 65536 * b[1] + 16777216 * b[0]) as u32,
    }
}

/// Decoding the two bytes of a value gives the value back.
pub proof fn lemma_u16_roundtrip(e: Endianness, v: u16)
    ensures
        u16_of_bytes(e, u16_bytes(e, v)) == v,
{
    lemma_fundamental_div_mod(v as int, 256);
}

/// Decoding the four bytes of a value gives the value back.
pub proof fn lemma_u32_roundtrip(e: Endianness, v: u32)
    ensures
        u32_of_bytes(e, u32_bytes(e, v)) == v,
{
    let x = v as int;
    lemma_fundamental_div_mod(x, 256);
    lemma_fundamental_div_mod(x / 256, 256);
    lemma_fundamental_div_mod(x / 65536, 256);
    lemma_div_denominator(x, 256, 256);
    lemma_div_denominator(x, 65536, 256);
    assert(x / 16777216 < 256) by (nonlinear_arith)
        requires 0 <= x < 0x1_0000_0000;
    assert(x / 16777216 % 256 == x / 16777216) by {
        lemma_fundamental_div_mod(x / 16777216, 256);
        assert(x / 16777216 >= 0) by (nonlinear_arith)
            requires x >= 0;
    }
}

/// Append the two bytes of `v` in the order `e`.
pub fn put_u16(out: &mut Vec<u8>, e: Endianness, v: u16)
    ensures
        final(out)@ == old(out)@ + u16_bytes(e, v),
{
    let lo = (v % 256) as u8;
    let hi = (v / 256) as u8;
    match e {
        Endianness::Little => {
            out.push(lo);
            out.push(hi);
        }
        Endianness::Big => {
            out.push(hi);
            out.push(lo);
        }
    }
    assert(out@ =~= old(out)@ + u16_bytes(e, v));
}

/// Append the four bytes of `v` in the order `e`.
pub fn put_u32(out: &mut Vec<u8>, e: Endianness, v: u32)
    ensures
        final(out)@ == old(out)@ + u32_bytes(e, v),
{
    let b0 = (v % 256) as u8;
    let b1 = (v / 256 % 256) as u8;
    let b2 = (v / 65536 % 256) as u8;
    let b3 = (v / 16777216 % 256) as u8;
    match e {
        Endianness::Little => {
            out.push(b0);
            out.push(b1);
            out.push(b2);
            out.push(b3);
        }
        Endianness::Big => {
            out.push(b3);
            out.push(b2);
            out.push(b1);
            out.push(b0);
        }
    }
    assert(out@ =~= old(out)@ + u32_bytes(e, v));
}

/// Read the two bytes at `pos` as a value in the order `e`.
pub fn get_u16(bytes: &[u8], pos: usize, e: Endianness) -> (r: u16)
    requires
        pos + 2 <= bytes@.len(),
    ensures
        r == u16_of_bytes(e, bytes@.subrange(pos as int, pos as int + 2)),
{
    let b0 = bytes[pos];
    let b1 = bytes[pos + 1];
    match e {
        Endianness::Little => b0 as u16 + 256 * (b1 as u16),
        Endianness::Big => b1 as u16 + 256 * (b0 as u16),
    }
}

/// Read the four bytes at `pos` as a value in the order `e`.
pub fn get_u32(bytes: &[u8], pos: usize, e: Endianness) -> (r: u32)
    requires
        pos + 4 <= bytes@.len(),
    ensures
        r == u32_of_bytes(e, bytes@.subrange(pos as int, pos as int + 4)),
{
    let b0 = bytes[pos];
    let b1 = bytes[pos + 1];
    let b2 = bytes[pos + 2];
    let b3 = bytes[pos + 3];
    match e {
        Endianness::Little => {
            b0 as u32 + 256 * (b1 as u32) + 65536 * (b2 as u32) + 16777216 * (b3 as u32)
        }
        Endianness::Big => {
            b3 as u32 + 256 * (b2 as u32) + 65536 * (b1 as u32) + 16777216 * (b0 as u32)
        }
    }
}

} // verus!
