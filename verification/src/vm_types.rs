//! SourcePawn VM types: cells and function identifiers, encoded in the
//! byte order of the container that carries them.

use vstd::prelude::*;
use crate::endian::{Endianness, u32_bytes, u32_of_bytes, put_u32, get_u32, lemma_u32_roundtrip};

verus! {

/// `ucell_t`.
pub type Ucell = u32;

/// `cell_t`.
pub type Cell = i32;

/// `funcid_t`.
pub type FuncId = u32;

/// Maximum number of parameters for a SourcePawn function.
pub const MAX_PARAMS: usize = 32;

/// Maximum number of arguments for a native or SourcePawn function.
pub const MAX_ARGS: usize = 127;

/// The unsigned 32-bit value holding a cell's two's-complement bits.
pub open spec fn cell_to_u32(v: i32) -> u32 {
    if v >= 0 {
        v as u32
    } else {
        (v + 0x1_0000_0000) as u32
    }
}

/// The cell whose two's-complement bits are `u`.
pub open spec fn u32_to_cell(u: u32) -> i32 {
    if u < 0x8000_0000 {
        u as i32
    } else {
        (u - 0x1_0000_0000) as i32
    }
}

/// The four bytes of a cell in the order `e`.
pub open spec fn cell_bytes(e: Endianness, v: i32) -> Seq<u8> {
    u32_bytes(e, cell_to_u32(v))
}

/// Decoding the four bytes of a cell gives the cell back.
pub proof fn lemma_cell_roundtrip(e: Endianness, v: i32)
    ensures
        u32_to_cell(u32_of_bytes(e, cell_bytes(e, v))) == v,
{
    lemma_u32_roundtrip(e, cell_to_u32(v));
}

/// Read a [`Ucell`] at `pos` in the order `e`.
pub fn read_ucell(bytes: &[u8], pos: usize, e: Endianness) -> (r: Ucell)
    requires
        pos + 4 <= bytes@.len(),
    ensures
        r == u32_of_bytes(e, bytes@.subrange(pos as int, pos as int + 4)),
{
    get_u32(bytes, pos, e)
}

/// Read a [`Cell`] at `pos` in the order `e`.
pub fn read_cell(bytes: &[u8], pos: usize, e: Endianness) -> (r: Cell)
    requires
        pos + 4 <= bytes@.len(),
    ensures
        r == u32_to_cell(u32_of_bytes(e, bytes@.subrange(pos as int, pos as int + 4))),
{
    let u = get_u32(bytes, pos, e);
    if u < 0x8000_0000 {
        u as i32
    } else {
        ((u as i64) - 0x1_0000_0000i64) as i32
    }
}

/// Append a [`Cell`] in the order `e`.
pub fn write_cell(out: &mut Vec<u8>, e: Endianness, cell: Cell)
    ensures
        final(out)@ == old(out)@ + cell_bytes(e, cell),
{
    let u: u32 = if cell >= 0 {
        cell as u32
    } else {
        ((cell as i64) + 0x1_0000_0000i64) as u32
    };
    put_u32(out, e, u);
}

/// Read a [`FuncId`] at `pos` in the order `e`.
pub fn read_func_id(bytes: &[u8], pos: usize, e: Endianness) -> (r: FuncId)
    requires
        pos + 4 <= bytes@.len(),
    ensures
        r == u32_of_bytes(e, bytes@.subrange(pos as int, pos as int + 4)),
{
    get_u32(bytes, pos, e)
}

} // verus!
