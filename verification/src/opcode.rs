//! The fields of a two-byte instruction word.
use vstd::prelude::*;

verus! {

/// Bits 8..12 of an instruction: the first register operand.
pub open spec fn op_x(bytes: u16) -> int {
    (bytes as int / 256) % 16
}

/// Bits 4..8 of an instruction: the second register operand.
pub open spec fn op_y(bytes: u16) -> int {
    (bytes as int / 16) % 16
}

/// Bits 0..4 of an instruction.
pub open spec fn op_n(bytes: u16) -> int {
    bytes as int % 16
}

/// Bits 0..8 of an instruction: an immediate byte.
pub open spec fn op_nn(bytes: u16) -> u8 {
    (bytes as int % 256) as u8
}

/// Bits 0..12 of an instruction: an address.
pub open spec fn op_nnn(bytes: u16) -> u16 {
    (bytes as int % 4096) as u16
}

/// Bits 12..16 of an instruction: its family.
pub open spec fn op_family(bytes: u16) -> int {
    bytes as int / 4096
}

/// The word made of a high and a low byte.
pub open spec fn word_of(hi: u8, lo: u8) -> u16 {
    (hi as int * 256 + lo as int) as u16
}

pub fn field_x(bytes: u16) -> (r: usize)
    ensures
        r == op_x(bytes),
        r < 16,
{
    let x = ((bytes & 0xf00) >> 8) as u8;
    proof {
        assert(((bytes & 0xf00u16) >> 8u16) == (bytes / 256) % 16) by (bit_vector);
    }
    x as usize
}

pub fn field_y(bytes: u16) -> (r: usize)
    ensures
        r == op_y(bytes),
        r < 16,
{
    let y = ((bytes & 0xf0) >> 4) as u8;
    proof {
        assert(((bytes & 0xf0u16) >> 4u16) == (bytes / 16) % 16) by (bit_vector);
    }
    y as usize
}

pub fn field_n(bytes: u16) -> (r: u16)
    ensures
        r == op_n(bytes),
        r < 16,
{
    proof {
        assert((bytes & 0xfu16) == bytes % 16) by (bit_vector);
    }
    bytes & 0xf
}

pub fn field_nn(bytes: u16) -> (r: u8)
    ensures
        r == op_nn(bytes),
{
    proof {
        assert((bytes & 0xffu16) == bytes % 256) by (bit_vector);
    }
    (bytes & 0xff) as u8
}

pub fn field_nnn(bytes: u16) -> (r: u16)
    ensures
        r == op_nnn(bytes),
{
    proof {
        assert((bytes & 0xfffu16) == bytes % 4096) by (bit_vector);
    }
    bytes & 0xfff
}

pub fn field_family(bytes: u16) -> (r: u16)
    ensures
        r == op_family(bytes),
        r < 16,
{
    proof {
        assert(((bytes & 0xf000u16) >> 12u16) == bytes / 4096) by (bit_vector);
    }
    (bytes & 0xf000) >> 12
}

/// Joins a high and a low byte into a word.
pub fn join_bytes(hi: u8, lo: u8) -> (r: u16)
    ensures
        r == word_of(hi, lo),
{
    proof {
        assert(((hi as u16) << 8u16) | (lo as u16) == hi as u16 * 256 + lo as u16) by (bit_vector);
    }
    ((hi as u16) << 8) | lo as u16
}

} // verus!
