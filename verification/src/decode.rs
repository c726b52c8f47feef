//! Decoding of 16-bit instruction words and the error taxonomy.

use vstd::prelude::*;

verus! {

/// Outcome of a failed load or cycle.
#[derive(Clone, Copy, Debug, PartialEq, Eq, Structural)]
pub enum Chip8Error {
    /// The ROM exceeds the 3584 bytes of program memory.
    RomTooLarge,
    /// A subroutine call was made with the call stack already full.
    StackOverflow,
    /// A return was executed with the call stack empty.
    StackUnderflow,
    /// The fetched instruction matches no opcode pattern.
    InvalidOpcode,
    /// A computed address or key index falls outside its range.
    MemoryOutOfBounds,
}

/// The low 12 bits of an opcode: an address operand.
pub open spec fn op_nnn(op: u16) -> u16 {
    op & 0x0FFF
}

/// Bits 8..12 of an opcode: the first register selector.
pub open spec fn op_x(op: u16) -> u16 {
    (op >> 8) & 0xF
}

/// Bits 4..8 of an opcode: the second register selector.
pub open spec fn op_y(op: u16) -> u16 {
    (op >> 4) & 0xF
}

/// The low byte of an opcode: an immediate operand.
pub open spec fn op_kk(op: u16) -> u8 {
    (op & 0xFF) as u8
}

/// The low nibble of an opcode: a sprite height operand.
pub open spec fn op_n(op: u16) -> u16 {
    op & 0xF
}

/// The high nibble of an opcode: the primary dispatch family.
pub open spec fn op_family(op: u16) -> u16 {
    (op >> 12) & 0xF
}

/// Ranges of the decoded fields, needed wherever one of them indexes
/// a register file, the keypad or memory.
pub proof fn lemma_decode_bounds(op: u16)
    ensures
        op_nnn(op) < 4096,
        op_x(op) < 16,
        op_y(op) < 16,
        op_n(op) < 16,
        op_family(op) < 16,
{
    assert((op & 0x0FFF) < 4096 && ((op >> 8) & 0xF) < 16 && ((op >> 4) & 0xF) < 16 && (op & 0xF)
        < 16 && ((op >> 12) & 0xF) < 16) by (bit_vector);
}

pub fn decode_nnn(op: u16) -> (r: u16)
    ensures
        r == op_nnn(op),
        r < 4096,
{
    proof {
        lemma_decode_bounds(op);
    }
    op & 0x0FFF
}

pub fn decode_x(op: u16) -> (r: u16)
    ensures
        r == op_x(op),
        r < 16,
{
    proof {
        lemma_decode_bounds(op);
    }
    (op >> 8) & 0xF
}

pub fn decode_y(op: u16) -> (r: u16)
    ensures
        r == op_y(op),
        r < 16,
{
    proof {
        lemma_decode_bounds(op);
    }
    (op >> 4) & 0xF
}

pub fn decode_kk(op: u16) -> (r: u8)
    ensures
        r == op_kk(op),
{
    (op & 0xFF) as u8
}

pub fn decode_n(op: u16) -> (r: u16)
    ensures
        r == op_n(op),
        r < 16,
{
    proof {
        lemma_decode_bounds(op);
    }
    op & 0xF
}

pub fn decode_family(op: u16) -> (r: u16)
    ensures
        r == op_family(op),
        r < 16,
{
    proof {
        lemma_decode_bounds(op);
    }
    (op >> 12) & 0xF
}

} // verus!
