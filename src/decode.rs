use vstd::prelude::*;

verus! {

/// Bits 15-12 of an instruction word: the instruction class.
pub open spec fn class_of(op: u16) -> u8 {
    ((op & 0xF000) >> 12) as u8
}

/// Bits 11-8: the first register operand.
pub open spec fn x_of(op: u16) -> u8 {
    ((op & 0x0F00) >> 8) as u8
}

/// Bits 7-4: the second register operand.
pub open spec fn y_of(op: u16) -> u8 {
    ((op & 0x00F0) >> 4) as u8
}

/// Bits 3-0: the sub-opcode.
pub open spec fn d_of(op: u16) -> u8 {
    (op & 0x000F) as u8
}

/// Bits 11-0: the 12-bit address operand.
pub open spec fn address_of(op: u16) -> u16 {
    op & 0x0FFF
}

/// What a decoded instruction word asks the machine to do.
#[derive(Debug, Clone, Copy, PartialEq, Eq, Structural)]
pub enum Instruction {
    /// `0000`: stop the run.
    Halt,
    /// `00EE`: return from a subroutine.
    Return,
    /// `2nnn`: call the subroutine at `nnn`.
    Call(u16),
    /// `8xy4`: add register `y` into register `x`, carry into register 0xF.
    AddXY(u8, u8),
    /// Any other word, kept verbatim.
    Unimplemented(u16),
}

/// The instruction that a word stands for, chosen on its four nibbles.
pub open spec fn decode_spec(op: u16) -> Instruction {
    let c = class_of(op);
    let x = x_of(op);
    let y = y_of(op);
    let d = d_of(op);
    if c == 0 && x == 0 && y == 0 && d == 0 {
        Instruction::Halt
    } else if c == 0 && x == 0 && y == 0xE && d == 0xE {
        Instruction::Return
    } else if c == 2 {
        Instruction::Call(address_of(op))
    } else if c == 8 && d == 4 {
        Instruction::AddXY(x, y)
    } else {
        Instruction::Unimplemented(op)
    }
}

/// Each nibble is below 16 and the address operand below 4096.
pub proof fn lemma_fields_bounded(op: u16)
    ensures
        class_of(op) < 16,
        x_of(op) < 16,
        y_of(op) < 16,
        d_of(op) < 16,
        address_of(op) < 4096,
{
    assert(((op & 0xF000) >> 12) < 16) by (bit_vector);
    assert(((op & 0x0F00) >> 8) < 16) by (bit_vector);
    assert(((op & 0x00F0) >> 4) < 16) by (bit_vector);
    assert((op & 0x000F) < 16) by (bit_vector);
    assert((op & 0x0FFF) < 4096) by (bit_vector);
}

/// Splits an instruction word into its nibbles and picks its handler.
pub fn decode(op: u16) -> (r: Instruction)
    ensures
        r == decode_spec(op),
        r matches Instruction::AddXY(x, y) ==> x < 16 && y < 16,
        r matches Instruction::Call(a) ==> a < 4096,
{
    proof {
        lemma_fields_bounded(op);
    }
    let c = ((op & 0xF000) >> 12) as u8;
    let x = ((op & 0x0F00) >> 8) as u8;
    let y = ((op & 0x00F0) >> 4) as u8;
    let d = (op & 0x000F) as u8;
    let nnn = op & 0x0FFF;
    match (c, x, y, d) {
        (0, 0, 0, 0) => Instruction::Halt,
        (0, 0, 0xE, 0xE) => Instruction::Return,
        (0x2, _, _, _) => Instruction::Call(nnn),
        (0x8, _, _, 0x4) => Instruction::AddXY(x, y),
        _ => Instruction::Unimplemented(op),
    }
}

} // verus!
