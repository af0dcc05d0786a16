//! The instruction decoder: a 16-bit opcode word, its operand fields, and the
//! operation it selects.

use vstd::prelude::*;

verus! {

/// The opcode built from two consecutive memory bytes, most significant first.
pub open spec fn opcode_of(first: u8, second: u8) -> u16 {
    ((first as u16) << 8) | (second as u16)
}

/// Bits 15-12 of an opcode: the class selector.
pub open spec fn indicator_of(op: u16) -> u8 {
    ((op >> 12) & 0xF) as u8
}

/// Bits 11-8 of an opcode: the first register index.
pub open spec fn x_of(op: u16) -> u8 {
    ((op >> 8) & 0xF) as u8
}

/// Bits 7-4 of an opcode: the second register index.
pub open spec fn y_of(op: u16) -> u8 {
    ((op >> 4) & 0xF) as u8
}

/// Bits 3-0 of an opcode: the 4-bit immediate.
pub open spec fn n_of(op: u16) -> u8 {
    (op & 0xF) as u8
}

/// Bits 7-0 of an opcode: the 8-bit immediate.
pub open spec fn nn_of(op: u16) -> u8 {
    (op & 0xFF) as u8
}

/// Bits 11-0 of an opcode: the 12-bit address.
pub open spec fn nnn_of(op: u16) -> u16 {
    op & 0xFFF
}

/// What an instruction asks the machine to do.
#[derive(Clone, Copy, Debug, PartialEq, Eq, Structural)]
pub enum Operation {
    /// `00E0`: clear the screen.
    ClearScreen,
    /// `1nnn`: jump to `nnn`.
    Jump { nnn: u16 },
    /// `3xnn`: skip the next instruction if `v[x] == nn`.
    SkipIfEqual { x: u8, nn: u8 },
    /// `4xnn`: skip the next instruction if `v[x] != nn`.
    SkipIfNotEqual { x: u8, nn: u8 },
    /// `6xnn`: `v[x] = nn`.
    LoadImmediate { x: u8, nn: u8 },
    /// `7xnn`: `v[x] = v[x] + nn`, wrapping, flag untouched.
    AddImmediate { x: u8, nn: u8 },
    /// `8xy_`: `v[x] = v[y]`.
    CopyRegister { x: u8, y: u8 },
    /// `Annn`: `i = nnn`.
    LoadIndex { nnn: u16 },
    /// `Dxyn`: draw the `n`-row sprite at `i` to `(v[x], v[y])`.
    DrawSprite { x: u8, y: u8, n: u8 },
    /// Any other word; carries the raw opcode for the diagnostic.
    Unknown { opcode: u16 },
}

impl Operation {
    /// Register indices name one of the 16 registers, a sprite height is a
    /// nibble and an address has 12 bits.
    pub open spec fn wf(self) -> bool {
        match self {
            Operation::ClearScreen => true,
            Operation::Jump { nnn } => nnn < 0x1000,
            Operation::SkipIfEqual { x, nn } => x < 16,
            Operation::SkipIfNotEqual { x, nn } => x < 16,
            Operation::LoadImmediate { x, nn } => x < 16,
            Operation::AddImmediate { x, nn } => x < 16,
            Operation::CopyRegister { x, y } => x < 16 && y < 16,
            Operation::LoadIndex { nnn } => nnn < 0x1000,
            Operation::DrawSprite { x, y, n } => x < 16 && y < 16 && n < 16,
            Operation::Unknown { opcode } => true,
        }
    }
}

/// The dispatch table: which operation each opcode selects.
pub open spec fn decode_spec(op: u16) -> Operation {
    let class = indicator_of(op);
    if class == 0x0 && op == 0x00E0 {
        Operation::ClearScreen
    } else if class == 0x1 {
        Operation::Jump { nnn: nnn_of(op) }
    } else if class == 0x3 {
        Operation::SkipIfEqual { x: x_of(op), nn: nn_of(op) }
    } else if class == 0x4 {
        Operation::SkipIfNotEqual { x: x_of(op), nn: nn_of(op) }
    } else if class == 0x6 {
        Operation::LoadImmediate { x: x_of(op), nn: nn_of(op) }
    } else if class == 0x7 {
        Operation::AddImmediate { x: x_of(op), nn: nn_of(op) }
    } else if class == 0x8 {
        Operation::CopyRegister { x: x_of(op), y: y_of(op) }
    } else if class == 0xA {
        Operation::LoadIndex { nnn: nnn_of(op) }
    } else if class == 0xD {
        Operation::DrawSprite { x: x_of(op), y: y_of(op), n: n_of(op) }
    } else {
        Operation::Unknown { opcode: op }
    }
}

/// No operand field exceeds its bit width, and the casts in the field
/// functions lose nothing.
pub proof fn lemma_field_widths(op: u16)
    ensures
        indicator_of(op) == (op >> 12) & 0xF,
        x_of(op) == (op >> 8) & 0xF,
        y_of(op) == (op >> 4) & 0xF,
        n_of(op) == op & 0xF,
        nn_of(op) == op & 0xFF,
        indicator_of(op) < 16,
        x_of(op) < 16,
        y_of(op) < 16,
        n_of(op) < 16,
        nnn_of(op) < 0x1000,
{
    assert((op >> 12) & 0xF < 16) by (bit_vector);
    assert((op >> 8) & 0xF < 16) by (bit_vector);
    assert((op >> 4) & 0xF < 16) by (bit_vector);
    assert(op & 0xF < 16) by (bit_vector);
    assert(op & 0xFF < 256) by (bit_vector);
    assert(op & 0xFFF < 0x1000) by (bit_vector);
}

/// Every decoded operation is well formed.
pub proof fn lemma_decode_wf(op: u16)
    ensures
        decode_spec(op).wf(),
{
    lemma_field_widths(op);
}

/// Every 16-bit word is the opcode of some pair of bytes: its high and its
/// low byte.
pub proof fn lemma_opcode_of_halves(op: u16)
    ensures
        opcode_of((op >> 8) as u8, (op & 0xFF) as u8) == op,
{
    assert((((op >> 8) as u8) as u16) << 8 | (((op & 0xFF) as u8) as u16) == op) by (bit_vector);
}

/// One two-byte instruction. Every 16-bit word is a legal instruction.
#[derive(Clone, Copy, Debug)]
pub struct Instruction(u16);

impl View for Instruction {
    type V = u16;

    closed spec fn view(&self) -> u16 {
        self.0
    }
}

impl Instruction {
    /// Pairs the byte at `pc` with the byte at `pc + 1`, big-endian.
    pub fn new(first: u8, second: u8) -> (inst: Self)
        ensures
            inst@ == opcode_of(first, second),
    {
        Instruction(((first as u16) << 8) | (second as u16))
    }

    /// The raw 16-bit word.
    pub fn opcode(&self) -> (op: u16)
        ensures
            op == self@,
    {
        self.0
    }

    /// Bits 15-12: the opcode class.
    pub fn indicator(&self) -> (r: u8)
        ensures
            r == (self@ >> 12) & 0xF,
            r == indicator_of(self@),
            r < 16,
    {
        let op: u16 = self.opcode();
        proof {
            lemma_field_widths(op);
            assert((op & 0xF000) >> 12 == (op >> 12) & 0xF) by (bit_vector);
        }
        ((op & 0xF000) >> 12) as u8
    }

    /// Bits 11-8: the first register index.
    pub fn x(&self) -> (r: u8)
        ensures
            r == (self@ >> 8) & 0xF,
            r == x_of(self@),
            r < 16,
    {
        let op: u16 = self.opcode();
        proof {
            lemma_field_widths(op);
            assert((op & 0x0F00) >> 8 == (op >> 8) & 0xF) by (bit_vector);
        }
        ((op & 0x0F00) >> 8) as u8
    }

    /// Bits 7-4: the second register index.
    pub fn y(&self) -> (r: u8)
        ensures
            r == (self@ >> 4) & 0xF,
            r == y_of(self@),
            r < 16,
    {
        let op: u16 = self.opcode();
        proof {
            lemma_field_widths(op);
            assert((op & 0x00F0) >> 4 == (op >> 4) & 0xF) by (bit_vector);
        }
        ((op & 0x00F0) >> 4) as u8
    }

    /// Bits 3-0: the 4-bit immediate, a sprite height.
    pub fn n(&self) -> (r: u8)
        ensures
            r == self@ & 0xF,
            r == n_of(self@),
            r < 16,
    {
        let op: u16 = self.opcode();
        proof {
            lemma_field_widths(op);
        }
        (op & 0x000F) as u8
    }

    /// Bits 7-0: the 8-bit immediate.
    pub fn nn(&self) -> (r: u8)
        ensures
            r == self@ & 0xFF,
            r == nn_of(self@),
    {
        let op: u16 = self.opcode();
        proof {
            lemma_field_widths(op);
        }
        (op & 0x00FF) as u8
    }

    /// Bits 11-0: the 12-bit address.
    pub fn nnn(&self) -> (r: u16)
        ensures
            r == self@ & 0xFFF,
            r == nnn_of(self@),
            r < 0x1000,
    {
        let op: u16 = self.opcode();
        proof {
            lemma_field_widths(op);
        }
        op & 0x0FFF
    }

    /// Looks the instruction up in the dispatch table.
    pub fn decode(&self) -> (operation: Operation)
        ensures
            operation == decode_spec(self@),
            operation.wf(),
    {
        let class: u8 = self.indicator();
        proof {
            lemma_decode_wf(self@);
        }
        if class == 0x0 {
            if self.opcode() == 0x00E0 {
                Operation::ClearScreen
            } else {
                Operation::Unknown { opcode: self.opcode() }
            }
        } else if class == 0x1 {
            Operation::Jump { nnn: self.nnn() }
        } else if class == 0x3 {
            Operation::SkipIfEqual { x: self.x(), nn: self.nn() }
        } else if class == 0x4 {
            Operation::SkipIfNotEqual { x: self.x(), nn: self.nn() }
        } else if class == 0x6 {
            Operation::LoadImmediate { x: self.x(), nn: self.nn() }
        } else if class == 0x7 {
            Operation::AddImmediate { x: self.x(), nn: self.nn() }
        } else if class == 0x8 {
            Operation::CopyRegister { x: self.x(), y: self.y() }
        } else if class == 0xA {
            Operation::LoadIndex { nnn: self.nnn() }
        } else if class == 0xD {
            Operation::DrawSprite { x: self.x(), y: self.y(), n: self.n() }
        } else {
            Operation::Unknown { opcode: self.opcode() }
        }
    }
}

} // verus!
