//! Instruction decoding.
//!
//! A 16-bit instruction word is split into four nibbles, most significant
//! first; the nibbles drive a pattern dispatch that yields exactly one
//! [`Opcode`] variant. Decoding is total: a word that matches no known
//! pattern decodes to [`Opcode::Nop`], never an error.

use vstd::prelude::*;

verus! {

/// One decoded instruction with its operands.
///
/// Operands are register indices (always below 16), literal bytes, or
/// 12-bit addresses, extracted by fixed bit fields of the instruction word.
#[derive(Debug, Clone, Copy, PartialEq, Eq, Structural)]
pub enum Opcode {
    Nop,
    Cls,
    Ret,
    Jp { addr: u16 },
    Call { addr: u16 },
    Se { x: u8, byte: u8 },
    Sne { x: u8, byte: u8 },
    LdImm { x: u8, byte: u8 },
    AddImm { x: u8, byte: u8 },
    AddR { x: u8, y: u8 },
    SubR { x: u8, y: u8 },
    LdR { x: u8, y: u8 },
    LdiImm { addr: u16 },
    Drw { x: u8, y: u8, size: u8 },
    Sknp { x: u8 },
    Skp { x: u8 },
    LdRK { x: u8 },
    AddiR { x: u8 },
    LdM { x: u8 },
    SetDt { x: u8 },
    SetSt { x: u8 },
    LdDt { x: u8 },
    And { x: u8, y: u8 },
    Shr { x: u8 },
    XorR { x: u8, y: u8 },
    Rnd { x: u8, byte: u8 },
}

/// The low 12 bits of the word: an address operand.
pub open spec fn spec_nnn(w: u16) -> u16 {
    (w % 4096) as u16
}

/// The low 4 bits of the word: a nibble operand.
pub open spec fn spec_n(w: u16) -> u8 {
    (w % 16) as u8
}

/// Bits 8..=11 of the word: the register index X.
pub open spec fn spec_x(w: u16) -> u8 {
    ((w / 256) % 16) as u8
}

/// Bits 4..=7 of the word: the register index Y.
pub open spec fn spec_y(w: u16) -> u8 {
    ((w / 16) % 16) as u8
}

/// The low 8 bits of the word: an immediate byte operand.
pub open spec fn spec_kk(w: u16) -> u8 {
    (w % 256) as u8
}

/// The opcode that a 16-bit instruction word decodes to. Total over all
/// 65536 words: unmatched patterns map to `Nop`.
pub open spec fn spec_decode(w: u16) -> Opcode {
    let n3 = w / 4096;
    let n2 = (w / 256) % 16;
    let n1 = (w / 16) % 16;
    let n0 = w % 16;
    if n3 == 0 && n2 == 0 && n1 == 0xE && n0 == 0 {
        Opcode::Cls
    } else if n3 == 0 && n2 == 0 && n1 == 0xE && n0 == 0xE {
        Opcode::Ret
    } else if n3 == 1 {
        Opcode::Jp { addr: spec_nnn(w) }
    } else if n3 == 2 {
        Opcode::Call { addr: spec_nnn(w) }
    } else if n3 == 3 {
        Opcode::Se { x: spec_x(w), byte: spec_kk(w) }
    } else if n3 == 4 {
        Opcode::Sne { x: spec_x(w), byte: spec_kk(w) }
    } else if n3 == 6 {
        Opcode::LdImm { x: spec_x(w), byte: spec_kk(w) }
    } else if n3 == 7 {
        Opcode::AddImm { x: spec_x(w), byte: spec_kk(w) }
    } else if n3 == 8 && n0 == 0 {
        Opcode::LdR { x: spec_x(w), y: spec_y(w) }
    } else if n3 == 8 && n0 == 2 {
        Opcode::And { x: spec_x(w), y: spec_y(w) }
    } else if n3 == 8 && n0 == 3 {
        Opcode::XorR { x: spec_x(w), y: spec_y(w) }
    } else if n3 == 8 && n0 == 4 {
        Opcode::AddR { x: spec_x(w), y: spec_y(w) }
    } else if n3 == 8 && n0 == 5 {
        Opcode::SubR { x: spec_x(w), y: spec_y(w) }
    } else if n3 == 8 && n0 == 6 {
        Opcode::Shr { x: spec_x(w) }
    } else if n3 == 0xA {
        Opcode::LdiImm { addr: spec_nnn(w) }
    } else if n3 == 0xC {
        Opcode::Rnd { x: spec_x(w), byte: spec_kk(w) }
    } else if n3 == 0xD {
        Opcode::Drw { x: spec_x(w), y: spec_y(w), size: spec_n(w) }
    } else if n3 == 0xE && n1 == 9 && n0 == 0xE {
        Opcode::Skp { x: spec_x(w) }
    } else if n3 == 0xE && n1 == 0xA && n0 == 1 {
        Opcode::Sknp { x: spec_x(w) }
    } else if n3 == 0xF && n1 == 0 && n0 == 7 {
        Opcode::LdDt { x: spec_x(w) }
    } else if n3 == 0xF && n1 == 0 && n0 == 0xA {
        Opcode::LdRK { x: spec_x(w) }
    } else if n3 == 0xF && n1 == 1 && n0 == 5 {
        Opcode::SetDt { x: spec_x(w) }
    } else if n3 == 0xF && n1 == 1 && n0 == 8 {
        Opcode::SetSt { x: spec_x(w) }
    } else if n3 == 0xF && n1 == 1 && n0 == 0xE {
        Opcode::AddiR { x: spec_x(w) }
    } else if n3 == 0xF && n1 == 6 && n0 == 5 {
        Opcode::LdM { x: spec_x(w) }
    } else {
        Opcode::Nop
    }
}

impl Opcode {
    fn read_nnn(value: u16) -> (r: u16)
        ensures
            r == spec_nnn(value),
    {
        value % 4096
    }

    fn read_n(value: u16) -> (r: u8)
        ensures
            r == spec_n(value),
    {
        (value % 16) as u8
    }

    fn read_x(value: u16) -> (r: u8)
        ensures
            r == spec_x(value),
    {
        ((value / 256) % 16) as u8
    }

    fn read_y(value: u16) -> (r: u8)
        ensures
            r == spec_y(value),
    {
        ((value / 16) % 16) as u8
    }

    fn read_kk(value: u16) -> (r: u8)
        ensures
            r == spec_kk(value),
    {
        (value % 256) as u8
    }

    /// Decode one 16-bit instruction word. Pure and total: every word maps
    /// to exactly one variant, so decoding the same word always yields the
    /// same opcode, and no word is rejected.
    pub fn decode(instruction: u16) -> (op: Opcode)
        ensures
            op == spec_decode(instruction),
    {
        let n3 = instruction / 4096;
        let n2 = (instruction / 256) % 16;
        let n1 = (instruction / 16) % 16;
        let n0 = instruction % 16;

        if n3 == 0 && n2 == 0 && n1 == 0xE && n0 == 0 {
            Opcode::Cls
        } else if n3 == 0 && n2 == 0 && n1 == 0xE && n0 == 0xE {
            Opcode::Ret
        } else if n3 == 1 {
            Opcode::Jp { addr: Opcode::read_nnn(instruction) }
        } else if n3 == 2 {
            Opcode::Call { addr: Opcode::read_nnn(instruction) }
        } else if n3 == 3 {
            Opcode::Se { x: Opcode::read_x(instruction), byte: Opcode::read_kk(instruction) }
        } else if n3 == 4 {
            Opcode::Sne { x: Opcode::read_x(instruction), byte: Opcode::read_kk(instruction) }
        } else if n3 == 6 {
            Opcode::LdImm { x: Opcode::read_x(instruction), byte: Opcode::read_kk(instruction) }
        } else if n3 == 7 {
            Opcode::AddImm { x: Opcode::read_x(instruction), byte: Opcode::read_kk(instruction) }
        } else if n3 == 8 && n0 == 0 {
            Opcode::LdR { x: Opcode::read_x(instruction), y: Opcode::read_y(instruction) }
        } else if n3 == 8 && n0 == 2 {
            Opcode::And { x: Opcode::read_x(instruction), y: Opcode::read_y(instruction) }
        } else if n3 == 8 && n0 == 3 {
            Opcode::XorR { x: Opcode::read_x(instruction), y: Opcode::read_y(instruction) }
        } else if n3 == 8 && n0 == 4 {
            Opcode::AddR { x: Opcode::read_x(instruction), y: Opcode::read_y(instruction) }
        } else if n3 == 8 && n0 == 5 {
            Opcode::SubR { x: Opcode::read_x(instruction), y: Opcode::read_y(instruction) }
        } else if n3 == 8 && n0 == 6 {
            Opcode::Shr { x: Opcode::read_x(instruction) }
        } else if n3 == 0xA {
            Opcode::LdiImm { addr: Opcode::read_nnn(instruction) }
        } else if n3 == 0xC {
            Opcode::Rnd { x: Opcode::read_x(instruction), byte: Opcode::read_kk(instruction) }
        } else if n3 == 0xD {
            Opcode::Drw {
                x: Opcode::read_x(instruction),
                y: Opcode::read_y(instruction),
                size: Opcode::read_n(instruction),
            }
        } else if n3 == 0xE && n1 == 9 && n0 == 0xE {
            Opcode::Skp { x: Opcode::read_x(instruction) }
        } else if n3 == 0xE && n1 == 0xA && n0 == 1 {
            Opcode::Sknp { x: Opcode::read_x(instruction) }
        } else if n3 == 0xF && n1 == 0 && n0 == 7 {
            Opcode::LdDt { x: Opcode::read_x(instruction) }
        } else if n3 == 0xF && n1 == 0 && n0 == 0xA {
            Opcode::LdRK { x: Opcode::read_x(instruction) }
        } else if n3 == 0xF && n1 == 1 && n0 == 5 {
            Opcode::SetDt { x: Opcode::read_x(instruction) }
        } else if n3 == 0xF && n1 == 1 && n0 == 8 {
            Opcode::SetSt { x: Opcode::read_x(instruction) }
        } else if n3 == 0xF && n1 == 1 && n0 == 0xE {
            Opcode::AddiR { x: Opcode::read_x(instruction) }
        } else if n3 == 0xF && n1 == 6 && n0 == 5 {
            Opcode::LdM { x: Opcode::read_x(instruction) }
        } else {
            Opcode::Nop
        }
    }
}

/// Every register index a decoded opcode carries is below 16, every nibble
/// operand below 16, and every address operand below 4096.
pub proof fn lemma_decode_operand_ranges(w: u16)
    ensures
        spec_x(w) < 16,
        spec_y(w) < 16,
        spec_n(w) < 16,
        spec_nnn(w) < 4096,
{
}

} // verus!
