//! Instruction decoding: totality, purity and the fixed bit fields.

use chip8::opcode::Opcode;

#[test]
fn decode_is_pure_and_deterministic() {
    // Every 16-bit word decodes, and decoding twice yields the same opcode.
    for w in 0u16..=0xFFFF {
        let first = Opcode::decode(w);
        let second = Opcode::decode(w);
        assert_eq!(first, second);
    }
}

#[test]
fn decode_cls_literal() {
    assert_eq!(Opcode::decode(0x00E0), Opcode::Cls);
}

#[test]
fn decode_ret_literal() {
    assert_eq!(Opcode::decode(0x00EE), Opcode::Ret);
}

#[test]
fn decode_jp_literal() {
    assert_eq!(Opcode::decode(0x1234), Opcode::Jp { addr: 0x234 });
}

#[test]
fn decode_drw_literal() {
    assert_eq!(Opcode::decode(0xD123), Opcode::Drw { x: 1, y: 2, size: 3 });
}

#[test]
fn decode_operand_fields() {
    assert_eq!(Opcode::decode(0x2ABC), Opcode::Call { addr: 0xABC });
    assert_eq!(Opcode::decode(0x3A7F), Opcode::Se { x: 0xA, byte: 0x7F });
    assert_eq!(Opcode::decode(0x4B01), Opcode::Sne { x: 0xB, byte: 0x01 });
    assert_eq!(Opcode::decode(0x6C42), Opcode::LdImm { x: 0xC, byte: 0x42 });
    assert_eq!(Opcode::decode(0x7D10), Opcode::AddImm { x: 0xD, byte: 0x10 });
    assert_eq!(Opcode::decode(0x8120), Opcode::LdR { x: 1, y: 2 });
    assert_eq!(Opcode::decode(0x8342), Opcode::And { x: 3, y: 4 });
    assert_eq!(Opcode::decode(0x8563), Opcode::XorR { x: 5, y: 6 });
    assert_eq!(Opcode::decode(0x8784), Opcode::AddR { x: 7, y: 8 });
    assert_eq!(Opcode::decode(0x89A5), Opcode::SubR { x: 9, y: 0xA });
    assert_eq!(Opcode::decode(0x8B06), Opcode::Shr { x: 0xB });
    assert_eq!(Opcode::decode(0xA9F0), Opcode::LdiImm { addr: 0x9F0 });
    assert_eq!(Opcode::decode(0xC377), Opcode::Rnd { x: 3, byte: 0x77 });
    assert_eq!(Opcode::decode(0xE19E), Opcode::Skp { x: 1 });
    assert_eq!(Opcode::decode(0xE2A1), Opcode::Sknp { x: 2 });
    assert_eq!(Opcode::decode(0xF407), Opcode::LdDt { x: 4 });
    assert_eq!(Opcode::decode(0xF50A), Opcode::LdRK { x: 5 });
    assert_eq!(Opcode::decode(0xF615), Opcode::SetDt { x: 6 });
    assert_eq!(Opcode::decode(0xF718), Opcode::SetSt { x: 7 });
    assert_eq!(Opcode::decode(0xF81E), Opcode::AddiR { x: 8 });
    assert_eq!(Opcode::decode(0xF965), Opcode::LdM { x: 9 });
}

#[test]
fn decode_unrecognized_is_nop() {
    // Patterns outside the instruction set fall through to the no-op.
    assert_eq!(Opcode::decode(0x0000), Opcode::Nop);
    assert_eq!(Opcode::decode(0x5120), Opcode::Nop);
    assert_eq!(Opcode::decode(0x8121), Opcode::Nop);
    assert_eq!(Opcode::decode(0x8127), Opcode::Nop);
    assert_eq!(Opcode::decode(0x812E), Opcode::Nop);
    assert_eq!(Opcode::decode(0x9120), Opcode::Nop);
    assert_eq!(Opcode::decode(0xB123), Opcode::Nop);
    assert_eq!(Opcode::decode(0xE198), Opcode::Nop);
    assert_eq!(Opcode::decode(0xF129), Opcode::Nop);
    assert_eq!(Opcode::decode(0xF133), Opcode::Nop);
    assert_eq!(Opcode::decode(0xF155), Opcode::Nop);
}
