//! CPU semantics: per-opcode behaviour, the program-counter state
//! machine, faults, and the end-to-end scenario.

use chip8::cpu::Fault;
use chip8::machine::Chip8;

fn machine(program: &[u8]) -> Chip8 {
    Chip8::new(program).expect("program fits in memory")
}

#[test]
fn load_v0_add_imm_ld_i_end_to_end() {
    // LD V0, 0x05; ADD V0, 0x03; LD I, 0x300.
    let mut m = machine(&[0x60, 0x05, 0x70, 0x03, 0xA3, 0x00]);
    m.step().unwrap();
    m.step().unwrap();
    assert_eq!(m.cpu.get_register(0), 8);
    // I is untouched until the third instruction executes.
    assert_eq!(m.cpu.get_i(), 0);
    assert_eq!(m.cpu.get_pc(), 0x204);
    m.step().unwrap();
    assert_eq!(m.cpu.get_i(), 0x300);
    assert_eq!(m.cpu.get_pc(), 0x206);
}

#[test]
fn call_then_ret_resumes_after_call_site() {
    // CALL 0x206 at 0x200; RET at 0x206.
    let mut m = machine(&[0x22, 0x06, 0x00, 0x00, 0x00, 0x00, 0x00, 0xEE]);
    m.step().unwrap();
    assert_eq!(m.cpu.get_pc(), 0x206);
    assert_eq!(m.cpu.get_sp(), 1);
    m.step().unwrap();
    assert_eq!(m.cpu.get_pc(), 0x202);
    assert_eq!(m.cpu.get_sp(), 0);
}

#[test]
fn add_register_carry_all_pairs() {
    // ADD V0, V1 over every operand pair: V0 takes the wrapped sum and
    // VF is 1 exactly when the unsigned sum exceeds 255.
    for a in 0u16..=255 {
        for b in 0u16..=255 {
            let mut m = machine(&[
                0x60, a as u8, // LD V0, a
                0x61, b as u8, // LD V1, b
                0x80, 0x14, // ADD V0, V1
            ]);
            m.step().unwrap();
            m.step().unwrap();
            m.step().unwrap();
            assert_eq!(m.cpu.get_register(0) as u16, (a + b) % 256);
            assert_eq!(m.cpu.get_register(0xF), if a + b > 255 { 1 } else { 0 });
        }
    }
}

#[test]
fn add_immediate_wraps_without_flag() {
    // LD V2, 0xFF; LD VF, 0x55; ADD V2, 0x03: wraps, VF untouched.
    let mut m = machine(&[0x62, 0xFF, 0x6F, 0x55, 0x72, 0x03]);
    m.step().unwrap();
    m.step().unwrap();
    m.step().unwrap();
    assert_eq!(m.cpu.get_register(2), 0x02);
    assert_eq!(m.cpu.get_register(0xF), 0x55);
}

#[test]
fn sub_register_saturates_at_zero() {
    // V0 = 5, V1 = 7: SUB V0, V1 saturates to 0 with VF = 0.
    let mut m = machine(&[0x60, 0x05, 0x61, 0x07, 0x80, 0x15]);
    m.step().unwrap();
    m.step().unwrap();
    m.step().unwrap();
    assert_eq!(m.cpu.get_register(0), 0);
    assert_eq!(m.cpu.get_register(0xF), 0);
}

#[test]
fn sub_register_no_borrow() {
    // V0 = 7, V1 = 5: SUB V0, V1 leaves the difference with VF = 1.
    let mut m = machine(&[0x60, 0x07, 0x61, 0x05, 0x80, 0x15]);
    m.step().unwrap();
    m.step().unwrap();
    m.step().unwrap();
    assert_eq!(m.cpu.get_register(0), 2);
    assert_eq!(m.cpu.get_register(0xF), 1);
}

#[test]
fn sub_register_equal_operands_saturates() {
    let mut m = machine(&[0x60, 0x07, 0x61, 0x07, 0x80, 0x15]);
    m.step().unwrap();
    m.step().unwrap();
    m.step().unwrap();
    assert_eq!(m.cpu.get_register(0), 0);
    assert_eq!(m.cpu.get_register(0xF), 0);
}

#[test]
fn and_xor_copy_registers() {
    // LD V0, 0b1100; LD V1, 0b1010; AND V0, V1; XOR V1, V0; LD V2, V1.
    let mut m = machine(&[0x60, 0x0C, 0x61, 0x0A, 0x80, 0x12, 0x81, 0x03, 0x82, 0x10]);
    m.step().unwrap();
    m.step().unwrap();
    m.step().unwrap();
    assert_eq!(m.cpu.get_register(0), 0x08);
    m.step().unwrap();
    assert_eq!(m.cpu.get_register(1), 0x02);
    m.step().unwrap();
    assert_eq!(m.cpu.get_register(2), 0x02);
}

#[test]
fn shr_keeps_low_bit_in_vf() {
    // LD V3, 0x07; SHR V3: V3 = 3, VF = 1.
    let mut m = machine(&[0x63, 0x07, 0x83, 0x06]);
    m.step().unwrap();
    m.step().unwrap();
    assert_eq!(m.cpu.get_register(3), 3);
    assert_eq!(m.cpu.get_register(0xF), 1);
}

#[test]
fn shr_even_value_clears_vf() {
    let mut m = machine(&[0x63, 0x08, 0x83, 0x06]);
    m.step().unwrap();
    m.step().unwrap();
    assert_eq!(m.cpu.get_register(3), 4);
    assert_eq!(m.cpu.get_register(0xF), 0);
}

#[test]
fn skip_equal_and_not_equal() {
    // LD V0, 0x11; SE V0, 0x11 skips; SNE V0, 0x11 does not skip.
    let mut m = machine(&[0x60, 0x11, 0x30, 0x11, 0x00, 0x00, 0x40, 0x11]);
    m.step().unwrap();
    m.step().unwrap();
    assert_eq!(m.cpu.get_pc(), 0x206);
    m.step().unwrap();
    assert_eq!(m.cpu.get_pc(), 0x208);
}

#[test]
fn add_i_register() {
    // LD I, 0x300; LD V4, 0x20; ADD I, V4.
    let mut m = machine(&[0xA3, 0x00, 0x64, 0x20, 0xF4, 0x1E]);
    m.step().unwrap();
    m.step().unwrap();
    m.step().unwrap();
    assert_eq!(m.cpu.get_i(), 0x320);
}

#[test]
fn load_registers_from_memory() {
    // LD I, 0x20A; LD V2 from [I]: V0..=V2 take the bytes at 0x20A.
    let mut m = machine(&[
        0xA2, 0x0A, // LD I, 0x20A
        0xF2, 0x65, // LD V2, [I]
        0x00, 0x00, 0x00, 0x00, 0x00, 0x00, // padding
        0xAA, 0xBB, 0xCC, // data at 0x20A
    ]);
    m.step().unwrap();
    m.step().unwrap();
    assert_eq!(m.cpu.get_register(0), 0xAA);
    assert_eq!(m.cpu.get_register(1), 0xBB);
    assert_eq!(m.cpu.get_register(2), 0xCC);
    assert_eq!(m.cpu.get_register(3), 0);
}

#[test]
fn delay_and_sound_timer_transfer() {
    // LD V0, 9; LD DT, V0; LD ST, V0; LD V1, DT.
    let mut m = machine(&[0x60, 0x09, 0xF0, 0x15, 0xF0, 0x18, 0xF1, 0x07]);
    m.step().unwrap();
    m.step().unwrap();
    assert_eq!(m.cpu.get_delay_timer(), 9);
    m.step().unwrap();
    assert_eq!(m.cpu.get_sound_timer(), 9);
    m.step().unwrap();
    assert_eq!(m.cpu.get_register(1), 9);
}

#[test]
fn timers_decrement_and_saturate_at_zero() {
    // LD V0, 2; LD DT, V0: then three ticks never go below zero.
    let mut m = machine(&[0x60, 0x02, 0xF0, 0x15]);
    m.step().unwrap();
    m.step().unwrap();
    assert_eq!(m.cpu.get_delay_timer(), 2);
    assert_eq!(m.cpu.get_sound_timer(), 0);
    m.tick_timers();
    assert_eq!(m.cpu.get_delay_timer(), 1);
    assert_eq!(m.cpu.get_sound_timer(), 0);
    m.tick_timers();
    assert_eq!(m.cpu.get_delay_timer(), 0);
    m.tick_timers();
    assert_eq!(m.cpu.get_delay_timer(), 0);
    assert_eq!(m.cpu.get_sound_timer(), 0);
}

#[test]
fn unrecognized_instruction_is_skipped() {
    // 0x5120 matches no known pattern: the word is a no-op and the
    // program counter still advances.
    let mut m = machine(&[0x51, 0x20, 0x60, 0x07]);
    let change = m.step().unwrap();
    assert!(!change.redraw);
    assert_eq!(m.cpu.get_pc(), 0x202);
    m.step().unwrap();
    assert_eq!(m.cpu.get_register(0), 7);
}

#[test]
fn wait_for_key_blocks_then_takes_lowest() {
    // LD V5, K: the program counter stays put until a key is held, then
    // V5 takes the lowest held key.
    let mut m = machine(&[0xF5, 0x0A]);
    m.step().unwrap();
    assert_eq!(m.cpu.get_pc(), 0x200);
    m.step().unwrap();
    assert_eq!(m.cpu.get_pc(), 0x200);
    m.set_key(0xC, true);
    m.set_key(0x4, true);
    m.step().unwrap();
    assert_eq!(m.cpu.get_pc(), 0x202);
    assert_eq!(m.cpu.get_register(5), 0x4);
}

#[test]
fn skip_on_key_state() {
    // LD V0, 7; SKP V0 (not held: no skip); SKNP V0 (not held: skip).
    let mut m = machine(&[0x60, 0x07, 0xE0, 0x9E, 0xE0, 0xA1, 0x00, 0x00, 0x60, 0x01]);
    m.step().unwrap();
    m.step().unwrap();
    assert_eq!(m.cpu.get_pc(), 0x204);
    m.step().unwrap();
    assert_eq!(m.cpu.get_pc(), 0x208);
    let mut held = machine(&[0x60, 0x07, 0xE0, 0x9E]);
    held.set_key(7, true);
    held.step().unwrap();
    held.step().unwrap();
    assert_eq!(held.cpu.get_pc(), 0x206);
}

#[test]
fn ret_at_depth_zero_faults() {
    let mut m = machine(&[0x00, 0xEE]);
    let r = m.step();
    assert!(matches!(r, Err(Fault::StackUnderflow)));
    // Nothing changed: the fault was reported before any state change.
    assert_eq!(m.cpu.get_pc(), 0x200);
    assert_eq!(m.cpu.get_sp(), 0);
}

#[test]
fn call_at_depth_sixteen_faults() {
    // CALL 0x200 loops into itself; the seventeenth call overflows.
    let mut m = machine(&[0x22, 0x00]);
    for depth in 1..=16u8 {
        m.step().unwrap();
        assert_eq!(m.cpu.get_sp(), depth);
    }
    let r = m.step();
    assert!(matches!(r, Err(Fault::StackOverflow)));
    assert_eq!(m.cpu.get_sp(), 16);
}

#[test]
fn fetch_past_memory_end_faults() {
    // JP 0xFFF parks the program counter where no whole word fits.
    let mut m = machine(&[0x1F, 0xFF]);
    m.step().unwrap();
    assert_eq!(m.cpu.get_pc(), 0xFFF);
    let r = m.step();
    assert!(matches!(r, Err(Fault::MemoryOutOfRange)));
}

#[test]
fn sprite_read_past_memory_end_faults() {
    // LD I, 0xFFF; DRW with a two-row sprite reads past the end.
    let mut m = machine(&[0xAF, 0xFF, 0xD0, 0x12]);
    m.step().unwrap();
    let r = m.step();
    assert!(matches!(r, Err(Fault::MemoryOutOfRange)));
}

#[test]
fn register_load_past_memory_end_faults() {
    // LD I, 0xFFF; LD V1, [I] would read 0xFFF and 0x1000.
    let mut m = machine(&[0xAF, 0xFF, 0xF1, 0x65]);
    m.step().unwrap();
    let r = m.step();
    assert!(matches!(r, Err(Fault::MemoryOutOfRange)));
}

#[test]
fn skip_with_non_key_register_value_faults() {
    // LD V0, 16; SKP V0: 16 is no key value.
    let mut m = machine(&[0x60, 0x10, 0xE0, 0x9E]);
    m.step().unwrap();
    let r = m.step();
    assert!(matches!(r, Err(Fault::KeyOutOfRange)));
}

#[test]
fn program_longer_than_memory_is_rejected() {
    let too_long = vec![0u8; 3585];
    assert!(matches!(Chip8::new(&too_long), Err(Fault::MemoryOutOfRange)));
    let just_fits = vec![0u8; 3584];
    assert!(Chip8::new(&just_fits).is_ok());
}

#[test]
fn random_opcode_is_inert() {
    // RND is decoded but has no handler in this machine: it advances
    // the program counter and changes nothing else.
    let mut m = machine(&[0xC0, 0xFF]);
    let change = m.step().unwrap();
    assert!(!change.redraw);
    assert_eq!(m.cpu.get_pc(), 0x202);
    assert_eq!(m.cpu.get_register(0), 0);
}
