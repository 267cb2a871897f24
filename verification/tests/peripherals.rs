//! Display compositing, memory, keyboard snapshot and tick clocks.

use chip8::clock::Clock;
use chip8::display::Display;
use chip8::keyboard::KeyboardState;
use chip8::machine::Chip8;
use chip8::memory::Memory;

#[test]
fn draw_sets_pixels_msb_first() {
    let mut d = Display::new();
    let mut collision = false;
    d.draw(0, 0, vec![0b1010_0001], &mut collision);
    assert!(!collision);
    assert!(d.pixel(0, 0));
    assert!(!d.pixel(1, 0));
    assert!(d.pixel(2, 0));
    assert!(!d.pixel(3, 0));
    assert!(!d.pixel(6, 0));
    assert!(d.pixel(7, 0));
    assert!(!d.pixel(8, 0));
    assert!(!d.pixel(0, 1));
}

#[test]
fn draw_twice_restores_pixels() {
    // XOR compositing is its own inverse: the same sprite twice at the
    // same position leaves the display as it was.
    let mut d = Display::new();
    let mut flag = false;
    d.draw(10, 5, vec![0xFF, 0x81, 0x3C], &mut flag);
    assert!(!flag);
    d.draw(10, 5, vec![0xFF, 0x81, 0x3C], &mut flag);
    // The second pass toggled every previously set pixel: collision.
    assert!(flag);
    for x in 0..64 {
        for y in 0..32 {
            assert!(!d.pixel(x, y));
        }
    }
}

#[test]
fn collision_flag_iff_overlap() {
    let mut d = Display::new();
    let mut flag = false;
    // One pixel at (7, 0).
    d.draw(0, 0, vec![0b0000_0001], &mut flag);
    assert!(!flag);
    // A sprite whose 1-bits miss (7, 0): no collision.
    d.draw(0, 1, vec![0b1111_1111], &mut flag);
    assert!(!flag);
    // A sprite with a 1-bit landing on (7, 0): collision.
    d.draw(7, 0, vec![0b1000_0000], &mut flag);
    assert!(flag);
}

#[test]
fn clear_turns_every_pixel_off() {
    let mut d = Display::new();
    let mut flag = false;
    d.draw(3, 4, vec![0xFF, 0xFF], &mut flag);
    d.clear();
    for x in 0..64 {
        for y in 0..32 {
            assert!(!d.pixel(x, y));
        }
    }
}

#[test]
fn cls_opcode_clears_display() {
    // DRW then CLS: reading any pixel afterwards yields off.
    let mut m = Chip8::new(&[
        0xA2, 0x06, // LD I, 0x206
        0xD0, 0x01, // DRW V0, V0, 1
        0x00, 0xE0, // CLS
        0xFF, // sprite row
    ])
    .unwrap();
    m.step().unwrap();
    let change = m.step().unwrap();
    assert!(change.redraw);
    assert!(m.display.pixel(0, 0));
    let change = m.step().unwrap();
    assert!(change.redraw);
    for x in 0..64 {
        for y in 0..32 {
            assert!(!m.display.pixel(x, y));
        }
    }
}

#[test]
fn sprite_draw_wraps_at_edges() {
    // An 8x1 sprite at (63, 31) touches row 31, columns 63 and 0..=6 —
    // wrapped, never out of bounds.
    let mut d = Display::new();
    let mut flag = false;
    d.draw(63, 31, vec![0xFF], &mut flag);
    assert!(d.pixel(63, 31));
    for x in 0..=6u8 {
        assert!(d.pixel(x, 31));
    }
    for x in 7..63u8 {
        assert!(!d.pixel(x, 31));
    }
    for y in 0..31u8 {
        for x in 0..64u8 {
            assert!(!d.pixel(x, y));
        }
    }
}

#[test]
fn sprite_wraps_vertically() {
    let mut d = Display::new();
    let mut flag = false;
    d.draw(0, 31, vec![0x80, 0x80], &mut flag);
    assert!(d.pixel(0, 31));
    assert!(d.pixel(0, 0));
}

#[test]
fn framebuffer_export_uses_color_pair() {
    let mut d = Display::new();
    d.set_foreground_color(0x11223344);
    d.set_background_color(0x55667788);
    let mut flag = false;
    d.draw(0, 0, vec![0b1000_0000], &mut flag);
    let buf = d.framebuffer();
    assert_eq!(buf.len(), 64 * 32);
    assert_eq!(buf[0], 0x11223344);
    assert_eq!(buf[1], 0x55667788);
}

#[test]
fn set_background_color_resets_pixels() {
    let mut d = Display::new();
    let mut flag = false;
    d.draw(0, 0, vec![0xFF], &mut flag);
    d.set_background_color(0x000000FF);
    for x in 0..64 {
        for y in 0..32 {
            assert!(!d.pixel(x, y));
        }
    }
}

#[test]
fn draw_to_frame_scales_and_packs_rgba() {
    let mut d = Display::new();
    d.set_foreground_color(0xAABBCCDD);
    let mut flag = false;
    d.draw(0, 0, vec![0b1000_0000], &mut flag);
    let scale = 2;
    let mut frame = vec![0u8; 64 * scale * 32 * scale * 4];
    d.draw_to_frame(&mut frame, scale);
    // The on-pixel at (0, 0) covers the scaled 2x2 block at the origin.
    for (sx, sy) in [(0usize, 0usize), (1, 0), (0, 1), (1, 1)] {
        let base = 4 * (sy * 64 * scale + sx);
        assert_eq!(frame[base], 0xAA);
        assert_eq!(frame[base + 1], 0xBB);
        assert_eq!(frame[base + 2], 0xCC);
        assert_eq!(frame[base + 3], 0xDD);
    }
    // The neighbouring block renders the background (black).
    let base = 4 * 2;
    assert_eq!(frame[base], 0x00);
    assert_eq!(frame[base + 3], 0x00);
}

#[test]
fn memory_byte_round_trip() {
    let mut mem = Memory::new();
    assert_eq!(mem.read_byte(0x123), 0);
    mem.write_byte(0x123, 0xAB);
    assert_eq!(mem.read_byte(0x123), 0xAB);
    assert_eq!(mem.read_byte(0x124), 0);
}

#[test]
fn memory_doublebyte_is_big_endian() {
    let mut mem = Memory::new();
    mem.write_byte(0x200, 0x12);
    mem.write_byte(0x201, 0x34);
    assert_eq!(mem.read_doublebyte(0x200), 0x1234);
}

#[test]
fn memory_chunk_round_trip() {
    let mut mem = Memory::new();
    mem.write_chunk(0x300, &[1, 2, 3, 4]);
    assert_eq!(mem.read_chunk(0x300, 4), vec![1, 2, 3, 4]);
    assert_eq!(mem.read_chunk(0x2FF, 6), vec![0, 1, 2, 3, 4, 0]);
}

#[test]
fn keyboard_tracks_held_keys() {
    let mut k = KeyboardState::new();
    assert!(!k.is_key_pressed(0));
    k.set_key(0xC, true);
    k.set_key(0x4, true);
    k.set_key(0x0, true);
    assert!(k.is_key_pressed(0xC));
    assert!(!k.is_key_pressed(0xB));
    k.set_key(0xC, false);
    assert!(!k.is_key_pressed(0xC));
    assert_eq!(k.get_pressed_keys(), vec![0x0, 0x4]);
}

#[test]
fn pressed_keys_are_ascending() {
    let mut k = KeyboardState::new();
    for key in [7u8, 2, 0xF, 0xA] {
        k.set_key(key, true);
    }
    assert_eq!(k.get_pressed_keys(), vec![2, 7, 0xA, 0xF]);
}

#[test]
fn clock_period_from_rate() {
    let mut c = Clock::new(500);
    c.start_clock(0);
    assert_eq!(c.get_instant(), 0);
    // 500 Hz is a 2000 microsecond period: 5000 elapsed is 2 whole ticks.
    let n = c.consume_ticks(5000);
    assert_eq!(n, 2);
    assert_eq!(c.get_instant(), 4000);
}

#[test]
fn clock_keeps_fractional_remainder() {
    let mut c = Clock::new(60);
    // 60 Hz is a 16666 microsecond period.
    c.start_clock(1000);
    assert_eq!(c.consume_ticks(17665), 0);
    assert_eq!(c.get_instant(), 1000);
    assert_eq!(c.consume_ticks(17666), 1);
    assert_eq!(c.get_instant(), 17666);
    // Over a long stretch no time is discarded: 100 periods from start.
    let mut total = 1;
    total += c.consume_ticks(1000 + 100 * 16666);
    assert_eq!(total, 100);
    assert_eq!(c.get_instant(), 1000 + 100 * 16666);
}

#[test]
fn clock_set_instant_moves_reference() {
    let mut c = Clock::new(1000);
    c.set_instant(500);
    assert_eq!(c.consume_ticks(3500), 3);
}
