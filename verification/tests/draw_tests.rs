use chip8_rs::Chip8;
use chip8_rs::Chip8Error;

fn machine_with(rom: &[u8]) -> Chip8 {
    let mut c = Chip8::new();
    c.load(&rom.to_vec()).expect("rom fits");
    c
}

fn pixel(c: &Chip8, x: usize, y: usize) -> bool {
    c.video[y * 64 + x]
}

#[test]
fn draw_glyph_zero_sets_exactly_its_bits() {
    // I = font base, draw the 5-row glyph for 0 at (0, 0).
    let mut c = machine_with(&[0xA0, 0x50, 0xD0, 0x05]);
    c.cycle_with_random(0).unwrap();
    c.cycle_with_random(0).unwrap();
    // Glyph 0 is F0 90 90 90 F0.
    let rows = [0xF0u8, 0x90, 0x90, 0x90, 0xF0];
    for y in 0..32 {
        for x in 0..64 {
            let expected = y < 5 && x < 8 && (rows[y] >> (7 - x)) & 1 == 1;
            assert_eq!(pixel(&c, x, y), expected, "pixel ({}, {})", x, y);
        }
    }
    assert_eq!(c.registers[15], 0);
}

#[test]
fn drawing_twice_restores_all_off() {
    let mut c = machine_with(&[0xA0, 0x50, 0xD0, 0x05, 0xD0, 0x05]);
    c.cycle_with_random(0).unwrap();
    c.cycle_with_random(0).unwrap();
    c.cycle_with_random(0).unwrap();
    assert!(c.video.iter().all(|&p| !p));
    // Every toggled pixel went on to off, which the table counts as a
    // collision.
    assert_eq!(c.registers[15], 1);
}

#[test]
fn draw_wraps_per_pixel() {
    // One full row byte drawn at x = 62: pixels 62, 63 then 0..6 of row 0.
    let mut c = machine_with(&[0x60, 0x3E, 0xA2, 0x0A, 0xD0, 0x11, 0x00, 0x00, 0x00, 0x00, 0xFF]);
    c.cycle_with_random(0).unwrap();
    c.cycle_with_random(0).unwrap();
    c.cycle_with_random(0).unwrap();
    assert!(pixel(&c, 62, 0));
    assert!(pixel(&c, 63, 0));
    for x in 0..6 {
        assert!(pixel(&c, x, 0), "pixel {} should wrap on", x);
    }
    assert!(!pixel(&c, 6, 0));
    assert!(!pixel(&c, 61, 0));
}

#[test]
fn draw_vertical_wrap() {
    // Two rows of 0x80 drawn at (0, 31): row 31 and row 0 each get pixel 0.
    let mut c = machine_with(&[
        0x61, 0x1F, 0xA2, 0x0A, 0xD0, 0x12, 0x00, 0x00, 0x00, 0x00, 0x80, 0x80,
    ]);
    c.cycle_with_random(0).unwrap();
    c.cycle_with_random(0).unwrap();
    c.cycle_with_random(0).unwrap();
    assert!(pixel(&c, 0, 31));
    assert!(pixel(&c, 0, 0));
    assert_eq!(c.video.iter().filter(|&&p| p).count(), 2);
}

#[test]
fn overlapping_draw_reports_collision_and_xors() {
    // Draw glyph 1's column, then a full byte over the same row.
    let mut c = machine_with(&[0xA2, 0x0C, 0xD0, 0x11, 0xA2, 0x0D, 0xD0, 0x11, 0x00, 0x00, 0x00,
        0x00, 0xF0, 0xFF]);
    c.cycle_with_random(0).unwrap();
    c.cycle_with_random(0).unwrap();
    assert_eq!(c.registers[15], 0);
    c.cycle_with_random(0).unwrap();
    c.cycle_with_random(0).unwrap();
    // 0xF0 then 0xFF: the first four pixels toggle back off, the last
    // four come on, and the overlap is a collision.
    assert_eq!(c.registers[15], 1);
    for x in 0..4 {
        assert!(!pixel(&c, x, 0));
    }
    for x in 4..8 {
        assert!(pixel(&c, x, 0));
    }
}

#[test]
fn draw_of_zero_rows_changes_nothing() {
    let mut c = machine_with(&[0xA0, 0x50, 0xD0, 0x00]);
    c.registers[15] = 1;
    c.cycle_with_random(0).unwrap();
    c.cycle_with_random(0).unwrap();
    assert!(c.video.iter().all(|&p| !p));
    assert_eq!(c.registers[15], 0);
}

#[test]
fn draw_with_sprite_rows_past_memory_is_out_of_range() {
    let mut c = machine_with(&[0xAF, 0xFF, 0xD0, 0x05]);
    c.cycle_with_random(0).unwrap();
    let r = c.cycle_with_random(0);
    assert_eq!(r, Err(Chip8Error::MemoryOutOfBounds));
    assert!(c.video.iter().all(|&p| !p));
}

#[test]
fn draw_coordinates_taken_modulo_screen() {
    // V0 = 64 behaves as x = 0, V1 = 33 as y = 1.
    let mut c = machine_with(&[0x60, 0x40, 0x61, 0x21, 0xA2, 0x0C, 0xD0, 0x11, 0x00, 0x00, 0x00,
        0x00, 0x80]);
    c.cycle_with_random(0).unwrap();
    c.cycle_with_random(0).unwrap();
    c.cycle_with_random(0).unwrap();
    c.cycle_with_random(0).unwrap();
    assert!(pixel(&c, 0, 1));
    assert_eq!(c.video.iter().filter(|&&p| p).count(), 1);
}
