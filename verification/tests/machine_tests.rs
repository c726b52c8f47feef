use chip8_rs::Chip8;
use chip8_rs::Chip8Error;
use chip8_rs::LogBuf;
use chip8_rs::keymap::map_pc_to_chip8;
use chip8_rs::keymap::scale_coord;

const FONTSET: [u8; 80] = [
    0xF0, 0x90, 0x90, 0x90, 0xF0, 0x20, 0x60, 0x20, 0x20, 0x70, 0xF0, 0x10, 0xF0, 0x80, 0xF0,
    0xF0, 0x10, 0xF0, 0x10, 0xF0, 0x90, 0x90, 0xF0, 0x10, 0x10, 0xF0, 0x80, 0xF0, 0x10, 0xF0,
    0xF0, 0x80, 0xF0, 0x90, 0xF0, 0xF0, 0x10, 0x20, 0x40, 0x40, 0xF0, 0x90, 0xF0, 0x90, 0xF0,
    0xF0, 0x90, 0xF0, 0x10, 0xF0, 0xF0, 0x90, 0xF0, 0x90, 0x90, 0xE0, 0x90, 0xE0, 0x90, 0xE0,
    0xF0, 0x80, 0x80, 0x80, 0xF0, 0xE0, 0x90, 0x90, 0x90, 0xE0, 0xF0, 0x80, 0xF0, 0x80, 0xF0,
    0xF0, 0x80, 0xF0, 0x80, 0x80,
];

#[test]
fn power_up_state() {
    let c = Chip8::new();
    assert_eq!(c.program_counter, 0x200);
    assert_eq!(c.index_register, 0);
    assert_eq!(c.stack_pointer, 0);
    assert_eq!(c.last_opcode(), 0);
    assert_eq!(c.get_delay_timer(), 0);
    assert_eq!(c.get_sound_timer(), 0);
    assert!(c.registers.iter().all(|&v| v == 0));
    assert!(c.keypad.iter().all(|&k| !k));
    assert!(c.video.iter().all(|&p| !p));
}

#[test]
fn font_resident_at_0x50() {
    let c = Chip8::new();
    assert_eq!(c.dump_rom(0x50, 80), FONTSET.to_vec());
    // Memory around the font is clear.
    assert!(c.dump_rom(0, 0x50).iter().all(|&b| b == 0));
    assert!(c.dump_rom(0xA0, 4096 - 0xA0).iter().all(|&b| b == 0));
}

#[test]
fn load_copies_rom_at_0x200() {
    let mut c = Chip8::new();
    c.load(&vec![1, 2, 3]).unwrap();
    assert_eq!(c.dump_rom(0x200, 4), vec![1, 2, 3, 0]);
}

#[test]
fn load_of_largest_rom_succeeds() {
    let mut c = Chip8::new();
    let rom = vec![0xAB; 3584];
    assert_eq!(c.load(&rom), Ok(()));
    assert_eq!(c.memory[0x200], 0xAB);
    assert_eq!(c.memory[4095], 0xAB);
}

#[test]
fn oversized_rom_is_rejected_whole() {
    let mut c = Chip8::new();
    let rom = vec![0xAB; 3585];
    assert_eq!(c.load(&rom), Err(Chip8Error::RomTooLarge));
    assert!(c.dump_rom(0x200, 3584).iter().all(|&b| b == 0));
}

#[test]
fn load_overwrites_previous_program() {
    let mut c = Chip8::new();
    c.load(&vec![9, 9, 9]).unwrap();
    c.load(&vec![1]).unwrap();
    assert_eq!(c.dump_rom(0x200, 3), vec![1, 9, 9]);
}

#[test]
fn return_on_empty_stack_underflows() {
    let mut c = Chip8::new();
    c.load(&vec![0x00, 0xEE]).unwrap();
    let r = c.cycle_with_random(0);
    assert_eq!(r, Err(Chip8Error::StackUnderflow));
    assert_eq!(c.stack_pointer, 0);
    assert_eq!(c.program_counter, 0x202);
}

#[test]
fn reset_restores_power_up_values() {
    let mut c = Chip8::new();
    c.load(&vec![0x60, 0x05]).unwrap();
    c.cycle_with_random(0).unwrap();
    c.set_key(3, true);
    c.delay_timer = 9;
    c.reset();
    assert_eq!(c.program_counter, 0x200);
    assert_eq!(c.registers[0], 0);
    assert_eq!(c.get_delay_timer(), 0);
    assert!(c.keypad.iter().all(|&k| !k));
    assert!(c.dump_rom(0x200, 2).iter().all(|&b| b == 0));
    assert_eq!(c.dump_rom(0x50, 80), FONTSET.to_vec());
}

#[test]
fn set_key_tracks_press_and_release() {
    let mut c = Chip8::new();
    c.set_key(3, true);
    assert!(c.keypad[3]);
    c.set_key(3, false);
    assert!(!c.keypad[3]);
    // Indices beyond the keypad are ignored.
    c.set_key(16, true);
    assert!(c.keypad.iter().all(|&k| !k));
}

#[test]
fn tick_timers_steps_toward_zero_and_stops() {
    let mut c = Chip8::new();
    c.delay_timer = 2;
    c.sound_timer = 1;
    c.tick_timers();
    assert_eq!(c.get_delay_timer(), 1);
    assert_eq!(c.get_sound_timer(), 0);
    c.tick_timers();
    c.tick_timers();
    assert_eq!(c.get_delay_timer(), 0);
    assert_eq!(c.get_sound_timer(), 0);
}

#[test]
fn dump_video_maps_pixels_to_sentinels() {
    let mut c = Chip8::new();
    c.video[0] = true;
    c.video[2047] = true;
    let buf = c.dump_video();
    assert_eq!(buf.len(), 2048);
    assert_eq!(buf[0], 0xFFFFFFFF);
    assert_eq!(buf[1], 0);
    assert_eq!(buf[2047], 0xFFFFFFFF);
}

#[test]
fn rand_byte_masks_correctly_in_cxkk() {
    // Cx0F keeps only the low nibble of whatever byte arrives.
    let mut c = Chip8::new();
    c.load(&vec![0xC0, 0x0F]).unwrap();
    c.cycle().unwrap();
    assert!(c.registers[0] < 16);
}

#[test]
fn keymap_covers_the_sixteen_keys() {
    assert_eq!(map_pc_to_chip8('1'), Some(0x1));
    assert_eq!(map_pc_to_chip8('2'), Some(0x2));
    assert_eq!(map_pc_to_chip8('3'), Some(0x3));
    assert_eq!(map_pc_to_chip8('4'), Some(0xC));
    assert_eq!(map_pc_to_chip8('q'), Some(0x4));
    assert_eq!(map_pc_to_chip8('W'), Some(0x5));
    assert_eq!(map_pc_to_chip8('e'), Some(0x6));
    assert_eq!(map_pc_to_chip8('r'), Some(0xD));
    assert_eq!(map_pc_to_chip8('a'), Some(0x7));
    assert_eq!(map_pc_to_chip8('S'), Some(0x8));
    assert_eq!(map_pc_to_chip8('d'), Some(0x9));
    assert_eq!(map_pc_to_chip8('f'), Some(0xE));
    assert_eq!(map_pc_to_chip8('z'), Some(0xA));
    assert_eq!(map_pc_to_chip8('x'), Some(0x0));
    assert_eq!(map_pc_to_chip8('C'), Some(0xB));
    assert_eq!(map_pc_to_chip8('v'), Some(0xF));
    assert_eq!(map_pc_to_chip8('5'), None);
    assert_eq!(map_pc_to_chip8(' '), None);
}

#[test]
fn scale_coord_samples_nearest() {
    assert_eq!(scale_coord(0, 10, 64), 0);
    assert_eq!(scale_coord(5, 10, 64), 32);
    assert_eq!(scale_coord(9, 10, 64), 57);
    assert_eq!(scale_coord(19, 20, 32), 30);
    for t in 0..100 {
        assert!(scale_coord(t, 100, 32) < 32);
    }
}

#[test]
fn logbuf_keeps_newest_lines_up_to_capacity() {
    let mut b = LogBuf::new(2);
    b.push("a".to_string());
    b.push("b".to_string());
    assert_eq!(b.lines, vec!["a".to_string(), "b".to_string()]);
    b.push("c".to_string());
    assert_eq!(b.lines, vec!["b".to_string(), "c".to_string()]);
}

#[test]
fn logbuf_with_zero_capacity_keeps_nothing() {
    let mut b = LogBuf::new(0);
    b.push("a".to_string());
    assert!(b.lines.is_empty());
}

#[test]
fn dump_rom_returns_requested_window() {
    let mut c = Chip8::new();
    c.load(&vec![7, 8, 9, 10]).unwrap();
    assert_eq!(c.dump_rom(0x201, 2), vec![8, 9]);
}
