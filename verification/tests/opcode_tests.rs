use chip8_rs::Chip8;
use chip8_rs::Chip8Error;

fn machine_with(rom: &[u8]) -> Chip8 {
    let mut c = Chip8::new();
    c.load(&rom.to_vec()).expect("rom fits");
    c
}

#[test]
fn add_with_carry_sets_flag_on_overflow() {
    let mut c = machine_with(&[0x80, 0x14]);
    c.registers[0] = 200;
    c.registers[1] = 100;
    c.cycle_with_random(0).unwrap();
    assert_eq!(c.registers[0], 44);
    assert_eq!(c.registers[15], 1);
}

#[test]
fn add_with_carry_clears_flag_without_overflow() {
    let mut c = machine_with(&[0x80, 0x14]);
    c.registers[0] = 5;
    c.registers[1] = 3;
    c.registers[15] = 1;
    c.cycle_with_random(0).unwrap();
    assert_eq!(c.registers[0], 8);
    assert_eq!(c.registers[15], 0);
}

#[test]
fn sub_sets_flag_when_no_borrow() {
    let mut c = machine_with(&[0x80, 0x15]);
    c.registers[0] = 10;
    c.registers[1] = 3;
    c.cycle_with_random(0).unwrap();
    assert_eq!(c.registers[0], 7);
    assert_eq!(c.registers[15], 1);
}

#[test]
fn sub_wraps_and_clears_flag_on_borrow() {
    let mut c = machine_with(&[0x80, 0x15]);
    c.registers[0] = 3;
    c.registers[1] = 10;
    c.cycle_with_random(0).unwrap();
    assert_eq!(c.registers[0], 249);
    assert_eq!(c.registers[15], 0);
}

#[test]
fn sub_of_equal_values_gives_zero_and_borrow_flag() {
    // The table rule: VF = 1 only when Vx > Vy, so equal values clear it.
    let mut c = machine_with(&[0x80, 0x15]);
    c.registers[0] = 5;
    c.registers[1] = 5;
    c.registers[15] = 1;
    c.cycle_with_random(0).unwrap();
    assert_eq!(c.registers[0], 0);
    assert_eq!(c.registers[15], 0);
}

#[test]
fn subn_reverses_operands() {
    let mut c = machine_with(&[0x80, 0x17]);
    c.registers[0] = 3;
    c.registers[1] = 10;
    c.cycle_with_random(0).unwrap();
    assert_eq!(c.registers[0], 7);
    assert_eq!(c.registers[15], 1);
    let mut d = machine_with(&[0x80, 0x17]);
    d.registers[0] = 10;
    d.registers[1] = 3;
    d.cycle_with_random(0).unwrap();
    assert_eq!(d.registers[0], 249);
    assert_eq!(d.registers[15], 0);
}

#[test]
fn shift_right_keeps_dropped_bit() {
    let mut c = machine_with(&[0x80, 0x06]);
    c.registers[0] = 5;
    c.cycle_with_random(0).unwrap();
    assert_eq!(c.registers[0], 2);
    assert_eq!(c.registers[15], 1);
}

#[test]
fn shift_left_keeps_dropped_bit() {
    let mut c = machine_with(&[0x80, 0x0E]);
    c.registers[0] = 0x81;
    c.cycle_with_random(0).unwrap();
    assert_eq!(c.registers[0], 0x02);
    assert_eq!(c.registers[15], 1);
}

#[test]
fn bitwise_or_and_xor() {
    let mut c = machine_with(&[0x80, 0x11]);
    c.registers[0] = 0b1100;
    c.registers[1] = 0b1010;
    c.cycle_with_random(0).unwrap();
    assert_eq!(c.registers[0], 0b1110);

    let mut d = machine_with(&[0x80, 0x12]);
    d.registers[0] = 0b1100;
    d.registers[1] = 0b1010;
    d.cycle_with_random(0).unwrap();
    assert_eq!(d.registers[0], 0b1000);

    let mut e = machine_with(&[0x80, 0x13]);
    e.registers[0] = 0b1100;
    e.registers[1] = 0b1010;
    e.cycle_with_random(0).unwrap();
    assert_eq!(e.registers[0], 0b0110);
}

#[test]
fn register_copy() {
    let mut c = machine_with(&[0x80, 0x10]);
    c.registers[1] = 0x42;
    c.cycle_with_random(0).unwrap();
    assert_eq!(c.registers[0], 0x42);
}

#[test]
fn add_immediate_wraps_without_flag() {
    let mut c = machine_with(&[0x70, 0x0A]);
    c.registers[0] = 250;
    c.registers[15] = 0;
    c.cycle_with_random(0).unwrap();
    assert_eq!(c.registers[0], 4);
    assert_eq!(c.registers[15], 0);
}

#[test]
fn skip_if_equal_immediate() {
    let mut c = machine_with(&[0x30, 0x07]);
    c.registers[0] = 7;
    c.cycle_with_random(0).unwrap();
    assert_eq!(c.program_counter, 0x204);
    let mut d = machine_with(&[0x30, 0x07]);
    d.registers[0] = 8;
    d.cycle_with_random(0).unwrap();
    assert_eq!(d.program_counter, 0x202);
}

#[test]
fn skip_if_not_equal_immediate() {
    let mut c = machine_with(&[0x40, 0x07]);
    c.registers[0] = 8;
    c.cycle_with_random(0).unwrap();
    assert_eq!(c.program_counter, 0x204);
}

#[test]
fn skip_on_register_compare() {
    let mut c = machine_with(&[0x50, 0x10]);
    c.registers[0] = 3;
    c.registers[1] = 3;
    c.cycle_with_random(0).unwrap();
    assert_eq!(c.program_counter, 0x204);
    let mut d = machine_with(&[0x90, 0x10]);
    d.registers[0] = 3;
    d.registers[1] = 4;
    d.cycle_with_random(0).unwrap();
    assert_eq!(d.program_counter, 0x204);
}

#[test]
fn skip_on_key_state() {
    let mut c = machine_with(&[0xE0, 0x9E]);
    c.registers[0] = 0x5;
    c.set_key(0x5, true);
    c.cycle_with_random(0).unwrap();
    assert_eq!(c.program_counter, 0x204);

    let mut d = machine_with(&[0xE0, 0xA1]);
    d.registers[0] = 0x5;
    d.cycle_with_random(0).unwrap();
    assert_eq!(d.program_counter, 0x204);
}

#[test]
fn key_skip_with_register_beyond_keys_is_out_of_range() {
    let mut c = machine_with(&[0xE0, 0x9E]);
    c.registers[0] = 16;
    let r = c.cycle_with_random(0);
    assert_eq!(r, Err(Chip8Error::MemoryOutOfBounds));
}

#[test]
fn bcd_digits_of_234() {
    let mut c = machine_with(&[0xA3, 0x00, 0xF0, 0x33]);
    c.registers[0] = 234;
    c.cycle_with_random(0).unwrap();
    c.cycle_with_random(0).unwrap();
    assert_eq!(c.memory[0x300], 2);
    assert_eq!(c.memory[0x301], 3);
    assert_eq!(c.memory[0x302], 4);
}

#[test]
fn bcd_near_end_of_memory_is_out_of_range() {
    let mut c = machine_with(&[0xAF, 0xFF, 0xF0, 0x33]);
    c.cycle_with_random(0).unwrap();
    let r = c.cycle_with_random(0);
    assert_eq!(r, Err(Chip8Error::MemoryOutOfBounds));
}

#[test]
fn add_to_index() {
    let mut c = machine_with(&[0xA3, 0x00, 0xF0, 0x1E]);
    c.registers[0] = 0x20;
    c.cycle_with_random(0).unwrap();
    c.cycle_with_random(0).unwrap();
    assert_eq!(c.index_register, 0x320);
}

#[test]
fn add_to_index_past_memory_is_out_of_range() {
    let mut c = machine_with(&[0xAF, 0xFF, 0xF0, 0x1E]);
    c.registers[0] = 1;
    c.cycle_with_random(0).unwrap();
    let r = c.cycle_with_random(0);
    assert_eq!(r, Err(Chip8Error::MemoryOutOfBounds));
    assert_eq!(c.index_register, 0xFFF);
}

#[test]
fn timers_set_and_read() {
    let mut c = machine_with(&[0x60, 0x09, 0xF0, 0x15, 0xF0, 0x18, 0xF1, 0x07]);
    c.cycle_with_random(0).unwrap();
    c.cycle_with_random(0).unwrap();
    // Fx15 set delay to 9; the cycle's own timer step brings it to 8.
    assert_eq!(c.get_delay_timer(), 8);
    c.cycle_with_random(0).unwrap();
    assert_eq!(c.get_sound_timer(), 8);
    // That cycle also stepped the delay timer to 7, which Fx07 reads
    // before the next step.
    c.cycle_with_random(0).unwrap();
    assert_eq!(c.registers[1], 7);
}

#[test]
fn invalid_opcodes_are_reported_and_skipped() {
    for rom in [[0x5A, 0xB1], [0x00, 0x00], [0x80, 0x18], [0xE0, 0x00], [0xF0, 0x99], [
        0x9A, 0xB5,
    ]] {
        let mut c = machine_with(&rom);
        let r = c.cycle_with_random(0);
        assert_eq!(r, Err(Chip8Error::InvalidOpcode));
        assert_eq!(c.program_counter, 0x202);
        assert_eq!(c.last_opcode(), ((rom[0] as u16) << 8) | rom[1] as u16);
    }
}

#[test]
fn fetch_at_end_of_memory_is_out_of_range() {
    let mut c = Chip8::new();
    c.program_counter = 4095;
    let r = c.cycle_with_random(0);
    assert_eq!(r, Err(Chip8Error::MemoryOutOfBounds));
    assert_eq!(c.program_counter, 4095);
}
