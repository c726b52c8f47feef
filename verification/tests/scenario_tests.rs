use chip8_rs::Chip8;
use chip8_rs::Chip8Error;

fn machine_with(rom: &[u8]) -> Chip8 {
    let mut c = Chip8::new();
    c.load(&rom.to_vec()).expect("rom fits");
    c
}

#[test]
fn fetch_reads_big_endian_at_0x200() {
    let mut c = machine_with(&[0x12, 0x34]);
    assert_eq!(c.program_counter, 0x200);
    c.cycle_with_random(0).unwrap();
    assert_eq!(c.last_opcode(), 0x1234);
    assert_eq!(c.program_counter, 0x234);
}

#[test]
fn clear_screen_program() {
    let mut c = machine_with(&[0x00, 0xE0]);
    c.video[5] = true;
    c.video[2047] = true;
    c.cycle_with_random(0).unwrap();
    assert!(c.video.iter().all(|&p| !p));
    assert_eq!(c.program_counter, 0x202);
}

#[test]
fn set_then_add_program() {
    let mut c = machine_with(&[0x60, 0x05, 0x70, 0x03]);
    c.cycle_with_random(0).unwrap();
    assert_eq!(c.registers[0], 5);
    c.cycle_with_random(0).unwrap();
    assert_eq!(c.registers[0], 8);
    assert_eq!(c.program_counter, 0x204);
}

#[test]
fn font_address_program() {
    let mut c = machine_with(&[0xA2, 0x50, 0xF0, 0x29]);
    c.cycle_with_random(0).unwrap();
    assert_eq!(c.index_register, 0x250);
    c.cycle_with_random(0).unwrap();
    assert_eq!(c.index_register, 0x50);
}

#[test]
fn call_then_return_comes_back_after_call() {
    let rom = [0x22, 0x06, 0x00, 0x00, 0x00, 0x00, 0x00, 0xEE];
    let mut c = machine_with(&rom);
    c.cycle_with_random(0).unwrap();
    assert_eq!(c.program_counter, 0x206);
    assert_eq!(c.stack_pointer, 1);
    c.cycle_with_random(0).unwrap();
    assert_eq!(c.program_counter, 0x202);
    assert_eq!(c.stack_pointer, 0);
}

#[test]
fn sixteen_nested_calls_then_overflow() {
    // 0x2200 at 0x200 calls itself forever.
    let mut c = machine_with(&[0x22, 0x00]);
    for _ in 0..16 {
        c.cycle_with_random(0).unwrap();
        assert_eq!(c.program_counter, 0x200);
    }
    assert_eq!(c.stack_pointer, 16);
    let stack_before = c.stack.clone();
    let r = c.cycle_with_random(0);
    assert_eq!(r, Err(Chip8Error::StackOverflow));
    assert_eq!(c.stack_pointer, 16);
    assert_eq!(c.stack, stack_before);
    // The fetch advanced the counter; the failed call left it alone.
    assert_eq!(c.program_counter, 0x202);
}

#[test]
fn store_load_round_trip_all_register_counts() {
    for x in 0..16u16 {
        let mut c = Chip8::new();
        for v in 0..16 {
            c.registers[v] = (v as u8) * 7 + 1;
        }
        let before = c.registers.clone();
        c.index_register = 0x300;
        c.op_code = 0xF055 | (x << 8);
        c.OP_Fx55().unwrap();
        for v in 0..16 {
            c.registers[v] = 0;
        }
        c.op_code = 0xF065 | (x << 8);
        c.OP_Fx65().unwrap();
        for v in 0..16usize {
            if v <= x as usize {
                assert_eq!(c.registers[v], before[v], "register {} for x {}", v, x);
            } else {
                assert_eq!(c.registers[v], 0);
            }
        }
    }
}

#[test]
fn random_masked_by_zero_is_zero() {
    // Cx00 leaves Vx at 0 for any random byte, so even the true random
    // source must give 0.
    let mut c = machine_with(&[0xC0, 0x00]);
    c.registers[0] = 0xAB;
    c.cycle().unwrap();
    assert_eq!(c.registers[0], 0);
}

#[test]
fn busy_wait_rolls_back_until_key() {
    let mut c = machine_with(&[0xF3, 0x0A]);
    c.cycle_with_random(0).unwrap();
    assert_eq!(c.program_counter, 0x200);
    c.cycle_with_random(0).unwrap();
    assert_eq!(c.program_counter, 0x200);
    c.set_key(0x9, true);
    c.cycle_with_random(0).unwrap();
    assert_eq!(c.registers[3], 0x9);
    assert_eq!(c.program_counter, 0x202);
}

#[test]
fn busy_wait_takes_lowest_pressed_key() {
    let mut c = machine_with(&[0xF0, 0x0A]);
    c.set_key(0xC, true);
    c.set_key(0x4, true);
    c.cycle_with_random(0).unwrap();
    assert_eq!(c.registers[0], 0x4);
}

#[test]
fn counting_loop_runs_to_its_bound() {
    // V0 = 0; then add 1, skip out once V0 == 5, else jump back;
    // finally spin on a self-jump.
    let rom = [
        0x60, 0x00, // 0x200: V0 = 0
        0x70, 0x01, // 0x202: V0 += 1
        0x30, 0x05, // 0x204: skip next if V0 == 5
        0x12, 0x02, // 0x206: jump 0x202
        0x12, 0x08, // 0x208: jump 0x208
    ];
    let mut c = machine_with(&rom);
    for _ in 0..40 {
        c.cycle_with_random(0).unwrap();
    }
    assert_eq!(c.registers[0], 5);
    assert_eq!(c.program_counter, 0x208);
}

#[test]
fn jump_with_offset_program() {
    let mut c = machine_with(&[0x60, 0x02, 0xB2, 0x06]);
    c.cycle_with_random(0).unwrap();
    c.cycle_with_random(0).unwrap();
    assert_eq!(c.program_counter, 0x208);
}

#[test]
fn jump_with_offset_out_of_range_fails_at_fetch() {
    let mut c = machine_with(&[0x60, 0xFF, 0xBF, 0xFF]);
    c.cycle_with_random(0).unwrap();
    c.cycle_with_random(0).unwrap();
    assert_eq!(c.program_counter, 0x10FE);
    let r = c.cycle_with_random(0);
    assert_eq!(r, Err(Chip8Error::MemoryOutOfBounds));
}
