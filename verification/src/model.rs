//! The mathematical model of the machine: an abstract state, the power-up
//! values, and one transition function per opcode. The executable
//! interpreter's contracts are all stated against these functions.

use vstd::prelude::*;

use crate::decode::Chip8Error;
use crate::decode::op_family;
use crate::decode::op_kk;
use crate::decode::op_n;
use crate::decode::op_nnn;
use crate::decode::op_x;
use crate::decode::op_y;
use crate::sprites::collides;
use crate::sprites::drawn;

verus! {

/// Abstract machine state. `regs` always has 16 entries, `mem` 4096,
/// `stack` 16 slots (of which the first `sp` hold return addresses),
/// `keys` 16 pressed-flags and `video` 64 x 32 pixels in row-major order.
#[verifier::ext_equal]
pub struct State {
    pub regs: Seq<u8>,
    pub mem: Seq<u8>,
    pub index: u16,
    pub pc: u16,
    pub stack: Seq<u16>,
    pub sp: u8,
    pub delay: u8,
    pub sound: u8,
    pub keys: Seq<bool>,
    pub video: Seq<bool>,
    pub op: u16,
}

/// Well-formedness: the fixed sizes of the state's components, the stack
/// pointer inside its 17 legal positions, and the index register inside
/// the address space.
pub open spec fn wf(s: State) -> bool {
    &&& s.regs.len() == 16
    &&& s.mem.len() == 4096
    &&& s.stack.len() == 16
    &&& s.keys.len() == 16
    &&& s.video.len() == 2048
    &&& s.sp <= 16
    &&& s.index < 4096
}

/// The 80 bytes of built-in hexadecimal digit glyphs, 5 bytes per digit.
pub open spec fn fontset() -> Seq<u8> {
    seq![
        0xF0u8, 0x90, 0x90, 0x90, 0xF0,
        0x20, 0x60, 0x20, 0x20, 0x70,
        0xF0, 0x10, 0xF0, 0x80, 0xF0,
        0xF0, 0x10, 0xF0, 0x10, 0xF0,
        0x90, 0x90, 0xF0, 0x10, 0x10,
        0xF0, 0x80, 0xF0, 0x10, 0xF0,
        0xF0, 0x80, 0xF0, 0x90, 0xF0,
        0xF0, 0x10, 0x20, 0x40, 0x40,
        0xF0, 0x90, 0xF0, 0x90, 0xF0,
        0xF0, 0x90, 0xF0, 0x10, 0xF0,
        0xF0, 0x90, 0xF0, 0x90, 0x90,
        0xE0, 0x90, 0xE0, 0x90, 0xE0,
        0xF0, 0x80, 0x80, 0x80, 0xF0,
        0xE0, 0x90, 0x90, 0x90, 0xE0,
        0xF0, 0x80, 0xF0, 0x80, 0xF0,
        0xF0, 0x80, 0xF0, 0x80, 0x80,
    ]
}

/// Base address of the font glyphs.
pub open spec fn font_base() -> int {
    0x50
}

/// The state after power-up or reset: everything zeroed except the program
/// counter, which starts at 0x200, and the font resident at 0x50.
pub open spec fn power_up() -> State {
    State {
        regs: Seq::new(16, |i: int| 0u8),
        mem: Seq::new(
            4096,
            |a: int| if font_base() <= a < font_base() + 80 {
                fontset()[a - font_base()]
            } else {
                0u8
            },
        ),
        index: 0u16,
        pc: 0x200u16,
        stack: Seq::new(16, |i: int| 0u16),
        sp: 0u8,
        delay: 0u8,
        sound: 0u8,
        keys: Seq::new(16, |i: int| false),
        video: Seq::new(2048, |i: int| false),
        op: 0u16,
    }
}

/// Memory after a ROM of `rom.len()` bytes is copied in at 0x200.
pub open spec fn loaded_mem(mem: Seq<u8>, rom: Seq<u8>) -> Seq<u8> {
    Seq::new(
        4096,
        |a: int| if 0x200 <= a < 0x200 + rom.len() {
            rom[a - 0x200]
        } else {
            mem[a]
        },
    )
}

/// One timer step: each timer moves one closer to 0 and stops there.
pub open spec fn ticked(s: State) -> State {
    State {
        delay: if s.delay > 0 {
            (s.delay - 1) as u8
        } else {
            0u8
        },
        sound: if s.sound > 0 {
            (s.sound - 1) as u8
        } else {
            0u8
        },
        ..s
    }
}

/// The program counter two further on, wrapping as the 16-bit register does.
pub open spec fn pc_skipped(pc: u16) -> u16 {
    if pc + 2 > 0xFFFF {
        (pc + 2 - 0x10000) as u16
    } else {
        (pc + 2) as u16
    }
}

/// The program counter two back, wrapping as the 16-bit register does.
pub open spec fn pc_rolled_back(pc: u16) -> u16 {
    if pc - 2 < 0 {
        (pc - 2 + 0x10000) as u16
    } else {
        (pc - 2) as u16
    }
}

/// The opcode fetched big-endian at the program counter.
pub open spec fn fetched(s: State) -> u16 {
    (s.mem[s.pc as int] * 256 + s.mem[s.pc as int + 1]) as u16
}

// One transition function per opcode. Those that can fail return the error
// beside the (then unchanged) state. Each reads its operands from `s.op`.

/// 00E0: every pixel off.
pub open spec fn step_00e0(s: State) -> State {
    State { video: Seq::new(2048, |i: int| false), ..s }
}

/// 00EE: pop the call stack into the program counter.
pub open spec fn step_00ee(s: State) -> (State, Result<(), Chip8Error>) {
    if s.sp == 0 {
        (s, Err(Chip8Error::StackUnderflow))
    } else {
        (State { sp: (s.sp - 1) as u8, pc: s.stack[s.sp - 1], ..s }, Ok(()))
    }
}

/// 1nnn: jump.
pub open spec fn step_1nnn(s: State) -> State {
    State { pc: op_nnn(s.op), ..s }
}

/// 2nnn: push the (already advanced) program counter, jump to nnn.
pub open spec fn step_2nnn(s: State) -> (State, Result<(), Chip8Error>) {
    if s.sp >= 16 {
        (s, Err(Chip8Error::StackOverflow))
    } else {
        (
            State {
                stack: s.stack.update(s.sp as int, s.pc),
                sp: (s.sp + 1) as u8,
                pc: op_nnn(s.op),
                ..s
            },
            Ok(()),
        )
    }
}

/// 3xkk: skip the next instruction when Vx equals kk.
pub open spec fn step_3xkk(s: State) -> State {
    if s.regs[op_x(s.op) as int] == op_kk(s.op) {
        State { pc: pc_skipped(s.pc), ..s }
    } else {
        s
    }
}

/// 4xkk: skip the next instruction when Vx differs from kk.
pub open spec fn step_4xkk(s: State) -> State {
    if s.regs[op_x(s.op) as int] != op_kk(s.op) {
        State { pc: pc_skipped(s.pc), ..s }
    } else {
        s
    }
}

/// 5xy0: skip the next instruction when Vx equals Vy.
pub open spec fn step_5xy0(s: State) -> State {
    if s.regs[op_x(s.op) as int] == s.regs[op_y(s.op) as int] {
        State { pc: pc_skipped(s.pc), ..s }
    } else {
        s
    }
}

/// 6xkk: Vx = kk.
pub open spec fn step_6xkk(s: State) -> State {
    State { regs: s.regs.update(op_x(s.op) as int, op_kk(s.op)), ..s }
}

/// 7xkk: Vx = Vx + kk modulo 256; no flag is touched.
pub open spec fn step_7xkk(s: State) -> State {
    let x = op_x(s.op) as int;
    State { regs: s.regs.update(x, ((s.regs[x] + op_kk(s.op)) % 256) as u8), ..s }
}

/// 8xy0: Vx = Vy.
pub open spec fn step_8xy0(s: State) -> State {
    State { regs: s.regs.update(op_x(s.op) as int, s.regs[op_y(s.op) as int]), ..s }
}

/// 8xy1: Vx = Vx | Vy.
pub open spec fn step_8xy1(s: State) -> State {
    let x = op_x(s.op) as int;
    State { regs: s.regs.update(x, s.regs[x] | s.regs[op_y(s.op) as int]), ..s }
}

/// 8xy2: Vx = Vx & Vy.
pub open spec fn step_8xy2(s: State) -> State {
    let x = op_x(s.op) as int;
    State { regs: s.regs.update(x, s.regs[x] & s.regs[op_y(s.op) as int]), ..s }
}

/// 8xy3: Vx = Vx ^ Vy.
pub open spec fn step_8xy3(s: State) -> State {
    let x = op_x(s.op) as int;
    State { regs: s.regs.update(x, s.regs[x] ^ s.regs[op_y(s.op) as int]), ..s }
}

/// 8xy4: Vx = Vx + Vy modulo 256; VF = 1 exactly when the sum carried.
/// The flag is written first, so with x = F the sum wins.
pub open spec fn step_8xy4(s: State) -> State {
    let x = op_x(s.op) as int;
    let sum = s.regs[x] + s.regs[op_y(s.op) as int];
    State {
        regs: s.regs.update(15, if sum > 255 {
            1u8
        } else {
            0u8
        }).update(x, (sum % 256) as u8),
        ..s
    }
}

/// 8xy5: Vx = Vx - Vy modulo 256; VF = 1 exactly when there was no borrow
/// (Vx > Vy). The flag is written first, so with x = F the difference wins.
pub open spec fn step_8xy5(s: State) -> State {
    let x = op_x(s.op) as int;
    let vx = s.regs[x];
    let vy = s.regs[op_y(s.op) as int];
    State {
        regs: s.regs.update(15, if vx > vy {
            1u8
        } else {
            0u8
        }).update(x, ((vx + 256 - vy) % 256) as u8),
        ..s
    }
}

/// 8xy6: VF = the bit shifted out (Vx's lowest), Vx = Vx >> 1.
pub open spec fn step_8xy6(s: State) -> State {
    let x = op_x(s.op) as int;
    let vx = s.regs[x];
    State { regs: s.regs.update(15, (vx % 2) as u8).update(x, (vx / 2) as u8), ..s }
}

/// 8xy7: Vx = Vy - Vx modulo 256; VF = 1 exactly when there was no borrow
/// (Vy > Vx). The flag is written first, so with x = F the difference wins.
pub open spec fn step_8xy7(s: State) -> State {
    let x = op_x(s.op) as int;
    let vx = s.regs[x];
    let vy = s.regs[op_y(s.op) as int];
    State {
        regs: s.regs.update(15, if vy > vx {
            1u8
        } else {
            0u8
        }).update(x, ((vy + 256 - vx) % 256) as u8),
        ..s
    }
}

/// 8xyE: VF = the bit shifted out (Vx's highest), Vx = Vx << 1 modulo 256.
pub open spec fn step_8xye(s: State) -> State {
    let x = op_x(s.op) as int;
    let vx = s.regs[x];
    State {
        regs: s.regs.update(15, if vx >= 128 {
            1u8
        } else {
            0u8
        }).update(x, ((vx * 2) % 256) as u8),
        ..s
    }
}

/// 9xy0: skip the next instruction when Vx differs from Vy.
pub open spec fn step_9xy0(s: State) -> State {
    if s.regs[op_x(s.op) as int] != s.regs[op_y(s.op) as int] {
        State { pc: pc_skipped(s.pc), ..s }
    } else {
        s
    }
}

/// Annn: I = nnn.
pub open spec fn step_annn(s: State) -> State {
    State { index: op_nnn(s.op), ..s }
}

/// Bnnn: pc = V0 + nnn. The sum fits in 16 bits; whether it names a
/// fetchable address is checked by the next fetch.
pub open spec fn step_bnnn(s: State) -> State {
    State { pc: (s.regs[0] + op_nnn(s.op)) as u16, ..s }
}

/// Cxkk: Vx = rnd & kk, where rnd is the byte the random source supplied.
pub open spec fn step_cxkk(s: State, rnd: u8) -> State {
    State { regs: s.regs.update(op_x(s.op) as int, rnd & op_kk(s.op)), ..s }
}

/// Ex9E: skip the next instruction when the key numbered by Vx is pressed.
/// A Vx outside the 16 keys is an out-of-range index.
pub open spec fn step_ex9e(s: State) -> (State, Result<(), Chip8Error>) {
    let key = s.regs[op_x(s.op) as int];
    if key >= 16 {
        (s, Err(Chip8Error::MemoryOutOfBounds))
    } else if s.keys[key as int] {
        (State { pc: pc_skipped(s.pc), ..s }, Ok(()))
    } else {
        (s, Ok(()))
    }
}

/// ExA1: skip the next instruction when the key numbered by Vx is not
/// pressed. A Vx outside the 16 keys is an out-of-range index.
pub open spec fn step_exa1(s: State) -> (State, Result<(), Chip8Error>) {
    let key = s.regs[op_x(s.op) as int];
    if key >= 16 {
        (s, Err(Chip8Error::MemoryOutOfBounds))
    } else if !s.keys[key as int] {
        (State { pc: pc_skipped(s.pc), ..s }, Ok(()))
    } else {
        (s, Ok(()))
    }
}

/// Fx07: Vx = delay timer.
pub open spec fn step_fx07(s: State) -> State {
    State { regs: s.regs.update(op_x(s.op) as int, s.delay), ..s }
}

/// The lowest pressed key at or above position `k`, if any.
pub open spec fn lowest_key_from(keys: Seq<bool>, k: int) -> Option<int>
    decreases 16 - k,
{
    if k < 0 || k >= 16 {
        None
    } else if keys[k] {
        Some(k)
    } else {
        lowest_key_from(keys, k + 1)
    }
}

/// Fx0A: wait for a key. With a key down, Vx takes the lowest pressed
/// index; with none, the program counter rolls back two so the instruction
/// re-executes on the next cycle.
pub open spec fn step_fx0a(s: State) -> State {
    match lowest_key_from(s.keys, 0) {
        Some(k) => State { regs: s.regs.update(op_x(s.op) as int, k as u8), ..s },
        None => State { pc: pc_rolled_back(s.pc), ..s },
    }
}

/// Fx15: delay timer = Vx.
pub open spec fn step_fx15(s: State) -> State {
    State { delay: s.regs[op_x(s.op) as int], ..s }
}

/// Fx18: sound timer = Vx.
pub open spec fn step_fx18(s: State) -> State {
    State { sound: s.regs[op_x(s.op) as int], ..s }
}

/// Fx1E: I = I + Vx; a sum outside the address space is rejected and
/// leaves I unchanged.
pub open spec fn step_fx1e(s: State) -> (State, Result<(), Chip8Error>) {
    let sum = s.index + s.regs[op_x(s.op) as int];
    if sum >= 4096 {
        (s, Err(Chip8Error::MemoryOutOfBounds))
    } else {
        (State { index: sum as u16, ..s }, Ok(()))
    }
}

/// Fx29: I = the address of the glyph for digit Vx.
pub open spec fn step_fx29(s: State) -> State {
    State { index: (font_base() + 5 * s.regs[op_x(s.op) as int]) as u16, ..s }
}

/// Fx33: the decimal digits of Vx stored at I (hundreds), I+1 (tens) and
/// I+2 (ones).
pub open spec fn step_fx33(s: State) -> (State, Result<(), Chip8Error>) {
    let i = s.index as int;
    let vx = s.regs[op_x(s.op) as int];
    if i + 2 >= 4096 {
        (s, Err(Chip8Error::MemoryOutOfBounds))
    } else {
        (
            State {
                mem: s.mem.update(i, (vx / 100) as u8).update(i + 1, ((vx / 10) % 10) as u8).update(
                    i + 2,
                    (vx % 10) as u8,
                ),
                ..s
            },
            Ok(()),
        )
    }
}

/// Fx55: registers V0 through Vx inclusive copied into memory at I.
pub open spec fn step_fx55(s: State) -> (State, Result<(), Chip8Error>) {
    let i = s.index as int;
    let x = op_x(s.op) as int;
    if i + x >= 4096 {
        (s, Err(Chip8Error::MemoryOutOfBounds))
    } else {
        (
            State {
                mem: Seq::new(4096, |a: int| if i <= a <= i + x {
                    s.regs[a - i]
                } else {
                    s.mem[a]
                }),
                ..s
            },
            Ok(()),
        )
    }
}

/// Dxyn: XOR-draw the n-byte sprite at memory[I..] at screen position
/// (Vx mod 64, Vy mod 32), each pixel wrapping around its own axis;
/// VF = 1 exactly when a toggle turned an on pixel off. A sprite row
/// outside the address space is rejected before anything is drawn.
pub open spec fn step_dxyn(s: State) -> (State, Result<(), Chip8Error>) {
    let i = s.index as int;
    let n = op_n(s.op) as int;
    let x0 = s.regs[op_x(s.op) as int] % 64;
    let y0 = s.regs[op_y(s.op) as int] % 32;
    if i + n > 4096 {
        (s, Err(Chip8Error::MemoryOutOfBounds))
    } else {
        (
            State {
                video: drawn(s.video, s.mem, i, n, x0 as int, y0 as int),
                regs: s.regs.update(15, if collides(s.video, s.mem, i, n, x0 as int, y0 as int) {
                    1u8
                } else {
                    0u8
                }),
                ..s
            },
            Ok(()),
        )
    }
}

/// Fx65: registers V0 through Vx inclusive loaded from memory at I.
pub open spec fn step_fx65(s: State) -> (State, Result<(), Chip8Error>) {
    let i = s.index as int;
    let x = op_x(s.op) as int;
    if i + x >= 4096 {
        (s, Err(Chip8Error::MemoryOutOfBounds))
    } else {
        (
            State {
                regs: Seq::new(16, |j: int| if j <= x {
                    s.mem[i + j]
                } else {
                    s.regs[j]
                }),
                ..s
            },
            Ok(()),
        )
    }
}

/// Decode and execute one already-fetched opcode (in `s.op`): the primary
/// dispatch on the top nibble, with the 0, 8, E and F families dispatched
/// again on their low nibble or low byte. An unmapped pattern leaves the
/// state as it is.
pub open spec fn spec_execute(s: State, rnd: u8) -> (State, Result<(), Chip8Error>) {
    let fam = op_family(s.op);
    if fam == 0x0 {
        if op_kk(s.op) == 0xE0 {
            (step_00e0(s), Ok(()))
        } else if op_kk(s.op) == 0xEE {
            step_00ee(s)
        } else {
            (s, Err(Chip8Error::InvalidOpcode))
        }
    } else if fam == 0x1 {
        (step_1nnn(s), Ok(()))
    } else if fam == 0x2 {
        step_2nnn(s)
    } else if fam == 0x3 {
        (step_3xkk(s), Ok(()))
    } else if fam == 0x4 {
        (step_4xkk(s), Ok(()))
    } else if fam == 0x5 {
        if op_n(s.op) == 0x0 {
            (step_5xy0(s), Ok(()))
        } else {
            (s, Err(Chip8Error::InvalidOpcode))
        }
    } else if fam == 0x6 {
        (step_6xkk(s), Ok(()))
    } else if fam == 0x7 {
        (step_7xkk(s), Ok(()))
    } else if fam == 0x8 {
        let low = op_n(s.op);
        if low == 0x0 {
            (step_8xy0(s), Ok(()))
        } else if low == 0x1 {
            (step_8xy1(s), Ok(()))
        } else if low == 0x2 {
            (step_8xy2(s), Ok(()))
        } else if low == 0x3 {
            (step_8xy3(s), Ok(()))
        } else if low == 0x4 {
            (step_8xy4(s), Ok(()))
        } else if low == 0x5 {
            (step_8xy5(s), Ok(()))
        } else if low == 0x6 {
            (step_8xy6(s), Ok(()))
        } else if low == 0x7 {
            (step_8xy7(s), Ok(()))
        } else if low == 0xE {
            (step_8xye(s), Ok(()))
        } else {
            (s, Err(Chip8Error::InvalidOpcode))
        }
    } else if fam == 0x9 {
        if op_n(s.op) == 0x0 {
            (step_9xy0(s), Ok(()))
        } else {
            (s, Err(Chip8Error::InvalidOpcode))
        }
    } else if fam == 0xA {
        (step_annn(s), Ok(()))
    } else if fam == 0xB {
        (step_bnnn(s), Ok(()))
    } else if fam == 0xC {
        (step_cxkk(s, rnd), Ok(()))
    } else if fam == 0xD {
        step_dxyn(s)
    } else if fam == 0xE {
        let low = op_kk(s.op);
        if low == 0x9E {
            step_ex9e(s)
        } else if low == 0xA1 {
            step_exa1(s)
        } else {
            (s, Err(Chip8Error::InvalidOpcode))
        }
    } else {
        let low = op_kk(s.op);
        if low == 0x07 {
            (step_fx07(s), Ok(()))
        } else if low == 0x0A {
            (step_fx0a(s), Ok(()))
        } else if low == 0x15 {
            (step_fx15(s), Ok(()))
        } else if low == 0x18 {
            (step_fx18(s), Ok(()))
        } else if low == 0x1E {
            step_fx1e(s)
        } else if low == 0x29 {
            (step_fx29(s), Ok(()))
        } else if low == 0x33 {
            step_fx33(s)
        } else if low == 0x55 {
            step_fx55(s)
        } else if low == 0x65 {
            step_fx65(s)
        } else {
            (s, Err(Chip8Error::InvalidOpcode))
        }
    }
}

/// One full cycle: fetch the opcode big-endian at the program counter
/// (rejected when the counter has left the address space), advance the
/// counter by two before executing, execute, and on success move the
/// timers one step. On an error the state keeps the fetch's effects
/// (recorded opcode, advanced counter) and nothing of the failed opcode.
pub open spec fn spec_cycle(s: State, rnd: u8) -> (State, Result<(), Chip8Error>) {
    if s.pc >= 4095 {
        (s, Err(Chip8Error::MemoryOutOfBounds))
    } else {
        let s1 = State { op: fetched(s), pc: (s.pc + 2) as u16, ..s };
        let out = spec_execute(s1, rnd);
        if out.1 is Ok {
            (ticked(out.0), Ok(()))
        } else {
            out
        }
    }
}

} // verus!
