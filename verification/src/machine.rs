//! The executable machine: the state a host owns, its power-up and reset,
//! ROM loading, key injection, timers and the read-only export surface.

use vstd::prelude::*;

use crate::decode::Chip8Error;
use crate::model::State;
use crate::model::fontset;
use crate::model::loaded_mem;
use crate::model::power_up;
use crate::model::ticked;

verus! {

/// The machine state of the interpreter.
pub struct Chip8 {
    /// General-purpose registers V0 through VF; VF doubles as the
    /// carry / borrow / collision flag.
    pub registers: Vec<u8>,
    /// The 4096-byte address space; programs load at 0x200, the font
    /// sits at 0x50.
    pub memory: Vec<u8>,
    /// Address pointer I used by the memory-indexed opcodes.
    pub index_register: u16,
    /// Address of the next instruction.
    pub program_counter: u16,
    /// Return addresses of the up to 16 nested subroutine calls.
    pub stack: Vec<u16>,
    /// Number of live entries on `stack`; 0 means empty.
    pub stack_pointer: u8,
    pub delay_timer: u8,
    pub sound_timer: u8,
    /// Pressed-state of the 16 logical keys.
    pub keypad: Vec<bool>,
    /// The 64 x 32 monochrome framebuffer, row-major; true is "on".
    pub video: Vec<bool>,
    /// The most recently fetched instruction.
    pub op_code: u16,
}

impl View for Chip8 {
    type V = State;

    open spec fn view(&self) -> State {
        State {
            regs: self.registers@,
            mem: self.memory@,
            index: self.index_register,
            pc: self.program_counter,
            stack: self.stack@,
            sp: self.stack_pointer,
            delay: self.delay_timer,
            sound: self.sound_timer,
            keys: self.keypad@,
            video: self.video@,
            op: self.op_code,
        }
    }
}

impl Chip8 {
    /// Well-formedness of the machine: the model's invariant on its view.
    pub open spec fn wf(&self) -> bool {
        crate::model::wf(self@)
    }

    /// A machine at power-up: zeroed state, program counter at 0x200,
    /// font resident at 0x50.
    pub fn new() -> (c: Chip8)
        ensures
            c.wf(),
            c@ == power_up(),
    {
        let mut memory: Vec<u8> = vec![0u8; 4096];
        let font = font_data();
        let mut k: usize = 0;
        while k < 80
            invariant
                memory@.len() == 4096,
                font@ == fontset(),
                k <= 80,
                forall|a: int|
                    0 <= a < 4096 ==> memory@[a] == (if 0x50 <= a < 0x50 + k {
                        fontset()[a - 0x50]
                    } else {
                        0u8
                    }),
            decreases 80 - k,
        {
            memory.set(0x50 + k, font[k]);
            k += 1;
        }
        let c = Chip8 {
            registers: vec![0u8; 16],
            memory,
            index_register: 0,
            program_counter: 0x200,
            stack: vec![0u16; 16],
            stack_pointer: 0,
            delay_timer: 0,
            sound_timer: 0,
            keypad: vec![false; 16],
            video: vec![false; 2048],
            op_code: 0,
        };
        proof {
            assert(c@ =~= power_up());
        }
        c
    }

    /// Back to the power-up state: the font is installed again, the
    /// program is gone, keypad and timers are cleared.
    pub fn reset(&mut self)
        ensures
            final(self).wf(),
            final(self)@ == power_up(),
    {
        *self = Chip8::new();
    }

    /// Copy a ROM into memory at 0x200. A ROM over the 3584 available
    /// bytes is rejected whole: nothing is written.
    pub fn load(&mut self, rom: &Vec<u8>) -> (r: Result<(), Chip8Error>)
        requires
            old(self).wf(),
        ensures
            final(self).wf(),
            rom@.len() > 3584 ==> r == Err::<(), Chip8Error>(Chip8Error::RomTooLarge) && final(self)@
                == old(self)@,
            rom@.len() <= 3584 ==> r == Ok::<(), Chip8Error>(()) && final(self)@ == (State {
                mem: loaded_mem(old(self)@.mem, rom@),
                ..old(self)@
            }),
    {
        if rom.len() > 3584 {
            return Err(Chip8Error::RomTooLarge);
        }
        let mut k: usize = 0;
        while k < rom.len()
            invariant
                old(self).wf(),
                rom@.len() <= 3584,
                k <= rom@.len(),
                self@.mem.len() == 4096,
                forall|a: int|
                    0 <= a < 4096 ==> self@.mem[a] == (if 0x200 <= a < 0x200 + k {
                        rom@[a - 0x200]
                    } else {
                        old(self)@.mem[a]
                    }),
                self@ == (State { mem: self@.mem, ..old(self)@ }),
            decreases rom@.len() - k,
        {
            self.memory.set(0x200 + k, rom[k]);
            k += 1;
        }
        proof {
            assert(self@ =~= (State { mem: loaded_mem(old(self)@.mem, rom@), ..old(self)@ }));
        }
        Ok(())
    }

    /// Record one key going down or up. Key numbers above 0xF are ignored.
    pub fn set_key(&mut self, key: u8, pressed: bool)
        requires
            old(self).wf(),
        ensures
            final(self).wf(),
            key < 16 ==> final(self)@ == (State {
                keys: old(self)@.keys.update(key as int, pressed),
                ..old(self)@
            }),
            key >= 16 ==> final(self)@ == old(self)@,
    {
        if key < 16 {
            self.keypad.set(key as usize, pressed);
        }
    }

    /// Move both timers one step toward zero, for hosts that drive the
    /// 60 Hz timer cadence separately from the instruction rate.
    pub fn tick_timers(&mut self)
        ensures
            final(self)@ == ticked(old(self)@),
    {
        if self.delay_timer > 0 {
            self.delay_timer = self.delay_timer - 1;
        }
        if self.sound_timer > 0 {
            self.sound_timer = self.sound_timer - 1;
        }
        proof {
            assert(self@ =~= ticked(old(self)@));
        }
    }

    /// The most recently fetched instruction.
    pub fn last_opcode(&self) -> (r: u16)
        ensures
            r == self@.op,
    {
        self.op_code
    }

    /// The delay timer's current value.
    pub fn get_delay_timer(&self) -> (r: u8)
        ensures
            r == self@.delay,
    {
        self.delay_timer
    }

    /// The sound timer's current value; nonzero means a tone should play.
    pub fn get_sound_timer(&self) -> (r: u8)
        ensures
            r == self@.sound,
    {
        self.sound_timer
    }

    /// `byte_number` bytes of memory starting at `start_address`.
    pub fn dump_rom(&self, start_address: usize, byte_number: usize) -> (rom: Vec<u8>)
        requires
            self.wf(),
            start_address + byte_number <= 4096,
        ensures
            rom@ == self@.mem.subrange(start_address as int, start_address + byte_number),
    {
        let mut rom: Vec<u8> = Vec::new();
        let mut k: usize = 0;
        while k < byte_number
            invariant
                self.wf(),
                start_address + byte_number <= 4096,
                k <= byte_number,
                rom@ == self@.mem.subrange(start_address as int, start_address + k),
            decreases byte_number - k,
        {
            rom.push(self.memory[start_address + k]);
            proof {
                assert(rom@ =~= self@.mem.subrange(start_address as int, start_address + k + 1));
            }
            k += 1;
        }
        rom
    }

    /// A copy of the framebuffer with every "on" pixel as all-bits-set,
    /// ready for a renderer.
    pub fn dump_video(&mut self) -> (buf: Vec<u32>)
        ensures
            *final(self) == *old(self),
            buf@.len() == old(self)@.video.len(),
            forall|i: int|
                0 <= i < buf@.len() ==> buf@[i] == (if old(self)@.video[i] {
                    0xFFFFFFFFu32
                } else {
                    0u32
                }),
    {
        let mut buf: Vec<u32> = Vec::new();
        let mut k: usize = 0;
        let pixels = self.video.len();
        while k < pixels
            invariant
                pixels == self@.video.len(),
                k <= pixels,
                buf@.len() == k,
                forall|i: int|
                    0 <= i < k ==> buf@[i] == (if self@.video[i] {
                        0xFFFFFFFFu32
                    } else {
                        0u32
                    }),
            decreases pixels - k,
        {
            buf.push(if self.video[k] {
                0xFFFFFFFF
            } else {
                0
            });
            k += 1;
        }
        buf
    }

    /// Relies on rand::random: one byte from the thread-local generator.
    /// Nothing is promised of the value; every caller must hold for any
    /// byte that comes back.
    #[verifier::external_body]
    pub fn rand_byte(&self) -> u8 {
        rand::random::<u8>()
    }
}

/// The font glyph bytes, in the order of `fontset()`.
fn font_data() -> (v: Vec<u8>)
    ensures
        v@ == fontset(),
{
    let mut v: Vec<u8> = Vec::new();
    v.push(0xF0);
    v.push(0x90);
    v.push(0x90);
    v.push(0x90);
    v.push(0xF0);
    v.push(0x20);
    v.push(0x60);
    v.push(0x20);
    v.push(0x20);
    v.push(0x70);
    v.push(0xF0);
    v.push(0x10);
    v.push(0xF0);
    v.push(0x80);
    v.push(0xF0);
    v.push(0xF0);
    v.push(0x10);
    v.push(0xF0);
    v.push(0x10);
    v.push(0xF0);
    v.push(0x90);
    v.push(0x90);
    v.push(0xF0);
    v.push(0x10);
    v.push(0x10);
    v.push(0xF0);
    v.push(0x80);
    v.push(0xF0);
    v.push(0x10);
    v.push(0xF0);
    v.push(0xF0);
    v.push(0x80);
    v.push(0xF0);
    v.push(0x90);
    v.push(0xF0);
    v.push(0xF0);
    v.push(0x10);
    v.push(0x20);
    v.push(0x40);
    v.push(0x40);
    v.push(0xF0);
    v.push(0x90);
    v.push(0xF0);
    v.push(0x90);
    v.push(0xF0);
    v.push(0xF0);
    v.push(0x90);
    v.push(0xF0);
    v.push(0x10);
    v.push(0xF0);
    v.push(0xF0);
    v.push(0x90);
    v.push(0xF0);
    v.push(0x90);
    v.push(0x90);
    v.push(0xE0);
    v.push(0x90);
    v.push(0xE0);
    v.push(0x90);
    v.push(0xE0);
    v.push(0xF0);
    v.push(0x80);
    v.push(0x80);
    v.push(0x80);
    v.push(0xF0);
    v.push(0xE0);
    v.push(0x90);
    v.push(0x90);
    v.push(0x90);
    v.push(0xE0);
    v.push(0xF0);
    v.push(0x80);
    v.push(0xF0);
    v.push(0x80);
    v.push(0xF0);
    v.push(0xF0);
    v.push(0x80);
    v.push(0xF0);
    v.push(0x80);
    v.push(0x80);
    proof {
        assert(v@ =~= fontset());
    }
    v
}

} // verus!
