//! The opcode handlers. Each one decodes its operands from the most
//! recently fetched instruction and is proved to realise the matching
//! transition function of the model.

use vstd::prelude::*;

use crate::decode::Chip8Error;
use crate::decode::decode_family;
use crate::decode::decode_kk;
use crate::decode::decode_n;
use crate::decode::decode_nnn;
use crate::decode::decode_x;
use crate::decode::decode_y;
use crate::machine::Chip8;
use crate::model::State;
use crate::sprites::covers;
use crate::sprites::covers_before;
use crate::sprites::lemma_covers_all;
use crate::sprites::lemma_covers_hit;
use crate::sprites::lemma_covers_row_end;
use crate::sprites::lemma_covers_skip;
use crate::sprites::lemma_pixel_index_in_range;
use crate::sprites::pixel_index;
use crate::sprites::sprite_pixel_on;
use crate::model::lowest_key_from;
use crate::model::step_00e0;
use crate::model::step_00ee;
use crate::model::step_1nnn;
use crate::model::step_2nnn;
use crate::model::step_3xkk;
use crate::model::step_4xkk;
use crate::model::step_5xy0;
use crate::model::step_6xkk;
use crate::model::step_7xkk;
use crate::model::step_8xy0;
use crate::model::step_8xy1;
use crate::model::step_8xy2;
use crate::model::step_8xy3;
use crate::model::step_8xy4;
use crate::model::step_8xy5;
use crate::model::step_8xy6;
use crate::model::step_8xy7;
use crate::model::step_8xye;
use crate::model::step_9xy0;
use crate::model::step_annn;
use crate::model::step_bnnn;
use crate::model::step_cxkk;
use crate::model::step_dxyn;
use crate::model::step_ex9e;
use crate::model::step_exa1;
use crate::model::step_fx07;
use crate::model::step_fx0a;
use crate::model::step_fx15;
use crate::model::step_fx18;
use crate::model::step_fx1e;
use crate::model::step_fx29;
use crate::model::step_fx33;
use crate::model::step_fx55;
use crate::model::step_fx65;
use crate::model::spec_cycle;
use crate::model::spec_execute;

verus! {

impl Chip8 {
    /// 00E0: clear the framebuffer.
    pub fn OP_00E0(&mut self)
        requires
            old(self).wf(),
        ensures
            final(self).wf(),
            final(self)@ == step_00e0(old(self)@),
    {
        self.video = vec![false; 2048];
        proof {
            assert(self@ =~= step_00e0(old(self)@));
        }
    }

    /// 00EE: return from a subroutine by popping the call stack into the
    /// program counter; underflows on an empty stack.
    pub fn OP_00EE(&mut self) -> (r: Result<(), Chip8Error>)
        requires
            old(self).wf(),
        ensures
            final(self).wf(),
            final(self)@ == step_00ee(old(self)@).0,
            r == step_00ee(old(self)@).1,
    {
        if self.stack_pointer == 0 {
            return Err(Chip8Error::StackUnderflow);
        }
        self.stack_pointer = self.stack_pointer - 1;
        self.program_counter = self.stack[self.stack_pointer as usize];
        Ok(())
    }

    /// 1nnn: jump.
    pub fn OP_1nnn(&mut self)
        requires
            old(self).wf(),
        ensures
            final(self).wf(),
            final(self)@ == step_1nnn(old(self)@),
    {
        self.program_counter = decode_nnn(self.op_code);
    }

    /// 2nnn: call the subroutine at nnn, pushing the already advanced
    /// program counter; overflows on a full stack.
    pub fn OP_2nnn(&mut self) -> (r: Result<(), Chip8Error>)
        requires
            old(self).wf(),
        ensures
            final(self).wf(),
            final(self)@ == step_2nnn(old(self)@).0,
            r == step_2nnn(old(self)@).1,
    {
        if self.stack_pointer >= 16 {
            return Err(Chip8Error::StackOverflow);
        }
        self.stack.set(self.stack_pointer as usize, self.program_counter);
        self.stack_pointer = self.stack_pointer + 1;
        self.program_counter = decode_nnn(self.op_code);
        Ok(())
    }

    /// 3xkk: skip the next instruction when Vx equals kk.
    pub fn OP_3xkk(&mut self)
        requires
            old(self).wf(),
        ensures
            final(self).wf(),
            final(self)@ == step_3xkk(old(self)@),
    {
        let x = decode_x(self.op_code);
        let kk = decode_kk(self.op_code);
        if self.registers[x as usize] == kk {
            self.program_counter = self.program_counter.wrapping_add(2);
        }
    }

    /// 4xkk: skip the next instruction when Vx differs from kk.
    pub fn OP_4xkk(&mut self)
        requires
            old(self).wf(),
        ensures
            final(self).wf(),
            final(self)@ == step_4xkk(old(self)@),
    {
        let x = decode_x(self.op_code);
        let kk = decode_kk(self.op_code);
        if self.registers[x as usize] != kk {
            self.program_counter = self.program_counter.wrapping_add(2);
        }
    }

    /// 5xy0: skip the next instruction when Vx equals Vy.
    pub fn OP_5xy0(&mut self)
        requires
            old(self).wf(),
        ensures
            final(self).wf(),
            final(self)@ == step_5xy0(old(self)@),
    {
        let x = decode_x(self.op_code);
        let y = decode_y(self.op_code);
        if self.registers[x as usize] == self.registers[y as usize] {
            self.program_counter = self.program_counter.wrapping_add(2);
        }
    }

    /// 6xkk: Vx = kk.
    pub fn OP_6xkk(&mut self)
        requires
            old(self).wf(),
        ensures
            final(self).wf(),
            final(self)@ == step_6xkk(old(self)@),
    {
        let x = decode_x(self.op_code);
        let kk = decode_kk(self.op_code);
        self.registers.set(x as usize, kk);
    }

    /// 7xkk: Vx = Vx + kk, wrapping modulo 256; no flag is touched.
    pub fn OP_7xkk(&mut self)
        requires
            old(self).wf(),
        ensures
            final(self).wf(),
            final(self)@ == step_7xkk(old(self)@),
    {
        let x = decode_x(self.op_code);
        let kk = decode_kk(self.op_code);
        let sum: u16 = self.registers[x as usize] as u16 + kk as u16;
        self.registers.set(x as usize, (sum % 256) as u8);
    }

    /// 8xy0: Vx = Vy.
    pub fn OP_8xy0(&mut self)
        requires
            old(self).wf(),
        ensures
            final(self).wf(),
            final(self)@ == step_8xy0(old(self)@),
    {
        let x = decode_x(self.op_code);
        let y = decode_y(self.op_code);
        let vy = self.registers[y as usize];
        self.registers.set(x as usize, vy);
    }

    /// 8xy1: Vx = Vx | Vy.
    pub fn OP_8xy1(&mut self)
        requires
            old(self).wf(),
        ensures
            final(self).wf(),
            final(self)@ == step_8xy1(old(self)@),
    {
        let x = decode_x(self.op_code);
        let y = decode_y(self.op_code);
        let v = self.registers[x as usize] | self.registers[y as usize];
        self.registers.set(x as usize, v);
    }

    /// 8xy2: Vx = Vx & Vy.
    pub fn OP_8xy2(&mut self)
        requires
            old(self).wf(),
        ensures
            final(self).wf(),
            final(self)@ == step_8xy2(old(self)@),
    {
        let x = decode_x(self.op_code);
        let y = decode_y(self.op_code);
        let v = self.registers[x as usize] & self.registers[y as usize];
        self.registers.set(x as usize, v);
    }

    /// 8xy3: Vx = Vx ^ Vy.
    pub fn OP_8xy3(&mut self)
        requires
            old(self).wf(),
        ensures
            final(self).wf(),
            final(self)@ == step_8xy3(old(self)@),
    {
        let x = decode_x(self.op_code);
        let y = decode_y(self.op_code);
        let v = self.registers[x as usize] ^ self.registers[y as usize];
        self.registers.set(x as usize, v);
    }

    /// 8xy4: Vx = Vx + Vy modulo 256; VF = 1 exactly when the sum
    /// exceeded 255.
    pub fn OP_8xy4(&mut self)
        requires
            old(self).wf(),
        ensures
            final(self).wf(),
            final(self)@ == step_8xy4(old(self)@),
    {
        let x = decode_x(self.op_code);
        let y = decode_y(self.op_code);
        let sum: u16 = self.registers[x as usize] as u16 + self.registers[y as usize] as u16;
        self.registers.set(15, if sum > 255 {
            1
        } else {
            0
        });
        self.registers.set(x as usize, (sum % 256) as u8);
    }

    /// 8xy5: Vx = Vx - Vy, wrapping modulo 256; VF = 1 exactly when no
    /// borrow was needed (Vx > Vy).
    pub fn OP_8xy5(&mut self)
        requires
            old(self).wf(),
        ensures
            final(self).wf(),
            final(self)@ == step_8xy5(old(self)@),
    {
        let x = decode_x(self.op_code);
        let y = decode_y(self.op_code);
        let vx = self.registers[x as usize];
        let vy = self.registers[y as usize];
        self.registers.set(15, if vx > vy {
            1
        } else {
            0
        });
        self.registers.set(x as usize, ((vx as u16 + 256 - vy as u16) % 256) as u8);
    }

    /// 8xy6: VF = Vx's lowest bit, then Vx = Vx >> 1.
    pub fn OP_8xy6(&mut self)
        requires
            old(self).wf(),
        ensures
            final(self).wf(),
            final(self)@ == step_8xy6(old(self)@),
    {
        let x = decode_x(self.op_code);
        let vx = self.registers[x as usize];
        self.registers.set(15, vx % 2);
        self.registers.set(x as usize, vx / 2);
    }

    /// 8xy7: Vx = Vy - Vx, wrapping modulo 256; VF = 1 exactly when no
    /// borrow was needed (Vy > Vx).
    pub fn OP_8xy7(&mut self)
        requires
            old(self).wf(),
        ensures
            final(self).wf(),
            final(self)@ == step_8xy7(old(self)@),
    {
        let x = decode_x(self.op_code);
        let y = decode_y(self.op_code);
        let vx = self.registers[x as usize];
        let vy = self.registers[y as usize];
        self.registers.set(15, if vy > vx {
            1
        } else {
            0
        });
        self.registers.set(x as usize, ((vy as u16 + 256 - vx as u16) % 256) as u8);
    }

    /// 8xyE: VF = Vx's highest bit, then Vx = Vx << 1 modulo 256.
    pub fn OP_8xyE(&mut self)
        requires
            old(self).wf(),
        ensures
            final(self).wf(),
            final(self)@ == step_8xye(old(self)@),
    {
        let x = decode_x(self.op_code);
        let vx = self.registers[x as usize];
        self.registers.set(15, if vx >= 128 {
            1
        } else {
            0
        });
        self.registers.set(x as usize, ((vx as u16 * 2) % 256) as u8);
    }

    /// 9xy0: skip the next instruction when Vx differs from Vy.
    pub fn OP_9xy0(&mut self)
        requires
            old(self).wf(),
        ensures
            final(self).wf(),
            final(self)@ == step_9xy0(old(self)@),
    {
        let x = decode_x(self.op_code);
        let y = decode_y(self.op_code);
        if self.registers[x as usize] != self.registers[y as usize] {
            self.program_counter = self.program_counter.wrapping_add(2);
        }
    }

    /// Annn: I = nnn.
    pub fn OP_Annn(&mut self)
        requires
            old(self).wf(),
        ensures
            final(self).wf(),
            final(self)@ == step_annn(old(self)@),
    {
        self.index_register = decode_nnn(self.op_code);
    }

    /// Bnnn: jump to V0 + nnn. The next fetch rejects a target outside
    /// the address space.
    pub fn OP_Bnnn(&mut self)
        requires
            old(self).wf(),
        ensures
            final(self).wf(),
            final(self)@ == step_bnnn(old(self)@),
    {
        let nnn = decode_nnn(self.op_code);
        self.program_counter = self.registers[0] as u16 + nnn;
    }

    /// Cxkk: Vx = rnd & kk, for whichever byte the random source handed
    /// over.
    pub fn OP_Cxkk(&mut self, rnd: u8)
        requires
            old(self).wf(),
        ensures
            final(self).wf(),
            final(self)@ == step_cxkk(old(self)@, rnd),
    {
        let x = decode_x(self.op_code);
        let kk = decode_kk(self.op_code);
        self.registers.set(x as usize, rnd & kk);
    }

    /// Dxyn: XOR-draw the n-byte sprite at memory[I..] at screen position
    /// (Vx mod 64, Vy mod 32), each pixel wrapping around its own axis;
    /// VF = 1 exactly when a toggle turned an on pixel off. A sprite row
    /// outside the address space is rejected before anything is drawn.
    pub fn OP_Dxyn(&mut self) -> (r: Result<(), Chip8Error>)
        requires
            old(self).wf(),
        ensures
            final(self).wf(),
            final(self)@ == step_dxyn(old(self)@).0,
            r == step_dxyn(old(self)@).1,
    {
        let x = decode_x(self.op_code);
        let y = decode_y(self.op_code);
        let n = decode_n(self.op_code) as usize;
        let i = self.index_register as usize;
        if i + n > 4096 {
            return Err(Chip8Error::MemoryOutOfBounds);
        }
        let x0 = (self.registers[x as usize] % 64) as usize;
        let y0 = (self.registers[y as usize] % 32) as usize;
        let ghost mem0 = old(self)@.mem;
        let ghost vid0 = old(self)@.video;
        let mut collision = false;
        let mut row: usize = 0;
        while row < n
            invariant
                old(self).wf(),
                n == crate::decode::op_n(old(self)@.op),
                n < 16,
                i == old(self)@.index,
                i + n <= 4096,
                mem0 == old(self)@.mem,
                vid0 == old(self)@.video,
                x0 == old(self)@.regs[crate::decode::op_x(old(self)@.op) as int] % 64,
                y0 == old(self)@.regs[crate::decode::op_y(old(self)@.op) as int] % 32,
                x0 < 64,
                y0 < 32,
                row <= n,
                self@.video.len() == 2048,
                self@ == (State { video: self@.video, ..old(self)@ }),
                forall|idx: int|
                    0 <= idx < 2048 ==> self@.video[idx] == (vid0[idx] != covers_before(
                        mem0,
                        i as int,
                        n as int,
                        x0 as int,
                        y0 as int,
                        row as int,
                        0,
                        idx,
                    )),
                collision == exists|idx: int|
                    0 <= idx < 2048 && vid0[idx] && covers_before(
                        mem0,
                        i as int,
                        n as int,
                        x0 as int,
                        y0 as int,
                        row as int,
                        0,
                        idx,
                    ),
            decreases n - row,
        {
            let sprite_byte = self.memory[i + row];
            let mut col: usize = 0;
            while col < 8
                invariant
                    old(self).wf(),
                    n == crate::decode::op_n(old(self)@.op),
                    n < 16,
                    i == old(self)@.index,
                    i + n <= 4096,
                    mem0 == old(self)@.mem,
                    vid0 == old(self)@.video,
                    x0 == old(self)@.regs[crate::decode::op_x(old(self)@.op) as int] % 64,
                    y0 == old(self)@.regs[crate::decode::op_y(old(self)@.op) as int] % 32,
                    x0 < 64,
                    y0 < 32,
                    row < n,
                    col <= 8,
                    sprite_byte == mem0[i + row],
                    self@.video.len() == 2048,
                    self@ == (State { video: self@.video, ..old(self)@ }),
                    forall|idx: int|
                        0 <= idx < 2048 ==> self@.video[idx] == (vid0[idx] != covers_before(
                            mem0,
                            i as int,
                            n as int,
                            x0 as int,
                            y0 as int,
                            row as int,
                            col as int,
                            idx,
                        )),
                    collision == exists|idx: int|
                        0 <= idx < 2048 && vid0[idx] && covers_before(
                            mem0,
                            i as int,
                            n as int,
                            x0 as int,
                            y0 as int,
                            row as int,
                            col as int,
                            idx,
                        ),
                decreases 8 - col,
            {
                let sh: u8 = (7 - col) as u8;
                let ghost gi = i as int;
                let ghost gn = n as int;
                let ghost gx0 = x0 as int;
                let ghost gy0 = y0 as int;
                let ghost grow = row as int;
                let ghost gcol = col as int;
                if (sprite_byte >> sh) & 1 == 1 {
                    let px = (x0 + col) % 64;
                    let py = (y0 + row) % 32;
                    let idx = py * 64 + px;
                    proof {
                        assert(sprite_pixel_on(mem0[gi + grow], gcol));
                        lemma_pixel_index_in_range(gx0, gy0, grow, gcol);
                        assert(idx == pixel_index(gx0, gy0, grow, gcol));
                        lemma_covers_hit(mem0, gi, gn, gx0, gy0, grow, gcol);
                    }
                    let cur = self.video[idx];
                    if cur {
                        collision = true;
                    }
                    self.video.set(idx, !cur);
                    proof {
                        let gidx = pixel_index(gx0, gy0, grow, gcol);
                        assert forall|j: int| 0 <= j < 2048 implies self@.video[j] == (vid0[j]
                            != covers_before(
                            mem0,
                            gi,
                            gn,
                            gx0,
                            gy0,
                            grow,
                            gcol + 1,
                            j,
                        )) by {
                            if j != gidx {
                                assert(covers_before(mem0, gi, gn, gx0, gy0, grow, gcol + 1, j)
                                    == covers_before(mem0, gi, gn, gx0, gy0, grow, gcol, j));
                            }
                        }
                        assert(collision == exists|j: int|
                            0 <= j < 2048 && vid0[j] && covers_before(
                                mem0,
                                gi,
                                gn,
                                gx0,
                                gy0,
                                grow,
                                gcol + 1,
                                j,
                            )) by {
                            if collision {
                                if cur {
                                    assert(vid0[gidx] && covers_before(
                                        mem0,
                                        gi,
                                        gn,
                                        gx0,
                                        gy0,
                                        grow,
                                        gcol + 1,
                                        gidx,
                                    ));
                                } else {
                                    let w = choose|j: int|
                                        0 <= j < 2048 && vid0[j] && covers_before(
                                            mem0,
                                            gi,
                                            gn,
                                            gx0,
                                            gy0,
                                            grow,
                                            gcol,
                                            j,
                                        );
                                    assert(w != gidx);
                                    assert(vid0[w] && covers_before(
                                        mem0,
                                        gi,
                                        gn,
                                        gx0,
                                        gy0,
                                        grow,
                                        gcol + 1,
                                        w,
                                    ));
                                }
                            } else {
                                if exists|j: int|
                                    0 <= j < 2048 && vid0[j] && covers_before(
                                        mem0,
                                        gi,
                                        gn,
                                        gx0,
                                        gy0,
                                        grow,
                                        gcol + 1,
                                        j,
                                    ) {
                                    let w = choose|j: int|
                                        0 <= j < 2048 && vid0[j] && covers_before(
                                            mem0,
                                            gi,
                                            gn,
                                            gx0,
                                            gy0,
                                            grow,
                                            gcol + 1,
                                            j,
                                        );
                                    if w == gidx {
                                        assert(cur == vid0[gidx]);
                                        assert(false);
                                    } else {
                                        assert(covers_before(
                                            mem0,
                                            gi,
                                            gn,
                                            gx0,
                                            gy0,
                                            grow,
                                            gcol,
                                            w,
                                        ));
                                        assert(false);
                                    }
                                }
                            }
                        }
                    }
                } else {
                    proof {
                        assert(!sprite_pixel_on(mem0[gi + grow], gcol));
                        assert forall|j: int| 0 <= j < 2048 implies self@.video[j] == (vid0[j]
                            != covers_before(
                            mem0,
                            gi,
                            gn,
                            gx0,
                            gy0,
                            grow,
                            gcol + 1,
                            j,
                        )) by {
                            lemma_covers_skip(mem0, gi, gn, gx0, gy0, grow, gcol, j);
                        }
                        assert(collision == exists|j: int|
                            0 <= j < 2048 && vid0[j] && covers_before(
                                mem0,
                                gi,
                                gn,
                                gx0,
                                gy0,
                                grow,
                                gcol + 1,
                                j,
                            )) by {
                            if collision {
                                let w = choose|j: int|
                                    0 <= j < 2048 && vid0[j] && covers_before(
                                        mem0,
                                        gi,
                                        gn,
                                        gx0,
                                        gy0,
                                        grow,
                                        gcol,
                                        j,
                                    );
                                lemma_covers_skip(mem0, gi, gn, gx0, gy0, grow, gcol, w);
                                assert(vid0[w] && covers_before(
                                    mem0,
                                    gi,
                                    gn,
                                    gx0,
                                    gy0,
                                    grow,
                                    gcol + 1,
                                    w,
                                ));
                            } else {
                                if exists|j: int|
                                    0 <= j < 2048 && vid0[j] && covers_before(
                                        mem0,
                                        gi,
                                        gn,
                                        gx0,
                                        gy0,
                                        grow,
                                        gcol + 1,
                                        j,
                                    ) {
                                    let w = choose|j: int|
                                        0 <= j < 2048 && vid0[j] && covers_before(
                                            mem0,
                                            gi,
                                            gn,
                                            gx0,
                                            gy0,
                                            grow,
                                            gcol + 1,
                                            j,
                                        );
                                    lemma_covers_skip(mem0, gi, gn, gx0, gy0, grow, gcol, w);
                                    assert(false);
                                }
                            }
                        }
                    }
                }
                col += 1;
            }
            proof {
                assert forall|j: int| 0 <= j < 2048 implies self@.video[j] == (vid0[j]
                    != covers_before(
                    mem0,
                    i as int,
                    n as int,
                    x0 as int,
                    y0 as int,
                    row + 1,
                    0,
                    j,
                )) by {
                    lemma_covers_row_end(mem0, i as int, n as int, x0 as int, y0 as int, row as int, j);
                }
                assert(collision == exists|j: int|
                    0 <= j < 2048 && vid0[j] && covers_before(
                        mem0,
                        i as int,
                        n as int,
                        x0 as int,
                        y0 as int,
                        row + 1,
                        0,
                        j,
                    )) by {
                    if collision {
                        let w = choose|j: int|
                            0 <= j < 2048 && vid0[j] && covers_before(
                                mem0,
                                i as int,
                                n as int,
                                x0 as int,
                                y0 as int,
                                row as int,
                                8,
                                j,
                            );
                        lemma_covers_row_end(
                            mem0,
                            i as int,
                            n as int,
                            x0 as int,
                            y0 as int,
                            row as int,
                            w,
                        );
                        assert(vid0[w] && covers_before(
                            mem0,
                            i as int,
                            n as int,
                            x0 as int,
                            y0 as int,
                            row + 1,
                            0,
                            w,
                        ));
                    } else {
                        if exists|j: int|
                            0 <= j < 2048 && vid0[j] && covers_before(
                                mem0,
                                i as int,
                                n as int,
                                x0 as int,
                                y0 as int,
                                row + 1,
                                0,
                                j,
                            ) {
                            let w = choose|j: int|
                                0 <= j < 2048 && vid0[j] && covers_before(
                                    mem0,
                                    i as int,
                                    n as int,
                                    x0 as int,
                                    y0 as int,
                                    row + 1,
                                    0,
                                    j,
                                );
                            lemma_covers_row_end(
                                mem0,
                                i as int,
                                n as int,
                                x0 as int,
                                y0 as int,
                                row as int,
                                w,
                            );
                            assert(false);
                        }
                    }
                }
            }
            row += 1;
        }
        self.registers.set(15, if collision {
            1
        } else {
            0
        });
        proof {
            let gi = i as int;
            let gn = n as int;
            let gx0 = x0 as int;
            let gy0 = y0 as int;
            assert forall|j: int| 0 <= j < 2048 implies self@.video[j] == (vid0[j] != covers(
                mem0,
                gi,
                gn,
                gx0,
                gy0,
                j,
            )) by {
                lemma_covers_all(mem0, gi, gn, gx0, gy0, j);
            }
            assert(self@.video =~= crate::sprites::drawn(vid0, mem0, gi, gn, gx0, gy0));
            assert(collision == crate::sprites::collides(vid0, mem0, gi, gn, gx0, gy0)) by {
                if collision {
                    let w = choose|j: int|
                        0 <= j < 2048 && vid0[j] && covers_before(mem0, gi, gn, gx0, gy0, gn, 0, j);
                    lemma_covers_all(mem0, gi, gn, gx0, gy0, w);
                    assert(vid0[w] && covers(mem0, gi, gn, gx0, gy0, w));
                } else {
                    if crate::sprites::collides(vid0, mem0, gi, gn, gx0, gy0) {
                        let w = choose|j: int|
                            0 <= j < vid0.len() && vid0[j] && covers(mem0, gi, gn, gx0, gy0, j);
                        lemma_covers_all(mem0, gi, gn, gx0, gy0, w);
                        assert(false);
                    }
                }
            }
            assert(self@ =~= step_dxyn(old(self)@).0);
        }
        Ok(())
    }

    /// Ex9E: skip the next instruction when the key numbered by Vx is
    /// pressed; a Vx beyond the 16 keys is out of range.
    pub fn OP_Ex9E(&mut self) -> (r: Result<(), Chip8Error>)
        requires
            old(self).wf(),
        ensures
            final(self).wf(),
            final(self)@ == step_ex9e(old(self)@).0,
            r == step_ex9e(old(self)@).1,
    {
        let x = decode_x(self.op_code);
        let key = self.registers[x as usize];
        if key >= 16 {
            return Err(Chip8Error::MemoryOutOfBounds);
        }
        if self.keypad[key as usize] {
            self.program_counter = self.program_counter.wrapping_add(2);
        }
        Ok(())
    }

    /// ExA1: skip the next instruction when the key numbered by Vx is not
    /// pressed; a Vx beyond the 16 keys is out of range.
    pub fn OP_ExA1(&mut self) -> (r: Result<(), Chip8Error>)
        requires
            old(self).wf(),
        ensures
            final(self).wf(),
            final(self)@ == step_exa1(old(self)@).0,
            r == step_exa1(old(self)@).1,
    {
        let x = decode_x(self.op_code);
        let key = self.registers[x as usize];
        if key >= 16 {
            return Err(Chip8Error::MemoryOutOfBounds);
        }
        if !self.keypad[key as usize] {
            self.program_counter = self.program_counter.wrapping_add(2);
        }
        Ok(())
    }

    /// Fx07: Vx = delay timer.
    pub fn OP_Fx07(&mut self)
        requires
            old(self).wf(),
        ensures
            final(self).wf(),
            final(self)@ == step_fx07(old(self)@),
    {
        let x = decode_x(self.op_code);
        let delay = self.delay_timer;
        self.registers.set(x as usize, delay);
    }

    /// Fx0A: wait for a key press. With a key down, Vx takes the lowest
    /// pressed index; with none, the program counter rolls back two so
    /// this instruction re-executes on the next cycle.
    pub fn OP_Fx0A(&mut self)
        requires
            old(self).wf(),
        ensures
            final(self).wf(),
            final(self)@ == step_fx0a(old(self)@),
    {
        let x = decode_x(self.op_code);
        let mut k: usize = 0;
        while k < 16
            invariant
                old(self).wf(),
                *self == *old(self),
                x == crate::decode::op_x(old(self)@.op),
                x < 16,
                k <= 16,
                lowest_key_from(old(self)@.keys, 0) == lowest_key_from(old(self)@.keys, k as int),
            decreases 16 - k,
        {
            if self.keypad[k] {
                self.registers.set(x as usize, k as u8);
                proof {
                    assert(self@ =~= step_fx0a(old(self)@));
                }
                return ;
            }
            k += 1;
        }
        self.program_counter = self.program_counter.wrapping_sub(2);
        proof {
            assert(self@ =~= step_fx0a(old(self)@));
        }
    }

    /// Fx15: delay timer = Vx.
    pub fn OP_Fx15(&mut self)
        requires
            old(self).wf(),
        ensures
            final(self).wf(),
            final(self)@ == step_fx15(old(self)@),
    {
        let x = decode_x(self.op_code);
        self.delay_timer = self.registers[x as usize];
    }

    /// Fx18: sound timer = Vx.
    pub fn OP_Fx18(&mut self)
        requires
            old(self).wf(),
        ensures
            final(self).wf(),
            final(self)@ == step_fx18(old(self)@),
    {
        let x = decode_x(self.op_code);
        self.sound_timer = self.registers[x as usize];
    }

    /// Fx1E: I = I + Vx; a sum outside the address space is rejected and
    /// leaves I unchanged.
    pub fn OP_Fx1E(&mut self) -> (r: Result<(), Chip8Error>)
        requires
            old(self).wf(),
        ensures
            final(self).wf(),
            final(self)@ == step_fx1e(old(self)@).0,
            r == step_fx1e(old(self)@).1,
    {
        let x = decode_x(self.op_code);
        let sum: u16 = self.index_register + self.registers[x as usize] as u16;
        if sum >= 4096 {
            return Err(Chip8Error::MemoryOutOfBounds);
        }
        self.index_register = sum;
        Ok(())
    }

    /// Fx29: I = the address of the built-in glyph for digit Vx.
    pub fn OP_Fx29(&mut self)
        requires
            old(self).wf(),
        ensures
            final(self).wf(),
            final(self)@ == step_fx29(old(self)@),
    {
        let x = decode_x(self.op_code);
        let digit = self.registers[x as usize];
        self.index_register = 0x50 + 5 * (digit as u16);
    }

    /// Fx33: the decimal digits of Vx stored at I, I+1 and I+2, highest
    /// first.
    pub fn OP_Fx33(&mut self) -> (r: Result<(), Chip8Error>)
        requires
            old(self).wf(),
        ensures
            final(self).wf(),
            final(self)@ == step_fx33(old(self)@).0,
            r == step_fx33(old(self)@).1,
    {
        let x = decode_x(self.op_code);
        let vx = self.registers[x as usize];
        if self.index_register >= 4094 {
            return Err(Chip8Error::MemoryOutOfBounds);
        }
        let i = self.index_register as usize;
        self.memory.set(i, vx / 100);
        self.memory.set(i + 1, (vx / 10) % 10);
        self.memory.set(i + 2, vx % 10);
        Ok(())
    }

    /// Fx55: registers V0 through Vx inclusive copied into memory at I.
    pub fn OP_Fx55(&mut self) -> (r: Result<(), Chip8Error>)
        requires
            old(self).wf(),
        ensures
            final(self).wf(),
            final(self)@ == step_fx55(old(self)@).0,
            r == step_fx55(old(self)@).1,
    {
        let x = decode_x(self.op_code) as usize;
        let i = self.index_register as usize;
        if i + x >= 4096 {
            return Err(Chip8Error::MemoryOutOfBounds);
        }
        let mut j: usize = 0;
        while j <= x
            invariant
                old(self).wf(),
                x == crate::decode::op_x(old(self)@.op),
                x < 16,
                i == old(self)@.index,
                i + x < 4096,
                j <= x + 1,
                self@.mem.len() == 4096,
                forall|a: int|
                    0 <= a < 4096 ==> self@.mem[a] == (if i <= a < i + j {
                        old(self)@.regs[a - i]
                    } else {
                        old(self)@.mem[a]
                    }),
                self@ == (State { mem: self@.mem, ..old(self)@ }),
            decreases x + 1 - j,
        {
            let v = self.registers[j];
            self.memory.set(i + j, v);
            j += 1;
        }
        proof {
            assert(self@ =~= step_fx55(old(self)@).0);
        }
        Ok(())
    }

    /// Fx65: registers V0 through Vx inclusive loaded from memory at I.
    pub fn OP_Fx65(&mut self) -> (r: Result<(), Chip8Error>)
        requires
            old(self).wf(),
        ensures
            final(self).wf(),
            final(self)@ == step_fx65(old(self)@).0,
            r == step_fx65(old(self)@).1,
    {
        let x = decode_x(self.op_code) as usize;
        let i = self.index_register as usize;
        if i + x >= 4096 {
            return Err(Chip8Error::MemoryOutOfBounds);
        }
        let mut j: usize = 0;
        while j <= x
            invariant
                old(self).wf(),
                x == crate::decode::op_x(old(self)@.op),
                x < 16,
                i == old(self)@.index,
                i + x < 4096,
                j <= x + 1,
                self@.regs.len() == 16,
                forall|b: int|
                    0 <= b < 16 ==> self@.regs[b] == (if 0 <= b < j {
                        old(self)@.mem[i + b]
                    } else {
                        old(self)@.regs[b]
                    }),
                self@ == (State { regs: self@.regs, ..old(self)@ }),
            decreases x + 1 - j,
        {
            let v = self.memory[i + j];
            self.registers.set(j, v);
            j += 1;
        }
        proof {
            assert(self@ =~= step_fx65(old(self)@).0);
        }
        Ok(())
    }

    /// Decode the fetched opcode and run its handler: the primary dispatch
    /// on the top nibble, with the 0, 8, E and F families dispatched again
    /// on their low nibble or low byte. An unmapped pattern reports
    /// InvalidOpcode and changes nothing.
    fn execute(&mut self, rnd: u8) -> (r: Result<(), Chip8Error>)
        requires
            old(self).wf(),
        ensures
            final(self).wf(),
            final(self)@ == spec_execute(old(self)@, rnd).0,
            r == spec_execute(old(self)@, rnd).1,
    {
        let fam = decode_family(self.op_code);
        if fam == 0x0 {
            let low = decode_kk(self.op_code);
            if low == 0xE0 {
                self.OP_00E0();
                Ok(())
            } else if low == 0xEE {
                self.OP_00EE()
            } else {
                Err(Chip8Error::InvalidOpcode)
            }
        } else if fam == 0x1 {
            self.OP_1nnn();
            Ok(())
        } else if fam == 0x2 {
            self.OP_2nnn()
        } else if fam == 0x3 {
            self.OP_3xkk();
            Ok(())
        } else if fam == 0x4 {
            self.OP_4xkk();
            Ok(())
        } else if fam == 0x5 {
            if decode_n(self.op_code) == 0x0 {
                self.OP_5xy0();
                Ok(())
            } else {
                Err(Chip8Error::InvalidOpcode)
            }
        } else if fam == 0x6 {
            self.OP_6xkk();
            Ok(())
        } else if fam == 0x7 {
            self.OP_7xkk();
            Ok(())
        } else if fam == 0x8 {
            let low = decode_n(self.op_code);
            if low == 0x0 {
                self.OP_8xy0();
                Ok(())
            } else if low == 0x1 {
                self.OP_8xy1();
                Ok(())
            } else if low == 0x2 {
                self.OP_8xy2();
                Ok(())
            } else if low == 0x3 {
                self.OP_8xy3();
                Ok(())
            } else if low == 0x4 {
                self.OP_8xy4();
                Ok(())
            } else if low == 0x5 {
                self.OP_8xy5();
                Ok(())
            } else if low == 0x6 {
                self.OP_8xy6();
                Ok(())
            } else if low == 0x7 {
                self.OP_8xy7();
                Ok(())
            } else if low == 0xE {
                self.OP_8xyE();
                Ok(())
            } else {
                Err(Chip8Error::InvalidOpcode)
            }
        } else if fam == 0x9 {
            if decode_n(self.op_code) == 0x0 {
                self.OP_9xy0();
                Ok(())
            } else {
                Err(Chip8Error::InvalidOpcode)
            }
        } else if fam == 0xA {
            self.OP_Annn();
            Ok(())
        } else if fam == 0xB {
            self.OP_Bnnn();
            Ok(())
        } else if fam == 0xC {
            self.OP_Cxkk(rnd);
            Ok(())
        } else if fam == 0xD {
            self.OP_Dxyn()
        } else if fam == 0xE {
            let low = decode_kk(self.op_code);
            if low == 0x9E {
                self.OP_Ex9E()
            } else if low == 0xA1 {
                self.OP_ExA1()
            } else {
                Err(Chip8Error::InvalidOpcode)
            }
        } else {
            let low = decode_kk(self.op_code);
            if low == 0x07 {
                self.OP_Fx07();
                Ok(())
            } else if low == 0x0A {
                self.OP_Fx0A();
                Ok(())
            } else if low == 0x15 {
                self.OP_Fx15();
                Ok(())
            } else if low == 0x18 {
                self.OP_Fx18();
                Ok(())
            } else if low == 0x1E {
                self.OP_Fx1E()
            } else if low == 0x29 {
                self.OP_Fx29();
                Ok(())
            } else if low == 0x33 {
                self.OP_Fx33()
            } else if low == 0x55 {
                self.OP_Fx55()
            } else {
                // low byte 0x65 or an unmapped pattern
                if low == 0x65 {
                    self.OP_Fx65()
                } else {
                    Err(Chip8Error::InvalidOpcode)
                }
            }
        }
    }

    /// One fetch-decode-execute cycle with the random byte supplied by
    /// the caller, for reproducible runs: fetch big-endian at the program
    /// counter (rejected when the counter has left the address space),
    /// advance the counter by two before executing, execute, and on
    /// success move both timers one step.
    pub fn cycle_with_random(&mut self, rnd: u8) -> (r: Result<(), Chip8Error>)
        requires
            old(self).wf(),
        ensures
            final(self).wf(),
            final(self)@ == spec_cycle(old(self)@, rnd).0,
            r == spec_cycle(old(self)@, rnd).1,
    {
        if self.program_counter >= 4095 {
            return Err(Chip8Error::MemoryOutOfBounds);
        }
        let pc = self.program_counter as usize;
        let hi = self.memory[pc];
        let lo = self.memory[pc + 1];
        self.op_code = (hi as u16) * 256 + (lo as u16);
        self.program_counter = self.program_counter + 2;
        let r = self.execute(rnd);
        if r.is_ok() {
            if self.delay_timer > 0 {
                self.delay_timer = self.delay_timer - 1;
            }
            if self.sound_timer > 0 {
                self.sound_timer = self.sound_timer - 1;
            }
            proof {
                assert(self@ =~= spec_cycle(old(self)@, rnd).0);
            }
        }
        r
    }

    /// One fetch-decode-execute cycle, drawing the byte for Cxkk from the
    /// machine's random source: some such byte governs the outcome.
    pub fn cycle(&mut self) -> (r: Result<(), Chip8Error>)
        requires
            old(self).wf(),
        ensures
            final(self).wf(),
            exists|rnd: u8|
                final(self)@ == spec_cycle(old(self)@, rnd).0 && r == spec_cycle(
                    old(self)@,
                    rnd,
                ).1,
    {
        let rnd = self.rand_byte();
        let r = self.cycle_with_random(rnd);
        proof {
            assert(self@ == spec_cycle(old(self)@, rnd).0 && r == spec_cycle(old(self)@, rnd).1);
        }
        r
    }
}

} // verus!
