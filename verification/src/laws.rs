//! Laws of the instruction set that relate several transitions, proved
//! once and for all states.

use vstd::prelude::*;

use crate::decode::Chip8Error;
use crate::decode::lemma_decode_bounds;
use crate::decode::op_family;
use crate::decode::op_kk;
use crate::decode::op_n;
use crate::decode::op_nnn;
use crate::decode::op_x;
use crate::decode::op_y;
use crate::model::State;
use crate::model::fetched;
use crate::model::spec_cycle;
use crate::model::step_00e0;
use crate::model::step_2nnn;
use crate::model::step_8xy4;
use crate::model::step_8xy5;
use crate::model::step_8xy7;
use crate::model::step_dxyn;
use crate::model::step_fx55;
use crate::model::step_fx65;
use crate::model::wf;
use crate::sprites::covers;

verus! {

/// A cycle with a fetchable program counter reads its opcode big-endian
/// from the two bytes at that counter, whatever else happens.
pub proof fn lemma_fetch_from_pc(s: State, rnd: u8)
    requires
        wf(s),
        s.pc < 4095,
    ensures
        spec_cycle(s, rnd).0.op == s.mem[s.pc as int] * 256 + s.mem[s.pc as int + 1],
{
}

/// A cycle is deterministic unless it executes Cxkk: for any other
/// fetched opcode the random byte plays no part, so the two bytes give
/// the same next state and the same outcome.
pub proof fn lemma_cycle_deterministic(s: State, rnd1: u8, rnd2: u8)
    requires
        wf(s),
        s.pc < 4095 ==> op_family(fetched(s)) != 0xC,
    ensures
        spec_cycle(s, rnd1) == spec_cycle(s, rnd2),
{
}

/// 8xy4, for every pair of register values: Vx ends at (Vx + Vy) mod 256
/// and VF ends at 1 exactly when the sum exceeded 255 (for an x other
/// than F, whose own result would overwrite the flag).
pub proof fn lemma_8xy4_adds_with_carry(s: State)
    requires
        wf(s),
        op_x(s.op) != 15,
    ensures
        step_8xy4(s).regs[op_x(s.op) as int] == (s.regs[op_x(s.op) as int] + s.regs[op_y(
            s.op,
        ) as int]) % 256,
        step_8xy4(s).regs[15] == 1u8 <==> s.regs[op_x(s.op) as int] + s.regs[op_y(s.op) as int]
            > 255,
        step_8xy4(s).regs[15] == 0u8 <==> s.regs[op_x(s.op) as int] + s.regs[op_y(s.op) as int]
            <= 255,
{
    lemma_decode_bounds(s.op);
}

/// 8xy5, for every pair of register values: Vx ends at Vx - Vy wrapped
/// modulo 256, and VF reflects the table's borrow rule: 1 exactly when
/// Vx > Vy, 0 otherwise — so 0 when the values are equal (for an x other
/// than F).
pub proof fn lemma_8xy5_subtracts_wrapping(s: State)
    requires
        wf(s),
        op_x(s.op) != 15,
    ensures
        step_8xy5(s).regs[op_x(s.op) as int] == (s.regs[op_x(s.op) as int] + 256 - s.regs[op_y(
            s.op,
        ) as int]) % 256,
        step_8xy5(s).regs[15] == 1u8 <==> s.regs[op_x(s.op) as int] > s.regs[op_y(s.op) as int],
        s.regs[op_x(s.op) as int] == s.regs[op_y(s.op) as int] ==> step_8xy5(s).regs[op_x(
            s.op,
        ) as int] == 0,
{
    lemma_decode_bounds(s.op);
}

/// 8xy7, for every pair of register values: Vx ends at Vy - Vx wrapped
/// modulo 256, and VF is 1 exactly when Vy > Vx (for an x other than F).
pub proof fn lemma_8xy7_subtracts_wrapping(s: State)
    requires
        wf(s),
        op_x(s.op) != 15,
    ensures
        step_8xy7(s).regs[op_x(s.op) as int] == (s.regs[op_y(s.op) as int] + 256 - s.regs[op_x(
            s.op,
        ) as int]) % 256,
        step_8xy7(s).regs[15] == 1u8 <==> s.regs[op_y(s.op) as int] > s.regs[op_x(s.op) as int],
        s.regs[op_x(s.op) as int] == s.regs[op_y(s.op) as int] ==> step_8xy7(s).regs[op_x(
            s.op,
        ) as int] == 0,
{
    lemma_decode_bounds(s.op);
}

/// Clearing the screen and then drawing any sprite leaves exactly the
/// sprite's set bits on — no other pixel — and reports no collision.
pub proof fn lemma_clear_then_draw(s: State)
    requires
        wf(s),
        step_dxyn(step_00e0(s)).1 is Ok,
    ensures
        forall|idx: int|
            0 <= idx < 2048 ==> step_dxyn(step_00e0(s)).0.video[idx] == covers(
                s.mem,
                s.index as int,
                op_n(s.op) as int,
                (s.regs[op_x(s.op) as int] % 64) as int,
                (s.regs[op_y(s.op) as int] % 32) as int,
                idx,
            ),
        step_dxyn(step_00e0(s)).0.regs[15] == 0u8,
{
    lemma_decode_bounds(s.op);
    let s0 = step_00e0(s);
    let i = s.index as int;
    let n = op_n(s.op) as int;
    let x0 = (s.regs[op_x(s.op) as int] % 64) as int;
    let y0 = (s.regs[op_y(s.op) as int] % 32) as int;
    assert(!crate::sprites::collides(s0.video, s.mem, i, n, x0, y0)) by {
        if crate::sprites::collides(s0.video, s.mem, i, n, x0, y0) {
            let w = choose|idx: int|
                0 <= idx < s0.video.len() && s0.video[idx] && covers(s.mem, i, n, x0, y0, idx);
            assert(false);
        }
    }
}

/// Drawing the same sprite at the same place twice toggles the
/// framebuffer back to exactly what it was. The collision flag of the
/// second draw is 1 exactly when some sprite bit lands on a pixel that
/// was off before the first draw (the first draw turned it on, the
/// second turns it back off).
pub proof fn lemma_double_draw_restores(s: State)
    requires
        wf(s),
        op_x(s.op) != 15,
        op_y(s.op) != 15,
        step_dxyn(s).1 is Ok,
    ensures
        step_dxyn(step_dxyn(s).0).1 is Ok,
        step_dxyn(step_dxyn(s).0).0.video == s.video,
        step_dxyn(step_dxyn(s).0).0.regs[15] == 1u8 <==> exists|idx: int|
            0 <= idx < 2048 && !s.video[idx] && covers(
                s.mem,
                s.index as int,
                op_n(s.op) as int,
                (s.regs[op_x(s.op) as int] % 64) as int,
                (s.regs[op_y(s.op) as int] % 32) as int,
                idx,
            ),
{
    lemma_decode_bounds(s.op);
    let i = s.index as int;
    let n = op_n(s.op) as int;
    let x0 = (s.regs[op_x(s.op) as int] % 64) as int;
    let y0 = (s.regs[op_y(s.op) as int] % 32) as int;
    let s1 = step_dxyn(s).0;
    let s2 = step_dxyn(s1).0;
    assert(s2.video =~= s.video);
    assert(crate::sprites::collides(s1.video, s.mem, i, n, x0, y0) <==> exists|idx: int|
        0 <= idx < 2048 && !s.video[idx] && covers(s.mem, i, n, x0, y0, idx)) by {
        if crate::sprites::collides(s1.video, s.mem, i, n, x0, y0) {
            let w = choose|idx: int|
                0 <= idx < s1.video.len() && s1.video[idx] && covers(s.mem, i, n, x0, y0, idx);
            assert(0 <= w < 2048 && !s.video[w] && covers(s.mem, i, n, x0, y0, w));
        }
        if exists|idx: int| 0 <= idx < 2048 && !s.video[idx] && covers(s.mem, i, n, x0, y0, idx) {
            let w = choose|idx: int|
                0 <= idx < 2048 && !s.video[idx] && covers(s.mem, i, n, x0, y0, idx);
            assert(s1.video[w] && covers(s.mem, i, n, x0, y0, w));
        }
    }
}

/// A call and the matching return come back to the instruction right
/// after the call: two cycles later the program counter is the original
/// plus two.
pub proof fn lemma_call_return(s: State, rnd1: u8, rnd2: u8)
    requires
        wf(s),
        s.pc < 4095,
        op_family(fetched(s)) == 2,
        s.sp < 16,
        op_nnn(fetched(s)) < 4095,
        s.mem[op_nnn(fetched(s)) as int] == 0x00,
        s.mem[op_nnn(fetched(s)) as int + 1] == 0xEE,
    ensures
        spec_cycle(s, rnd1).1 is Ok,
        spec_cycle(spec_cycle(s, rnd1).0, rnd2).1 is Ok,
        spec_cycle(spec_cycle(s, rnd1).0, rnd2).0.pc == s.pc + 2,
{
    let s1 = spec_cycle(s, rnd1).0;
    assert(s1.pc == op_nnn(fetched(s)));
    assert(fetched(s1) == 0xEEu16);
    assert(((0xEEu16 >> 12) & 0xF) == 0 && ((0xEEu16 & 0xFF) as u8) == 0xEEu8) by (bit_vector);
    let s2 = spec_cycle(s1, rnd2).0;
    assert(s2.pc == s.pc + 2);
}

/// Storing V0..Vx to memory and loading them back into an arbitrary
/// register file reproduces V0..Vx, for every x.
pub proof fn lemma_store_load_round_trip(s: State, regs2: Seq<u8>)
    requires
        wf(s),
        step_fx55(s).1 is Ok,
        regs2.len() == 16,
    ensures
        step_fx65(State { regs: regs2, ..step_fx55(s).0 }).1 is Ok,
        forall|j: int|
            0 <= j <= op_x(s.op) ==> step_fx65(State { regs: regs2, ..step_fx55(s).0 }).0.regs[j]
                == s.regs[j],
{
    lemma_decode_bounds(s.op);
}

/// Stack discipline of 2nnn: while fewer than 16 calls are pending one
/// more succeeds, pushing the return address and jumping; a call on a
/// full stack fails with StackOverflow and changes nothing — not the
/// program counter, not the stack.
pub proof fn lemma_stack_discipline(s: State)
    requires
        wf(s),
    ensures
        s.sp < 16 ==> step_2nnn(s).1 is Ok && step_2nnn(s).0.sp == s.sp + 1 && step_2nnn(s).0.pc
            == op_nnn(s.op) && step_2nnn(s).0.stack[s.sp as int] == s.pc,
        s.sp == 16 ==> step_2nnn(s).1 == Err::<(), Chip8Error>(Chip8Error::StackOverflow)
            && step_2nnn(s).0 == s,
{
    lemma_decode_bounds(s.op);
}

} // verus!
