//! Specification of sprite drawing: which pixels a sprite covers, the
//! XOR-toggled framebuffer, and the collision flag.

use vstd::prelude::*;

verus! {

/// Whether bit `col` (0 = leftmost, most significant) of a sprite row
/// byte is set.
pub open spec fn sprite_pixel_on(b: u8, col: int) -> bool
    recommends
        0 <= col < 8,
{
    (b >> ((7 - col) as u8)) & 1 == 1
}

/// The framebuffer position hit by sprite bit (`row`, `col`) drawn at
/// origin (`x0`, `y0`): each coordinate wraps around the screen on its own.
pub open spec fn pixel_index(x0: int, y0: int, row: int, col: int) -> int {
    ((y0 + row) % 32) * 64 + ((x0 + col) % 64)
}

/// Whether some set sprite bit among the rows before `row_lim`, or in row
/// `row_lim` before column `col_lim`, lands on framebuffer position `idx`.
/// The sprite is the `n` bytes at `mem[i..]`, drawn at (`x0`, `y0`).
pub open spec fn covers_before(
    mem: Seq<u8>,
    i: int,
    n: int,
    x0: int,
    y0: int,
    row_lim: int,
    col_lim: int,
    idx: int,
) -> bool {
    exists|row: int, col: int|
        0 <= row < n && 0 <= col < 8 && (row < row_lim || (row == row_lim && col < col_lim))
            && sprite_pixel_on(mem[i + row], col) && pixel_index(x0, y0, row, col) == idx
}

/// Whether some set bit of the whole sprite lands on position `idx`.
pub open spec fn covers(mem: Seq<u8>, i: int, n: int, x0: int, y0: int, idx: int) -> bool {
    exists|row: int, col: int|
        0 <= row < n && 0 <= col < 8 && sprite_pixel_on(mem[i + row], col) && pixel_index(
            x0,
            y0,
            row,
            col,
        ) == idx
}

/// The framebuffer after the sprite is XOR-drawn: every covered pixel
/// toggles, every other pixel keeps its state.
pub open spec fn drawn(
    video: Seq<bool>,
    mem: Seq<u8>,
    i: int,
    n: int,
    x0: int,
    y0: int,
) -> Seq<bool> {
    Seq::new(video.len(), |idx: int| video[idx] != covers(mem, i, n, x0, y0, idx))
}

/// Whether the draw collides: some covered pixel was already on, so the
/// toggle turns it off.
pub open spec fn collides(
    video: Seq<bool>,
    mem: Seq<u8>,
    i: int,
    n: int,
    x0: int,
    y0: int,
) -> bool {
    exists|idx: int| 0 <= idx < video.len() && video[idx] && covers(mem, i, n, x0, y0, idx)
}

/// Distinct bits of one sprite land on distinct pixels: with fewer than 32
/// rows and 8 columns, neither coordinate can wrap onto itself.
pub proof fn lemma_pixel_index_injective(
    x0: int,
    y0: int,
    row1: int,
    col1: int,
    row2: int,
    col2: int,
)
    requires
        0 <= x0 < 64,
        0 <= y0 < 32,
        0 <= row1 < 32,
        0 <= col1 < 8,
        0 <= row2 < 32,
        0 <= col2 < 8,
        pixel_index(x0, y0, row1, col1) == pixel_index(x0, y0, row2, col2),
    ensures
        row1 == row2,
        col1 == col2,
{
    let py1 = (y0 + row1) % 32;
    let px1 = (x0 + col1) % 64;
    let py2 = (y0 + row2) % 32;
    let px2 = (x0 + col2) % 64;
    let ay1 = (y0 + row1) as u16;
    let ax1 = (x0 + col1) as u16;
    let ay2 = (y0 + row2) as u16;
    let ax2 = (x0 + col2) as u16;
    assert(ay1 % 32 == py1 && ax1 % 64 == px1 && ay2 % 32 == py2 && ax2 % 64 == px2);
    assert((ay1 % 32) * 64 + (ax1 % 64) == (ay2 % 32) * 64 + (ax2 % 64) && ay1 < 64 && ay2 < 64
        && ax1 < 72 && ax2 < 72 && ay1 < ay2 + 32 && ay2 < ay1 + 32 && ax1 < ax2 + 64 && ax2 < ax1
        + 64 ==> ay1 == ay2 && ax1 == ax2) by (bit_vector);
}

/// Scanning past a clear sprite bit covers nothing new.
pub proof fn lemma_covers_skip(
    mem: Seq<u8>,
    i: int,
    n: int,
    x0: int,
    y0: int,
    row: int,
    col: int,
    idx: int,
)
    requires
        0 <= row < n,
        0 <= col < 8,
        !sprite_pixel_on(mem[i + row], col),
    ensures
        covers_before(mem, i, n, x0, y0, row, col + 1, idx) == covers_before(
            mem,
            i,
            n,
            x0,
            y0,
            row,
            col,
            idx,
        ),
{
    if covers_before(mem, i, n, x0, y0, row, col + 1, idx) {
        let (r2, c2) = choose|r2: int, c2: int|
            0 <= r2 < n && 0 <= c2 < 8 && (r2 < row || (r2 == row && c2 < col + 1))
                && sprite_pixel_on(mem[i + r2], c2) && pixel_index(x0, y0, r2, c2) == idx;
        assert(r2 < row || (r2 == row && c2 < col));
        assert(covers_before(mem, i, n, x0, y0, row, col, idx));
    }
}

/// Scanning past a set sprite bit covers exactly its own pixel more: the
/// pixel was not covered yet, is covered now, and no other position
/// changes.
pub proof fn lemma_covers_hit(
    mem: Seq<u8>,
    i: int,
    n: int,
    x0: int,
    y0: int,
    row: int,
    col: int,
)
    requires
        0 <= x0 < 64,
        0 <= y0 < 32,
        0 <= row < n,
        n <= 16,
        0 <= col < 8,
        sprite_pixel_on(mem[i + row], col),
    ensures
        covers_before(mem, i, n, x0, y0, row, col + 1, pixel_index(x0, y0, row, col)),
        !covers_before(mem, i, n, x0, y0, row, col, pixel_index(x0, y0, row, col)),
        forall|idx: int|
            idx != pixel_index(x0, y0, row, col) ==> covers_before(
                mem,
                i,
                n,
                x0,
                y0,
                row,
                col + 1,
                idx,
            ) == covers_before(mem, i, n, x0, y0, row, col, idx),
{
    let pidx = pixel_index(x0, y0, row, col);
    assert(covers_before(mem, i, n, x0, y0, row, col + 1, pidx)) by {
        assert(0 <= row < n && 0 <= col < 8 && (row < row || (row == row && col < col + 1))
            && sprite_pixel_on(mem[i + row], col) && pixel_index(x0, y0, row, col) == pidx);
    }
    assert(!covers_before(mem, i, n, x0, y0, row, col, pidx)) by {
        if covers_before(mem, i, n, x0, y0, row, col, pidx) {
            let (r2, c2) = choose|r2: int, c2: int|
                0 <= r2 < n && 0 <= c2 < 8 && (r2 < row || (r2 == row && c2 < col))
                    && sprite_pixel_on(mem[i + r2], c2) && pixel_index(x0, y0, r2, c2) == pidx;
            lemma_pixel_index_injective(x0, y0, r2, c2, row, col);
        }
    }
    assert forall|idx: int| idx != pidx implies covers_before(mem, i, n, x0, y0, row, col + 1, idx)
        == covers_before(mem, i, n, x0, y0, row, col, idx) by {
        if covers_before(mem, i, n, x0, y0, row, col + 1, idx) {
            let (r2, c2) = choose|r2: int, c2: int|
                0 <= r2 < n && 0 <= c2 < 8 && (r2 < row || (r2 == row && c2 < col + 1))
                    && sprite_pixel_on(mem[i + r2], c2) && pixel_index(x0, y0, r2, c2) == idx;
            assert(r2 < row || (r2 == row && c2 < col));
            assert(covers_before(mem, i, n, x0, y0, row, col, idx));
        }
        if covers_before(mem, i, n, x0, y0, row, col, idx) {
            let (r2, c2) = choose|r2: int, c2: int|
                0 <= r2 < n && 0 <= c2 < 8 && (r2 < row || (r2 == row && c2 < col))
                    && sprite_pixel_on(mem[i + r2], c2) && pixel_index(x0, y0, r2, c2) == idx;
            assert(covers_before(mem, i, n, x0, y0, row, col + 1, idx));
        }
    }
}

/// A row scanned to its end covers the same pixels as the next row
/// scanned to its start.
pub proof fn lemma_covers_row_end(
    mem: Seq<u8>,
    i: int,
    n: int,
    x0: int,
    y0: int,
    row: int,
    idx: int,
)
    ensures
        covers_before(mem, i, n, x0, y0, row, 8, idx) == covers_before(
            mem,
            i,
            n,
            x0,
            y0,
            row + 1,
            0,
            idx,
        ),
{
    if covers_before(mem, i, n, x0, y0, row, 8, idx) {
        let (r2, c2) = choose|r2: int, c2: int|
            0 <= r2 < n && 0 <= c2 < 8 && (r2 < row || (r2 == row && c2 < 8)) && sprite_pixel_on(
                mem[i + r2],
                c2,
            ) && pixel_index(x0, y0, r2, c2) == idx;
        assert(r2 < row + 1);
        assert(covers_before(mem, i, n, x0, y0, row + 1, 0, idx));
    }
    if covers_before(mem, i, n, x0, y0, row + 1, 0, idx) {
        let (r2, c2) = choose|r2: int, c2: int|
            0 <= r2 < n && 0 <= c2 < 8 && (r2 < row + 1 || (r2 == row + 1 && c2 < 0))
                && sprite_pixel_on(mem[i + r2], c2) && pixel_index(x0, y0, r2, c2) == idx;
        assert(r2 < row || (r2 == row && c2 < 8));
        assert(covers_before(mem, i, n, x0, y0, row, 8, idx));
    }
}

/// All rows scanned means the whole sprite is covered.
pub proof fn lemma_covers_all(mem: Seq<u8>, i: int, n: int, x0: int, y0: int, idx: int)
    ensures
        covers_before(mem, i, n, x0, y0, n, 0, idx) == covers(mem, i, n, x0, y0, idx),
{
    if covers_before(mem, i, n, x0, y0, n, 0, idx) {
        let (r2, c2) = choose|r2: int, c2: int|
            0 <= r2 < n && 0 <= c2 < 8 && (r2 < n || (r2 == n && c2 < 0)) && sprite_pixel_on(
                mem[i + r2],
                c2,
            ) && pixel_index(x0, y0, r2, c2) == idx;
        assert(covers(mem, i, n, x0, y0, idx));
    }
    if covers(mem, i, n, x0, y0, idx) {
        let (r2, c2) = choose|r2: int, c2: int|
            0 <= r2 < n && 0 <= c2 < 8 && sprite_pixel_on(mem[i + r2], c2) && pixel_index(
                x0,
                y0,
                r2,
                c2,
            ) == idx;
        assert(covers_before(mem, i, n, x0, y0, n, 0, idx));
    }
}

/// Positions hit by one sprite are inside the 2048-pixel framebuffer.
pub proof fn lemma_pixel_index_in_range(x0: int, y0: int, row: int, col: int)
    ensures
        0 <= pixel_index(x0, y0, row, col) < 2048,
{
    let py = (y0 + row) % 32;
    let px = (x0 + col) % 64;
    assert(0 <= py < 32);
    assert(0 <= px < 64);
    assert(0 <= py * 64 + px < 2048) by (nonlinear_arith)
        requires
            0 <= py < 32 && 0 <= px < 64,
    ;
}

} // verus!
