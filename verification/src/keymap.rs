//! Pure host-side helpers: translating a typed character to a logical
//! keypad index, and nearest-neighbor sampling for a scaled display.

use vstd::prelude::*;

verus! {

/// The logical key, if any, that a typed character stands for: the
/// 1-2-3-4 / Q-W-E-R / A-S-D-F / Z-X-C-V block maps onto the 4 x 4
/// keypad, either letter case accepted.
pub open spec fn key_of_char(c: char) -> Option<u8> {
    if c == '1' {
        Some(0x1u8)
    } else if c == '2' {
        Some(0x2u8)
    } else if c == '3' {
        Some(0x3u8)
    } else if c == '4' {
        Some(0xCu8)
    } else if c == 'q' || c == 'Q' {
        Some(0x4u8)
    } else if c == 'w' || c == 'W' {
        Some(0x5u8)
    } else if c == 'e' || c == 'E' {
        Some(0x6u8)
    } else if c == 'r' || c == 'R' {
        Some(0xDu8)
    } else if c == 'a' || c == 'A' {
        Some(0x7u8)
    } else if c == 's' || c == 'S' {
        Some(0x8u8)
    } else if c == 'd' || c == 'D' {
        Some(0x9u8)
    } else if c == 'f' || c == 'F' {
        Some(0xEu8)
    } else if c == 'z' || c == 'Z' {
        Some(0xAu8)
    } else if c == 'x' || c == 'X' {
        Some(0x0u8)
    } else if c == 'c' || c == 'C' {
        Some(0xBu8)
    } else if c == 'v' || c == 'V' {
        Some(0xFu8)
    } else {
        None
    }
}

/// Map a typed character to its logical keypad index; any mapped key is
/// one of the 16.
pub fn map_pc_to_chip8(code: char) -> (r: Option<u8>)
    ensures
        r == key_of_char(code),
        r is Some ==> r.unwrap() < 16,
{
    match code {
        '1' => Some(0x1),
        '2' => Some(0x2),
        '3' => Some(0x3),
        '4' => Some(0xC),
        'q' | 'Q' => Some(0x4),
        'w' | 'W' => Some(0x5),
        'e' | 'E' => Some(0x6),
        'r' | 'R' => Some(0xD),
        'a' | 'A' => Some(0x7),
        's' | 'S' => Some(0x8),
        'd' | 'D' => Some(0x9),
        'f' | 'F' => Some(0xE),
        'z' | 'Z' => Some(0xA),
        'x' | 'X' => Some(0x0),
        'c' | 'C' => Some(0xB),
        'v' | 'V' => Some(0xF),
        _ => None,
    }
}

/// The source row or column that target cell `t` samples when a grid of
/// `grid_len` cells is stretched over `area_len` cells: the quotient of
/// t * grid_len by area_len, which always lands inside the grid.
pub fn scale_coord(t: u16, area_len: u16, grid_len: u16) -> (r: u16)
    requires
        t < area_len,
        grid_len <= 64,
    ensures
        r == (t * grid_len) as int / area_len as int,
        r < grid_len || grid_len == 0,
{
    proof {
        assert((t as int) * (grid_len as int) <= 65535 * 64) by (nonlinear_arith)
            requires
                t as int <= 65535,
                grid_len as int <= 64,
        ;
    }
    let wide: u32 = (t as u32 * grid_len as u32) / (area_len as u32);
    proof {
        let x = (t as int) * (grid_len as int);
        let a = area_len as int;
        let g = grid_len as int;
        if g > 0 {
            assert(x / a < g) by {
                vstd::arithmetic::div_mod::lemma_fundamental_div_mod(x, a);
                if x / a >= g {
                    vstd::arithmetic::mul::lemma_mul_inequality(g, x / a, a);
                    assert(x >= g * a) by (nonlinear_arith)
                        requires
                            x == a * (x / a) + x % a,
                            (x / a) * a >= g * a,
                            x % a >= 0,
                    ;
                    assert(x < a * g) by (nonlinear_arith)
                        requires
                            (t as int) < a,
                            x == (t as int) * g,
                            g > 0,
                    ;
                    vstd::arithmetic::mul::lemma_mul_is_commutative(a, g);
                }
            }
        } else {
            assert(x == 0) by (nonlinear_arith)
                requires
                    x == (t as int) * g,
                    g == 0,
            ;
        }
    }
    wide as u16
}

} // verus!
