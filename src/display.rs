use vstd::prelude::*;

verus! {

/// Width of the framebuffer in pixels.
pub const WIDTH: usize = 64;

/// Height of the framebuffer in pixels.
pub const HEIGHT: usize = 32;

/// Number of pixels; pixel `(x, y)` is at `y * WIDTH + x`.
pub const PIXELS: usize = 2048;

/// Bit `c` of `b`, counting from the most significant bit.
pub open spec fn bit_at(b: u8, c: int) -> bool {
    (b >> ((7 - c) as u8)) & 1u8 == 1u8
}

/// Sprite column of pixel `p` for a sprite whose left edge is at `x0`.
pub open spec fn col_of(p: int, x0: u8) -> int {
    (p % 64 - x0 as int % 64 + 64) % 64
}

/// Sprite row of pixel `p` for a sprite whose top edge is at `y0`.
pub open spec fn row_of(p: int, y0: u8) -> int {
    (p / 64 - y0 as int % 32 + 32) % 32
}

/// Whether the `n`-row sprite read from memory at `i` and drawn at `(x0, y0)`
/// has a set bit over pixel `p`, with coordinates wrapping at the edges.
pub open spec fn sprite_bit(ram: Seq<u8>, i: u16, x0: u8, y0: u8, n: u8, p: int) -> bool {
    let r = row_of(p, y0);
    let c = col_of(p, x0);
    r < n && c < 8 && bit_at(ram[(i as int + r) % 4096], c)
}

/// The framebuffer after the sprite is XORed onto it.
pub open spec fn spec_drawn(display: Seq<bool>, ram: Seq<u8>, i: u16, x0: u8, y0: u8, n: u8) -> Seq<bool> {
    Seq::new(display.len(), |p: int| display[p] != sprite_bit(ram, i, x0, y0, n, p))
}

/// Whether drawing the sprite turns some lit pixel off.
pub open spec fn spec_collides(display: Seq<bool>, ram: Seq<u8>, i: u16, x0: u8, y0: u8, n: u8) -> bool {
    exists|p: int| 0 <= p < display.len() && #[trigger] display[p] && sprite_bit(ram, i, x0, y0, n, p)
}

/// Whether pixel `p` lies in a sprite cell visited before `(row, col)`, rows first.
pub open spec fn visited(p: int, x0: u8, y0: u8, row: int, col: int) -> bool {
    row_of(p, y0) < row || (row_of(p, y0) == row && col_of(p, x0) < col)
}

/// The framebuffer part way through a draw.
pub open spec fn drawn_until(
    display: Seq<bool>, ram: Seq<u8>, i: u16, x0: u8, y0: u8, n: u8, row: int, col: int,
) -> Seq<bool> {
    Seq::new(
        display.len(),
        |p: int| display[p] != (sprite_bit(ram, i, x0, y0, n, p) && visited(p, x0, y0, row, col)),
    )
}

/// A coordinate moved on by `d` and wrapped at `m` lies `d` past the start,
/// and is the only coordinate below `m` that does.
proof fn lemma_wrap_offset(a: int, d: int, t: int, m: int)
    requires
        0 <= a,
        0 <= d < m,
        m == 32 || m == 64,
    ensures
        ((a + d) % m - a % m + m) % m == d,
        0 <= t < m && (t - a % m + m) % m == d ==> t == (a + d) % m,
{
    if m == 32 {
        assert(((a + d) % 32 - a % 32 + 32) % 32 == d);
        assert(0 <= t < 32 && (t - a % 32 + 32) % 32 == d ==> t == (a + d) % 32);
    } else {
        assert(((a + d) % 64 - a % 64 + 64) % 64 == d);
        assert(0 <= t < 64 && (t - a % 64 + 64) % 64 == d ==> t == (a + d) % 64);
    }
}

/// Pixel of sprite cell `(row, col)` drawn at `(x0, y0)`: the only pixel
/// whose sprite row and column are `row` and `col`.
proof fn lemma_cell(x0: u8, y0: u8, row: int, col: int, p: int)
    requires
        0 <= row < 16,
        0 <= col < 8,
    ensures
        0 <= ((y0 as int + row) % 32) * 64 + (x0 as int + col) % 64 < 2048,
        row_of(((y0 as int + row) % 32) * 64 + (x0 as int + col) % 64, y0) == row,
        col_of(((y0 as int + row) % 32) * 64 + (x0 as int + col) % 64, x0) == col,
        0 <= p < 2048 && row_of(p, y0) == row && col_of(p, x0) == col ==> p == ((y0 as int
            + row) % 32) * 64 + (x0 as int + col) % 64,
{
    let yy = (y0 as int + row) % 32;
    let xx = (x0 as int + col) % 64;
    let q = yy * 64 + xx;
    assert(q / 64 == yy && q % 64 == xx && 0 <= q < 2048) by (nonlinear_arith)
        requires
            q == yy * 64 + xx,
            0 <= xx < 64,
            0 <= yy < 32,
    ;
    lemma_wrap_offset(y0 as int, row, p / 64, 32);
    lemma_wrap_offset(x0 as int, col, p % 64, 64);
    if 0 <= p < 2048 {
        assert(0 <= p / 64 < 32);
        assert(p == (p / 64) * 64 + p % 64);
    }
}

/// XORs the `n`-row sprite read from `ram` at `i` onto `display` at `(x0, y0)`,
/// wrapping at the edges; returns whether some lit pixel was turned off.
pub fn draw(display: &mut Vec<bool>, ram: &Vec<u8>, i: u16, x0: u8, y0: u8, n: u8) -> (collision: bool)
    requires
        old(display).len() == PIXELS,
        ram.len() == 4096,
        i < 4096,
        n < 16,
    ensures
        final(display)@ == spec_drawn(old(display)@, ram@, i, x0, y0, n),
        collision == spec_collides(old(display)@, ram@, i, x0, y0, n),
{
    let ghost d0 = display@;
    let mut collision = false;
    let mut row: u8 = 0;
    while row < n
        invariant
            display@.len() == PIXELS,
            ram.len() == 4096,
            i < 4096,
            n < 16,
            row <= n,
            display@ == drawn_until(d0, ram@, i, x0, y0, n, row as int, 0),
            collision == exists|p: int|
                0 <= p < PIXELS && #[trigger] d0[p] && sprite_bit(ram@, i, x0, y0, n, p)
                    && visited(p, x0, y0, row as int, 0),
        decreases n - row,
    {
        let byte = ram[((i as usize + row as usize) % 4096)];
        let mut col: u8 = 0;
        while col < 8
            invariant
                display@.len() == PIXELS,
                ram.len() == 4096,
                i < 4096,
                n < 16,
                row < n,
                col <= 8,
                byte == ram@[(i as int + row as int) % 4096],
                display@ == drawn_until(d0, ram@, i, x0, y0, n, row as int, col as int),
                collision == exists|p: int|
                    0 <= p < PIXELS && #[trigger] d0[p] && sprite_bit(ram@, i, x0, y0, n, p)
                        && visited(p, x0, y0, row as int, col as int),
            decreases 8 - col,
        {
            let ghost before = display@;
            let q = ((y0 as usize + row as usize) % HEIGHT) * WIDTH + (x0 as usize + col as usize) % WIDTH;
            proof {
                lemma_cell(x0, y0, row as int, col as int, q as int);
            }
            let bit = (byte >> (7 - col)) & 1;
            if bit == 1 {
                let was = display[q];
                display.set(q, !was);
                if was {
                    collision = true;
                }
            }
            proof {
                assert forall|p: int| 0 <= p < PIXELS && p != q implies
                    visited(p, x0, y0, row as int, col as int + 1) == visited(p, x0, y0, row as int, col as int) by {
                    lemma_cell(x0, y0, row as int, col as int, p);
                }
                assert(display@ =~= drawn_until(d0, ram@, i, x0, y0, n, row as int, col as int + 1));
            }
            col = col + 1;
        }
        proof {
            assert forall|p: int| 0 <= p < PIXELS implies
                (sprite_bit(ram@, i, x0, y0, n, p) && visited(p, x0, y0, row as int, 8))
                == (sprite_bit(ram@, i, x0, y0, n, p) && visited(p, x0, y0, row as int + 1, 0)) by {}
            assert(display@ =~= drawn_until(d0, ram@, i, x0, y0, n, row as int + 1, 0));
        }
        row = row + 1;
    }
    proof {
        assert forall|p: int| 0 <= p < PIXELS implies
            (sprite_bit(ram@, i, x0, y0, n, p) && visited(p, x0, y0, n as int, 0))
            == sprite_bit(ram@, i, x0, y0, n, p) by {}
        assert(display@ =~= spec_drawn(d0, ram@, i, x0, y0, n));
    }
    collision
}

} // verus!
