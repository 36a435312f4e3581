//! The display-compositing model for the draw instruction.
//!
//! The screen is a 64x32 grid of boolean pixels stored row-major as a
//! sequence of 2048 cells; pixel (px, py) lives at index `py * 64 + px`.
//! A draw XORs an N-row, 8-column sprite read from memory into the grid.
//! The starting coordinate is taken modulo the screen size, but the
//! sprite itself clips at the right and bottom edges: rows and columns
//! that run off the grid are simply not plotted.

use vstd::prelude::*;
use vstd::arithmetic::div_mod::lemma_fundamental_div_mod_converse;

verus! {

/// The pixel of screen `s` at column `px`, row `py`, in row-major order.
pub open spec fn pix(s: Seq<bool>, px: int, py: int) -> bool {
    s[py * 64 + px]
}

/// Bit `c` (0 is the most significant) of a sprite row byte.
pub open spec fn sprite_bit(b: u8, c: int) -> bool {
    b & (0x80u8 >> (c as u8)) != 0
}

/// Whether a sprite of `n` rows anchored at (x0, y0) writes to (px, py).
/// Only positions inside the 8-wide, `n`-tall window are written; pixels
/// past the screen edge do not exist, so nothing ever wraps around.
pub open spec fn draw_covers(x0: int, y0: int, n: int, px: int, py: int) -> bool {
    x0 <= px < x0 + 8 && y0 <= py < y0 + n
}

/// The screen after XOR-drawing an `n`-row sprite read from `mem[i..]`
/// at anchor (x0, y0) onto screen `s`.
pub open spec fn screen_after(
    s: Seq<bool>,
    mem: Seq<u8>,
    i: int,
    x0: int,
    y0: int,
    n: int,
) -> Seq<bool> {
    Seq::new(2048, |p: int| {
        let py = p / 64;
        let px = p % 64;
        if draw_covers(x0, y0, n, px, py) {
            s[p] != sprite_bit(mem[i + (py - y0)], px - x0)
        } else {
            s[p]
        }
    })
}

/// Sprite row `r`, column `c` has its bit set and lands on a pixel of
/// `s` that is already lit, so drawing there collides.
pub open spec fn hit(s: Seq<bool>, mem: Seq<u8>, i: int, x0: int, y0: int, r: int, c: int) -> bool {
    sprite_bit(mem[i + r], c) && pix(s, x0 + c, y0 + r)
}

/// Sprite row `r`, column `c` has its bit set and lands on a pixel of
/// `s` that is off, so drawing there turns the pixel on.
pub open spec fn turns_on(
    s: Seq<bool>,
    mem: Seq<u8>,
    i: int,
    x0: int,
    y0: int,
    r: int,
    c: int,
) -> bool {
    sprite_bit(mem[i + r], c) && !pix(s, x0 + c, y0 + r)
}

/// Whether drawing the sprite onto `s` collides anywhere on screen.
pub open spec fn collides(s: Seq<bool>, mem: Seq<u8>, i: int, x0: int, y0: int, n: int) -> bool {
    exists|r: int, c: int|
        0 <= r < n && y0 + r < 32 && 0 <= c < 8 && x0 + c < 64 && #[trigger] hit(
            s,
            mem,
            i,
            x0,
            y0,
            r,
            c,
        )
}

/// A collision occurs somewhere in the first `rr` sprite rows.
pub open spec fn hit_in_rows(
    s: Seq<bool>,
    mem: Seq<u8>,
    i: int,
    x0: int,
    y0: int,
    rr: int,
) -> bool {
    exists|r: int, c: int|
        0 <= r < rr && 0 <= c < 8 && x0 + c < 64 && #[trigger] hit(s, mem, i, x0, y0, r, c)
}

/// A collision occurs in the first `rr` full sprite rows, or in row
/// `rr` itself before column `cc`.
pub open spec fn hit_upto(
    s: Seq<bool>,
    mem: Seq<u8>,
    i: int,
    x0: int,
    y0: int,
    rr: int,
    cc: int,
) -> bool {
    hit_in_rows(s, mem, i, x0, y0, rr) || (exists|c: int|
        0 <= c < cc && x0 + c < 64 && #[trigger] hit(s, mem, i, x0, y0, rr, c))
}

/// Row-major indexing round-trips: the cell at `py * 64 + px` decodes
/// back to column `px` and row `py`.
pub proof fn lemma_pixel_index(px: int, py: int)
    requires
        0 <= px < 64,
        0 <= py < 32,
    ensures
        (py * 64 + px) / 64 == py,
        (py * 64 + px) % 64 == px,
        0 <= py * 64 + px < 2048,
{
    lemma_fundamental_div_mod_converse(py * 64 + px, 64, py, px);
}

/// Clipping, not wrapping: a pixel outside the sprite's clipped window
/// is unchanged by the draw.  In particular a sprite anchored near the
/// right edge never spills onto the leftmost columns.
pub proof fn lemma_draw_clips(
    s: Seq<bool>,
    mem: Seq<u8>,
    i: int,
    x0: int,
    y0: int,
    n: int,
    px: int,
    py: int,
)
    requires
        s.len() == 2048,
        0 <= px < 64,
        0 <= py < 32,
        !draw_covers(x0, y0, n, px, py),
    ensures
        pix(screen_after(s, mem, i, x0, y0, n), px, py) == pix(s, px, py),
{
    lemma_pixel_index(px, py);
}

/// Drawing the identical sprite at the identical anchor twice restores
/// every pixel, and the second draw collides exactly where the first
/// draw had turned a pixel on: the collision flag reflects only the most
/// recent draw call.
pub proof fn lemma_draw_twice(s: Seq<bool>, mem: Seq<u8>, i: int, x0: int, y0: int, n: int)
    requires
        s.len() == 2048,
        0 <= x0 < 64,
        0 <= y0 < 32,
        0 <= n,
    ensures
        screen_after(screen_after(s, mem, i, x0, y0, n), mem, i, x0, y0, n) == s,
        collides(screen_after(s, mem, i, x0, y0, n), mem, i, x0, y0, n) == (exists|r: int, c: int|
            0 <= r < n && y0 + r < 32 && 0 <= c < 8 && x0 + c < 64 && #[trigger] turns_on(
                s,
                mem,
                i,
                x0,
                y0,
                r,
                c,
            )),
{
    let s1 = screen_after(s, mem, i, x0, y0, n);
    let s2 = screen_after(s1, mem, i, x0, y0, n);
    assert forall|p: int| 0 <= p < 2048 implies s2[p] == s[p] by {
        assert(s1[p] == if draw_covers(x0, y0, n, p % 64, p / 64) {
            s[p] != sprite_bit(mem[i + (p / 64 - y0)], p % 64 - x0)
        } else {
            s[p]
        });
    }
    assert(s2 =~= s);
    assert forall|r: int, c: int|
        0 <= r < n && y0 + r < 32 && 0 <= c < 8 && x0 + c < 64 implies (#[trigger] hit(
        s1,
        mem,
        i,
        x0,
        y0,
        r,
        c,
    ) == turns_on(s, mem, i, x0, y0, r, c)) by {
        lemma_pixel_index(x0 + c, y0 + r);
    }
    assert forall|r: int, c: int|
        0 <= r < n && y0 + r < 32 && 0 <= c < 8 && x0 + c < 64 implies (#[trigger] turns_on(
        s,
        mem,
        i,
        x0,
        y0,
        r,
        c,
    ) == hit(s1, mem, i, x0, y0, r, c)) by {
        lemma_pixel_index(x0 + c, y0 + r);
    }
}

} // verus!
