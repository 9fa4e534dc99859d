use vstd::prelude::*;

use crate::state::{
    collides, covers, draw_sprite, sprite_bit, sprite_col_at, sprite_row_at, MEMORY_SIZE,
    SCREEN_SIZE,
};

verus! {

/// The framebuffer offset at which sprite row `i`, column `j` lands.
pub open spec fn pixel_pos(vx: int, vy: int, i: int, j: int) -> int {
    ((vy + i) % 32) * 64 + (vx + j) % 64
}

/// Sprite row `i`, column `j` lands on one pixel, and it is the only pixel
/// that maps back to that row and column.
pub proof fn lemma_pixel_pos(vx: int, vy: int, i: int, j: int, p: int)
    requires
        0 <= vx,
        0 <= vy,
        0 <= i < 32,
        0 <= j < 64,
    ensures
        0 <= pixel_pos(vx, vy, i, j) < SCREEN_SIZE,
        sprite_row_at(vy, pixel_pos(vx, vy, i, j)) == i,
        sprite_col_at(vx, pixel_pos(vx, vy, i, j)) == j,
        0 <= p < SCREEN_SIZE && sprite_row_at(vy, p) == i && sprite_col_at(vx, p) == j ==> p
            == pixel_pos(vx, vy, i, j),
{
    let r = (vy + i) % 32;
    let c = (vx + j) % 64;
    let pos = pixel_pos(vx, vy, i, j);
    assert(0 <= r < 32);
    assert(0 <= c < 64);
    assert(pos == r * 64 + c);
    assert(0 <= pos < SCREEN_SIZE) by (nonlinear_arith)
        requires
            pos == r * 64 + c,
            0 <= r < 32,
            0 <= c < 64,
    ;
    vstd::arithmetic::div_mod::lemma_fundamental_div_mod_converse(pos, 64, r, c);
    assert(sprite_row_at(vy, pos) == i);
    assert(sprite_col_at(vx, pos) == j);
    if 0 <= p < SCREEN_SIZE && sprite_row_at(vy, p) == i && sprite_col_at(vx, p) == j {
        let a = p / 64;
        let b = p % 64;
        vstd::arithmetic::div_mod::lemma_fundamental_div_mod(p, 64);
        assert(0 <= a < 32);
        assert(a == r);
        assert(b == c);
    }
}

/// Whether pixel `p` is covered by a sprite bit that the drawing loop has
/// already handled, after full rows `0..i` and columns `0..j` of row `i`.
spec fn drawn(mem: Seq<u8>, index: int, n: int, vx: int, vy: int, p: int, i: int, j: int) -> bool {
    covers(mem, index, n, vx, vy, p) && (sprite_row_at(vy, p) < i || (sprite_row_at(vy, p) == i
        && sprite_col_at(vx, p) < j))
}

/// XORs the `n`-row sprite at `mem[index..index + n]` onto `vram` at
/// `(vx, vy)`, wrapping rows and columns, and reports whether a set pixel was
/// turned off.
pub fn draw(vram: &mut Vec<u8>, mem: &Vec<u8>, index: usize, n: usize, vx: usize, vy: usize) -> (hit:
    bool)
    requires
        old(vram)@.len() == SCREEN_SIZE,
        forall|p: int| 0 <= p < SCREEN_SIZE ==> #[trigger] old(vram)@[p] <= 1,
        mem@.len() == MEMORY_SIZE,
        index + n <= MEMORY_SIZE,
        n < 16,
        vx < 256,
        vy < 256,
    ensures
        final(vram)@ == draw_sprite(old(vram)@, mem@, index as int, n as int, vx as int, vy as int),
        hit == collides(old(vram)@, mem@, index as int, n as int, vx as int, vy as int),
{
    let ghost v0 = vram@;
    let ghost m = mem@;
    let mut hit = false;
    let mut i: usize = 0;
    while i < n
        invariant
            0 <= i <= n < 16,
            index + n <= MEMORY_SIZE,
            mem@ == m,
            m.len() == MEMORY_SIZE,
            vx < 256,
            vy < 256,
            v0.len() == SCREEN_SIZE,
            forall|p: int| 0 <= p < SCREEN_SIZE ==> #[trigger] v0[p] <= 1,
            vram@.len() == SCREEN_SIZE,
            forall|p: int|
                0 <= p < SCREEN_SIZE ==> #[trigger] vram@[p] == if drawn(
                    m,
                    index as int,
                    n as int,
                    vx as int,
                    vy as int,
                    p,
                    i as int,
                    0,
                ) {
                    (1 - v0[p]) as u8
                } else {
                    v0[p]
                },
            hit == exists|p: int|
                0 <= p < SCREEN_SIZE && #[trigger] drawn(
                    m,
                    index as int,
                    n as int,
                    vx as int,
                    vy as int,
                    p,
                    i as int,
                    0,
                ) && v0[p] == 1,
        decreases n - i,
    {
        let row = mem[index + i];
        let mut j: usize = 0;
        while j < 8
            invariant
                0 <= i < n < 16,
                0 <= j <= 8,
                index + n <= MEMORY_SIZE,
                mem@ == m,
                m.len() == MEMORY_SIZE,
                row == m[index + i],
                vx < 256,
                vy < 256,
                v0.len() == SCREEN_SIZE,
                forall|p: int| 0 <= p < SCREEN_SIZE ==> #[trigger] v0[p] <= 1,
                vram@.len() == SCREEN_SIZE,
                forall|p: int|
                    0 <= p < SCREEN_SIZE ==> #[trigger] vram@[p] == if drawn(
                        m,
                        index as int,
                        n as int,
                        vx as int,
                        vy as int,
                        p,
                        i as int,
                        j as int,
                    ) {
                        (1 - v0[p]) as u8
                    } else {
                        v0[p]
                    },
                hit == exists|p: int|
                    0 <= p < SCREEN_SIZE && #[trigger] drawn(
                        m,
                        index as int,
                        n as int,
                        vx as int,
                        vy as int,
                        p,
                        i as int,
                        j as int,
                    ) && v0[p] == 1,
            decreases 8 - j,
        {
            let ghost pos = pixel_pos(vx as int, vy as int, i as int, j as int);
            proof {
                lemma_pixel_pos(vx as int, vy as int, i as int, j as int, 0);
                assert forall|p: int| 0 <= p < SCREEN_SIZE && p != pos implies drawn(
                    m,
                    index as int,
                    n as int,
                    vx as int,
                    vy as int,
                    p,
                    i as int,
                    j + 1,
                ) == drawn(m, index as int, n as int, vx as int, vy as int, p, i as int, j as int) by {
                    lemma_pixel_pos(vx as int, vy as int, i as int, j as int, p);
                }
                assert(!drawn(m, index as int, n as int, vx as int, vy as int, pos, i as int, j as int));
            }
            let ghost hit0 = hit;
            let ghost before = vram@;
            assert(before[pos] == v0[pos]);
            if (row >> (7 - j as u8)) & 1u8 == 1u8 {
                let p: usize = ((vy + i) % 32) * 64 + (vx + j) % 64;
                assert(p == pos);
                assert(drawn(m, index as int, n as int, vx as int, vy as int, pos, i as int, j + 1));
                if vram[p] == 1 {
                    vram.set(p, 0);
                    hit = true;
                    assert(drawn(m, index as int, n as int, vx as int, vy as int, pos, i as int, j + 1) && v0[pos] == 1);
                } else {
                    vram.set(p, 1);
                }
            } else {
                assert(!sprite_bit(row, j as int));
                assert(!drawn(m, index as int, n as int, vx as int, vy as int, pos, i as int, j + 1));
            }
            proof {
                assert forall|q: int|
                    0 <= q < SCREEN_SIZE && #[trigger] drawn(m, index as int, n as int, vx as int, vy as int, q, i as int, j + 1) && v0[q] == 1 implies drawn(m, index as int, n as int, vx as int, vy as int, q, i as int, j as int)
                        || q == pos by {
                    if q != pos {
                        lemma_pixel_pos(vx as int, vy as int, i as int, j as int, q);
                    }
                }
                if hit0 {
                    let w = choose|w: int| 0 <= w < SCREEN_SIZE && #[trigger] drawn(m, index as int, n as int, vx as int, vy as int, w, i as int, j as int) && v0[w] == 1;
                    assert(drawn(m, index as int, n as int, vx as int, vy as int, w, i as int, j + 1));
                }
            }
            j = j + 1;
        }
        proof {
            assert forall|p: int| 0 <= p < SCREEN_SIZE implies #[trigger] drawn(m, index as int, n as int, vx as int, vy as int, p, i as int, 8) == drawn(m, index as int, n as int, vx as int, vy as int, p, i + 1, 0) by {}
            if hit {
                let w = choose|w: int| 0 <= w < SCREEN_SIZE && #[trigger] drawn(m, index as int, n as int, vx as int, vy as int, w, i as int, 8) && v0[w] == 1;
                assert(drawn(m, index as int, n as int, vx as int, vy as int, w, i + 1, 0));
            }
            assert forall|q: int| 0 <= q < SCREEN_SIZE && #[trigger] drawn(m, index as int, n as int, vx as int, vy as int, q, i + 1, 0) implies drawn(m, index as int, n as int, vx as int, vy as int, q, i as int, 8) by {}
        }
        i = i + 1;
    }
    proof {
        assert forall|p: int| 0 <= p < SCREEN_SIZE implies drawn(
            m,
            index as int,
            n as int,
            vx as int,
            vy as int,
            p,
            n as int,
            0,
        ) == covers(m, index as int, n as int, vx as int, vy as int, p) by {}
    }
    assert(vram@ =~= draw_sprite(v0, m, index as int, n as int, vx as int, vy as int));
    hit
}

} // verus!
