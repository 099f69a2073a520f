//! The 64×32 monochrome framebuffer and XOR sprite drawing with wraparound.
use vstd::prelude::*;
use vstd::arithmetic::div_mod::{
    lemma_fundamental_div_mod,
    lemma_fundamental_div_mod_converse,
    lemma_mod_multiples_vanish,
    lemma_small_mod,
};

use crate::machine::MEMORY_SIZE;

verus! {

pub const DISPLAY_WIDTH: usize = 64;
pub const DISPLAY_HEIGHT: usize = 32;
pub const DISPLAY_SIZE: usize = DISPLAY_WIDTH * DISPLAY_HEIGHT;
/// The value of a lit pixel.
pub const PIXEL_ON: u32 = 0xFFFF_FFFF;
/// The value of a dark pixel.
pub const PIXEL_OFF: u32 = 0;

/// Position of the cell at column `i`, row `j` of a grid `width` cells wide.
pub fn get_index(i: usize, j: usize, width: usize) -> (r: usize)
    requires
        i + j * width <= usize::MAX,
    ensures
        r == i + j * width,
{
    i + j * width
}

/// A pixel after an XOR with a lit sprite pixel.
pub open spec fn toggle(p: u32) -> u32 {
    if p == PIXEL_ON {
        PIXEL_OFF
    } else {
        PIXEL_ON
    }
}

/// Every pixel is either lit or dark.
pub open spec fn pixels_wf(display: Seq<u32>) -> bool {
    &&& display.len() == DISPLAY_SIZE
    &&& forall|p: int| 0 <= p < display.len() ==> #[trigger] display[p] == PIXEL_ON || display[p] == PIXEL_OFF
}

/// Bit `col` of a sprite row, counting from the most significant bit (`col < 8`).
pub open spec fn sprite_bit(row: u8, col: int) -> bool {
    (row >> ((7 - col) as u8)) & 1 == 1
}

/// The sprite column that lands on cell `p` when the sprite's origin column is `vx`.
pub open spec fn sprite_col(vx: u8, p: int) -> int {
    (p % (DISPLAY_WIDTH as int) - vx) % (DISPLAY_WIDTH as int)
}

/// The sprite row that lands on cell `p` when the sprite's origin row is `vy`.
pub open spec fn sprite_row(vy: u8, p: int) -> int {
    (p / (DISPLAY_WIDTH as int) - vy) % (DISPLAY_HEIGHT as int)
}

/// Cell of the framebuffer hit by sprite column `i`, row `j`, with wraparound.
pub open spec fn cell_of(vx: u8, vy: u8, i: int, j: int) -> int {
    (vx + i) % (DISPLAY_WIDTH as int) + ((vy + j) % (DISPLAY_HEIGHT as int)) * (DISPLAY_WIDTH as int)
}

/// Cell `p` receives a lit sprite pixel when `rows` is drawn at `(vx, vy)`.
pub open spec fn sprite_covers(rows: Seq<u8>, vx: u8, vy: u8, p: int) -> bool {
    let (i, j) = (sprite_col(vx, p), sprite_row(vy, p));
    i < 8 && j < rows.len() && sprite_bit(rows[j], i)
}

/// The framebuffer after `rows` is XOR-drawn at `(vx, vy)`.
pub open spec fn drawn(display: Seq<u32>, rows: Seq<u8>, vx: u8, vy: u8) -> Seq<u32> {
    Seq::new(
        display.len(),
        |p: int|
            if sprite_covers(rows, vx, vy, p) {
                toggle(display[p])
            } else {
                display[p]
            },
    )
}

/// Drawing `rows` at `(vx, vy)` turns at least one lit pixel dark.
pub open spec fn collides(display: Seq<u32>, rows: Seq<u8>, vx: u8, vy: u8) -> bool {
    exists|p: int| 0 <= p < display.len() && #[trigger] sprite_covers(rows, vx, vy, p) && display[p] == PIXEL_ON
}

/// Cell `p` has been handled once rows before `j`, and columns before `i` of row `j`, are drawn.
spec fn covered_before(rows: Seq<u8>, vx: u8, vy: u8, p: int, j: int, i: int) -> bool {
    sprite_covers(rows, vx, vy, p) && (sprite_row(vy, p) < j || (sprite_row(vy, p) == j
        && sprite_col(vx, p) < i))
}

proof fn lemma_offset_round_trip(a: int, i: int, m: int)
    requires
        0 < m,
        0 <= i < m,
    ensures
        ((a + i) % m - a) % m == i,
{
    lemma_fundamental_div_mod(a + i, m);
    let k = (a + i) / m;
    assert(m * (-k) == -(m * k)) by (nonlinear_arith);
    assert((a + i) % m - a == m * (-k) + i);
    lemma_mod_multiples_vanish(-k, i, m);
    lemma_small_mod(i as nat, m as nat);
}

proof fn lemma_cell_round_trip(a: int, c: int, m: int)
    requires
        0 < m,
        0 <= c < m,
    ensures
        (a + (c - a) % m) % m == c,
{
    lemma_fundamental_div_mod(c - a, m);
    let k = (c - a) / m;
    assert(m * (-k) == -(m * k)) by (nonlinear_arith);
    assert(a + (c - a) % m == m * (-k) + c);
    lemma_mod_multiples_vanish(-k, c, m);
    lemma_small_mod(c as nat, m as nat);
}

/// The cell hit by sprite column `i`, row `j` has that column and row, and is
/// the only such cell.
proof fn lemma_cell_of(vx: u8, vy: u8, i: int, j: int)
    requires
        0 <= i < 8,
        0 <= j < DISPLAY_HEIGHT,
    ensures
        0 <= cell_of(vx, vy, i, j) < DISPLAY_SIZE,
        sprite_col(vx, cell_of(vx, vy, i, j)) == i,
        sprite_row(vy, cell_of(vx, vy, i, j)) == j,
        forall|p: int|
            0 <= p < DISPLAY_SIZE && sprite_col(vx, p) == i && sprite_row(vy, p) == j ==> p
                == cell_of(vx, vy, i, j),
{
    let w = DISPLAY_WIDTH as int;
    let h = DISPLAY_HEIGHT as int;
    let c = (vx + i) % w;
    let r = (vy + j) % h;
    let q = cell_of(vx, vy, i, j);
    assert(q == r * w + c);
    lemma_fundamental_div_mod_converse(q, w, r, c);
    lemma_offset_round_trip(vx as int, i, w);
    lemma_offset_round_trip(vy as int, j, h);
    assert forall|p: int|
        0 <= p < DISPLAY_SIZE && sprite_col(vx, p) == i && sprite_row(vy, p) == j implies p
            == q by {
        lemma_fundamental_div_mod(p, w);
        lemma_cell_round_trip(vx as int, p % w, w);
        assert(p / w < h) by {
            lemma_fundamental_div_mod(p, w);
        }
        lemma_cell_round_trip(vy as int, p / w, h);
    }
}

/// XOR-draws the sprite `memory[start..start + n]` onto `display` at
/// `(vx, vy)`, wrapping at the edges; returns whether a lit pixel went dark.
pub fn draw_sprite(
    display: &mut [u32; DISPLAY_SIZE],
    memory: &[u8; MEMORY_SIZE],
    start: usize,
    n: usize,
    vx: u8,
    vy: u8,
) -> (collided: bool)
    requires
        start + n <= memory@.len(),
        n <= DISPLAY_HEIGHT,
    ensures
        final(display)@ == drawn(old(display)@, memory@.subrange(start as int, start + n), vx, vy),
        collided == collides(old(display)@, memory@.subrange(start as int, start + n), vx, vy),
{
    let ghost rows = memory@.subrange(start as int, start + n);
    let ghost before = display@;
    let mut collided = false;
    let mut j: usize = 0;
    while j < n
        invariant
            j <= n,
            start + n <= memory@.len(),
            n <= DISPLAY_HEIGHT,
            rows == memory@.subrange(start as int, start + n),
            display@.len() == DISPLAY_SIZE,
            before.len() == DISPLAY_SIZE,
            forall|p: int|
                0 <= p < DISPLAY_SIZE ==> #[trigger] display@[p] == if covered_before(
                    rows,
                    vx,
                    vy,
                    p,
                    j as int,
                    0,
                ) {
                    toggle(before[p])
                } else {
                    before[p]
                },
            collided == exists|p: int|
                0 <= p < DISPLAY_SIZE && #[trigger] covered_before(rows, vx, vy, p, j as int, 0)
                    && before[p] == PIXEL_ON,
        decreases n - j,
    {
        let line = memory[start + j];
        let mut i: usize = 0;
        while i < 8
            invariant
                i <= 8,
                j < n,
                start + n <= memory@.len(),
                n <= DISPLAY_HEIGHT,
                rows == memory@.subrange(start as int, start + n),
                line == rows[j as int],
                display@.len() == DISPLAY_SIZE,
                before.len() == DISPLAY_SIZE,
                forall|p: int|
                    0 <= p < DISPLAY_SIZE ==> #[trigger] display@[p] == if covered_before(
                        rows,
                        vx,
                        vy,
                        p,
                        j as int,
                        i as int,
                    ) {
                        toggle(before[p])
                    } else {
                        before[p]
                    },
                collided == exists|p: int|
                    0 <= p < DISPLAY_SIZE && #[trigger] covered_before(
                        rows,
                        vx,
                        vy,
                        p,
                        j as int,
                        i as int,
                    ) && before[p] == PIXEL_ON,
            decreases 8 - i,
        {
            let q = get_index(
                (vx as usize + i) % DISPLAY_WIDTH,
                (vy as usize + j) % DISPLAY_HEIGHT,
                DISPLAY_WIDTH,
            );
            proof {
                lemma_cell_of(vx, vy, i as int, j as int);
                assert(q == cell_of(vx, vy, i as int, j as int));
            }
            let lit = (line >> ((7 - i) as u8)) & 1 == 1;
            let ghost old_display = display@;
            let ghost old_collided = collided;
            if lit {
                let pre = display[q];
                if pre == PIXEL_ON {
                    collided = true;
                    display[q] = PIXEL_OFF;
                } else {
                    display[q] = PIXEL_ON;
                }
            }
            proof {
                assert(sprite_covers(rows, vx, vy, q as int) == lit);
                assert forall|p: int| 0 <= p < DISPLAY_SIZE implies #[trigger] covered_before(
                    rows,
                    vx,
                    vy,
                    p,
                    j as int,
                    i + 1,
                ) == (covered_before(rows, vx, vy, p, j as int, i as int) || (p == q && lit)) by {
                    if sprite_row(vy, p) == j && sprite_col(vx, p) == i {
                        assert(p == q);
                    }
                }
                assert forall|p: int| 0 <= p < DISPLAY_SIZE implies #[trigger] display@[p] == if covered_before(
                    rows,
                    vx,
                    vy,
                    p,
                    j as int,
                    i + 1,
                ) {
                    toggle(before[p])
                } else {
                    before[p]
                } by {
                    assert(covered_before(rows, vx, vy, p, j as int, i + 1) == (covered_before(rows, vx, vy, p, j as int, i as int) || (p == q && lit)));
                    if p == q {
                        assert(!covered_before(rows, vx, vy, p, j as int, i as int));
                    }
                }
                if lit && before[q as int] == PIXEL_ON {
                    assert(covered_before(rows, vx, vy, q as int, j as int, i + 1));
                }
                if collided {
                    if !old_collided {
                        assert(covered_before(rows, vx, vy, q as int, j as int, i + 1));
                    } else {
                        let w = choose|p: int| 0 <= p < DISPLAY_SIZE && #[trigger] covered_before(
                            rows, vx, vy, p, j as int, i as int) && before[p] == PIXEL_ON;
                        assert(covered_before(rows, vx, vy, w, j as int, i + 1));
                    }
                } else {
                    assert forall|p: int| 0 <= p < DISPLAY_SIZE && #[trigger] covered_before(
                        rows, vx, vy, p, j as int, i + 1) implies before[p] != PIXEL_ON by {
                        assert(covered_before(rows, vx, vy, p, j as int, i as int) || (p == q && lit));
                    }
                }
            }
            i += 1;
        }
        proof {
            assert forall|p: int| 0 <= p < DISPLAY_SIZE implies #[trigger] covered_before(
                rows, vx, vy, p, j as int, 8) == covered_before(rows, vx, vy, p, j + 1, 0) by {}
            if collided {
                let w = choose|p: int| 0 <= p < DISPLAY_SIZE && #[trigger] covered_before(
                    rows, vx, vy, p, j as int, 8) && before[p] == PIXEL_ON;
                assert(covered_before(rows, vx, vy, w, j + 1, 0));
            } else {
                assert forall|p: int| 0 <= p < DISPLAY_SIZE && #[trigger] covered_before(
                    rows, vx, vy, p, j + 1, 0) implies before[p] != PIXEL_ON by {
                    assert(covered_before(rows, vx, vy, p, j as int, 8));
                }
            }
        }
        j += 1;
    }
    proof {
        assert forall|p: int| 0 <= p < DISPLAY_SIZE implies #[trigger] covered_before(
            rows, vx, vy, p, n as int, 0) == sprite_covers(rows, vx, vy, p) by {
            assert(0 <= sprite_row(vy, p));
        }
        assert(display@ =~= drawn(before, rows, vx, vy));
        if collided {
            let w = choose|p: int| 0 <= p < DISPLAY_SIZE && #[trigger] covered_before(
                rows, vx, vy, p, n as int, 0) && before[p] == PIXEL_ON;
            assert(sprite_covers(rows, vx, vy, w));
        } else {
            assert forall|p: int| 0 <= p < before.len() && #[trigger] sprite_covers(rows, vx, vy, p)
                implies before[p] != PIXEL_ON by {
                assert(covered_before(rows, vx, vy, p, n as int, 0));
            }
        }
    }
    collided
}

} // verus!
