//! The global properties of the simulation, stated and proved once and for
//! all: toroidal periodicity of the lookup, the per-cell birth and survival
//! rules, the pause invariant, the detail-mode glyph packing, and the two
//! classic pattern behaviors (the 2×2 still life and the period-2 blinker).

use vstd::prelude::*;
use crate::model::{
    b2i, cell_at, grid_wf, lemma_wrap_adjacent, neighbor_count, next_state, step_grid, tick_grid,
    ticks_grid,
};
use crate::game::Game;
use crate::render::{glyph_of_code, pack_spec};

verus! {

/// Toroidal periodicity: the cell lookup repeats with period `w` across and
/// period `h` down, for all integer coordinates.
pub proof fn lemma_neighbor_wrap(g: Seq<Seq<bool>>, w: int, h: int, x: int, y: int)
    requires
        1 <= w,
        1 <= h,
    ensures
        cell_at(g, w, h, x + w, y) == cell_at(g, w, h, x, y),
        cell_at(g, w, h, x, y + h) == cell_at(g, w, h, x, y),
{
    vstd::arithmetic::div_mod::lemma_mod_add_multiples_vanish(x, w);
    vstd::arithmetic::div_mod::lemma_mod_add_multiples_vanish(y, h);
}

/// Toroidal periodicity, stated on a game state.
pub proof fn lemma_alive_wrap(g: Game, x: int, y: int)
    requires
        g.wf(),
    ensures
        g.alive(x + g.width, y) == g.alive(x, y),
        g.alive(x, y + g.height) == g.alive(x, y),
{
    lemma_neighbor_wrap(g.grid(), g.width as int, g.height as int, x, y);
}

/// What one generation writes into an in-bounds cell: the rule applied to
/// the old cell and its old neighbor count.
pub proof fn lemma_step_cell(g: Seq<Seq<bool>>, w: int, h: int, x: int, y: int)
    requires
        grid_wf(g, w, h),
        0 <= x < w,
        0 <= y < h,
    ensures
        step_grid(g, w, h)[y][x] == next_state(cell_at(g, w, h, x, y), neighbor_count(g, w, h, x, y)),
{
}

/// The birth rule: a dead cell with exactly 3 live neighbors is live in the
/// next generation; with 2 or with 4 it stays dead.
pub proof fn lemma_birth_rule(g: Seq<Seq<bool>>, w: int, h: int, x: int, y: int)
    requires
        grid_wf(g, w, h),
        0 <= x < w,
        0 <= y < h,
        !cell_at(g, w, h, x, y),
    ensures
        neighbor_count(g, w, h, x, y) == 3 ==> step_grid(g, w, h)[y][x],
        neighbor_count(g, w, h, x, y) == 2 ==> !step_grid(g, w, h)[y][x],
        neighbor_count(g, w, h, x, y) == 4 ==> !step_grid(g, w, h)[y][x],
{
    lemma_step_cell(g, w, h, x, y);
}

/// The survival rule: a live cell with 2 or 3 live neighbors stays live;
/// with 0, 1, or 4 and more it dies.
pub proof fn lemma_survival_rule(g: Seq<Seq<bool>>, w: int, h: int, x: int, y: int)
    requires
        grid_wf(g, w, h),
        0 <= x < w,
        0 <= y < h,
        cell_at(g, w, h, x, y),
    ensures
        neighbor_count(g, w, h, x, y) == 2 || neighbor_count(g, w, h, x, y) == 3
            ==> step_grid(g, w, h)[y][x],
        neighbor_count(g, w, h, x, y) <= 1 ==> !step_grid(g, w, h)[y][x],
        neighbor_count(g, w, h, x, y) >= 4 ==> !step_grid(g, w, h)[y][x],
{
    lemma_step_cell(g, w, h, x, y);
}

/// The pause invariant: while paused, any number of loop iterations leaves
/// the grid contents unchanged.
pub proof fn lemma_pause_invariant(g: Seq<Seq<bool>>, w: int, h: int, n: nat)
    ensures
        ticks_grid(g, w, h, true, n) == g,
    decreases n,
{
    if n > 0 {
        assert(tick_grid(g, w, h, true) == g);
        lemma_pause_invariant(g, w, h, (n - 1) as nat);
    }
}

/// Detail-mode packing: the 2-bit code of two stacked cells is
/// `top * 1 + bottom * 2`, and the four codes select the empty, upper-half,
/// lower-half and full block glyphs in that order.
pub proof fn lemma_detail_packing(top: bool, bottom: bool)
    ensures
        pack_spec(top, bottom) == b2i(top) + 2 * b2i(bottom),
        glyph_of_code(pack_spec(false, false)) == ' ',
        glyph_of_code(pack_spec(true, false)) == '▀',
        glyph_of_code(pack_spec(false, true)) == '▄',
        glyph_of_code(pack_spec(true, true)) == '█',
{
}

/// A grid whose only live cells are a 2×2 block with corner `(cx, cy)`.
pub open spec fn block_only(g: Seq<Seq<bool>>, w: int, h: int, cx: int, cy: int) -> bool {
    forall|x: int, y: int|
        0 <= x < w && 0 <= y < h ==> (#[trigger] g[y][x]) == ((x == cx || x == cx + 1) && (y == cy
            || y == cy + 1))
}

/// The 2×2 block is a still life: on a grid of at least 3×3 with all other
/// cells dead, one generation changes nothing. (On a 2-wide or 2-high grid
/// the wrap makes the same offsets hit cells twice and the block dies, so
/// those sizes are left out.)
#[verifier::rlimit(60)]
pub proof fn lemma_block_still_life(g: Seq<Seq<bool>>, w: int, h: int, cx: int, cy: int)
    requires
        grid_wf(g, w, h),
        3 <= w,
        3 <= h,
        0 <= cx,
        cx + 1 < w,
        0 <= cy,
        cy + 1 < h,
        block_only(g, w, h, cx, cy),
    ensures
        step_grid(g, w, h) =~~= g,
{
    assert forall|x: int, y: int| 0 <= x < w && 0 <= y < h implies #[trigger] step_grid(
        g,
        w,
        h,
    )[y][x] == g[y][x] by {
        lemma_wrap_adjacent(x - 1, w);
        lemma_wrap_adjacent(x, w);
        lemma_wrap_adjacent(x + 1, w);
        lemma_wrap_adjacent(y - 1, h);
        lemma_wrap_adjacent(y, h);
        lemma_wrap_adjacent(y + 1, h);
        assert(step_grid(g, w, h)[y][x] == next_state(
            cell_at(g, w, h, x, y),
            neighbor_count(g, w, h, x, y),
        ));
    }
}

/// A grid whose only live cells are a horizontal 3-cell blinker starting at
/// `(cx, cy)`.
pub open spec fn horiz_blinker_only(g: Seq<Seq<bool>>, w: int, h: int, cx: int, cy: int) -> bool {
    forall|x: int, y: int|
        0 <= x < w && 0 <= y < h ==> (#[trigger] g[y][x]) == (y == cy && (x == cx || x == cx + 1
            || x == cx + 2))
}

/// A grid whose only live cells are a vertical 3-cell segment in column
/// `cx + 1`, centered on row `cy` (the rows above and below wrap).
pub open spec fn vert_blinker_only(g: Seq<Seq<bool>>, w: int, h: int, cx: int, cy: int) -> bool {
    forall|x: int, y: int|
        0 <= x < w && 0 <= y < h ==> (#[trigger] g[y][x]) == (x == cx + 1 && (y == (cy - 1) % h || y
            == cy || y == (cy + 1) % h))
}

/// One generation turns the horizontal blinker into the vertical 3-cell
/// segment through its center.
#[verifier::rlimit(100)]
pub proof fn lemma_blinker_step(g: Seq<Seq<bool>>, w: int, h: int, cx: int, cy: int)
    requires
        grid_wf(g, w, h),
        5 <= w,
        5 <= h,
        0 <= cx,
        cx + 2 < w,
        0 <= cy < h,
        horiz_blinker_only(g, w, h, cx, cy),
    ensures
        grid_wf(step_grid(g, w, h), w, h),
        vert_blinker_only(step_grid(g, w, h), w, h, cx, cy),
{
    lemma_wrap_adjacent(cy - 1, h);
    lemma_wrap_adjacent(cy + 1, h);
    assert forall|x: int, y: int| 0 <= x < w && 0 <= y < h implies (#[trigger] step_grid(
        g,
        w,
        h,
    )[y][x]) == (x == cx + 1 && (y == (cy - 1) % h || y == cy || y == (cy + 1) % h)) by {
        lemma_wrap_adjacent(x - 1, w);
        lemma_wrap_adjacent(x, w);
        lemma_wrap_adjacent(x + 1, w);
        lemma_wrap_adjacent(y - 1, h);
        lemma_wrap_adjacent(y, h);
        lemma_wrap_adjacent(y + 1, h);
        assert(step_grid(g, w, h)[y][x] == next_state(
            cell_at(g, w, h, x, y),
            neighbor_count(g, w, h, x, y),
        ));
    }
}

/// One further generation turns the vertical segment back into the original
/// horizontal blinker.
#[verifier::rlimit(100)]
pub proof fn lemma_blinker_step_back(g: Seq<Seq<bool>>, w: int, h: int, cx: int, cy: int)
    requires
        grid_wf(g, w, h),
        5 <= w,
        5 <= h,
        0 <= cx,
        cx + 2 < w,
        0 <= cy < h,
        vert_blinker_only(g, w, h, cx, cy),
    ensures
        grid_wf(step_grid(g, w, h), w, h),
        horiz_blinker_only(step_grid(g, w, h), w, h, cx, cy),
{
    lemma_wrap_adjacent(cy - 1, h);
    lemma_wrap_adjacent(cy + 1, h);
    assert forall|x: int, y: int| 0 <= x < w && 0 <= y < h implies (#[trigger] step_grid(
        g,
        w,
        h,
    )[y][x]) == (y == cy && (x == cx || x == cx + 1 || x == cx + 2)) by {
        lemma_wrap_adjacent(x - 1, w);
        lemma_wrap_adjacent(x, w);
        lemma_wrap_adjacent(x + 1, w);
        lemma_wrap_adjacent(y - 1, h);
        lemma_wrap_adjacent(y, h);
        lemma_wrap_adjacent(y + 1, h);
        assert(step_grid(g, w, h)[y][x] == next_state(
            cell_at(g, w, h, x, y),
            neighbor_count(g, w, h, x, y),
        ));
    }
}

/// The blinker oscillates with period 2: after one generation the
/// horizontal 3-cell line has become the vertical one, and after two it is
/// back in its original form.
pub proof fn lemma_blinker_period_two(g: Seq<Seq<bool>>, w: int, h: int, cx: int, cy: int)
    requires
        grid_wf(g, w, h),
        5 <= w,
        5 <= h,
        0 <= cx,
        cx + 2 < w,
        0 <= cy < h,
        horiz_blinker_only(g, w, h, cx, cy),
    ensures
        vert_blinker_only(step_grid(g, w, h), w, h, cx, cy),
        step_grid(step_grid(g, w, h), w, h) =~~= g,
{
    lemma_blinker_step(g, w, h, cx, cy);
    lemma_blinker_step_back(step_grid(g, w, h), w, h, cx, cy);
    let g2 = step_grid(step_grid(g, w, h), w, h);
    assert forall|x: int, y: int| 0 <= x < w && 0 <= y < h implies (#[trigger] g2[y][x])
        == g[y][x] by {
        assert(g2[y][x] == (y == cy && (x == cx || x == cx + 1 || x == cx + 2)));
        assert(g[y][x] == (y == cy && (x == cx || x == cx + 1 || x == cx + 2)));
    }
}

} // verus!
