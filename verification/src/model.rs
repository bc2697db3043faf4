//! The mathematical model of the simulation: a grid is a sequence of rows of
//! booleans, coordinates wrap modulo the dimensions (toroidal topology), and
//! one generation rewrites every cell by the B3/S23 rule.

use vstd::prelude::*;

verus! {

/// A well-formed grid has `h` rows of `w` cells each, with positive dimensions.
pub open spec fn grid_wf(g: Seq<Seq<bool>>, w: int, h: int) -> bool {
    &&& 1 <= w
    &&& 1 <= h
    &&& g.len() == h
    &&& forall|y: int| 0 <= y < h ==> (#[trigger] g[y]).len() == w
}

/// Cell lookup at arbitrary integer coordinates: both axes wrap modulo the
/// dimensions, so the grid has no edges. (`%` on `int` is Euclidean, so the
/// result is in range for any input, negative ones included.)
pub open spec fn cell_at(g: Seq<Seq<bool>>, w: int, h: int, x: int, y: int) -> bool {
    g[y % h][x % w]
}

pub open spec fn b2i(b: bool) -> int {
    if b {
        1
    } else {
        0
    }
}

/// Number of live cells among the 8 Moore neighbors, with toroidal wrap.
/// Offsets are counted, not distinct cells, so on a very narrow grid one cell
/// can contribute twice.
pub open spec fn neighbor_count(g: Seq<Seq<bool>>, w: int, h: int, x: int, y: int) -> int {
    b2i(cell_at(g, w, h, x - 1, y - 1)) + b2i(cell_at(g, w, h, x, y - 1)) + b2i(
        cell_at(g, w, h, x + 1, y - 1),
    ) + b2i(cell_at(g, w, h, x - 1, y)) + b2i(cell_at(g, w, h, x + 1, y)) + b2i(
        cell_at(g, w, h, x - 1, y + 1),
    ) + b2i(cell_at(g, w, h, x, y + 1)) + b2i(cell_at(g, w, h, x + 1, y + 1))
}

/// The B3/S23 rule for one cell: a live cell survives on exactly 2 or 3 live
/// neighbors; a dead cell is born on exactly 3.
pub open spec fn next_state(alive: bool, n: int) -> bool {
    if alive {
        n == 2 || n == 3
    } else {
        n == 3
    }
}

/// One full generation: a brand-new grid in which every cell is the rule
/// applied to its old neighborhood.
pub open spec fn step_grid(g: Seq<Seq<bool>>, w: int, h: int) -> Seq<Seq<bool>> {
    Seq::new(
        h as nat,
        |y: int| Seq::new(w as nat, |x: int| next_state(cell_at(g, w, h, x, y), neighbor_count(g, w, h, x, y))),
    )
}

/// The grid after one loop iteration: unchanged while paused, stepped otherwise.
pub open spec fn tick_grid(g: Seq<Seq<bool>>, w: int, h: int, paused: bool) -> Seq<Seq<bool>> {
    if paused {
        g
    } else {
        step_grid(g, w, h)
    }
}

/// The grid after `n` loop iterations with a fixed pause flag.
pub open spec fn ticks_grid(g: Seq<Seq<bool>>, w: int, h: int, paused: bool, n: nat) -> Seq<
    Seq<bool>,
>
    decreases n,
{
    if n == 0 {
        g
    } else {
        ticks_grid(tick_grid(g, w, h, paused), w, h, paused, (n - 1) as nat)
    }
}

/// Inside the grid, wrapped lookup is plain lookup.
pub proof fn lemma_cell_at_in_range(g: Seq<Seq<bool>>, w: int, h: int, x: int, y: int)
    requires
        1 <= w,
        1 <= h,
        0 <= x < w,
        0 <= y < h,
    ensures
        cell_at(g, w, h, x, y) == g[y][x],
{
    vstd::arithmetic::div_mod::lemma_small_mod(x as nat, w as nat);
    vstd::arithmetic::div_mod::lemma_small_mod(y as nat, h as nat);
}

/// How a coordinate one step outside (or inside) the range wraps: `-1` to
/// the far end, `m` to `0`, anything already in range to itself.
pub proof fn lemma_wrap_adjacent(v: int, m: int)
    requires
        1 <= m,
        -1 <= v <= m,
    ensures
        v % m == (if v == -1 {
            m - 1
        } else if v == m {
            0int
        } else {
            v
        }),
{
    if v == -1 {
        vstd::arithmetic::div_mod::lemma_mod_add_multiples_vanish(-1, m);
        vstd::arithmetic::div_mod::lemma_small_mod((m - 1) as nat, m as nat);
    } else if v == m {
        vstd::arithmetic::div_mod::lemma_mod_add_multiples_vanish(0, m);
        vstd::arithmetic::div_mod::lemma_small_mod(0nat, m as nat);
    } else {
        vstd::arithmetic::div_mod::lemma_small_mod(v as nat, m as nat);
    }
}

} // verus!
