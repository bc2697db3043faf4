//! Projection of the grid (plus cursor) into terminal cells. The renderer
//! computes, as plain data, every glyph the terminal should show below the
//! banner row; emitting them is left to the caller. Two densities exist:
//! coarse (one terminal row per grid row, cursor highlighted) and detail
//! (two grid rows packed into one terminal row of block glyphs).

use vstd::prelude::*;
use crate::game::Game;
use crate::model::b2i;

verus! {

/// One terminal cell to draw: position, whether it gets the cursor highlight
/// color, and the glyph.
#[derive(Clone, Copy, Debug, PartialEq, Eq, Structural)]
pub struct Patch {
    /// Terminal column.
    pub x: u16,
    /// Terminal row (row 0 is the banner and never receives a patch).
    pub y: u16,
    /// The cell under the cursor is drawn highlighted; all others are not.
    pub highlight: bool,
    /// What to print there.
    pub glyph: char,
}

/// The glyph for one cell in coarse mode.
pub open spec fn coarse_glyph_spec(alive: bool) -> char {
    if alive {
        '■'
    } else {
        '□'
    }
}

/// The 2-bit code packing two vertically adjacent cells: bit 0 is the top
/// cell, bit 1 the bottom cell.
pub open spec fn pack_spec(top: bool, bottom: bool) -> int {
    b2i(top) + 2 * b2i(bottom)
}

/// The detail-mode glyph set, indexed by the 2-bit code: empty, upper half
/// block, lower half block, full block.
pub open spec fn glyph_of_code(code: int) -> char {
    if code == 0 {
        ' '
    } else if code == 1 {
        '▀'
    } else if code == 2 {
        '▄'
    } else {
        '█'
    }
}

/// The help banner shown on terminal row 0 of every frame.
pub open spec fn banner_text() -> Seq<char> {
    "Press 'q' to quit, 's' to stop, 'v' to toggle view, 'space' to toggle cell, arrow keys to move cursor"@
}

/// The help banner shown on terminal row 0 of every frame.
pub fn banner() -> (s: &'static str)
    ensures
        s@ == banner_text(),
{
    "Press 'q' to quit, 's' to stop, 'v' to toggle view, 'space' to toggle cell, arrow keys to move cursor"
}

/// The glyph for one cell in coarse mode.
pub fn coarse_glyph(alive: bool) -> (c: char)
    ensures
        c == coarse_glyph_spec(alive),
{
    if alive {
        '■'
    } else {
        '□'
    }
}

/// The 2-bit code for two stacked cells.
pub fn pack_cells(top: bool, bottom: bool) -> (code: u8)
    ensures
        code as int == pack_spec(top, bottom),
{
    let t: u8 = if top {
        1
    } else {
        0
    };
    let b: u8 = if bottom {
        2
    } else {
        0
    };
    t + b
}

/// The detail-mode glyph for two stacked cells: the glyph whose index is
/// their 2-bit code.
pub fn detail_glyph(top: bool, bottom: bool) -> (c: char)
    ensures
        c == glyph_of_code(pack_spec(top, bottom)),
{
    let code = pack_cells(top, bottom);
    if code == 0 {
        ' '
    } else if code == 1 {
        '▀'
    } else if code == 2 {
        '▄'
    } else {
        '█'
    }
}

/// Columns drawn: never past the terminal, never past the grid.
pub open spec fn render_cols(g: Game, term_width: int) -> int {
    if term_width <= g.width {
        term_width
    } else {
        g.width as int
    }
}

/// Rows of the visible area shared by terminal and grid.
pub open spec fn render_rows(g: Game, term_height: int) -> int {
    if term_height <= g.height {
        term_height
    } else {
        g.height as int
    }
}

/// Grid rows drawn in coarse mode: the shared rows minus the banner row.
pub open spec fn coarse_rows(g: Game, term_height: int) -> int {
    if render_rows(g, term_height) >= 1 {
        render_rows(g, term_height) - 1
    } else {
        0
    }
}

/// Complete grid-row pairs drawn in detail mode. The last odd row, if any,
/// is not drawn.
pub open spec fn detail_pairs(g: Game, term_height: int) -> int {
    if render_rows(g, term_height) >= 1 {
        (render_rows(g, term_height) - 1) / 2
    } else {
        0
    }
}

/// The patch for grid cell `(x, j)` in coarse mode: terminal row `j + 1`,
/// cursor cell highlighted, live and dead cells as distinct glyphs.
pub open spec fn coarse_patch(g: Game, x: int, j: int) -> Patch {
    Patch {
        x: x as u16,
        y: (j + 1) as u16,
        highlight: g.cursor.0 == x && g.cursor.1 == j,
        glyph: coarse_glyph_spec(g.grid()[j][x]),
    }
}

/// The patch for column `x` of grid-row pair `p` in detail mode: terminal
/// row `p + 1`, no highlighting, the block glyph coding rows `2p` (top) and
/// `2p + 1` (bottom).
pub open spec fn detail_patch(g: Game, x: int, p: int) -> Patch {
    Patch {
        x: x as u16,
        y: (p + 1) as u16,
        highlight: false,
        glyph: glyph_of_code(pack_spec(g.grid()[2 * p][x], g.grid()[2 * p + 1][x])),
    }
}

/// In a row-major layout every cell of an earlier row sits before the
/// current row.
proof fn lemma_row_major_bound(jj: int, xx: int, j: int, rwi: int)
    requires
        0 <= jj < j,
        0 <= xx < rwi,
    ensures
        jj * rwi + xx < j * rwi,
{
    assert(jj * rwi + xx < j * rwi) by (nonlinear_arith)
        requires
            0 <= jj < j,
            0 <= xx < rwi,
    ;
}

impl Game {
    /// Computes one full frame below the banner row, in row-major order,
    /// for a terminal of the given current size. Drawing never indexes past
    /// the grid's stored dimensions, however the terminal has shrunk or
    /// grown since the grid was sized.
    pub fn render(&self, term_width: u16, term_height: u16) -> (frame: Vec<Patch>)
        requires
            self.wf(),
            self.detail_view ==> term_height >= 1,
        ensures
            !self.detail_view ==> frame@.len() == coarse_rows(*self, term_height as int)
                * render_cols(*self, term_width as int),
            !self.detail_view ==> forall|j: int, x: int|
                0 <= j < coarse_rows(*self, term_height as int) && 0 <= x < render_cols(
                    *self,
                    term_width as int,
                ) ==> frame@[j * render_cols(*self, term_width as int) + x] == coarse_patch(
                    *self,
                    x,
                    j,
                ),
            self.detail_view ==> frame@.len() == detail_pairs(*self, term_height as int)
                * render_cols(*self, term_width as int),
            self.detail_view ==> forall|p: int, x: int|
                0 <= p < detail_pairs(*self, term_height as int) && 0 <= x < render_cols(
                    *self,
                    term_width as int,
                ) ==> frame@[p * render_cols(*self, term_width as int) + x] == detail_patch(
                    *self,
                    x,
                    p,
                ),
    {
        let rw: u16 = if term_width <= self.width {
            term_width
        } else {
            self.width
        };
        let rh: u16 = if term_height <= self.height {
            term_height
        } else {
            self.height
        };
        let ghost rwi = rw as int;
        let mut frame: Vec<Patch> = Vec::new();
        if self.detail_view {
            let pairs: u16 = (rh - 1) / 2;
            let mut p: u16 = 0;
            while p < pairs
                invariant
                    self.wf(),
                    self.detail_view,
                    p <= pairs,
                    rwi == rw as int,
                    rwi == render_cols(*self, term_width as int),
                    pairs == detail_pairs(*self, term_height as int),
                    2 * (pairs as int) < self.height + 1,
                    frame@.len() == p * rwi,
                    forall|pp: int, xx: int|
                        0 <= pp < p && 0 <= xx < rwi ==> frame@[pp * rwi + xx] == detail_patch(
                            *self,
                            xx,
                            pp,
                        ),
                decreases pairs - p,
            {
                let mut x: u16 = 0;
                while x < rw
                    invariant
                        self.wf(),
                        self.detail_view,
                        p < pairs,
                        x <= rw,
                        rwi == rw as int,
                        rwi == render_cols(*self, term_width as int),
                        pairs == detail_pairs(*self, term_height as int),
                        2 * (pairs as int) < self.height + 1,
                        frame@.len() == p * rwi + x,
                        forall|pp: int, xx: int|
                            0 <= pp < p && 0 <= xx < rwi ==> frame@[pp * rwi + xx] == detail_patch(
                                *self,
                                xx,
                                pp,
                            ),
                        forall|xx: int|
                            0 <= xx < x ==> frame@[p * rwi + xx] == detail_patch(*self, xx, p as int),
                    decreases rw - x,
                {
                    proof {
                        assert(self.grid()[2 * (p as int)] == self.field@[2 * (p as int)]@);
                        assert(self.grid()[2 * (p as int) + 1] == self.field@[2 * (p as int) + 1]@);
                    }
                    let top = self.field[2 * p as usize][x as usize];
                    let bottom = self.field[(2 * p + 1) as usize][x as usize];
                    let glyph = detail_glyph(top, bottom);
                    frame.push(
                        Patch {
                            x,
                            y: p + 1,
                            highlight: false,
                            glyph,
                        },
                    );
                    x = x + 1;
                    proof {
                        assert forall|pp: int, xx: int|
                            0 <= pp < p && 0 <= xx < rwi implies frame@[pp * rwi + xx]
                            == detail_patch(*self, xx, pp) by {
                            lemma_row_major_bound(pp, xx, p as int, rwi);
                        }
                    }
                }
                p = p + 1;
                proof {
                    assert((p as int) * rwi == (p - 1) * rwi + rwi) by (nonlinear_arith);
                    assert forall|pp: int, xx: int|
                        0 <= pp < p && 0 <= xx < rwi implies frame@[pp * rwi + xx] == detail_patch(
                        *self,
                        xx,
                        pp,
                    ) by {
                        lemma_row_major_bound(pp, xx, p as int, rwi);
                        if pp == p - 1 {
                            assert(frame@[(p - 1) * rwi + xx] == detail_patch(*self, xx, p - 1));
                        }
                    }
                }
            }
        } else {
            let rows: u16 = if rh >= 1 {
                rh - 1
            } else {
                0
            };
            let mut j: u16 = 0;
            while j < rows
                invariant
                    self.wf(),
                    !self.detail_view,
                    j <= rows,
                    rwi == rw as int,
                    rwi == render_cols(*self, term_width as int),
                    rows == coarse_rows(*self, term_height as int),
                    rows < self.height + 1,
                    frame@.len() == j * rwi,
                    forall|jj: int, xx: int|
                        0 <= jj < j && 0 <= xx < rwi ==> frame@[jj * rwi + xx] == coarse_patch(
                            *self,
                            xx,
                            jj,
                        ),
                decreases rows - j,
            {
                let mut x: u16 = 0;
                while x < rw
                    invariant
                        self.wf(),
                        !self.detail_view,
                        j < rows,
                        x <= rw,
                        rwi == rw as int,
                        rwi == render_cols(*self, term_width as int),
                        rows == coarse_rows(*self, term_height as int),
                        rows < self.height + 1,
                        frame@.len() == j * rwi + x,
                        forall|jj: int, xx: int|
                            0 <= jj < j && 0 <= xx < rwi ==> frame@[jj * rwi + xx] == coarse_patch(
                                *self,
                                xx,
                                jj,
                            ),
                        forall|xx: int|
                            0 <= xx < x ==> frame@[j * rwi + xx] == coarse_patch(*self, xx, j as int),
                    decreases rw - x,
                {
                    proof {
                        assert(self.grid()[j as int] == self.field@[j as int]@);
                    }
                    let alive = self.field[j as usize][x as usize];
                    let highlight = self.cursor.0 == x && self.cursor.1 == j;
                    let glyph = coarse_glyph(alive);
                    frame.push(
                        Patch {
                            x,
                            y: j + 1,
                            highlight,
                            glyph,
                        },
                    );
                    x = x + 1;
                    proof {
                        assert forall|jj: int, xx: int|
                            0 <= jj < j && 0 <= xx < rwi implies frame@[jj * rwi + xx]
                            == coarse_patch(*self, xx, jj) by {
                            lemma_row_major_bound(jj, xx, j as int, rwi);
                        }
                    }
                }
                j = j + 1;
                proof {
                    assert((j as int) * rwi == (j - 1) * rwi + rwi) by (nonlinear_arith);
                    assert forall|jj: int, xx: int|
                        0 <= jj < j && 0 <= xx < rwi implies frame@[jj * rwi + xx] == coarse_patch(
                        *self,
                        xx,
                        jj,
                    ) by {
                        lemma_row_major_bound(jj, xx, j as int, rwi);
                        if jj == j - 1 {
                            assert(frame@[(j - 1) * rwi + xx] == coarse_patch(*self, xx, j - 1));
                        }
                    }
                }
            }
        }
        frame
    }
}

} // verus!
