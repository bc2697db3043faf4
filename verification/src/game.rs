//! The simulation state: the cell matrix, its dimensions, the editing cursor,
//! and the two run-state flags. All methods are specified against the model
//! in [`crate::model`].

use vstd::prelude::*;
use crate::model::{cell_at, grid_wf, neighbor_count, next_state, step_grid, tick_grid};

verus! {

/// The whole run state of the simulator.
pub struct Game {
    /// `true` is a live cell; indexed `field[row][column]`.
    pub field: Vec<Vec<bool>>,
    /// Number of columns; always at least 1.
    pub width: u16,
    /// Number of rows; always at least 1.
    pub height: u16,
    /// While set, generations are not advanced and the grid is editable.
    pub stop: bool,
    /// Editing cursor as `(column, row)`, always inside the grid.
    pub cursor: (u16, u16),
    /// Selects the packed two-rows-per-line rendering.
    pub detail_view: bool,
}

impl Game {
    /// The grid contents as a sequence of rows.
    pub open spec fn grid(self) -> Seq<Seq<bool>> {
        Seq::new(self.field@.len(), |y: int| self.field@[y]@)
    }

    /// The state invariant: the matrix matches the stored dimensions and the
    /// cursor is in bounds.
    pub open spec fn wf(self) -> bool {
        &&& grid_wf(self.grid(), self.width as int, self.height as int)
        &&& self.cursor.0 < self.width
        &&& self.cursor.1 < self.height
    }

    /// The cell at arbitrary integer coordinates, with toroidal wrap.
    pub open spec fn alive(self, x: int, y: int) -> bool {
        cell_at(self.grid(), self.width as int, self.height as int, x, y)
    }

    /// A fresh simulation: an all-dead grid of the given size, paused, in
    /// coarse view, with the cursor at the origin.
    pub fn new(width: u16, height: u16) -> (g: Game)
        requires
            1 <= width,
            1 <= height,
        ensures
            g.wf(),
            g.width == width,
            g.height == height,
            g.stop,
            !g.detail_view,
            g.cursor == (0u16, 0u16),
            forall|x: int, y: int|
                0 <= x < width && 0 <= y < height ==> !(#[trigger] g.grid()[y][x]),
    {
        Game {
            field: dead_field(width, height),
            width,
            height,
            stop: true,
            cursor: (0, 0),
            detail_view: false,
        }
    }
}

impl Game {
    /// The live/dead state of the cell at the given coordinates, which may be
    /// negative or past either edge: both axes wrap around (toroidal grid).
    pub fn is_alive_at(&self, x: i32, y: i32) -> (r: bool)
        requires
            self.wf(),
        ensures
            r == self.alive(x as int, y as int),
    {
        let nx = wrap_coord(x, self.width);
        let ny = wrap_coord(y, self.height);
        proof {
            crate::model::lemma_cell_at_in_range(
                self.grid(),
                self.width as int,
                self.height as int,
                nx as int,
                ny as int,
            );
            vstd::arithmetic::div_mod::lemma_mod_twice(x as int, self.width as int);
            vstd::arithmetic::div_mod::lemma_mod_twice(y as int, self.height as int);
        }
        self.field[ny as usize][nx as usize]
    }

    /// Flips the cell under the cursor; everything else is untouched.
    pub fn toggle_cell(&mut self)
        requires
            old(self).wf(),
        ensures
            final(self).wf(),
            final(self).width == old(self).width,
            final(self).height == old(self).height,
            final(self).stop == old(self).stop,
            final(self).cursor == old(self).cursor,
            final(self).detail_view == old(self).detail_view,
            final(self).grid()[old(self).cursor.1 as int][old(self).cursor.0 as int] == !old(
                self,
            ).grid()[old(self).cursor.1 as int][old(self).cursor.0 as int],
            forall|x: int, y: int|
                0 <= x < old(self).width && 0 <= y < old(self).height && !(x == old(self).cursor.0
                    && y == old(self).cursor.1) ==> #[trigger] final(self).grid()[y][x] == old(
                    self,
                ).grid()[y][x],
    {
        let x = self.cursor.0 as usize;
        let y = self.cursor.1 as usize;
        proof {
            assert(self.grid()[y as int] == self.field@[y as int]@);
        }
        let cur = self.field[y][x];
        self.field[y][x] = !cur;
        proof {
            let c0 = old(self).cursor.0 as int;
            let c1 = old(self).cursor.1 as int;
            assert(self.grid()[c1] == self.field@[c1]@);
            assert(self.field@[c1]@ == old(self).field@[c1]@.update(c0, !old(self).grid()[c1][c0]));
            assert forall|yy: int| 0 <= yy < old(self).height && yy != c1 implies #[trigger] self
                .grid()[yy] == old(self).grid()[yy] by {
                assert(self.field@[yy] == old(self).field@[yy]);
            }
            assert forall|yy: int| 0 <= yy < old(self).height implies (#[trigger] self
                .grid()[yy]).len() == old(self).width by {
                if yy != c1 {
                    assert(self.grid()[yy] == old(self).grid()[yy]);
                }
            }
        }
    }

    /// Adapts to a new window size: the matrix is reallocated fully dead (an
    /// intentional full reset of the board content) and the cursor is clamped
    /// into the new bounds.
    pub fn resize(&mut self, new_width: u16, new_height: u16)
        requires
            old(self).wf(),
            1 <= new_width,
            1 <= new_height,
        ensures
            final(self).wf(),
            final(self).width == new_width,
            final(self).height == new_height,
            final(self).stop == old(self).stop,
            final(self).detail_view == old(self).detail_view,
            forall|x: int, y: int|
                0 <= x < new_width && 0 <= y < new_height ==> !(#[trigger] final(self).grid()[y][x]),
            final(self).cursor.0 == (if old(self).cursor.0 < new_width {
                old(self).cursor.0
            } else {
                (new_width - 1) as u16
            }),
            final(self).cursor.1 == (if old(self).cursor.1 < new_height {
                old(self).cursor.1
            } else {
                (new_height - 1) as u16
            }),
    {
        self.field = dead_field(new_width, new_height);
        self.width = new_width;
        self.height = new_height;
        let cx = if self.cursor.0 < new_width {
            self.cursor.0
        } else {
            new_width - 1
        };
        let cy = if self.cursor.1 < new_height {
            self.cursor.1
        } else {
            new_height - 1
        };
        self.cursor = (cx, cy);
    }
}

impl Game {
    /// Live cells among the 8 Moore neighbors of an in-bounds cell, counted
    /// with toroidal wrap.
    fn count_live_neighbors(&self, x: u16, y: u16) -> (n: u8)
        requires
            self.wf(),
            x < self.width,
            y < self.height,
        ensures
            n as int == neighbor_count(
                self.grid(),
                self.width as int,
                self.height as int,
                x as int,
                y as int,
            ),
    {
        let xi = x as i32;
        let yi = y as i32;
        let mut n: u8 = 0;
        if self.is_alive_at(xi - 1, yi - 1) {
            n = n + 1;
        }
        if self.is_alive_at(xi, yi - 1) {
            n = n + 1;
        }
        if self.is_alive_at(xi + 1, yi - 1) {
            n = n + 1;
        }
        if self.is_alive_at(xi - 1, yi) {
            n = n + 1;
        }
        if self.is_alive_at(xi + 1, yi) {
            n = n + 1;
        }
        if self.is_alive_at(xi - 1, yi + 1) {
            n = n + 1;
        }
        if self.is_alive_at(xi, yi + 1) {
            n = n + 1;
        }
        if self.is_alive_at(xi + 1, yi + 1) {
            n = n + 1;
        }
        n
    }

    /// One generation: the whole matrix is replaced by a brand-new one in
    /// which every cell is the B3/S23 rule applied to its old neighborhood.
    /// The input matrix is only read, never mutated, while scanning.
    pub fn step(&mut self)
        requires
            old(self).wf(),
        ensures
            final(self).wf(),
            final(self).width == old(self).width,
            final(self).height == old(self).height,
            final(self).stop == old(self).stop,
            final(self).cursor == old(self).cursor,
            final(self).detail_view == old(self).detail_view,
            final(self).grid() == step_grid(
                old(self).grid(),
                old(self).width as int,
                old(self).height as int,
            ),
    {
        let ghost w = self.width as int;
        let ghost h = self.height as int;
        let mut new_field: Vec<Vec<bool>> = Vec::new();
        let mut y: u16 = 0;
        while y < self.height
            invariant
                self.wf(),
                self == old(self),
                y <= self.height,
                w == self.width as int,
                h == self.height as int,
                new_field@.len() == y,
                forall|yy: int|
                    0 <= yy < y ==> (#[trigger] new_field@[yy])@.len() == self.width,
                forall|yy: int, xx: int|
                    0 <= yy < y && 0 <= xx < self.width ==> #[trigger] new_field@[yy]@[xx]
                        == next_state(
                        cell_at(self.grid(), w, h, xx, yy),
                        neighbor_count(self.grid(), w, h, xx, yy),
                    ),
            decreases self.height - y,
        {
            let mut row: Vec<bool> = Vec::new();
            let mut x: u16 = 0;
            while x < self.width
                invariant
                    self.wf(),
                    self == old(self),
                    y < self.height,
                    x <= self.width,
                    w == self.width as int,
                    h == self.height as int,
                    row@.len() == x,
                    forall|xx: int|
                        0 <= xx < x ==> #[trigger] row@[xx] == next_state(
                            cell_at(self.grid(), w, h, xx, y as int),
                            neighbor_count(self.grid(), w, h, xx, y as int),
                        ),
                decreases self.width - x,
            {
                let alive = self.is_alive_at(x as i32, y as i32);
                let n = self.count_live_neighbors(x, y);
                let next = if alive {
                    n == 2 || n == 3
                } else {
                    n == 3
                };
                row.push(next);
                x = x + 1;
            }
            new_field.push(row);
            y = y + 1;
        }
        self.field = new_field;
        proof {
            assert(self.grid() =~~= step_grid(old(self).grid(), w, h));
        }
    }

    /// One loop iteration's worth of simulation: a no-op while paused, one
    /// generation otherwise. Nothing but the matrix ever changes.
    pub fn tick(&mut self)
        requires
            old(self).wf(),
        ensures
            final(self).wf(),
            final(self).width == old(self).width,
            final(self).height == old(self).height,
            final(self).stop == old(self).stop,
            final(self).cursor == old(self).cursor,
            final(self).detail_view == old(self).detail_view,
            final(self).grid() == tick_grid(
                old(self).grid(),
                old(self).width as int,
                old(self).height as int,
                old(self).stop,
            ),
            old(self).stop ==> *final(self) == *old(self),
    {
        if !self.stop {
            self.step();
        }
    }
}

/// A keyboard command, already decoded from whatever the terminal reported.
/// Anything that is not one of the bound keys arrives as `Other` and is
/// ignored.
#[derive(Clone, Copy, Debug, PartialEq, Eq, Structural)]
pub enum Key {
    /// Terminate the loop.
    Quit,
    /// Flip the pause flag.
    Stop,
    /// Flip the render density.
    ToggleView,
    /// Flip the cell under the cursor.
    ToggleCell,
    /// Move the cursor one row up.
    Up,
    /// Move the cursor one row down.
    Down,
    /// Move the cursor one column left.
    Left,
    /// Move the cursor one column right.
    Right,
    /// Any unbound key.
    Other,
}

/// The command bound to a character key: `q` quits, `s` stops, `v` toggles
/// the view, space toggles the cell, and `hjkl` move the cursor.
pub open spec fn key_spec(c: char) -> Key {
    if c == 'q' {
        Key::Quit
    } else if c == 's' {
        Key::Stop
    } else if c == 'v' {
        Key::ToggleView
    } else if c == ' ' {
        Key::ToggleCell
    } else if c == 'k' {
        Key::Up
    } else if c == 'j' {
        Key::Down
    } else if c == 'h' {
        Key::Left
    } else if c == 'l' {
        Key::Right
    } else {
        Key::Other
    }
}

/// Decodes a character key into its command.
pub fn key_of_char(c: char) -> (k: Key)
    ensures
        k == key_spec(c),
{
    if c == 'q' {
        Key::Quit
    } else if c == 's' {
        Key::Stop
    } else if c == 'v' {
        Key::ToggleView
    } else if c == ' ' {
        Key::ToggleCell
    } else if c == 'k' {
        Key::Up
    } else if c == 'j' {
        Key::Down
    } else if c == 'h' {
        Key::Left
    } else if c == 'l' {
        Key::Right
    } else {
        Key::Other
    }
}

impl Game {
    /// Dispatches one keyboard command. Returns whether the loop goes on:
    /// `false` exactly on [`Key::Quit`]. Cursor moves are clamped at the
    /// grid edges: a move beyond an edge leaves the cursor unchanged (no
    /// wraparound, unlike the simulation's neighbor lookup).
    pub fn handle_input(&mut self, key: Key) -> (cont: bool)
        requires
            old(self).wf(),
        ensures
            final(self).wf(),
            cont == (key != Key::Quit),
            final(self).width == old(self).width,
            final(self).height == old(self).height,
            key == Key::Quit ==> *final(self) == *old(self),
            key == Key::Other ==> *final(self) == *old(self),
            key == Key::Stop ==> final(self).stop == !old(self).stop
                && final(self).grid() == old(self).grid()
                && final(self).cursor == old(self).cursor
                && final(self).detail_view == old(self).detail_view,
            key == Key::ToggleView ==> final(self).detail_view == !old(self).detail_view
                && final(self).grid() == old(self).grid()
                && final(self).cursor == old(self).cursor
                && final(self).stop == old(self).stop,
            key == Key::ToggleCell ==> final(self).cursor == old(self).cursor
                && final(self).stop == old(self).stop
                && final(self).detail_view == old(self).detail_view
                && final(self).grid()[old(self).cursor.1 as int][old(self).cursor.0 as int]
                    == !old(self).grid()[old(self).cursor.1 as int][old(self).cursor.0 as int]
                && (forall|x: int, y: int|
                    0 <= x < old(self).width && 0 <= y < old(self).height
                        && !(x == old(self).cursor.0 && y == old(self).cursor.1)
                        ==> #[trigger] final(self).grid()[y][x] == old(self).grid()[y][x]),
            (key == Key::Up || key == Key::Down || key == Key::Left || key == Key::Right)
                ==> final(self).grid() == old(self).grid()
                    && final(self).stop == old(self).stop
                    && final(self).detail_view == old(self).detail_view,
            key == Key::Up ==> final(self).cursor.0 == old(self).cursor.0
                && final(self).cursor.1 as int == (if old(self).cursor.1 > 0 {
                    old(self).cursor.1 - 1
                } else {
                    0int
                }),
            key == Key::Down ==> final(self).cursor.0 == old(self).cursor.0
                && final(self).cursor.1 as int == (if old(self).cursor.1 + 1 < old(self).height {
                    old(self).cursor.1 + 1
                } else {
                    old(self).cursor.1 as int
                }),
            key == Key::Left ==> final(self).cursor.1 == old(self).cursor.1
                && final(self).cursor.0 as int == (if old(self).cursor.0 > 0 {
                    old(self).cursor.0 - 1
                } else {
                    0int
                }),
            key == Key::Right ==> final(self).cursor.1 == old(self).cursor.1
                && final(self).cursor.0 as int == (if old(self).cursor.0 + 1 < old(self).width {
                    old(self).cursor.0 + 1
                } else {
                    old(self).cursor.0 as int
                }),
    {
        match key {
            Key::Quit => {
                return false;
            },
            Key::Stop => {
                self.stop = !self.stop;
            },
            Key::ToggleView => {
                self.detail_view = !self.detail_view;
            },
            Key::ToggleCell => {
                self.toggle_cell();
            },
            Key::Up => {
                if 0 < self.cursor.1 {
                    self.cursor = (self.cursor.0, self.cursor.1 - 1);
                }
            },
            Key::Down => {
                if self.cursor.1 < self.height - 1 {
                    self.cursor = (self.cursor.0, self.cursor.1 + 1);
                }
            },
            Key::Left => {
                if 0 < self.cursor.0 {
                    self.cursor = (self.cursor.0 - 1, self.cursor.1);
                }
            },
            Key::Right => {
                if self.cursor.0 < self.width - 1 {
                    self.cursor = (self.cursor.0 + 1, self.cursor.1);
                }
            },
            Key::Other => {},
        }
        true
    }
}

/// Euclidean reduction of an arbitrary coordinate into `[0, m)`: the result
/// is the mathematical remainder, also for negative inputs.
fn wrap_coord(v: i32, m: u16) -> (r: u16)
    requires
        1 <= m,
    ensures
        r == (v as int) % (m as int),
        r < m,
{
    proof {
        vstd::arithmetic::div_mod::lemma_mod_bound(v as int, m as int);
    }
    if v >= 0 {
        ((v as u32) % (m as u32)) as u16
    } else {
        let neg: u64 = (-(v as i64)) as u64;
        let rem: u64 = neg % (m as u64);
        proof {
            let q = (neg as int) / (m as int);
            vstd::arithmetic::div_mod::lemma_fundamental_div_mod(neg as int, m as int);
            if rem == 0 {
                assert(v as int == (-q) * (m as int)) by (nonlinear_arith)
                    requires
                        neg as int == (m as int) * q + (rem as int),
                        rem == 0,
                        v as int == -(neg as int),
                ;
                vstd::arithmetic::div_mod::lemma_mod_multiples_basic(-q, m as int);
            } else {
                assert(v as int == (-q - 1) * (m as int) + ((m as int) - (rem as int)))
                    by (nonlinear_arith)
                    requires
                        neg as int == (m as int) * q + (rem as int),
                        v as int == -(neg as int),
                ;
                vstd::arithmetic::div_mod::lemma_fundamental_div_mod_converse(
                    v as int,
                    m as int,
                    -q - 1,
                    (m as int) - (rem as int),
                );
            }
        }
        if rem == 0 {
            0
        } else {
            m - (rem as u16)
        }
    }
}

/// One all-dead row of the given width.
fn dead_row(width: u16) -> (r: Vec<bool>)
    ensures
        r@.len() == width,
        forall|i: int| 0 <= i < width ==> !r@[i],
{
    let mut r: Vec<bool> = Vec::new();
    let mut i: u16 = 0;
    while i < width
        invariant
            i <= width,
            r@.len() == i,
            forall|j: int| 0 <= j < i ==> !r@[j],
        decreases width - i,
    {
        r.push(false);
        i = i + 1;
    }
    r
}

/// An all-dead matrix of the given dimensions.
fn dead_field(width: u16, height: u16) -> (f: Vec<Vec<bool>>)
    ensures
        f@.len() == height,
        forall|y: int| 0 <= y < height ==> (#[trigger] f@[y])@.len() == width,
        forall|x: int, y: int| 0 <= x < width && 0 <= y < height ==> !(#[trigger] f@[y]@[x]),
{
    let mut f: Vec<Vec<bool>> = Vec::new();
    let mut i: u16 = 0;
    while i < height
        invariant
            i <= height,
            f@.len() == i,
            forall|y: int| 0 <= y < i ==> (#[trigger] f@[y])@.len() == width,
            forall|x: int, y: int| 0 <= x < width && 0 <= y < i ==> !(#[trigger] f@[y]@[x]),
        decreases height - i,
    {
        f.push(dead_row(width));
        i = i + 1;
    }
    f
}

} // verus!
