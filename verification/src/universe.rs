//! The automaton engine: a toroidal `width x height` grid of [`Cell`]s that
//! advances one generation per [`Universe::tick`], seeded either by stamping
//! a decoded [`Pattern`] centered on the grid midpoint or by randomizing
//! every cell, and mutated point-wise through [`Universe::set_cell`].

use crate::parsers::{Cell, Pattern};
use vstd::prelude::*;

verus! {

/// A driver request the engine can act on.
#[derive(Clone, Copy, PartialEq, Eq, Structural, Debug)]
pub enum Action {
    Tick,
    Insert(usize, usize),
    TogglePause,
    Resize(usize, usize),
    UseHalfBlockFull,
    UseHalfBlockUpper,
    UseHalfBlockLower,
}

/// Which logical grid row(s) a terminal cell click addresses: the upper of
/// the two packed rows, the lower, or both.
#[derive(Clone, Copy, PartialEq, Eq, Structural, Debug)]
pub enum HalfBlock {
    Full,
    Upper,
    Lower,
}

/// The one failure a direct mutation request can raise: coordinates outside
/// the grid.
#[derive(Clone, Copy, PartialEq, Eq, Structural, Debug)]
pub enum UniverseError {
    OutOfBounds,
}

/// The row above `i` on a torus of `n` rows.
pub open spec fn wrap_dec(i: int, n: int) -> int {
    if i == 0 {
        n - 1
    } else {
        i - 1
    }
}

/// The row below `i` on a torus of `n` rows.
pub open spec fn wrap_inc(i: int, n: int) -> int {
    if i + 1 == n {
        0
    } else {
        i + 1
    }
}

fn wrap_dec_idx(i: usize, n: usize) -> (r: usize)
    requires
        1 <= n,
        i < n,
    ensures
        r == wrap_dec(i as int, n as int),
        r < n,
{
    if i == 0 {
        n - 1
    } else {
        i - 1
    }
}

fn wrap_inc_idx(i: usize, n: usize) -> (r: usize)
    requires
        1 <= n,
        i < n,
    ensures
        r == wrap_inc(i as int, n as int),
        r < n,
{
    if i + 1 == n {
        0
    } else {
        i + 1
    }
}

/// The views of the rows of a cell matrix.
pub open spec fn rows_view(rows: Seq<Vec<Cell>>) -> Seq<Seq<Cell>> {
    Seq::new(rows.len(), |i: int| rows[i]@)
}

/// A `w x h` matrix in row-major order.
pub open spec fn grid_wf(g: Seq<Seq<Cell>>, w: int, h: int) -> bool {
    &&& g.len() == h
    &&& forall|r: int| 0 <= r < h ==> (#[trigger] g[r]).len() == w
}

/// A `w x h` cell storage in row-major order.
pub open spec fn rows_wf(rows: Seq<Vec<Cell>>, w: int, h: int) -> bool {
    &&& rows.len() == h
    &&& forall|r: int| 0 <= r < h ==> (#[trigger] rows[r])@.len() == w
}

pub open spec fn b2i(b: bool) -> int {
    if b {
        1
    } else {
        0
    }
}

/// How many of the 8 toroidally-wrapped Moore neighbors of `(r, c)` are
/// alive. Each of the 8 neighbor reads counts separately, so on a grid
/// narrower than 3 a live cell can be counted through more than one read.
pub open spec fn live_neighbors(g: Seq<Seq<Cell>>, w: int, h: int, r: int, c: int) -> int {
    let up = wrap_dec(r, h);
    let down = wrap_inc(r, h);
    let left = wrap_dec(c, w);
    let right = wrap_inc(c, w);
    b2i(g[up][left].is_alive()) + b2i(g[up][c].is_alive()) + b2i(g[up][right].is_alive()) + b2i(
        g[r][left].is_alive(),
    ) + b2i(g[r][right].is_alive()) + b2i(g[down][left].is_alive()) + b2i(g[down][c].is_alive())
        + b2i(g[down][right].is_alive())
}

/// An age one higher, saturating at the representable maximum.
pub open spec fn sat_inc(a: usize) -> usize {
    if a == usize::MAX {
        a
    } else {
        (a + 1) as usize
    }
}

/// The transition rule for one cell: a live cell survives on 2 or 3 live
/// neighbors and otherwise dies; a dead cell is born on exactly 3; a cell
/// whose state flips restarts its age at 0, any other cell grows older by 1.
pub open spec fn next_cell(cur: Cell, n: int) -> Cell {
    match cur {
        Cell::Alive(a) => if n < 2 || n > 3 {
            Cell::Dead(0usize)
        } else {
            Cell::Alive(sat_inc(a))
        },
        Cell::Dead(a) => if n == 3 {
            Cell::Alive(0usize)
        } else {
            Cell::Dead(sat_inc(a))
        },
    }
}

/// The next generation of the cell at `(r, c)`, read off the current grid.
pub open spec fn spec_step(g: Seq<Seq<Cell>>, w: int, h: int, r: int, c: int) -> Cell {
    next_cell(g[r][c], live_neighbors(g, w, h, r, c))
}

/// One whole generation, every cell computed from the same snapshot.
pub open spec fn spec_tick_grid(g: Seq<Seq<Cell>>, w: int, h: int) -> Seq<Seq<Cell>> {
    Seq::new(h as nat, |r: int| Seq::new(w as nat, |c: int| spec_step(g, w, h, r, c)))
}

/// Some live-cell offset of `cells`, translated by the grid midpoint
/// `(w / 2, h / 2)`, lands on column `c`, row `r`.
pub open spec fn stamp_hit(cells: Seq<(int, int)>, w: int, h: int, r: int, c: int) -> bool {
    exists|i: int|
        0 <= i < cells.len() && (#[trigger] cells[i]).0 + w / 2 == c && cells[i].1 + h / 2 == r
}

/// What a re-seeding to `w x h` leaves behind: a fresh grid, stamped with the
/// held pattern when there is one (in-range offsets alive at age 0 on an
/// otherwise dead grid), else with every cell randomized at age 0.
pub open spec fn seeded(pre: Universe, post: Universe, w: int, h: int) -> bool {
    &&& post.wf()
    &&& post.width == w
    &&& post.height == h
    &&& post.pattern == pre.pattern
    &&& post.paused == pre.paused
    &&& post.half_block == pre.half_block
    &&& match pre.pattern {
        Some(p) => forall|r: int, c: int|
            0 <= r < h && 0 <= c < w ==> #[trigger] post.grid()[r][c] == (if stamp_hit(
                p@.cells,
                w,
                h,
                r,
                c,
            ) {
                Cell::Alive(0usize)
            } else {
                Cell::Dead(0usize)
            }),
        None => forall|r: int, c: int|
            0 <= r < h && 0 <= c < w ==> (#[trigger] post.grid()[r][c]).age() == 0,
    }
}

/// The automaton. The grid is exclusively owned: readers take copies through
/// [`Universe::get`].
pub struct Universe {
    pub width: usize,
    pub height: usize,
    pub cells: Vec<Vec<Cell>>,
    pub pattern: Option<Pattern>,
    pub paused: bool,
    pub half_block: HalfBlock,
}

/// Relies on `rand::random::<bool>`: a coin flip; nothing is promised of the
/// outcome.
#[verifier::external_body]
fn random_bool() -> bool {
    rand::random::<bool>()
}

impl Universe {
    /// The grid as a matrix of cells.
    pub open spec fn grid(&self) -> Seq<Seq<Cell>> {
        rows_view(self.cells@)
    }

    /// The cell storage matches the declared dimensions.
    pub open spec fn wf(&self) -> bool {
        rows_wf(self.cells@, self.width as int, self.height as int)
    }

    /// A universe that remembers the pattern to seed from (if any) and waits
    /// for its first [`Universe::init`].
    pub fn new(pattern: Option<Pattern>) -> (r: Universe)
        ensures
            r.wf(),
            r.width == 0,
            r.height == 0,
            r.pattern == pattern,
            !r.paused,
            r.half_block == HalfBlock::Full,
    {
        Universe {
            width: 0,
            height: 0,
            cells: Vec::new(),
            pattern,
            paused: false,
            half_block: HalfBlock::Full,
        }
    }

    /// A copy of the cell at `(row, col)`.
    pub fn get(&self, row: usize, col: usize) -> (r: Cell)
        requires
            self.wf(),
            row < self.height,
            col < self.width,
        ensures
            r == self.grid()[row as int][col as int],
    {
        self.cells[row][col]
    }

    /// How many of the 8 toroidally-wrapped Moore neighbors of `(row, col)`
    /// hold a live cell.
    pub fn live_neighbor_count(&self, row: usize, col: usize) -> (count: u8)
        requires
            self.wf(),
            row < self.height,
            col < self.width,
        ensures
            count as int == live_neighbors(
                self.grid(),
                self.width as int,
                self.height as int,
                row as int,
                col as int,
            ),
            count <= 8,
    {
        let up = wrap_dec_idx(row, self.height);
        let down = wrap_inc_idx(row, self.height);
        let left = wrap_dec_idx(col, self.width);
        let right = wrap_inc_idx(col, self.width);
        let mut count: u8 = 0;
        if self.cells[up][left].is_live() {
            count = count + 1;
        }
        if self.cells[up][col].is_live() {
            count = count + 1;
        }
        if self.cells[up][right].is_live() {
            count = count + 1;
        }
        if self.cells[row][left].is_live() {
            count = count + 1;
        }
        if self.cells[row][right].is_live() {
            count = count + 1;
        }
        if self.cells[down][left].is_live() {
            count = count + 1;
        }
        if self.cells[down][col].is_live() {
            count = count + 1;
        }
        if self.cells[down][right].is_live() {
            count = count + 1;
        }
        count
    }

    /// Advances the simulation by one generation: every cell steps by the
    /// rule table, read off a single snapshot of the current grid.
    #[verifier::loop_isolation(false)]
    pub fn tick(&mut self)
        requires
            old(self).wf(),
        ensures
            final(self).wf(),
            final(self).width == old(self).width,
            final(self).height == old(self).height,
            final(self).pattern == old(self).pattern,
            final(self).paused == old(self).paused,
            final(self).half_block == old(self).half_block,
            final(self).grid() == spec_tick_grid(
                old(self).grid(),
                old(self).width as int,
                old(self).height as int,
            ),
    {
        let ghost g0 = self.grid();
        let ghost w = self.width as int;
        let ghost h = self.height as int;
        let mut next: Vec<Vec<Cell>> = Vec::new();
        let mut row: usize = 0;
        while row < self.height
            invariant
                row <= self.height,
                next@.len() == row,
                forall|i: int|
                    0 <= i < row ==> (#[trigger] next@[i])@ == Seq::new(
                        w as nat,
                        |c: int| spec_step(g0, w, h, i, c),
                    ),
            decreases self.height - row,
        {
            let mut line: Vec<Cell> = Vec::new();
            let mut col: usize = 0;
            while col < self.width
                invariant
                    col <= self.width,
                    line@.len() == col,
                    forall|j: int| 0 <= j < col ==> line@[j] == spec_step(g0, w, h, row as int, j),
                decreases self.width - col,
            {
                let n = self.live_neighbor_count(row, col);
                let cur = self.cells[row][col];
                let stepped = match cur {
                    Cell::Alive(a) => {
                        if n < 2 || n > 3 {
                            Cell::Dead(0)
                        } else {
                            Cell::Alive(if a == usize::MAX {
                                a
                            } else {
                                a + 1
                            })
                        }
                    },
                    Cell::Dead(a) => {
                        if n == 3 {
                            Cell::Alive(0)
                        } else {
                            Cell::Dead(if a == usize::MAX {
                                a
                            } else {
                                a + 1
                            })
                        }
                    },
                };
                line.push(stepped);
                col = col + 1;
            }
            proof {
                assert(line@ =~= Seq::new(w as nat, |c: int| spec_step(g0, w, h, row as int, c)));
            }
            next.push(line);
            row = row + 1;
        }
        self.cells = next;
        proof {
            assert forall|r: int| 0 <= r < h implies self.grid()[r] == spec_tick_grid(g0, w, h)[r]
            by {
                assert(self.grid()[r] == self.cells@[r]@);
            }
            assert(self.grid() =~= spec_tick_grid(g0, w, h));
        }
    }

    /// Forces the cell at `(row, col)` alive at age 0; out-of-range
    /// coordinates are a loud bounds failure, never a clamp.
    pub fn set_cell(&mut self, row: usize, col: usize) -> (r: Result<(), UniverseError>)
        requires
            old(self).wf(),
        ensures
            final(self).wf(),
            final(self).width == old(self).width,
            final(self).height == old(self).height,
            final(self).pattern == old(self).pattern,
            final(self).paused == old(self).paused,
            final(self).half_block == old(self).half_block,
            if row < old(self).height && col < old(self).width {
                &&& r == Ok::<(), UniverseError>(())
                &&& final(self).grid() == old(self).grid().update(
                    row as int,
                    old(self).grid()[row as int].update(col as int, Cell::Alive(0usize)),
                )
            } else {
                &&& r == Err::<(), UniverseError>(UniverseError::OutOfBounds)
                &&& *final(self) == *old(self)
            },
    {
        if row < self.height && col < self.width {
            self.cells[row][col] = Cell::Alive(0);
            proof {
                assert(self.grid() =~= old(self).grid().update(
                    row as int,
                    old(self).grid()[row as int].update(col as int, Cell::Alive(0usize)),
                ));
            }
            Ok(())
        } else {
            Err(UniverseError::OutOfBounds)
        }
    }

    /// Stamps the pattern's live cells onto the grid, translated so the
    /// pattern origin lands on the grid midpoint; offsets that fall outside
    /// the grid are silently dropped, every other cell is left alone.
    pub fn pattern(&mut self, p: &Pattern)
        requires
            old(self).wf(),
        ensures
            final(self).wf(),
            final(self).width == old(self).width,
            final(self).height == old(self).height,
            final(self).pattern == old(self).pattern,
            final(self).paused == old(self).paused,
            final(self).half_block == old(self).half_block,
            forall|r: int, c: int|
                0 <= r < old(self).height && 0 <= c < old(self).width
                    ==> #[trigger] final(self).grid()[r][c] == (if stamp_hit(
                    p@.cells,
                    old(self).width as int,
                    old(self).height as int,
                    r,
                    c,
                ) {
                    Cell::Alive(0usize)
                } else {
                    old(self).grid()[r][c]
                }),
    {
        let width = self.width;
        let height = self.height;
        stamp_cells(&mut self.cells, width, height, &p.cells);
    }

    /// Replaces the grid with a fresh `width x height` one, all dead at age
    /// 0, then stamps the held pattern centered on the midpoint, or, with no
    /// pattern, randomizes every cell with uniform probability at age 0.
    /// Degenerate dimensions are for the caller to reject or clamp first.
    #[verifier::loop_isolation(false)]
    pub fn init(&mut self, width: usize, height: usize)
        requires
            1 <= width,
            1 <= height,
        ensures
            seeded(*old(self), *final(self), width as int, height as int),
    {
        self.width = width;
        self.height = height;
        let mut grid: Vec<Vec<Cell>> = Vec::new();
        let mut row: usize = 0;
        while row < height
            invariant
                row <= height,
                grid@.len() == row,
                forall|i: int|
                    0 <= i < row ==> (#[trigger] grid@[i])@ == Seq::new(
                        width as nat,
                        |c: int| Cell::Dead(0usize),
                    ),
            decreases height - row,
        {
            let mut line: Vec<Cell> = Vec::new();
            let mut col: usize = 0;
            while col < width
                invariant
                    col <= width,
                    line@.len() == col,
                    forall|j: int| 0 <= j < col ==> line@[j] == Cell::Dead(0usize),
                decreases width - col,
            {
                line.push(Cell::Dead(0));
                col = col + 1;
            }
            proof {
                assert(line@ =~= Seq::new(width as nat, |c: int| Cell::Dead(0usize)));
            }
            grid.push(line);
            row = row + 1;
        }
        self.cells = grid;
        proof {
            assert(self.wf());
            assert(forall|r: int, c: int|
                0 <= r < height && 0 <= c < width ==> #[trigger] self.grid()[r][c] == Cell::Dead(
                    0usize,
                ));
        }
        match &self.pattern {
            Some(p) => {
                stamp_cells(&mut self.cells, width, height, &p.cells);
            },
            None => {
                let mut r: usize = 0;
                while r < height
                    invariant
                        r <= height,
                        self.wf(),
                        self.width == width,
                        self.height == height,
                        self.pattern is None,
                        self.pattern == old(self).pattern,
                        self.paused == old(self).paused,
                        self.half_block == old(self).half_block,
                        forall|i: int, j: int|
                            0 <= i < height && 0 <= j < width ==> (#[trigger] self.grid()[i][j]).age()
                                == 0,
                    decreases height - r,
                {
                    let mut c: usize = 0;
                    while c < width
                        invariant
                            r < height,
                            c <= width,
                            self.wf(),
                            self.width == width,
                            self.height == height,
                            self.pattern is None,
                            self.pattern == old(self).pattern,
                            self.paused == old(self).paused,
                            self.half_block == old(self).half_block,
                            forall|i: int, j: int|
                                0 <= i < height && 0 <= j < width ==> (#[trigger] self.grid()[i][j]).age()
                                    == 0,
                        decreases width - c,
                    {
                        let ghost before = self.grid();
                        let cell = if random_bool() {
                            Cell::Alive(0)
                        } else {
                            Cell::Dead(0)
                        };
                        proof {
                            assert(self.grid()[r as int] == self.cells@[r as int]@);
                            assert(self.cells@[r as int]@.len() == width);
                        }
                        self.cells[r][c] = cell;
                        proof {
                            assert(self.grid()[r as int] == self.cells@[r as int]@);
                            assert(forall|i: int|
                                0 <= i < height && i != r ==> #[trigger] self.grid()[i] == before[i]);
                            assert(forall|j: int|
                                0 <= j < width && j != c ==> #[trigger] self.grid()[r as int][j]
                                    == before[r as int][j]);
                            assert(self.grid()[r as int][c as int].age() == 0);
                        }
                        c = c + 1;
                    }
                    r = r + 1;
                }
            },
        }
    }

    /// Applies one driver event: `Tick` advances a generation unless paused,
    /// `Insert` forces a cell alive (failing loudly out of range), `Resize`
    /// re-seeds at the new dimensions, and the remaining events switch the
    /// pause flag or the half-block mode.
    pub fn update(&mut self, action: Action) -> (r: Result<Option<Action>, UniverseError>)
        requires
            old(self).wf(),
            action matches Action::Resize(w, h) ==> 1 <= w && 1 <= h,
        ensures
            final(self).wf(),
            match action {
                Action::Tick => {
                    &&& r == Ok::<Option<Action>, UniverseError>(None)
                    &&& final(self).width == old(self).width
                    &&& final(self).height == old(self).height
                    &&& final(self).pattern == old(self).pattern
                    &&& final(self).paused == old(self).paused
                    &&& final(self).half_block == old(self).half_block
                    &&& final(self).grid() == if old(self).paused {
                        old(self).grid()
                    } else {
                        spec_tick_grid(
                            old(self).grid(),
                            old(self).width as int,
                            old(self).height as int,
                        )
                    }
                },
                Action::Insert(row, col) => {
                    &&& final(self).width == old(self).width
                    &&& final(self).height == old(self).height
                    &&& final(self).pattern == old(self).pattern
                    &&& final(self).paused == old(self).paused
                    &&& final(self).half_block == old(self).half_block
                    &&& if row < old(self).height && col < old(self).width {
                        &&& r == Ok::<Option<Action>, UniverseError>(None)
                        &&& final(self).grid() == old(self).grid().update(
                            row as int,
                            old(self).grid()[row as int].update(col as int, Cell::Alive(0usize)),
                        )
                    } else {
                        &&& r == Err::<Option<Action>, UniverseError>(UniverseError::OutOfBounds)
                        &&& *final(self) == *old(self)
                    }
                },
                Action::TogglePause => {
                    &&& r == Ok::<Option<Action>, UniverseError>(None)
                    &&& final(self).paused == !old(self).paused
                    &&& final(self).width == old(self).width
                    &&& final(self).height == old(self).height
                    &&& final(self).pattern == old(self).pattern
                    &&& final(self).half_block == old(self).half_block
                    &&& final(self).grid() == old(self).grid()
                },
                Action::Resize(w, h) => {
                    &&& r == Ok::<Option<Action>, UniverseError>(None)
                    &&& seeded(*old(self), *final(self), w as int, h as int)
                },
                Action::UseHalfBlockFull => {
                    &&& r == Ok::<Option<Action>, UniverseError>(None)
                    &&& final(self).half_block == HalfBlock::Full
                    &&& *final(self) == Universe { half_block: HalfBlock::Full, ..*old(self) }
                },
                Action::UseHalfBlockUpper => {
                    &&& r == Ok::<Option<Action>, UniverseError>(None)
                    &&& *final(self) == Universe { half_block: HalfBlock::Upper, ..*old(self) }
                },
                Action::UseHalfBlockLower => {
                    &&& r == Ok::<Option<Action>, UniverseError>(None)
                    &&& *final(self) == Universe { half_block: HalfBlock::Lower, ..*old(self) }
                },
            },
    {
        match action {
            Action::Tick => {
                if !self.paused {
                    self.tick();
                }
                Ok(None)
            },
            Action::Insert(row, col) => {
                match self.set_cell(row, col) {
                    Ok(()) => Ok(None),
                    Err(e) => Err(e),
                }
            },
            Action::TogglePause => {
                self.paused = !self.paused;
                Ok(None)
            },
            Action::Resize(w, h) => {
                self.init(w, h);
                Ok(None)
            },
            Action::UseHalfBlockFull => {
                self.half_block = HalfBlock::Full;
                Ok(None)
            },
            Action::UseHalfBlockUpper => {
                self.half_block = HalfBlock::Upper;
                Ok(None)
            },
            Action::UseHalfBlockLower => {
                self.half_block = HalfBlock::Lower;
                Ok(None)
            },
        }
    }

    /// The actions a key press maps to: space toggles pause, the digits 1 to
    /// 3 pick the half-block mode; anything else, and key releases, do
    /// nothing.
    pub fn handle_key_events(&self, pressed: bool, key: Option<char>) -> (r: Option<Action>)
        ensures
            r == if pressed {
                match key {
                    Some(' ') => Some(Action::TogglePause),
                    Some('1') => Some(Action::UseHalfBlockFull),
                    Some('2') => Some(Action::UseHalfBlockUpper),
                    Some('3') => Some(Action::UseHalfBlockLower),
                    _ => None::<Action>,
                }
            } else {
                None::<Action>
            },
    {
        if pressed {
            match key {
                Some(' ') => Some(Action::TogglePause),
                Some('1') => Some(Action::UseHalfBlockFull),
                Some('2') => Some(Action::UseHalfBlockUpper),
                Some('3') => Some(Action::UseHalfBlockLower),
                _ => None,
            }
        } else {
            None
        }
    }

    /// The insertions a left press or drag at terminal cell `(row, col)`
    /// maps to: the upper packed grid row `2*row`, the lower `2*row + 1`, or
    /// both, after the current half-block mode.
    pub fn handle_mouse_events(&self, left: bool, row: usize, col: usize) -> (r: Vec<Action>)
        requires
            row <= (usize::MAX - 1) / 2,
        ensures
            r@ == if left {
                match self.half_block {
                    HalfBlock::Upper => seq![Action::Insert((2 * row) as usize, col)],
                    HalfBlock::Lower => seq![Action::Insert((2 * row + 1) as usize, col)],
                    HalfBlock::Full => seq![
                        Action::Insert((2 * row) as usize, col),
                        Action::Insert((2 * row + 1) as usize, col),
                    ],
                }
            } else {
                Seq::<Action>::empty()
            },
    {
        let mut r: Vec<Action> = Vec::new();
        if left {
            match self.half_block {
                HalfBlock::Upper => {
                    r.push(Action::Insert((2 * row) as usize, col));
                },
                HalfBlock::Lower => {
                    r.push(Action::Insert(2 * row + 1, col));
                },
                HalfBlock::Full => {
                    r.push(Action::Insert((2 * row) as usize, col));
                    r.push(Action::Insert(2 * row + 1, col));
                },
            }
        }
        proof {
            if left {
                match self.half_block {
                    HalfBlock::Upper => {
                        assert(r@ =~= seq![Action::Insert((2 * row) as usize, col)]);
                    },
                    HalfBlock::Lower => {
                        assert(r@ =~= seq![Action::Insert((2 * row + 1) as usize, col)]);
                    },
                    HalfBlock::Full => {
                        assert(r@ =~= seq![
                            Action::Insert((2 * row) as usize, col),
                            Action::Insert((2 * row + 1) as usize, col),
                        ]);
                    },
                }
            } else {
                assert(r@ =~= Seq::<Action>::empty());
            }
        }
        r
    }
}

impl Cell {
    /// Whether this cell is alive.
    pub fn is_live(&self) -> (r: bool)
        ensures
            r == self.is_alive(),
    {
        match self {
            Cell::Alive(_) => true,
            Cell::Dead(_) => false,
        }
    }
}

/// Exactly the translated in-range offsets of `pat` become alive at age 0;
/// every other cell keeps its value.
#[verifier::loop_isolation(false)]
fn stamp_cells(cells: &mut Vec<Vec<Cell>>, width: usize, height: usize, pat: &Vec<(isize, isize)>)
    requires
        rows_wf(old(cells)@, width as int, height as int),
    ensures
        rows_wf(final(cells)@, width as int, height as int),
        forall|r: int, c: int|
            0 <= r < height && 0 <= c < width ==> #[trigger] rows_view(final(cells)@)[r][c] == (
            if stamp_hit(crate::parsers::cells_view(pat@), width as int, height as int, r, c) {
                Cell::Alive(0usize)
            } else {
                rows_view(old(cells)@)[r][c]
            }),
{
    let ghost pv = crate::parsers::cells_view(pat@);
    let ghost orig = rows_view(cells@);
    let ghost w = width as int;
    let ghost h = height as int;
    let ox = width / 2;
    let oy = height / 2;
    let mut i: usize = 0;
    proof {
        assert forall|r: int, c: int| 0 <= r < h && 0 <= c < w implies #[trigger] rows_view(
            cells@,
        )[r][c] == (if stamp_hit(pv.take(i as int), w, h, r, c) {
            Cell::Alive(0usize)
        } else {
            orig[r][c]
        }) by {
            assert(!stamp_hit(pv.take(0), w, h, r, c));
        }
    }
    while i < pat.len()
        invariant
            i <= pat@.len(),
            rows_wf(cells@, w, h),
            forall|r: int, c: int|
                0 <= r < h && 0 <= c < w ==> #[trigger] rows_view(cells@)[r][c] == (if stamp_hit(
                    pv.take(i as int),
                    w,
                    h,
                    r,
                    c,
                ) {
                    Cell::Alive(0usize)
                } else {
                    orig[r][c]
                }),
        decreases pat@.len() - i,
    {
        let (px, py) = pat[i];
        let tx: i128 = px as i128 + ox as i128;
        let ty: i128 = py as i128 + oy as i128;
        let ghost before = rows_view(cells@);
        if 0 <= tx && tx < width as i128 && 0 <= ty && ty < height as i128 {
            let cx = tx as usize;
            let cy = ty as usize;
            proof {
                assert(rows_view(cells@)[cy as int] == cells@[cy as int]@);
                assert(cells@[cy as int]@.len() == w);
            }
            self_set(cells, cy, cx);
            proof {
                assert(rows_view(cells@)[cy as int] == cells@[cy as int]@);
                assert(pv[i as int].0 + w / 2 == cx as int && pv[i as int].1 + h / 2 == cy as int);
                assert(forall|r: int|
                    0 <= r < h && r != cy ==> #[trigger] rows_view(cells@)[r] == before[r]);
                assert(forall|c: int|
                    0 <= c < w && c != cx ==> #[trigger] rows_view(cells@)[cy as int][c]
                        == before[cy as int][c]);
                assert(rows_view(cells@)[cy as int][cx as int] == Cell::Alive(0usize));
            }
        } else {
            proof {
                assert(!(pv[i as int].0 + w / 2 < w && pv[i as int].1 + h / 2 < h && pv[i as int].0
                    + w / 2 >= 0 && pv[i as int].1 + h / 2 >= 0));
            }
        }
        proof {
            lemma_stamp_hit_step(pv, i as int, w, h);
            assert forall|r: int, c: int| 0 <= r < h && 0 <= c < w implies #[trigger] rows_view(
                cells@,
            )[r][c] == (if stamp_hit(pv.take(i + 1), w, h, r, c) {
                Cell::Alive(0usize)
            } else {
                orig[r][c]
            }) by {}
        }
        i = i + 1;
    }
    proof {
        assert(pv.take(pat@.len() as int) =~= pv);
    }
}

/// Writes a newborn live cell at `(row, col)`.
fn self_set(cells: &mut Vec<Vec<Cell>>, row: usize, col: usize)
    requires
        row < old(cells)@.len(),
        col < old(cells)@[row as int]@.len(),
    ensures
        final(cells)@.len() == old(cells)@.len(),
        final(cells)@ == old(cells)@.update(
            row as int,
            final(cells)@[row as int],
        ),
        final(cells)@[row as int]@ == old(cells)@[row as int]@.update(
            col as int,
            Cell::Alive(0usize),
        ),
{
    cells[row][col] = Cell::Alive(0);
}

/// A well-formed universe's grid is a well-formed matrix.
pub proof fn lemma_wf_grid(u: Universe)
    requires
        u.wf(),
    ensures
        grid_wf(u.grid(), u.width as int, u.height as int),
{
    assert forall|r: int| 0 <= r < u.height implies (#[trigger] u.grid()[r]).len() == u.width by {
        assert(u.grid()[r] == u.cells@[r]@);
    }
}

/// Extending the stamped prefix by one offset adds exactly that offset's
/// translated landing spot to the hits.
proof fn lemma_stamp_hit_step(cells: Seq<(int, int)>, i: int, w: int, h: int)
    requires
        0 <= i < cells.len(),
    ensures
        forall|r: int, c: int|
            #[trigger] stamp_hit(cells.take(i + 1), w, h, r, c) == (stamp_hit(
                cells.take(i),
                w,
                h,
                r,
                c,
            ) || (cells[i].0 + w / 2 == c && cells[i].1 + h / 2 == r)),
{
    assert forall|r: int, c: int| #[trigger] stamp_hit(cells.take(i + 1), w, h, r, c) == (stamp_hit(
        cells.take(i),
        w,
        h,
        r,
        c,
    ) || (cells[i].0 + w / 2 == c && cells[i].1 + h / 2 == r)) by {
        if stamp_hit(cells.take(i + 1), w, h, r, c) {
            let j = choose|j: int|
                0 <= j < cells.take(i + 1).len() && (#[trigger] cells.take(i + 1)[j]).0 + w / 2 == c
                    && cells.take(i + 1)[j].1 + h / 2 == r;
            if j < i {
                assert(cells.take(i)[j] == cells.take(i + 1)[j]);
                assert(stamp_hit(cells.take(i), w, h, r, c));
            } else {
                assert(cells.take(i + 1)[i] == cells[i]);
            }
        }
        if stamp_hit(cells.take(i), w, h, r, c) {
            let j = choose|j: int|
                0 <= j < cells.take(i).len() && (#[trigger] cells.take(i)[j]).0 + w / 2 == c
                    && cells.take(i)[j].1 + h / 2 == r;
            assert(cells.take(i + 1)[j] == cells.take(i)[j]);
            assert(stamp_hit(cells.take(i + 1), w, h, r, c));
        }
        if cells[i].0 + w / 2 == c && cells[i].1 + h / 2 == r {
            assert(cells.take(i + 1)[i] == cells[i]);
            assert(stamp_hit(cells.take(i + 1), w, h, r, c));
        }
    }
}

} // verus!
