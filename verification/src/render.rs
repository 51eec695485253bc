//! The presentation-layer lookup: two vertically adjacent grid rows pack
//! into one terminal row, and each pair of stacked cells maps to a half-block
//! glyph with a foreground and background color class.

use crate::parsers::Cell;
use crate::universe::Universe;
use vstd::prelude::*;

verus! {

/// The color class a cell renders with: newborn, stable, or the terminal's
/// own default for a dead cell.
#[derive(Clone, Copy, PartialEq, Eq, Structural, Debug)]
pub enum CellColor {
    Young,
    Old,
    Reset,
}

/// A live cell is `Young` on the generation it appeared and `Old` after
/// that; a dead cell always takes the terminal default.
pub open spec fn color_of(c: Cell) -> CellColor {
    match c {
        Cell::Alive(a) => if a == 0 {
            CellColor::Young
        } else {
            CellColor::Old
        },
        Cell::Dead(_) => CellColor::Reset,
    }
}

/// The glyph and colors for a stacked pair: an upper half-block colored by
/// the top cell over the bottom cell's color, a lower half-block colored by
/// the bottom cell when only it is alive, a blank otherwise.
pub open spec fn glyph_spec(top: Cell, bottom: Cell) -> (char, CellColor, CellColor) {
    if top.is_alive() {
        ('\u{2580}', color_of(top), color_of(bottom))
    } else if bottom.is_alive() {
        ('\u{2584}', color_of(bottom), color_of(top))
    } else {
        (' ', CellColor::Reset, CellColor::Reset)
    }
}

/// The `(glyph, foreground, background)` triple for the cell `top` stacked
/// over the cell `bottom`.
pub fn glyph_for(top: Cell, bottom: Cell) -> (r: (char, CellColor, CellColor))
    ensures
        r == glyph_spec(top, bottom),
{
    match (top, bottom) {
        (Cell::Alive(a), b) => ('\u{2580}', age_color(a), cell_color(b)),
        (Cell::Dead(_), Cell::Alive(a)) => ('\u{2584}', age_color(a), CellColor::Reset),
        (Cell::Dead(_), Cell::Dead(_)) => (' ', CellColor::Reset, CellColor::Reset),
    }
}

fn age_color(age: usize) -> (r: CellColor)
    ensures
        r == color_of(Cell::Alive(age)),
{
    if age == 0 {
        CellColor::Young
    } else {
        CellColor::Old
    }
}

fn cell_color(c: Cell) -> (r: CellColor)
    ensures
        r == color_of(c),
{
    match c {
        Cell::Alive(a) => age_color(a),
        Cell::Dead(_) => CellColor::Reset,
    }
}

/// One renderable entry per terminal cell: its column `x`, terminal row `y`,
/// and the glyph triple for grid rows `2*y` and `2*y + 1`.
pub open spec fn render_entry(u: &Universe, x: int, y: int) -> (
    usize,
    usize,
    char,
    CellColor,
    CellColor,
) {
    let g = glyph_spec(u.grid()[2 * y][x], u.grid()[2 * y + 1][x]);
    (x as usize, y as usize, g.0, g.1, g.2)
}

impl Universe {
    /// The full frame, row-major: one entry for each column of each pair of
    /// stacked grid rows (a trailing unpaired row is not drawn).
    #[verifier::loop_isolation(false)]
    pub fn render_cells(&self) -> (r: Vec<(usize, usize, char, CellColor, CellColor)>)
        requires
            self.wf(),
        ensures
            r@.len() == (self.height / 2) * self.width,
            forall|x: int, y: int|
                0 <= x < self.width && 0 <= y < self.height / 2 ==> r@[y * self.width + x]
                    == #[trigger] render_entry(self, x, y),
    {
        let mut r: Vec<(usize, usize, char, CellColor, CellColor)> = Vec::new();
        let pairs = self.height / 2;
        let mut y: usize = 0;
        while y < pairs
            invariant
                y <= pairs,
                r@.len() == y * self.width,
                forall|xx: int, yy: int|
                    0 <= xx < self.width && 0 <= yy < y ==> r@[yy * self.width + xx]
                        == #[trigger] render_entry(self, xx, yy),
            decreases pairs - y,
        {
            let mut x: usize = 0;
            proof {
                vstd::arithmetic::mul::lemma_mul_inequality(
                    y + 1,
                    pairs as int,
                    self.width as int,
                );
                vstd::arithmetic::mul::lemma_mul_is_distributive_add_other_way(
                    self.width as int,
                    y as int,
                    1,
                );
            }
            while x < self.width
                invariant
                    x <= self.width,
                    r@.len() == y * self.width + x,
                    forall|xx: int, yy: int|
                        0 <= xx < self.width && 0 <= yy < y ==> r@[yy * self.width + xx]
                            == #[trigger] render_entry(self, xx, yy),
                    forall|xx: int|
                        0 <= xx < x ==> r@[y * self.width + xx] == #[trigger] render_entry(
                            self,
                            xx,
                            y as int,
                        ),
                decreases self.width - x,
            {
                let top = self.get(2 * y, x);
                let bottom = self.get(2 * y + 1, x);
                let (ch, fg, bg) = glyph_for(top, bottom);
                r.push((x, y, ch, fg, bg));
                proof {
                    assert forall|xx: int, yy: int|
                        0 <= xx < self.width && 0 <= yy < y implies r@[yy * self.width + xx]
                        == #[trigger] render_entry(self, xx, yy) by {
                        vstd::arithmetic::mul::lemma_mul_inequality(
                            yy + 1,
                            y as int,
                            self.width as int,
                        );
                        vstd::arithmetic::mul::lemma_mul_is_distributive_add_other_way(
                            self.width as int,
                            yy,
                            1,
                        );
                        assert(yy * self.width + xx < y * self.width + x);
                    }
                }
                x = x + 1;
            }
            y = y + 1;
        }
        r
    }
}

} // verus!
