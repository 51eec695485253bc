//! The rule-table laws, stated over the same spec functions the engine's
//! contracts use: what [`crate::universe::Universe::tick`] promises cell by
//! cell, these lemmas pin down as laws of the transition rule itself.

use crate::parsers::Cell;
use crate::universe::{
    grid_wf, live_neighbors, sat_inc, seeded, spec_step, spec_tick_grid, stamp_hit, wrap_dec,
    wrap_inc, Universe,
};
use vstd::prelude::*;

verus! {

/// A live cell with fewer than 2 or more than 3 live (toroidal) neighbors
/// transitions to dead at age 0 on the next tick, whatever its prior age.
/// (A dead cell in the same situation instead stays dead and grows older.)
pub proof fn lemma_sparse_or_crowded_dies(g: Seq<Seq<Cell>>, w: int, h: int, r: int, c: int)
    requires
        g[r][c].is_alive(),
        live_neighbors(g, w, h, r, c) < 2 || live_neighbors(g, w, h, r, c) > 3,
    ensures
        spec_step(g, w, h, r, c) == Cell::Dead(0usize),
{
}

/// A dead cell with exactly 3 live neighbors is born at age 0; a live cell
/// with 2 or 3 live neighbors survives, its age one higher (saturating at
/// the representable maximum).
pub proof fn lemma_birth_and_survival(g: Seq<Seq<Cell>>, w: int, h: int, r: int, c: int)
    ensures
        !g[r][c].is_alive() && live_neighbors(g, w, h, r, c) == 3 ==> spec_step(g, w, h, r, c)
            == Cell::Alive(0usize),
        g[r][c].is_alive() && (live_neighbors(g, w, h, r, c) == 2 || live_neighbors(g, w, h, r, c)
            == 3) ==> spec_step(g, w, h, r, c) == Cell::Alive(sat_inc(g[r][c].age())),
        g[r][c].is_alive() && g[r][c].age() < usize::MAX && (live_neighbors(g, w, h, r, c) == 2
            || live_neighbors(g, w, h, r, c) == 3) ==> spec_step(g, w, h, r, c).age() == g[r][c].age()
            + 1,
{
}

/// Age resets to exactly 0 on any tick where a cell's state flips, and
/// grows by exactly 1 on any tick where it does not (saturating at the
/// representable maximum).
pub proof fn lemma_age_tracks_flips(g: Seq<Seq<Cell>>, w: int, h: int, r: int, c: int)
    ensures
        spec_step(g, w, h, r, c).is_alive() != g[r][c].is_alive() ==> spec_step(
            g,
            w,
            h,
            r,
            c,
        ).age() == 0,
        spec_step(g, w, h, r, c).is_alive() == g[r][c].is_alive() ==> spec_step(
            g,
            w,
            h,
            r,
            c,
        ).age() == sat_inc(g[r][c].age()),
        spec_step(g, w, h, r, c).is_alive() == g[r][c].is_alive() && g[r][c].age() < usize::MAX
            ==> spec_step(g, w, h, r, c).age() == g[r][c].age() + 1,
{
}

/// Neighbor counting wraps: a live cell at `(0, 0)` is counted by the
/// opposite corner `(h - 1, w - 1)` and by the far-edge cells `(h - 1, 0)`
/// and `(0, w - 1)`.
pub proof fn lemma_neighbors_wrap(g: Seq<Seq<Cell>>, w: int, h: int)
    requires
        grid_wf(g, w, h),
        2 <= w,
        2 <= h,
        g[0][0].is_alive(),
    ensures
        live_neighbors(g, w, h, h - 1, w - 1) >= 1,
        live_neighbors(g, w, h, h - 1, 0) >= 1,
        live_neighbors(g, w, h, 0, w - 1) >= 1,
{
    assert(wrap_inc(h - 1, h) == 0);
    assert(wrap_inc(w - 1, w) == 0);
    assert(wrap_dec(0, w) == w - 1);
    assert(wrap_dec(0, h) == h - 1);
}

/// Exactly the three cells of a vertical bar at column `c0 + 1`, rows `r0`
/// to `r0 + 2`, are alive: the blinker's upright orientation, placed with
/// its local offsets `(1, 0)`, `(1, 1)`, `(1, 2)` at origin `(c0, r0)`.
pub open spec fn vertical_bar(g: Seq<Seq<Cell>>, w: int, h: int, r0: int, c0: int) -> bool {
    forall|r: int, c: int|
        0 <= r < h && 0 <= c < w ==> ((#[trigger] g[r][c]).is_alive() <==> (c == c0 + 1 && r0 <= r
            <= r0 + 2))
}

/// Exactly the three cells of a horizontal bar at row `r0 + 1`, columns `c0`
/// to `c0 + 2`, are alive: the blinker's flat orientation.
pub open spec fn horizontal_bar(g: Seq<Seq<Cell>>, w: int, h: int, r0: int, c0: int) -> bool {
    forall|r: int, c: int|
        0 <= r < h && 0 <= c < w ==> ((#[trigger] g[r][c]).is_alive() <==> (r == r0 + 1 && c0 <= c
            <= c0 + 2))
}

/// Both orientations of the blinker stay at least one cell away from every
/// edge, so no wrapped neighbor read reaches a live cell.
pub open spec fn blinker_margins(w: int, h: int, r0: int, c0: int) -> bool {
    &&& 1 <= r0
    &&& r0 + 4 <= h
    &&& 1 <= c0
    &&& c0 + 4 <= w
}

/// One tick turns the upright blinker into the flat one.
#[verifier::rlimit(60)]
pub proof fn lemma_blinker_flips(g: Seq<Seq<Cell>>, w: int, h: int, r0: int, c0: int)
    requires
        grid_wf(g, w, h),
        blinker_margins(w, h, r0, c0),
        vertical_bar(g, w, h, r0, c0),
    ensures
        grid_wf(spec_tick_grid(g, w, h), w, h),
        horizontal_bar(spec_tick_grid(g, w, h), w, h, r0, c0),
{
    let g1 = spec_tick_grid(g, w, h);
    assert forall|r: int, c: int| 0 <= r < h && 0 <= c < w implies ((#[trigger] g1[r][c]).is_alive()
        <==> (r == r0 + 1 && c0 <= c <= c0 + 2)) by {
        assert(g1[r][c] == spec_step(g, w, h, r, c));
        let up = wrap_dec(r, h);
        let down = wrap_inc(r, h);
        let left = wrap_dec(c, w);
        let right = wrap_inc(c, w);
        assert(0 <= up < h && 0 <= down < h && 0 <= left < w && 0 <= right < w);
    }
}

/// One tick turns the flat blinker back into the upright one.
#[verifier::rlimit(60)]
pub proof fn lemma_blinker_flips_back(g: Seq<Seq<Cell>>, w: int, h: int, r0: int, c0: int)
    requires
        grid_wf(g, w, h),
        blinker_margins(w, h, r0, c0),
        horizontal_bar(g, w, h, r0, c0),
    ensures
        grid_wf(spec_tick_grid(g, w, h), w, h),
        vertical_bar(spec_tick_grid(g, w, h), w, h, r0, c0),
{
    let g1 = spec_tick_grid(g, w, h);
    assert forall|r: int, c: int| 0 <= r < h && 0 <= c < w implies ((#[trigger] g1[r][c]).is_alive()
        <==> (c == c0 + 1 && r0 <= r <= r0 + 2)) by {
        assert(g1[r][c] == spec_step(g, w, h, r, c));
        let up = wrap_dec(r, h);
        let down = wrap_inc(r, h);
        let left = wrap_dec(c, w);
        let right = wrap_inc(c, w);
        assert(0 <= up < h && 0 <= down < h && 0 <= left < w && 0 <= right < w);
    }
}

/// A blinker stamped away from the edges of a grid large enough to avoid
/// wraparound interference alternates between its vertical and horizontal
/// orientation every tick, and after exactly two ticks every cell is back in
/// its original state.
pub proof fn lemma_blinker_oscillates(g: Seq<Seq<Cell>>, w: int, h: int, r0: int, c0: int)
    requires
        grid_wf(g, w, h),
        blinker_margins(w, h, r0, c0),
        vertical_bar(g, w, h, r0, c0),
    ensures
        horizontal_bar(spec_tick_grid(g, w, h), w, h, r0, c0),
        vertical_bar(spec_tick_grid(spec_tick_grid(g, w, h), w, h), w, h, r0, c0),
        forall|r: int, c: int|
            0 <= r < h && 0 <= c < w ==> ((#[trigger] spec_tick_grid(
                spec_tick_grid(g, w, h),
                w,
                h,
            )[r][c]).is_alive() == g[r][c].is_alive()),
{
    lemma_blinker_flips(g, w, h, r0, c0);
    lemma_blinker_flips_back(spec_tick_grid(g, w, h), w, h, r0, c0);
}

/// Seeding from a pattern whose live cells are exactly the blinker offsets
/// `(1, 0)`, `(1, 1)`, `(1, 2)` leaves the upright blinker on the grid, its
/// local origin at the grid midpoint.
pub proof fn lemma_seeded_blinker_is_upright(pre: Universe, post: Universe, w: int, h: int)
    requires
        seeded(pre, post, w, h),
        pre.pattern is Some,
        pre.pattern.unwrap()@.cells =~= seq![(1int, 0int), (1int, 1int), (1int, 2int)],
    ensures
        grid_wf(post.grid(), w, h),
        vertical_bar(post.grid(), w, h, h / 2, w / 2),
{
    let cells = pre.pattern.unwrap()@.cells;
    crate::universe::lemma_wf_grid(post);
    assert forall|r: int, c: int| 0 <= r < h && 0 <= c < w implies ((#[trigger] post.grid()[r][c]).is_alive()
        <==> (c == w / 2 + 1 && h / 2 <= r <= h / 2 + 2)) by {
        if stamp_hit(cells, w, h, r, c) {
            let i = choose|i: int|
                0 <= i < cells.len() && (#[trigger] cells[i]).0 + w / 2 == c && cells[i].1 + h / 2
                    == r;
            assert(cells[i].0 == 1 && 0 <= cells[i].1 <= 2);
        }
        if c == w / 2 + 1 && h / 2 <= r <= h / 2 + 2 {
            assert(cells[r - h / 2] == (1int, r - h / 2));
            assert(stamp_hit(cells, w, h, r, c));
        }
    }
}

} // verus!

