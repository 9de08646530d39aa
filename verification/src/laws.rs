//! Laws of the engine, stated over the grid model and proved once and for
//! all: determinism of the generation step, toroidal wraparound, the block
//! still life, the blinker oscillator, and idempotence of clearing.

use vstd::prelude::*;
use crate::grid::Cell;
use crate::grid::GridView;
use crate::grid::lemma_wrap_dec;
use crate::grid::lemma_wrap_inc;

verus! {

/// The live cells of a grid are exactly the in-range coordinates of the
/// given set; every other cell is dead.
pub open spec fn live_exactly(g: GridView, live: Set<(int, int)>) -> bool {
    forall|i: int, j: int|
        0 <= i < g.height && 0 <= j < g.width ==> #[trigger] g.at(i, j) == (if live.contains(
            (i, j),
        ) {
            Cell::Alive
        } else {
            Cell::Dead
        })
}

/// Law (determinism): the generation step is a function of the grid state
/// alone — two equal states step to equal states, so repeating a tick from
/// identical copies yields identical results.
pub proof fn lemma_tick_deterministic(a: GridView, b: GridView)
    requires
        a == b,
    ensures
        a.step() == b.step(),
{
}

/// Law (clear idempotence): a cleared grid has every cell dead, and
/// clearing it again changes nothing.
pub proof fn lemma_clear_idempotent(g: GridView)
    ensures
        g.cleared().all_dead(),
        g.cleared().cleared() == g.cleared(),
{
    assert(g.cleared().cleared() =~= g.cleared());
}

/// Law (toroidal wraparound): on any well-formed grid, the cell at (0, 0)
/// counts the opposite corner (height-1, width-1) among its 8 neighbors —
/// its live-neighbor count never undercounts that corner's state. The grid
/// wraps; it does not clamp or truncate at the edges.
pub proof fn lemma_corner_is_neighbor(g: GridView)
    requires
        g.wf(),
        3 <= g.height,
        3 <= g.width,
    ensures
        g.neighbor_count(0, 0) >= g.live(g.height - 1, g.width - 1),
{
    let h = g.height as int;
    let w = g.width as int;
    lemma_wrap_dec(0, h);
    lemma_wrap_dec(0, w);
}

/// Law (toroidal wraparound, exact count): on a grid of at least 3x3 whose
/// single live cell is (0, 0), the opposite corner (height-1, width-1)
/// counts that cell among its 8 neighbors — its live-neighbor count is
/// exactly 1.
pub proof fn lemma_corner_wraparound(g: GridView)
    requires
        g.wf(),
        3 <= g.height,
        3 <= g.width,
        live_exactly(g, set![(0int, 0int)]),
    ensures
        g.neighbor_count(g.height - 1, g.width - 1) == 1,
{
    let h = g.height as int;
    let w = g.width as int;
    lemma_wrap_dec(h - 1, h);
    lemma_wrap_inc(h - 1, h);
    lemma_wrap_dec(w - 1, w);
    lemma_wrap_inc(w - 1, w);
    assert(g.at(0, 0) == Cell::Alive);
    assert(g.at(h - 2, w - 2) == Cell::Dead);
    assert(g.at(h - 2, w - 1) == Cell::Dead);
    assert(g.at(h - 2, 0) == Cell::Dead);
    assert(g.at(h - 1, w - 2) == Cell::Dead);
    assert(g.at(h - 1, 0) == Cell::Dead);
    assert(g.at(0, w - 2) == Cell::Dead);
    assert(g.at(0, w - 1) == Cell::Dead);
}

/// The four cells of a 2x2 block anchored at (r, c).
pub open spec fn block_cells(r: int, c: int) -> Set<(int, int)> {
    set![(r, c), (r, c + 1), (r + 1, c), (r + 1, c + 1)]
}

/// Law (still life): a 2x2 block of live cells, alone on a grid of at least
/// 3x3, is unchanged by a generation step: each block cell has exactly 3
/// live neighbors and every other cell has fewer or more than 3.
pub proof fn lemma_block_still_life(g: GridView, r: int, c: int)
    requires
        g.wf(),
        3 <= g.height,
        3 <= g.width,
        0 <= r,
        r + 1 < g.height,
        0 <= c,
        c + 1 < g.width,
        live_exactly(g, block_cells(r, c)),
    ensures
        g.step() == g,
{
    let h = g.height as int;
    let w = g.width as int;
    assert forall|i: int, j: int| 0 <= i < h && 0 <= j < w implies #[trigger] g.step().at(i, j)
        == g.at(i, j) by {
        g.lemma_step_at(i, j);
        lemma_wrap_dec(i, h);
        lemma_wrap_inc(i, h);
        lemma_wrap_dec(j, w);
        lemma_wrap_inc(j, w);
    }
    g.lemma_step_wf();
    g.step().lemma_pointwise_equal(g);
}

/// Law (still life, iterated): the 2x2 block is unchanged after any number
/// of generation steps.
pub proof fn lemma_block_still_life_forever(g: GridView, r: int, c: int, n: nat)
    requires
        g.wf(),
        3 <= g.height,
        3 <= g.width,
        0 <= r,
        r + 1 < g.height,
        0 <= c,
        c + 1 < g.width,
        live_exactly(g, block_cells(r, c)),
    ensures
        g.stepped(n) == g,
    decreases n,
{
    if n > 0 {
        lemma_block_still_life_forever(g, r, c, (n - 1) as nat);
        lemma_block_still_life(g, r, c);
    }
}

/// The horizontal blinker: row 1, columns 0 through 2.
pub open spec fn blinker_horizontal() -> Set<(int, int)> {
    set![(1int, 0int), (1int, 1int), (1int, 2int)]
}

/// The vertical blinker: rows 0 through 2, column 1.
pub open spec fn blinker_vertical() -> Set<(int, int)> {
    set![(0int, 1int), (1int, 1int), (2int, 1int)]
}

/// One step of the horizontal blinker, alone on a grid of at least 5x5:
/// the vertical blinker.
proof fn lemma_blinker_h_to_v(g: GridView)
    requires
        g.wf(),
        5 <= g.height,
        5 <= g.width,
        live_exactly(g, blinker_horizontal()),
    ensures
        live_exactly(g.step(), blinker_vertical()),
{
    let h = g.height as int;
    let w = g.width as int;
    assert forall|i: int, j: int| 0 <= i < h && 0 <= j < w implies #[trigger] g.step().at(i, j)
        == (if blinker_vertical().contains((i, j)) {
        Cell::Alive
    } else {
        Cell::Dead
    }) by {
        g.lemma_step_at(i, j);
        lemma_wrap_dec(i, h);
        lemma_wrap_inc(i, h);
        lemma_wrap_dec(j, w);
        lemma_wrap_inc(j, w);
    }
}

/// One step of the vertical blinker, alone on a grid of at least 5x5: the
/// horizontal blinker.
proof fn lemma_blinker_v_to_h(g: GridView)
    requires
        g.wf(),
        5 <= g.height,
        5 <= g.width,
        live_exactly(g, blinker_vertical()),
    ensures
        live_exactly(g.step(), blinker_horizontal()),
{
    let h = g.height as int;
    let w = g.width as int;
    assert forall|i: int, j: int| 0 <= i < h && 0 <= j < w implies #[trigger] g.step().at(i, j)
        == (if blinker_horizontal().contains((i, j)) {
        Cell::Alive
    } else {
        Cell::Dead
    }) by {
        g.lemma_step_at(i, j);
        lemma_wrap_dec(i, h);
        lemma_wrap_inc(i, h);
        lemma_wrap_dec(j, w);
        lemma_wrap_inc(j, w);
    }
}

/// Law (oscillator): the horizontal blinker, alone on a grid of at least
/// 5x5, becomes the vertical blinker after one generation step and returns
/// to the horizontal blinker after a second.
pub proof fn lemma_blinker_oscillates(g: GridView)
    requires
        g.wf(),
        5 <= g.height,
        5 <= g.width,
        live_exactly(g, blinker_horizontal()),
    ensures
        live_exactly(g.step(), blinker_vertical()),
        g.step().step() == g,
{
    lemma_blinker_h_to_v(g);
    g.lemma_step_wf();
    lemma_blinker_v_to_h(g.step());
    g.step().lemma_step_wf();
    g.step().step().lemma_pointwise_equal(g);
}

} // verus!
