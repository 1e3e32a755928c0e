//! The generation stepper: applies the rule engine to every cell of a
//! grid with simultaneous-update semantics, yielding a fresh grid.

use vstd::prelude::*;

use crate::grid::lemma_idx_in_bounds;
use crate::grid::Grid;
use crate::grid::GridView;
use crate::rules::conway_next;
use crate::rules::rules_next;
use crate::rules::CellRules;
use crate::rules::CellState;
use crate::rules::Rule;

verus! {

/// One generation step as a mathematical function: every cell's next flag
/// is what the rule list decides from that cell's pre-step flag and its
/// pre-step live-neighbor count. Dimensions are unchanged.
pub open spec fn spec_tick(g: GridView, rules: Seq<Rule>) -> GridView {
    GridView {
        width: g.width,
        height: g.height,
        cells: Seq::new(
            g.cells.len(),
            |i: int|
                rules_next(
                    rules,
                    g.coord_x(i),
                    g.coord_y(i),
                    g.cells[i],
                    g.neighbor_count(g.coord_x(i), g.coord_y(i)),
                ),
        ),
    }
}

/// Advances the grid by one generation. Every neighbor count and every
/// input flag is read from the pre-step grid, never from cells already
/// rewritten, so the update is simultaneous; the input grid is left
/// untouched and a fresh grid is returned.
pub fn cell_generation_tick(cells: &Grid, rules: &CellRules) -> (r: Grid)
    requires
        cells@.wf(),
    ensures
        r@.wf(),
        r@ == spec_tick(cells@, rules@),
{
    let n = cells.len();
    let mut out: Vec<bool> = Vec::new();
    let mut i: usize = 0;
    while i < n
        invariant
            cells@.wf(),
            n == cells@.cells.len(),
            i <= n,
            out@.len() == i,
            forall|j: int| 0 <= j < i ==> out@[j] == spec_tick(cells@, rules@).cells[j],
        decreases n - i,
    {
        let (x, y) = cells.get_x_y(i);
        let nc = cells.neighbor_count(x, y);
        let state = CellState { x, y, alive: cells.cell(i), neighbors_alive: nc };
        let next = rules.apply_all(cells, state);
        out.push(next);
        i += 1;
    }
    let r = Grid::from_parts(cells.width(), cells.height(), out);
    proof {
        assert(r@.cells =~= spec_tick(cells@, rules@).cells);
        assert(r@ =~= spec_tick(cells@, rules@));
    }
    r
}

/// Under the single default Conway rule, one step takes each cell to
/// exactly `conway_next` of its pre-step flag and neighbor count.
pub proof fn lemma_conway_step(g: GridView, i: int)
    requires
        g.wf(),
        0 <= i < g.cells.len(),
    ensures
        spec_tick(g, seq![Rule::Conway]).cells[i] == conway_next(
            g.cells[i],
            g.neighbor_count(g.coord_x(i), g.coord_y(i)),
        ),
{
    let rules = seq![Rule::Conway];
    let x = g.coord_x(i);
    let y = g.coord_y(i);
    let nc = g.neighbor_count(x, y);
    assert(rules.drop_first() =~= Seq::<Rule>::empty());
    assert(rules_next(rules.drop_first(), x, y, conway_next(g.cells[i], nc), nc) == conway_next(
        g.cells[i],
        nc,
    ));
}

/// No false births: a dead cell with fewer than three live neighbors is
/// still dead after one step under the default rule.
pub proof fn lemma_dead_stays_dead(g: GridView, i: int)
    requires
        g.wf(),
        0 <= i < g.cells.len(),
        !g.cells[i],
        g.neighbor_count(g.coord_x(i), g.coord_y(i)) < 3,
    ensures
        !spec_tick(g, seq![Rule::Conway]).cells[i],
{
    lemma_conway_step(g, i);
}

/// Birth: a dead cell with exactly three live neighbors is alive after
/// one step under the default rule.
pub proof fn lemma_dead_cell_birth(g: GridView, i: int)
    requires
        g.wf(),
        0 <= i < g.cells.len(),
        !g.cells[i],
        g.neighbor_count(g.coord_x(i), g.coord_y(i)) == 3,
    ensures
        spec_tick(g, seq![Rule::Conway]).cells[i],
{
    lemma_conway_step(g, i);
}

/// Survival and death: a live cell with two or three live neighbors is
/// still alive after one step under the default rule; with fewer than two
/// or more than three it is dead.
pub proof fn lemma_live_cell_fate(g: GridView, i: int)
    requires
        g.wf(),
        0 <= i < g.cells.len(),
        g.cells[i],
    ensures
        2 <= g.neighbor_count(g.coord_x(i), g.coord_y(i)) <= 3 ==> spec_tick(
            g,
            seq![Rule::Conway],
        ).cells[i],
        g.neighbor_count(g.coord_x(i), g.coord_y(i)) < 2 || g.neighbor_count(
            g.coord_x(i),
            g.coord_y(i),
        ) > 3 ==> !spec_tick(g, seq![Rule::Conway]).cells[i],
{
    lemma_conway_step(g, i);
}

/// At the corner cell `(0, 0)` only the three in-bounds candidate
/// neighbors are counted, and each of them addresses storage inside
/// `[0, width * height)`.
pub proof fn lemma_corner_neighbors(g: GridView)
    requires
        g.wf(),
        g.width >= 2,
    ensures
        g.neighbor_count(0, 0) == g.one_if_live(1, 0) + g.one_if_live(0, 1) + g.one_if_live(1, 1),
        g.neighbor_count(0, 0) <= 3,
        0 <= g.idx(1, 0) < g.cells.len(),
        0 <= g.idx(0, 1) < g.cells.len(),
        0 <= g.idx(1, 1) < g.cells.len(),
{
    lemma_idx_in_bounds(g, 1, 0);
    lemma_idx_in_bounds(g, 0, 1);
    lemma_idx_in_bounds(g, 1, 1);
}

} // verus!
