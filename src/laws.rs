//! Laws of the simulation, stated over the board model and proved.
use vstd::prelude::*;

use crate::game_context::{
    alive_at, is_rectangular, live_neighbors, next_generation, CellState,
};

verus! {

/// Advancing keeps the dimensions: the next generation has as many rows as the
/// board, each as long as before, and is rectangular whenever the board is.
pub proof fn lemma_advance_keeps_dimensions(g: Seq<Seq<CellState>>)
    requires
        is_rectangular(g),
    ensures
        next_generation(g).len() == g.len(),
        forall|r: int| 0 <= r < g.len() ==> #[trigger] next_generation(g)[r].len() == g[r].len(),
        is_rectangular(next_generation(g)),
{
    let n = next_generation(g);
    assert forall|r: int| 0 <= r < n.len() implies #[trigger] n[r].len() == n[0].len() by {
        assert(g[r].len() == g[0].len());
    }
}

/// Advancing is deterministic: equal boards have equal next generations.
pub proof fn lemma_advance_deterministic(g1: Seq<Seq<CellState>>, g2: Seq<Seq<CellState>>)
    requires
        g1 == g2,
    ensures
        next_generation(g1) == next_generation(g2),
{
}

/// A live cell with no live neighbour is dead in the next generation.
pub proof fn lemma_isolated_cell_dies(g: Seq<Seq<CellState>>, r: int, c: int)
    requires
        0 <= r < g.len(),
        0 <= c < g[r].len(),
        g[r][c] == CellState::Alive,
        live_neighbors(g, r, c) == 0,
    ensures
        next_generation(g)[r][c] == CellState::Dead,
{
}

/// A live cell whose eight neighbours all lie on the board and are all alive is
/// dead in the next generation.
pub proof fn lemma_crowded_cell_dies(g: Seq<Seq<CellState>>, r: int, c: int)
    requires
        is_rectangular(g),
        1 <= r < g.len() - 1,
        1 <= c < g[r].len() - 1,
        g[r][c] == CellState::Alive,
        forall|dr: int, dc: int|
            -1 <= dr <= 1 && -1 <= dc <= 1 ==> #[trigger] g[r + dr][c + dc] == CellState::Alive,
    ensures
        live_neighbors(g, r, c) == 8,
        next_generation(g)[r][c] == CellState::Dead,
{
    assert(g[r - 1].len() == g[0].len() && g[r + 1].len() == g[0].len() && g[r].len() == g[0].len());
    assert(g[r - 1][c - 1] == CellState::Alive && g[r - 1][c] == CellState::Alive && g[r - 1][c + 1]
        == CellState::Alive) by {
        assert(g[r + -1][c + -1] == CellState::Alive);
        assert(g[r + -1][c + 0] == CellState::Alive);
        assert(g[r + -1][c + 1] == CellState::Alive);
    }
    assert(g[r][c - 1] == CellState::Alive && g[r][c + 1] == CellState::Alive) by {
        assert(g[r + 0][c + -1] == CellState::Alive);
        assert(g[r + 0][c + 1] == CellState::Alive);
    }
    assert(g[r + 1][c - 1] == CellState::Alive && g[r + 1][c] == CellState::Alive && g[r + 1][c + 1]
        == CellState::Alive) by {
        assert(g[r + 1][c + -1] == CellState::Alive);
        assert(g[r + 1][c + 0] == CellState::Alive);
        assert(g[r + 1][c + 1] == CellState::Alive);
    }
}

/// A dead cell with exactly three live neighbours is alive in the next generation.
pub proof fn lemma_birth(g: Seq<Seq<CellState>>, r: int, c: int)
    requires
        0 <= r < g.len(),
        0 <= c < g[r].len(),
        g[r][c] == CellState::Dead,
        live_neighbors(g, r, c) == 3,
    ensures
        next_generation(g)[r][c] == CellState::Alive,
{
}

/// The corner cell `(0, 0)` counts only its three in-bounds neighbours `(0, 1)`,
/// `(1, 0)` and `(1, 1)`: nothing off the board and nothing from the opposite edges.
pub proof fn lemma_corner_neighbors(g: Seq<Seq<CellState>>)
    requires
        g.len() > 0,
        is_rectangular(g),
    ensures
        live_neighbors(g, 0, 0) == alive_at(g, 0, 1) + alive_at(g, 1, 0) + alive_at(g, 1, 1),
        live_neighbors(g, 0, 0) <= 3,
{
}

/// A 2x2 block of live cells with every other cell of the board dead is a still
/// life: the next generation equals the board.
pub proof fn lemma_block_still_life(g: Seq<Seq<CellState>>, r: int, c: int)
    requires
        is_rectangular(g),
        0 <= r,
        r + 1 < g.len(),
        0 <= c,
        c + 1 < g[0].len(),
        forall|rr: int, cc: int|
            0 <= rr < g.len() && 0 <= cc < g[0].len() ==> (#[trigger] g[rr][cc] == CellState::Alive
                <==> (r <= rr <= r + 1 && c <= cc <= c + 1)),
    ensures
        next_generation(g) == g,
{
    let n = next_generation(g);
    assert forall|rr: int| 0 <= rr < g.len() implies #[trigger] n[rr] == g[rr] by {
        assert(g[rr].len() == g[0].len());
        assert forall|cc: int| 0 <= cc < g[rr].len() implies #[trigger] n[rr][cc] == g[rr][cc] by {
            if rr > 0 {
                assert(g[rr - 1].len() == g[0].len());
            }
            if rr + 1 < g.len() {
                assert(g[rr + 1].len() == g[0].len());
            }
        }
        assert(n[rr] =~= g[rr]);
    }
    assert(n =~= g);
}

} // verus!
