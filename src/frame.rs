//! What a frame shows and when the board moves on, as plain values for the
//! presenter and the frame loop.
use vstd::prelude::*;

use crate::game_context::{grid_of, is_rectangular, CellState};

verus! {

/// Side of one cell on screen, in pixels.
pub const DOT_SIZE_IN_PXS: u32 = 5;

/// The board advances once every this many frames.
pub const FRAMES_PER_GENERATION: u32 = 10;

/// Target frame rate of the frame loop.
pub const FRAMES_PER_SECOND: u32 = 30;

/// Top-left pixels of the live cells of row `r` in columns `0 .. c`, left to right:
/// column maps to x, row maps to y.
pub open spec fn row_positions(g: Seq<Seq<CellState>>, r: int, c: int, px: int) -> Seq<(u32, u32)>
    decreases c,
{
    if c <= 0 {
        Seq::empty()
    } else {
        row_positions(g, r, c - 1, px) + if g[r][c - 1] == CellState::Alive {
            seq![(((c - 1) * px) as u32, (r * px) as u32)]
        } else {
            Seq::empty()
        }
    }
}

/// Top-left pixels of the live cells of rows `0 .. r`, row by row.
pub open spec fn board_positions(g: Seq<Seq<CellState>>, r: int, px: int) -> Seq<(u32, u32)>
    decreases r,
{
    if r <= 0 {
        Seq::empty()
    } else {
        board_positions(g, r - 1, px) + row_positions(g, r - 1, g[r - 1].len() as int, px)
    }
}

/// The top-left pixel `(x, y)` of the square of each live cell, in row-major order,
/// for cells `cell_px` pixels wide: cell `(row, col)` sits at `(col * cell_px, row * cell_px)`.
/// Dead cells are not drawn.
pub fn alive_cell_positions(board: &Vec<Vec<CellState>>, cell_px: u32) -> (res: Vec<(u32, u32)>)
    requires
        is_rectangular(grid_of(board)),
        board@.len() > 0 ==> board@[0]@.len() * cell_px <= u32::MAX,
        board@.len() * cell_px <= u32::MAX,
    ensures
        res@ == board_positions(grid_of(board), board@.len() as int, cell_px as int),
{
    let ghost g = grid_of(board);
    let mut res: Vec<(u32, u32)> = Vec::new();
    let mut i: usize = 0;
    while i < board.len()
        invariant
            g == grid_of(board),
            is_rectangular(g),
            board@.len() > 0 ==> board@[0]@.len() * cell_px <= u32::MAX,
            board@.len() * cell_px <= u32::MAX,
            i <= board@.len(),
            res@ == board_positions(g, i as int, cell_px as int),
        decreases board@.len() - i,
    {
        assert(g[i as int].len() == g[0].len());
        assert(i * cell_px <= board@.len() * cell_px) by (nonlinear_arith)
            requires
                i < board@.len(),
        ;
        let y = ((i as u64) * (cell_px as u64)) as u32;
        let ghost before = res@;
        let mut j: usize = 0;
        while j < board[i].len()
            invariant
                g == grid_of(board),
                i < board@.len(),
                g[i as int].len() * cell_px <= u32::MAX,
                y == i * cell_px,
                j <= g[i as int].len(),
                before == board_positions(g, i as int, cell_px as int),
                res@ == before + row_positions(g, i as int, j as int, cell_px as int),
            decreases g[i as int].len() - j,
        {
            assert(j * cell_px <= g[i as int].len() * cell_px) by (nonlinear_arith)
                requires
                    j < g[i as int].len(),
            ;
            if board[i][j] == CellState::Alive {
                let x = ((j as u64) * (cell_px as u64)) as u32;
                res.push((x, y));
            }
            assert(res@ =~= before + row_positions(g, i as int, j + 1, cell_px as int));
            j = j + 1;
        }
        i = i + 1;
    }
    res
}

/// Window size in pixels for a `width` x `height` board of `cell_px`-pixel cells,
/// or `None` where a side does not fit in `u32`.
pub fn window_pixel_size(width: usize, height: usize, cell_px: u32) -> (res: Option<(u32, u32)>)
    ensures
        res is Some <==> (width * cell_px <= u32::MAX && height * cell_px <= u32::MAX),
        res matches Some(p) ==> p.0 == width * cell_px && p.1 == height * cell_px,
{
    if cell_px == 0 {
        return Some((0, 0));
    }
    if width > u32::MAX as usize || height > u32::MAX as usize {
        assert(width * cell_px >= width) by (nonlinear_arith)
            requires
                cell_px >= 1,
        ;
        assert(height * cell_px >= height) by (nonlinear_arith)
            requires
                cell_px >= 1,
        ;
        return None;
    }
    let w = (width as u32).checked_mul(cell_px);
    let h = (height as u32).checked_mul(cell_px);
    match (w, h) {
        (Some(x), Some(y)) => Some((x, y)),
        _ => None,
    }
}

/// One frame of the loop: the next frame counter (counting modulo `divisor`) and
/// whether the board advances on this frame, which happens once every `divisor` frames.
pub fn next_frame(frame: u32, divisor: u32) -> (res: (u32, bool))
    requires
        0 < divisor,
        frame < divisor,
    ensures
        res.0 == (frame + 1) % (divisor as int),
        res.1 == (res.0 == 0),
{
    let next = if frame + 1 == divisor {
        0
    } else {
        frame + 1
    };
    assert(next == (frame + 1) % (divisor as int)) by (nonlinear_arith)
        requires
            frame < divisor,
            next == if frame + 1 == divisor { 0 } else { frame + 1 },
    ;
    (next, next == 0)
}

} // verus!
