use rand::Rng;
use vstd::prelude::*;

verus! {

/// The state of one cell of the board.
#[derive(Clone, Copy, Debug, PartialEq, Eq, Structural)]
pub enum CellState {
    Dead,
    Alive,
}

/// Board width used by [`GameContext::new`].
pub const GRID_X_SIZE: usize = 80;

/// Board height used by [`GameContext::new`].
pub const GRID_Y_SIZE: usize = 80;

/// Seeding stride: only cells with `(row + col) % SEED_STRIDE == 0` may start alive,
/// each on its own fair coin flip; all other cells start dead.
pub const SEED_STRIDE: usize = 3;

/// Why a board could not be built.
#[derive(Clone, Copy, Debug, PartialEq, Eq, Structural)]
pub enum BoardError {
    /// A width or height of zero.
    InvalidDimensions,
}

/// Relies on rand's `thread_rng()` and `Rng::gen_ratio`: `true` with probability
/// `numerator / denominator`. By rand's `Bernoulli::from_ratio` a zero numerator
/// always gives `false` and a numerator equal to the denominator always gives
/// `true`; it panics when `denominator == 0` or `numerator > denominator`, which
/// `requires` rules out. `thread_rng` itself panics only when the operating
/// system's entropy source cannot seed it.
#[verifier::external_body]
fn gen_ratio(numerator: u32, denominator: u32) -> (r: bool)
    requires
        0 < denominator,
        numerator <= denominator,
    ensures
        numerator == 0 ==> !r,
        numerator == denominator ==> r,
{
    rand::thread_rng().gen_ratio(numerator, denominator)
}

/// Whether the seeding may make the cell at `(r, c)` alive.
pub open spec fn seed_eligible(r: int, c: int) -> bool {
    (r + c) % (SEED_STRIDE as int) == 0
}

/// Initial state of cell `(r, c)` given its coin flip: alive only when eligible
/// and the coin came up `true`.
pub open spec fn seeded_cell(r: int, c: int, flip: bool) -> CellState {
    if seed_eligible(r, c) && flip {
        CellState::Alive
    } else {
        CellState::Dead
    }
}

/// The initial board for a grid of coin flips, one per cell.
pub open spec fn seeded_board(flips: Seq<Seq<bool>>) -> Seq<Seq<CellState>> {
    Seq::new(flips.len(), |r: int| Seq::new(flips[r].len(), |c: int| seeded_cell(r, c, flips[r][c])))
}

/// The mathematical board: rows of cells, row-major.
pub open spec fn grid_of(board: &Vec<Vec<CellState>>) -> Seq<Seq<CellState>> {
    Seq::new(board@.len(), |r: int| board@[r]@)
}

/// Every row of `g` has as many cells as the first one.
pub open spec fn is_rectangular(g: Seq<Seq<CellState>>) -> bool {
    forall|r: int| 0 <= r < g.len() ==> #[trigger] g[r].len() == g[0].len()
}

/// `g` has exactly `height` rows of `width` cells each.
pub open spec fn has_size(g: Seq<Seq<CellState>>, width: int, height: int) -> bool {
    &&& g.len() == height
    &&& forall|r: int| 0 <= r < height ==> #[trigger] g[r].len() == width
}

/// 1 when `(r, c)` lies on the board and holds a live cell, 0 otherwise
/// (positions off the board contribute nothing: there is no wrap-around).
pub open spec fn alive_at(g: Seq<Seq<CellState>>, r: int, c: int) -> int {
    if 0 <= r < g.len() && 0 <= c < g[r].len() && g[r][c] == CellState::Alive {
        1
    } else {
        0
    }
}

/// Number of live cells among the up to eight Moore neighbours of `(r, c)`.
pub open spec fn live_neighbors(g: Seq<Seq<CellState>>, r: int, c: int) -> int {
    alive_at(g, r - 1, c - 1) + alive_at(g, r - 1, c) + alive_at(g, r - 1, c + 1) + alive_at(
        g,
        r,
        c - 1,
    ) + alive_at(g, r, c + 1) + alive_at(g, r + 1, c - 1) + alive_at(g, r + 1, c) + alive_at(
        g,
        r + 1,
        c + 1,
    )
}

/// The B3/S23 rule: the next state of a cell in state `cell` with `n` live neighbours.
pub open spec fn next_state(cell: CellState, n: int) -> CellState {
    match cell {
        CellState::Dead => if n == 3 {
            CellState::Alive
        } else {
            CellState::Dead
        },
        CellState::Alive => if n == 2 || n == 3 {
            CellState::Alive
        } else {
            CellState::Dead
        },
    }
}

/// The board one generation after `g`, every cell computed from the same snapshot.
pub open spec fn next_generation(g: Seq<Seq<CellState>>) -> Seq<Seq<CellState>> {
    Seq::new(
        g.len(),
        |r: int| Seq::new(g[r].len(), |c: int| next_state(g[r][c], live_neighbors(g, r, c))),
    )
}

/// Live cells of row `r` in columns `c0 .. c1`.
spec fn row_count(g: Seq<Seq<CellState>>, r: int, c0: int, c1: int) -> int
    decreases c1 - c0,
{
    if c1 <= c0 {
        0
    } else {
        row_count(g, r, c0, c1 - 1) + alive_at(g, r, c1 - 1)
    }
}

/// Live cells in rows `r0 .. r1` and columns `c0 .. c1`.
spec fn block_count(g: Seq<Seq<CellState>>, r0: int, r1: int, c0: int, c1: int) -> int
    decreases r1 - r0,
{
    if r1 <= r0 {
        0
    } else {
        block_count(g, r0, r1 - 1, c0, c1) + row_count(g, r1 - 1, c0, c1)
    }
}

/// A row window that covers `c - 1 ..= c + 1` as far as the board reaches.
proof fn lemma_row_window(g: Seq<Seq<CellState>>, r: int, c: int, c0: int, c1: int)
    requires
        0 <= r < g.len(),
        0 <= c < g[r].len(),
        c0 == if c > 0 { c - 1 } else { c },
        c1 == if c + 1 < g[r].len() { c + 2 } else { g[r].len() as int },
    ensures
        row_count(g, r, c0, c1) == alive_at(g, r, c - 1) + alive_at(g, r, c) + alive_at(g, r, c + 1),
{
    reveal_with_fuel(row_count, 4);
}

/// The clipped 3x3 block around `(r, c)` holds the cell itself and its neighbours.
proof fn lemma_block_window(
    g: Seq<Seq<CellState>>,
    r: int,
    c: int,
    r0: int,
    r1: int,
    c0: int,
    c1: int,
)
    requires
        is_rectangular(g),
        0 <= r < g.len(),
        0 <= c < g[r].len(),
        r0 == if r > 0 { r - 1 } else { r },
        r1 == if r + 1 < g.len() { r + 2 } else { g.len() as int },
        c0 == if c > 0 { c - 1 } else { c },
        c1 == if c + 1 < g[r].len() { c + 2 } else { g[r].len() as int },
    ensures
        block_count(g, r0, r1, c0, c1) == live_neighbors(g, r, c) + alive_at(g, r, c),
{
    reveal_with_fuel(block_count, 4);
    lemma_row_window(g, r, c, c0, c1);
    if r > 0 {
        assert(g[r - 1].len() == g[0].len());
        lemma_row_window(g, r - 1, c, c0, c1);
    }
    if r + 1 < g.len() {
        assert(g[r + 1].len() == g[0].len());
        lemma_row_window(g, r + 1, c, c0, c1);
    }
}

/// The simulation engine: owns the board and advances it one generation at a time.
pub struct GameContext {
    pub board: Vec<Vec<CellState>>,
}

impl View for GameContext {
    type V = Seq<Seq<CellState>>;

    open spec fn view(&self) -> Seq<Seq<CellState>> {
        grid_of(&self.board)
    }
}

impl GameContext {
    /// A usable board: at least one row and one column, all rows equally long.
    pub open spec fn wf(&self) -> bool {
        &&& self@.len() > 0
        &&& self@[0].len() > 0
        &&& is_rectangular(self@)
    }

    /// Seeds a `width` x `height` board from one coin flip per cell (`flips[row][col]`):
    /// eligible cells take their coin, all others start dead. Zero dimensions are refused.
    pub fn from_coin_flips(width: usize, height: usize, flips: &Vec<Vec<bool>>) -> (res: Result<
        GameContext,
        BoardError,
    >)
        requires
            flips@.len() == height,
            forall|r: int| 0 <= r < height ==> #[trigger] flips@[r]@.len() == width,
        ensures
            res is Err <==> (width == 0 || height == 0),
            res is Err ==> res == Err::<GameContext, BoardError>(BoardError::InvalidDimensions),
            res matches Ok(ctx) ==> {
                &&& ctx.wf()
                &&& has_size(ctx@, width as int, height as int)
                &&& ctx@ == seeded_board(Seq::new(height as nat, |r: int| flips@[r]@))
            },
    {
        if width == 0 || height == 0 {
            return Err(BoardError::InvalidDimensions);
        }
        let ghost fg = Seq::new(height as nat, |r: int| flips@[r]@);
        let mut board: Vec<Vec<CellState>> = Vec::new();
        let mut i: usize = 0;
        while i < height
            invariant
                fg == Seq::new(height as nat, |r: int| flips@[r]@),
                flips@.len() == height,
                forall|r: int| 0 <= r < height ==> #[trigger] flips@[r]@.len() == width,
                i <= height,
                board@.len() == i,
                forall|r: int| 0 <= r < i ==> #[trigger] board@[r]@ == seeded_board(fg)[r],
            decreases height - i,
        {
            let mut row: Vec<CellState> = Vec::new();
            let mut j: usize = 0;
            while j < width
                invariant
                    flips@.len() == height,
                    forall|r: int| 0 <= r < height ==> #[trigger] flips@[r]@.len() == width,
                    i < height,
                    j <= width,
                    row@.len() == j,
                    forall|c: int|
                        0 <= c < j ==> #[trigger] row@[c] == seeded_cell(
                            i as int,
                            c,
                            flips@[i as int]@[c],
                        ),
                decreases width - j,
            {
                assert(flips@[i as int]@.len() == width);
                proof {
                    vstd::arithmetic::div_mod::lemma_add_mod_noop(
                        i as int,
                        j as int,
                        SEED_STRIDE as int,
                    );
                }
                let cell = if (i % SEED_STRIDE + j % SEED_STRIDE) % SEED_STRIDE == 0
                    && flips[i][j] {
                    CellState::Alive
                } else {
                    CellState::Dead
                };
                row.push(cell);
                j = j + 1;
            }
            assert(row@ =~= seeded_board(fg)[i as int]);
            board.push(row);
            i = i + 1;
        }
        let ctx = GameContext { board };
        assert(ctx@ =~= seeded_board(fg));
        Ok(ctx)
    }

    /// A `width` x `height` board seeded at random: each eligible cell is alive on a
    /// fair coin flip, every other cell is dead.
    fn random_seeded(width: usize, height: usize) -> (ctx: GameContext)
        requires
            width > 0,
            height > 0,
        ensures
            ctx.wf(),
            has_size(ctx@, width as int, height as int),
            forall|r: int, c: int|
                0 <= r < height && 0 <= c < width && !seed_eligible(r, c) ==> #[trigger] ctx@[r][c]
                    == CellState::Dead,
    {
        let mut flips: Vec<Vec<bool>> = Vec::new();
        let mut i: usize = 0;
        while i < height
            invariant
                i <= height,
                flips@.len() == i,
                forall|r: int| 0 <= r < i ==> #[trigger] flips@[r]@.len() == width,
            decreases height - i,
        {
            let mut row: Vec<bool> = Vec::new();
            let mut j: usize = 0;
            while j < width
                invariant
                    j <= width,
                    row@.len() == j,
                decreases width - j,
            {
                row.push(gen_ratio(1, 2));
                j = j + 1;
            }
            flips.push(row);
            i = i + 1;
        }
        match GameContext::from_coin_flips(width, height, &flips) {
            Ok(ctx) => ctx,
            // not reached: both dimensions are positive
            Err(_) => GameContext { board: Vec::new() },
        }
    }

    /// A board of the given size seeded at random (see [`GameContext::from_coin_flips`]
    /// for the pattern); zero dimensions are refused.
    pub fn with_size(width: usize, height: usize) -> (res: Result<GameContext, BoardError>)
        ensures
            res is Err <==> (width == 0 || height == 0),
            res is Err ==> res == Err::<GameContext, BoardError>(BoardError::InvalidDimensions),
            res matches Ok(ctx) ==> {
                &&& ctx.wf()
                &&& has_size(ctx@, width as int, height as int)
                &&& forall|r: int, c: int|
                    0 <= r < height && 0 <= c < width && !seed_eligible(r, c)
                        ==> #[trigger] ctx@[r][c] == CellState::Dead
            },
    {
        if width == 0 || height == 0 {
            Err(BoardError::InvalidDimensions)
        } else {
            Ok(GameContext::random_seeded(width, height))
        }
    }

    /// A `GRID_X_SIZE` x `GRID_Y_SIZE` board seeded at random.
    pub fn new() -> (ctx: GameContext)
        ensures
            ctx.wf(),
            has_size(ctx@, GRID_X_SIZE as int, GRID_Y_SIZE as int),
            forall|r: int, c: int|
                0 <= r < GRID_Y_SIZE && 0 <= c < GRID_X_SIZE && !seed_eligible(r, c)
                    ==> #[trigger] ctx@[r][c] == CellState::Dead,
    {
        GameContext::random_seeded(GRID_X_SIZE, GRID_Y_SIZE)
    }

    /// Number of live cells among the in-bounds Moore neighbours of `(i, j)`.
    pub fn get_alive_neighbors_count(i: usize, j: usize, board: &Vec<Vec<CellState>>) -> (n: u32)
        requires
            is_rectangular(grid_of(board)),
            i < board@.len(),
            j < board@[i as int]@.len(),
        ensures
            n == live_neighbors(grid_of(board), i as int, j as int),
            n <= 8,
    {
        let ghost g = grid_of(board);
        let height = board.len();
        let width = board[i].len();
        assert(g[i as int].len() == g[0].len());
        let row_start = if i > 0 { i - 1 } else { i };
        let row_end = if i + 1 < height { i + 2 } else { height };
        let col_start = if j > 0 { j - 1 } else { j };
        let col_end = if j + 1 < width { j + 2 } else { width };
        let is_alive = board[i][j] == CellState::Alive;

        let mut neighbors: u32 = 0;
        let mut r: usize = row_start;
        while r < row_end
            invariant
                g == grid_of(board),
                is_rectangular(g),
                width == g[0].len(),
                row_start <= r <= row_end <= height == board@.len(),
                row_end <= row_start + 3,
                col_start <= col_end <= width,
                col_end <= col_start + 3,
                neighbors == block_count(g, row_start as int, r as int, col_start as int, col_end as int),
                neighbors <= 3 * (r - row_start),
            decreases row_end - r,
        {
            let mut c: usize = col_start;
            while c < col_end
                invariant
                    g == grid_of(board),
                    is_rectangular(g),
                    width == g[0].len(),
                    row_start <= r < row_end <= height == board@.len(),
                    col_start <= c <= col_end <= width,
                    col_end <= col_start + 3,
                    row_end <= row_start + 3,
                    neighbors == block_count(g, row_start as int, r as int, col_start as int, col_end as int)
                        + row_count(g, r as int, col_start as int, c as int),
                    neighbors <= 3 * (r - row_start) + (c - col_start),
                decreases col_end - c,
            {
                assert(g[r as int].len() == width);
                if board[r][c] == CellState::Alive {
                    neighbors = neighbors + 1;
                }
                c = c + 1;
            }
            r = r + 1;
        }
        proof {
            lemma_block_window(g, i as int, j as int, row_start as int, row_end as int, col_start as int, col_end as int);
        }
        if is_alive {
            neighbors = neighbors - 1;
        }
        neighbors
    }

    /// Builds the next generation of `board` into a fresh board; `board` itself is
    /// only read, so every cell sees the same snapshot.
    pub fn advance(board: &Vec<Vec<CellState>>) -> (next: Vec<Vec<CellState>>)
        requires
            is_rectangular(grid_of(board)),
        ensures
            grid_of(&next) == next_generation(grid_of(board)),
    {
        let ghost g = grid_of(board);
        let mut next: Vec<Vec<CellState>> = Vec::new();
        let mut i: usize = 0;
        while i < board.len()
            invariant
                g == grid_of(board),
                is_rectangular(g),
                i <= board@.len(),
                next@.len() == i,
                forall|r: int| 0 <= r < i ==> #[trigger] next@[r]@ == next_generation(g)[r],
            decreases board@.len() - i,
        {
            let mut row: Vec<CellState> = Vec::new();
            let mut j: usize = 0;
            while j < board[i].len()
                invariant
                    g == grid_of(board),
                    is_rectangular(g),
                    i < board@.len(),
                    j <= g[i as int].len(),
                    row@.len() == j,
                    forall|c: int|
                        0 <= c < j ==> #[trigger] row@[c] == next_state(
                            g[i as int][c],
                            live_neighbors(g, i as int, c),
                        ),
                decreases g[i as int].len() - j,
            {
                let neighbors = GameContext::get_alive_neighbors_count(i, j, board);
                let cell = board[i][j];
                let new_cell = match cell {
                    CellState::Dead => if neighbors == 3 {
                        CellState::Alive
                    } else {
                        CellState::Dead
                    },
                    CellState::Alive => if neighbors < 2 || neighbors > 3 {
                        CellState::Dead
                    } else {
                        CellState::Alive
                    },
                };
                row.push(new_cell);
                j = j + 1;
            }
            assert(row@ =~= next_generation(g)[i as int]);
            next.push(row);
            i = i + 1;
        }
        assert(grid_of(&next) =~= next_generation(g));
        next
    }

    /// Replaces the board by its next generation; the dimensions stay as they were.
    pub fn update(&mut self)
        requires
            old(self).wf(),
        ensures
            final(self).wf(),
            final(self)@ == next_generation(old(self)@),
            final(self)@.len() == old(self)@.len(),
            final(self)@[0].len() == old(self)@[0].len(),
    {
        let new_board = GameContext::advance(&self.board);
        self.board = new_board;
        proof {
            crate::laws::lemma_advance_keeps_dimensions(old(self)@);
        }
    }

    /// Number of columns.
    pub fn width(&self) -> (w: usize)
        requires
            self.wf(),
        ensures
            w == self@[0].len(),
    {
        self.board[0].len()
    }

    /// Number of rows.
    pub fn height(&self) -> (h: usize)
        ensures
            h == self@.len(),
    {
        self.board.len()
    }
}

} // verus!
