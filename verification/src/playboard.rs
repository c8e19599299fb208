//! The board engine: a square grid of cells, each empty or holding one of the
//! two players' marks, with validated placement and win/draw detection.
//!
//! The grid is stored row-major in a single vector; rows and columns are
//! zero-based here (the wire protocol is one-based, the codec converts).
//! Win detection after a placement looks only at the lines through the placed
//! cell: its row, its column, and a diagonal only when the cell lies on it,
//! so each placement costs time linear in the side length.
use vstd::prelude::*;

use crate::cli_args_processing::StartOrder;

verus! {

/// One cell of the grid: a mark of either player, or still free.
#[derive(Copy, Clone, Eq, PartialEq, Debug, Structural)]
pub enum PlayboardGridOptions {
    X,
    O,
    Free,
}

/// What a placement attempt produced.
#[derive(Copy, Clone, Eq, PartialEq, Debug, Structural)]
pub enum GameState {
    /// The cell was out of range or already occupied; nothing changed.
    InvalidPlace,
    /// The mark was written and the game goes on.
    Placed,
    /// The mark was written, the grid is full and nobody won.
    Draw,
    /// The mark was written and completed a line: the placing player won.
    GameOver,
}

/// Error of the board constructors: the requested geometry cannot make a
/// playable board.
#[derive(Copy, Clone, Debug)]
pub struct InvalidPlayboardSize {
    pub error: &'static str,
}

/// Row-major position of `(row, col)` on a board with `n` columns.
pub open spec fn spec_cell_index(row: int, col: int, n: int) -> int {
    row * n + col
}

/// The mark a session with the given start order places: the first player
/// plays `X`, the second `O`.
pub open spec fn mark_of(start_order: StartOrder) -> PlayboardGridOptions {
    match start_order {
        StartOrder::First => PlayboardGridOptions::X,
        StartOrder::Second => PlayboardGridOptions::O,
    }
}

/// A placement on grid `g` of side `n` at `(row, col)` is accepted only when
/// the coordinates are on the board and the cell is still free.
pub open spec fn valid_place(g: Seq<PlayboardGridOptions>, n: int, row: int, col: int) -> bool {
    0 <= row < n && 0 <= col < n && g[spec_cell_index(row, col, n)] == PlayboardGridOptions::Free
}

/// Row `row` of the grid, as a sequence of `n` cells.
pub open spec fn row_line(g: Seq<PlayboardGridOptions>, n: int, row: int) -> Seq<
    PlayboardGridOptions,
> {
    Seq::new(n as nat, |c: int| g[spec_cell_index(row, c, n)])
}

/// Column `col` of the grid, as a sequence of `n` cells.
pub open spec fn col_line(g: Seq<PlayboardGridOptions>, n: int, col: int) -> Seq<
    PlayboardGridOptions,
> {
    Seq::new(n as nat, |r: int| g[spec_cell_index(r, col, n)])
}

/// The main diagonal (top-left to bottom-right).
pub open spec fn main_diag_line(g: Seq<PlayboardGridOptions>, n: int) -> Seq<
    PlayboardGridOptions,
> {
    Seq::new(n as nat, |i: int| g[spec_cell_index(i, i, n)])
}

/// The anti-diagonal (top-right to bottom-left).
pub open spec fn anti_diag_line(g: Seq<PlayboardGridOptions>, n: int) -> Seq<
    PlayboardGridOptions,
> {
    Seq::new(n as nat, |i: int| g[spec_cell_index(i, n - 1 - i, n)])
}

/// A line counts as won when it is non-empty and every cell past the first
/// holds the first cell's mark, which is not free. For lines of two or more
/// cells this says: all cells equal and none free.
pub open spec fn all_same_symbols(s: Seq<PlayboardGridOptions>) -> bool {
    s.len() > 0 && forall|i: int|
        1 <= i < s.len() ==> (#[trigger] s[i]) != PlayboardGridOptions::Free && s[i] == s[0]
}

/// The just-placed cell `(row, col)` decided the game: one of the lines
/// through it is complete. Diagonals count only when the cell lies on them.
pub open spec fn wins_at(g: Seq<PlayboardGridOptions>, n: int, row: int, col: int) -> bool {
    ||| all_same_symbols(row_line(g, n, row))
    ||| all_same_symbols(col_line(g, n, col))
    ||| (row == col && all_same_symbols(main_diag_line(g, n)))
    ||| (row + col == n - 1 && all_same_symbols(anti_diag_line(g, n)))
}

/// No cell of the grid is free.
pub open spec fn is_full(g: Seq<PlayboardGridOptions>) -> bool {
    forall|i: int| 0 <= i < g.len() ==> g[i] != PlayboardGridOptions::Free
}

/// The grid after a placement attempt: updated at the placed cell when the
/// placement is accepted, unchanged otherwise.
pub open spec fn place_grid(
    g: Seq<PlayboardGridOptions>,
    n: int,
    row: int,
    col: int,
    mark: PlayboardGridOptions,
) -> Seq<PlayboardGridOptions> {
    if valid_place(g, n, row, col) {
        g.update(spec_cell_index(row, col, n), mark)
    } else {
        g
    }
}

/// The outcome of a placement attempt, evaluated on the grid after the write:
/// a rejected placement reports `InvalidPlace`; an accepted one reports
/// `GameOver` when a line through the placed cell is complete, else `Draw`
/// when the grid is full, else `Placed`.
pub open spec fn place_state(
    g: Seq<PlayboardGridOptions>,
    n: int,
    row: int,
    col: int,
    mark: PlayboardGridOptions,
) -> GameState {
    if !valid_place(g, n, row, col) {
        GameState::InvalidPlace
    } else {
        let g2 = g.update(spec_cell_index(row, col, n), mark);
        if wins_at(g2, n, row, col) {
            GameState::GameOver
        } else if is_full(g2) {
            GameState::Draw
        } else {
            GameState::Placed
        }
    }
}

/// Law: a square has the parity of its side, so a board request of side `k`
/// (odd, at least 3, with `k * k` representable) succeeds exactly when the
/// cell count `k * k` is odd — together with the contract of
/// [`Playboard::new`].
pub proof fn lemma_board_size_parity(k: nat)
    ensures
        ((k * k) % 2 == 1) <==> (k % 2 == 1),
{
    let ki = k as int;
    let m = ki / 2;
    let r = ki % 2;
    vstd::arithmetic::div_mod::lemma_fundamental_div_mod(ki, 2);
    if r == 0 {
        assert(ki * ki == 2 * (2 * m * m)) by (nonlinear_arith)
            requires
                ki == 2 * m,
        ;
        vstd::arithmetic::div_mod::lemma_mod_multiples_vanish(2 * m * m, 0, 2);
    } else {
        assert(ki * ki == 2 * (2 * m * m + 2 * m) + 1) by (nonlinear_arith)
            requires
                ki == 2 * m + 1,
        ;
        vstd::arithmetic::div_mod::lemma_mod_multiples_vanish(2 * m * m + 2 * m, 1, 2);
    }
}

/// Law: a placement never overwrites an occupied cell. Whatever the attempt,
/// every cell that held a mark before holds the same mark after; so over any
/// sequence of placements a cell's mark, once written, stands.
pub proof fn lemma_place_never_overwrites(
    g: Seq<PlayboardGridOptions>,
    n: int,
    row: int,
    col: int,
    mark: PlayboardGridOptions,
)
    requires
        g.len() == n * n,
    ensures
        place_grid(g, n, row, col, mark).len() == g.len(),
        forall|i: int|
            0 <= i < g.len() && (#[trigger] g[i]) != PlayboardGridOptions::Free ==> place_grid(
                g,
                n,
                row,
                col,
                mark,
            )[i] == g[i],
{
    if valid_place(g, n, row, col) {
        lemma_cell_index_bounds(row, col, n);
    }
}

/// The grid after a whole sequence of placement attempts, applied in order.
pub open spec fn place_grid_many(
    g: Seq<PlayboardGridOptions>,
    n: int,
    moves: Seq<(int, int, PlayboardGridOptions)>,
) -> Seq<PlayboardGridOptions>
    decreases moves.len(),
{
    if moves.len() == 0 {
        g
    } else {
        place_grid_many(
            place_grid(g, n, moves[0].0, moves[0].1, moves[0].2),
            n,
            moves.drop_first(),
        )
    }
}

/// Law: over any sequence of placement attempts, whatever their cells and
/// marks, a cell that holds a mark keeps that mark: a cell is written at
/// most once, and re-placement is rejected however often it is tried.
pub proof fn lemma_no_sequence_overwrites(
    g: Seq<PlayboardGridOptions>,
    n: int,
    moves: Seq<(int, int, PlayboardGridOptions)>,
)
    requires
        g.len() == n * n,
    ensures
        place_grid_many(g, n, moves).len() == g.len(),
        forall|i: int|
            0 <= i < g.len() && (#[trigger] g[i]) != PlayboardGridOptions::Free
                ==> place_grid_many(g, n, moves)[i] == g[i],
    decreases moves.len(),
{
    if moves.len() > 0 {
        lemma_place_never_overwrites(g, n, moves[0].0, moves[0].1, moves[0].2);
        lemma_no_sequence_overwrites(
            place_grid(g, n, moves[0].0, moves[0].1, moves[0].2),
            n,
            moves.drop_first(),
        );
    }
}

/// A complete line of two or more cells holds no free cell.
pub proof fn lemma_won_line_has_no_free_cell(s: Seq<PlayboardGridOptions>)
    requires
        2 <= s.len(),
        all_same_symbols(s),
    ensures
        forall|i: int| 0 <= i < s.len() ==> (#[trigger] s[i]) != PlayboardGridOptions::Free,
{
    assert(s[1] != PlayboardGridOptions::Free && s[1] == s[0]);
}

/// Law, one half of win detection: when the placement is accepted and
/// completes a line through the placed cell — its row, its column, or a
/// diagonal the cell lies on — the reported outcome is `GameOver`.
pub proof fn lemma_completed_line_wins(
    g: Seq<PlayboardGridOptions>,
    n: int,
    row: int,
    col: int,
    mark: PlayboardGridOptions,
)
    requires
        g.len() == n * n,
        3 <= n,
        valid_place(g, n, row, col),
        ({
            let g2 = place_grid(g, n, row, col, mark);
            ||| all_same_symbols(row_line(g2, n, row))
            ||| all_same_symbols(col_line(g2, n, col))
            ||| (row == col && all_same_symbols(main_diag_line(g2, n)))
            ||| (row + col == n - 1 && all_same_symbols(anti_diag_line(g2, n)))
        }),
    ensures
        place_state(g, n, row, col, mark) == GameState::GameOver,
{
}

/// Law, the other half of win detection: when every line through the placed
/// cell still holds a free cell after the write, the outcome is not
/// `GameOver`, whatever the other cells hold.
pub proof fn lemma_no_win_with_free_cell(
    g: Seq<PlayboardGridOptions>,
    n: int,
    row: int,
    col: int,
    mark: PlayboardGridOptions,
)
    requires
        g.len() == n * n,
        3 <= n,
        valid_place(g, n, row, col),
        ({
            let g2 = place_grid(g, n, row, col, mark);
            &&& exists|i: int| 0 <= i < n && row_line(g2, n, row)[i] == PlayboardGridOptions::Free
            &&& exists|i: int| 0 <= i < n && col_line(g2, n, col)[i] == PlayboardGridOptions::Free
            &&& row == col ==> exists|i: int|
                0 <= i < n && main_diag_line(g2, n)[i] == PlayboardGridOptions::Free
            &&& row + col == n - 1 ==> exists|i: int|
                0 <= i < n && anti_diag_line(g2, n)[i] == PlayboardGridOptions::Free
        }),
    ensures
        place_state(g, n, row, col, mark) != GameState::GameOver,
{
    let g2 = place_grid(g, n, row, col, mark);
    assert(!all_same_symbols(row_line(g2, n, row))) by {
        if all_same_symbols(row_line(g2, n, row)) {
            lemma_won_line_has_no_free_cell(row_line(g2, n, row));
        }
    }
    assert(!all_same_symbols(col_line(g2, n, col))) by {
        if all_same_symbols(col_line(g2, n, col)) {
            lemma_won_line_has_no_free_cell(col_line(g2, n, col));
        }
    }
    if row == col {
        assert(!all_same_symbols(main_diag_line(g2, n))) by {
            if all_same_symbols(main_diag_line(g2, n)) {
                lemma_won_line_has_no_free_cell(main_diag_line(g2, n));
            }
        }
    }
    if row + col == n - 1 {
        assert(!all_same_symbols(anti_diag_line(g2, n))) by {
            if all_same_symbols(anti_diag_line(g2, n)) {
                lemma_won_line_has_no_free_cell(anti_diag_line(g2, n));
            }
        }
    }
}

/// Law: on a grid that the accepted placement filled completely, the outcome
/// is decided by the win check alone — `GameOver` when the placed cell
/// completed a line through it, and `Draw` otherwise, never `Placed`.
pub proof fn lemma_full_board_outcome(
    g: Seq<PlayboardGridOptions>,
    n: int,
    row: int,
    col: int,
    mark: PlayboardGridOptions,
)
    requires
        g.len() == n * n,
        3 <= n,
        valid_place(g, n, row, col),
        is_full(place_grid(g, n, row, col, mark)),
    ensures
        wins_at(place_grid(g, n, row, col, mark), n, row, col) ==> place_state(g, n, row, col, mark)
            == GameState::GameOver,
        !wins_at(place_grid(g, n, row, col, mark), n, row, col) ==> place_state(
            g,
            n,
            row,
            col,
            mark,
        ) == GameState::Draw,
{
}

/// A cell position is within the row-major grid.
proof fn lemma_cell_index_bounds(row: int, col: int, n: int)
    requires
        0 <= row < n,
        0 <= col < n,
    ensures
        0 <= spec_cell_index(row, col, n) < n * n,
{
    assert(0 <= row * n + col < n * n) by (nonlinear_arith)
        requires
            0 <= row < n,
            0 <= col < n,
    ;
}

/// Row-major position of `(row, col)` on a board with `number_of_cols`
/// columns.
pub fn i2d_into_1d(row: usize, col: usize, number_of_cols: usize) -> (r: usize)
    requires
        row * number_of_cols + col <= usize::MAX,
    ensures
        r == spec_cell_index(row as int, col as int, number_of_cols as int),
{
    row * number_of_cols + col
}

/// The `(row, col)` position of a row-major index on a board with
/// `number_of_cols` columns.
pub fn i1d_into_2d(index: usize, number_of_cols: usize) -> (r: (usize, usize))
    requires
        number_of_cols > 0,
    ensures
        r.0 == index as int / number_of_cols as int,
        r.1 == index as int % number_of_cols as int,
{
    (index / number_of_cols, index % number_of_cols)
}

/// The square grid of one game.
#[derive(Clone, Debug, PartialEq)]
pub struct Playboard {
    grid: Vec<PlayboardGridOptions>,
    row_col_size: usize,
    size: usize,
}

impl Playboard {
    /// The side length, as a mathematical integer.
    pub closed spec fn n(&self) -> int {
        self.row_col_size as int
    }

    /// The grid contents, as a sequence of cells in row-major order.
    pub closed spec fn grid_view(&self) -> Seq<PlayboardGridOptions> {
        self.grid@
    }

    /// The board invariant: an odd side of at least 3 whose square, the cell
    /// count, is representable, and a grid of exactly that many cells.
    pub closed spec fn well_formed(&self) -> bool {
        &&& 3 <= self.row_col_size
        &&& self.row_col_size % 2 == 1
        &&& self.size == self.row_col_size * self.row_col_size
        &&& self.grid@.len() == self.size
    }

    /// A fresh board of side `row_col_size` with every cell free. Succeeds
    /// exactly when the side is odd, at least 3, and the cell count fits the
    /// machine; rejected geometries leave an `InvalidPlayboardSize`.
    pub fn new(row_col_size: usize) -> (r: Result<Playboard, InvalidPlayboardSize>)
        ensures
            r is Ok <==> (3 <= row_col_size && row_col_size % 2 == 1 && row_col_size * row_col_size
                <= usize::MAX),
            r matches Ok(b) ==> b.well_formed() && b.n() == row_col_size && b.grid_view()
                =~= Seq::new((row_col_size * row_col_size) as nat, |i: int| PlayboardGridOptions::Free),
    {
        if row_col_size < 3 {
            return Err(
                InvalidPlayboardSize { error: "Playboard side must be at least three." },
            );
        }
        let size: usize = match row_col_size.checked_mul(row_col_size) {
            Some(s) => s,
            None => {
                return Err(
                    InvalidPlayboardSize { error: "Playboard size does not fit this machine." },
                );
            },
        };
        if row_col_size % 2 == 0 {
            return Err(InvalidPlayboardSize { error: "Playboard size must be odd number." });
        }
        let mut grid: Vec<PlayboardGridOptions> = Vec::new();
        let mut i: usize = 0;
        while i < size
            invariant
                0 <= i <= size,
                grid@.len() == i,
                forall|j: int| 0 <= j < i ==> grid@[j] == PlayboardGridOptions::Free,
            decreases size - i,
        {
            grid.push(PlayboardGridOptions::Free);
            i += 1;
        }
        let board = Playboard { grid, row_col_size, size };
        proof {
            assert(board.grid_view() =~= Seq::new(
                (row_col_size * row_col_size) as nat,
                |i: int| PlayboardGridOptions::Free,
            ));
        }
        Ok(board)
    }

    /// A board with the given cells, row-major. Succeeds exactly when the
    /// side could make a fresh board and the cell vector has side-squared
    /// entries.
    pub fn from_grid(grid: Vec<PlayboardGridOptions>, row_col_size: usize) -> (r: Result<
        Playboard,
        InvalidPlayboardSize,
    >)
        ensures
            r is Ok <==> (3 <= row_col_size && row_col_size % 2 == 1 && row_col_size * row_col_size
                <= usize::MAX && grid@.len() == row_col_size * row_col_size),
            r matches Ok(b) ==> b.well_formed() && b.n() == row_col_size && b.grid_view() == grid@,
    {
        if row_col_size < 3 || row_col_size % 2 == 0 {
            return Err(InvalidPlayboardSize { error: "Playboard size must be odd number." });
        }
        let size: usize = match row_col_size.checked_mul(row_col_size) {
            Some(s) => s,
            None => {
                return Err(
                    InvalidPlayboardSize { error: "Playboard size does not fit this machine." },
                );
            },
        };
        if grid.len() != size {
            return Err(
                InvalidPlayboardSize { error: "Grid does not match the requested side." },
            );
        }
        Ok(Playboard { grid, row_col_size, size })
    }

    /// The side length.
    pub fn get_row_col_size(&self) -> (r: usize)
        ensures
            r == self.n(),
    {
        self.row_col_size
    }

    /// The cell at a row-major index.
    pub fn cell_at_index(&self, index: usize) -> (r: PlayboardGridOptions)
        requires
            index < self.grid_view().len(),
        ensures
            r == self.grid_view()[index as int],
    {
        self.grid[index]
    }

    /// A copy of the grid, row-major: the read-only snapshot handed to
    /// rendering.
    pub fn grid_snapshot(&self) -> (r: Vec<PlayboardGridOptions>)
        ensures
            r@ == self.grid_view(),
    {
        let mut out: Vec<PlayboardGridOptions> = Vec::new();
        let mut i: usize = 0;
        let len: usize = self.grid.len();
        while i < len
            invariant
                len == self.grid@.len(),
                0 <= i <= len,
                out@.len() == i,
                forall|j: int| 0 <= j < i ==> out@[j] == self.grid@[j],
            decreases len - i,
        {
            out.push(self.grid[i]);
            i += 1;
        }
        proof {
            assert(out@ =~= self.grid_view());
        }
        out
    }

    /// True when a placement at `(row, col)` would be accepted: on the board
    /// and on a free cell.
    pub fn check_validity_of_indexes(&self, row: usize, col: usize) -> (r: bool)
        requires
            self.well_formed(),
        ensures
            r == valid_place(self.grid_view(), self.n(), row as int, col as int),
    {
        if row >= self.row_col_size || col >= self.row_col_size {
            return false;
        }
        proof {
            lemma_cell_index_bounds(row as int, col as int, self.n());
        }
        let idx: usize = i2d_into_1d(row, col, self.row_col_size);
        self.grid[idx] == PlayboardGridOptions::Free
    }

    /// True when the cells are non-empty and all past the first equal the
    /// first, which holds a player's mark.
    pub fn check_if_same_symbols(data: &[PlayboardGridOptions]) -> (r: bool)
        ensures
            r == all_same_symbols(data@),
    {
        let len: usize = data.len();
        if len == 0 {
            return false;
        }
        let first = data[0];
        let mut i: usize = 1;
        while i < len
            invariant
                len == data@.len(),
                1 <= i <= len,
                first == data@[0],
                forall|j: int|
                    1 <= j < i ==> (#[trigger] data@[j]) != PlayboardGridOptions::Free && data@[j]
                        == data@[0],
            decreases len - i,
        {
            if data[i] == PlayboardGridOptions::Free || data[i] != first {
                return false;
            }
            i += 1;
        }
        true
    }

    /// Row `row`, as a vector of `n` cells.
    pub fn get_row_iter(&self, row: usize) -> (r: Vec<PlayboardGridOptions>)
        requires
            self.well_formed(),
            row < self.n(),
        ensures
            r@ == row_line(self.grid_view(), self.n(), row as int),
    {
        let n: usize = self.row_col_size;
        let mut out: Vec<PlayboardGridOptions> = Vec::new();
        let mut c: usize = 0;
        while c < n
            invariant
                self.well_formed(),
                n == self.row_col_size,
                row < n,
                0 <= c <= n,
                out@.len() == c,
                forall|j: int|
                    0 <= j < c ==> out@[j] == self.grid@[spec_cell_index(row as int, j, n as int)],
            decreases n - c,
        {
            proof {
                lemma_cell_index_bounds(row as int, c as int, n as int);
            }
            let idx: usize = i2d_into_1d(row, c, n);
            out.push(self.grid[idx]);
            c += 1;
        }
        proof {
            assert(out@ =~= row_line(self.grid_view(), self.n(), row as int));
        }
        out
    }

    /// Column `col`, as a vector of `n` cells.
    pub fn get_col_iter(&self, col: usize) -> (r: Vec<PlayboardGridOptions>)
        requires
            self.well_formed(),
            col < self.n(),
        ensures
            r@ == col_line(self.grid_view(), self.n(), col as int),
    {
        let n: usize = self.row_col_size;
        let mut out: Vec<PlayboardGridOptions> = Vec::new();
        let mut r_i: usize = 0;
        while r_i < n
            invariant
                self.well_formed(),
                n == self.row_col_size,
                col < n,
                0 <= r_i <= n,
                out@.len() == r_i,
                forall|j: int|
                    0 <= j < r_i ==> out@[j] == self.grid@[spec_cell_index(j, col as int, n as int)],
            decreases n - r_i,
        {
            proof {
                lemma_cell_index_bounds(r_i as int, col as int, n as int);
            }
            let idx: usize = i2d_into_1d(r_i, col, n);
            out.push(self.grid[idx]);
            r_i += 1;
        }
        proof {
            assert(out@ =~= col_line(self.grid_view(), self.n(), col as int));
        }
        out
    }

    /// The main diagonal, as a vector of `n` cells.
    pub fn get_main_diag_iter(&self) -> (r: Vec<PlayboardGridOptions>)
        requires
            self.well_formed(),
        ensures
            r@ == main_diag_line(self.grid_view(), self.n()),
    {
        let n: usize = self.row_col_size;
        let mut out: Vec<PlayboardGridOptions> = Vec::new();
        let mut i: usize = 0;
        while i < n
            invariant
                self.well_formed(),
                n == self.row_col_size,
                0 <= i <= n,
                out@.len() == i,
                forall|j: int| 0 <= j < i ==> out@[j] == self.grid@[spec_cell_index(j, j, n as int)],
            decreases n - i,
        {
            proof {
                lemma_cell_index_bounds(i as int, i as int, n as int);
            }
            let idx: usize = i2d_into_1d(i, i, n);
            out.push(self.grid[idx]);
            i += 1;
        }
        proof {
            assert(out@ =~= main_diag_line(self.grid_view(), self.n()));
        }
        out
    }

    /// The anti-diagonal, as a vector of `n` cells.
    pub fn get_anti_diag_iter(&self) -> (r: Vec<PlayboardGridOptions>)
        requires
            self.well_formed(),
        ensures
            r@ == anti_diag_line(self.grid_view(), self.n()),
    {
        let n: usize = self.row_col_size;
        let mut out: Vec<PlayboardGridOptions> = Vec::new();
        let mut i: usize = 0;
        while i < n
            invariant
                self.well_formed(),
                n == self.row_col_size,
                0 <= i <= n,
                out@.len() == i,
                forall|j: int|
                    0 <= j < i ==> out@[j] == self.grid@[spec_cell_index(
                        j,
                        n as int - 1 - j,
                        n as int,
                    )],
            decreases n - i,
        {
            proof {
                lemma_cell_index_bounds(i as int, (n - 1 - i) as int, n as int);
            }
            let idx: usize = i2d_into_1d(i, n - 1 - i, n);
            out.push(self.grid[idx]);
            i += 1;
        }
        proof {
            assert(out@ =~= anti_diag_line(self.grid_view(), self.n()));
        }
        out
    }

    /// True when the just-placed cell `(row, col)` completed a line through
    /// it.
    pub fn check_for_game_win(&self, row: usize, col: usize) -> (r: bool)
        requires
            self.well_formed(),
            row < self.n(),
            col < self.n(),
        ensures
            r == wins_at(self.grid_view(), self.n(), row as int, col as int),
    {
        let n: usize = self.row_col_size;
        proof {
            assert(row + col < n * n) by (nonlinear_arith)
                requires
                    row < n,
                    col < n,
                    3 <= n,
            ;
        }
        let row_cells = self.get_row_iter(row);
        if Self::check_if_same_symbols(row_cells.as_slice()) {
            return true;
        }
        let col_cells = self.get_col_iter(col);
        if Self::check_if_same_symbols(col_cells.as_slice()) {
            return true;
        }
        if row == col {
            let diag_cells = self.get_main_diag_iter();
            if Self::check_if_same_symbols(diag_cells.as_slice()) {
                return true;
            }
        }
        if row + col == n - 1 {
            let anti_cells = self.get_anti_diag_iter();
            if Self::check_if_same_symbols(anti_cells.as_slice()) {
                return true;
            }
        }
        false
    }

    /// True when no cell of the grid is free.
    pub fn check_for_full_playboard(&self) -> (r: bool)
        ensures
            r == is_full(self.grid_view()),
    {
        let len: usize = self.grid.len();
        let mut i: usize = 0;
        while i < len
            invariant
                len == self.grid@.len(),
                0 <= i <= len,
                forall|j: int| 0 <= j < i ==> self.grid@[j] != PlayboardGridOptions::Free,
            decreases len - i,
        {
            if self.grid[i] == PlayboardGridOptions::Free {
                return false;
            }
            i += 1;
        }
        true
    }

    /// A placement attempt with the mark of `start_order` at the zero-based
    /// `(row, col)`. A rejected attempt changes nothing; an accepted one
    /// writes the mark and reports the outcome evaluated after the write.
    pub fn place_on_grid(&mut self, row: usize, col: usize, start_order: StartOrder) -> (r:
        GameState)
        requires
            old(self).well_formed(),
        ensures
            final(self).well_formed(),
            final(self).n() == old(self).n(),
            final(self).grid_view() == place_grid(
                old(self).grid_view(),
                old(self).n(),
                row as int,
                col as int,
                mark_of(start_order),
            ),
            r == place_state(
                old(self).grid_view(),
                old(self).n(),
                row as int,
                col as int,
                mark_of(start_order),
            ),
    {
        if !self.check_validity_of_indexes(row, col) {
            return GameState::InvalidPlace;
        }
        let player_playboard_grid_option = match start_order {
            StartOrder::First => PlayboardGridOptions::X,
            StartOrder::Second => PlayboardGridOptions::O,
        };
        proof {
            lemma_cell_index_bounds(row as int, col as int, self.n());
        }
        let idx: usize = i2d_into_1d(row, col, self.row_col_size);
        self.grid.set(idx, player_playboard_grid_option);
        if self.check_for_game_win(row, col) {
            GameState::GameOver
        } else if self.check_for_full_playboard() {
            GameState::Draw
        } else {
            GameState::Placed
        }
    }

    /// Resets every cell to free; side and cell count stay.
    pub fn clear_board(&mut self)
        requires
            old(self).well_formed(),
        ensures
            final(self).well_formed(),
            final(self).n() == old(self).n(),
            final(self).grid_view() =~= Seq::new(
                old(self).grid_view().len(),
                |i: int| PlayboardGridOptions::Free,
            ),
    {
        let size: usize = self.size;
        let mut grid: Vec<PlayboardGridOptions> = Vec::new();
        let mut i: usize = 0;
        while i < size
            invariant
                0 <= i <= size,
                grid@.len() == i,
                forall|j: int| 0 <= j < i ==> grid@[j] == PlayboardGridOptions::Free,
            decreases size - i,
        {
            grid.push(PlayboardGridOptions::Free);
            i += 1;
        }
        self.grid = grid;
    }
}

} // verus!
