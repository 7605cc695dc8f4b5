//! The mathematical model of the line scan: which cells make up a row, a
//! column or a diagonal of the grid, and how many of them hold a given mark.

use vstd::prelude::*;

use crate::game::Player;

verus! {

/// Indices (row-major) of the cells of `row`, left to right.
pub open spec fn row_cells(size: int, row: int) -> Seq<int> {
    Seq::new(size as nat, |i: int| row * size + i)
}

/// Indices of the cells of column `col`, top to bottom.
pub open spec fn col_cells(size: int, col: int) -> Seq<int> {
    Seq::new(size as nat, |i: int| i * size + col)
}

/// Indices of the main diagonal, anchored at the top-left cell.
pub open spec fn main_diag_cells(size: int) -> Seq<int> {
    Seq::new(size as nat, |i: int| i * (size + 1))
}

/// Indices of the anti diagonal, anchored at the top-right cell.
pub open spec fn anti_diag_cells(size: int) -> Seq<int> {
    Seq::new(size as nat, |i: int| (i + 1) * (size - 1))
}

/// How many of the cells listed in `cells` hold the mark `target`.
/// A line of empty cells never counts as a match: when `target` is
/// `Empty` the count is zero.
pub open spec fn match_count(board: Seq<Player>, target: Player, cells: Seq<int>) -> nat
    decreases cells.len(),
{
    if cells.len() == 0 {
        0
    } else {
        let rest = match_count(board, target, cells.drop_last());
        if target != Player::Empty && 0 <= cells.last() < board.len() && board[cells.last()]
            == target {
            rest + 1
        } else {
            rest
        }
    }
}

/// No cell of the grid is empty.
pub open spec fn board_full(board: Seq<Player>) -> bool {
    forall|i: int| 0 <= i < board.len() ==> board[i] != Player::Empty
}

/// The outcome of the line scan around the reference cell (`col`, `row`):
/// the four counts are taken along the cell's row, its column and (on an
/// odd-sized board only) the two diagonals; if one of them reaches `size`,
/// the winner is the mark behind the largest count, ties broken in the
/// order row, column, main diagonal, anti diagonal.
pub open spec fn resolve_winner(board: Seq<Player>, size: int, col: int, row: int) -> Option<
    Player,
> {
    let target = board[row * size + col];
    let count_row = match_count(board, target, row_cells(size, row));
    let count_col = match_count(board, target, col_cells(size, col));
    let target_lr = if size % 2 == 1 {
        board[0]
    } else {
        Player::Empty
    };
    let target_rl = if size % 2 == 1 {
        board[size - 1]
    } else {
        Player::Empty
    };
    let count_lr: nat = if size % 2 == 1 {
        match_count(board, target_lr, main_diag_cells(size))
    } else {
        0
    };
    let count_rl: nat = if size % 2 == 1 {
        match_count(board, target_rl, anti_diag_cells(size))
    } else {
        0
    };
    if count_row == size || count_col == size || count_lr == size || count_rl == size {
        if count_row >= count_col && count_row >= count_lr && count_row >= count_rl {
            Some(target)
        } else if count_col >= count_lr && count_col >= count_rl {
            Some(target)
        } else if count_lr >= count_rl {
            Some(target_lr)
        } else {
            Some(target_rl)
        }
    } else {
        None
    }
}

/// A count over a list of cells never exceeds the list's length.
pub proof fn lemma_match_count_le_len(board: Seq<Player>, target: Player, cells: Seq<int>)
    ensures
        match_count(board, target, cells) <= cells.len(),
    decreases cells.len(),
{
    if cells.len() > 0 {
        lemma_match_count_le_len(board, target, cells.drop_last());
    }
}

/// On a grid of side at most 15, the cell count fits 8-bit arithmetic
/// and is at least the side length.
pub proof fn lemma_size_sq_bounds(size: int)
    requires
        1 <= size <= 15,
    ensures
        size <= size * size <= 225,
{
    assert(size <= size * size <= 225) by (nonlinear_arith)
        requires
            1 <= size <= 15,
    ;
}

/// A cell addressed by in-range row and column lies inside the grid.
pub proof fn lemma_cell_index_in_bounds(size: int, row: int, col: int)
    requires
        0 <= row < size,
        0 <= col < size,
    ensures
        0 <= row * size + col < size * size,
{
    assert(0 <= row * size + col < size * size) by (nonlinear_arith)
        requires
            0 <= row < size,
            0 <= col < size,
    ;
}

/// The cells of both diagonals lie inside the grid.
pub proof fn lemma_diag_index_in_bounds(size: int, y: int)
    requires
        0 <= y < size,
    ensures
        0 <= y * (size + 1) < size * size,
        0 <= (y + 1) * (size - 1) < size * size,
{
    assert(0 <= y * (size + 1) < size * size && 0 <= (y + 1) * (size - 1) < size * size)
        by (nonlinear_arith)
        requires
            0 <= y < size,
    ;
}

} // verus!
