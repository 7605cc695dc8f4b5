//! The board: a square grid of cells stored row-major, index = row * size + col.

use vstd::prelude::*;

use crate::game::Player;
use crate::lines::board_full;
use crate::lines::lemma_cell_index_in_bounds;
use crate::lines::lemma_size_sq_bounds;

verus! {

/// The one failure the board can report: an access outside the grid.
/// The session layer keeps its cursor in bounds, so this is defensive only.
#[derive(Clone, Copy, PartialEq, Eq, Structural, Debug)]
pub enum BoardError {
    IndexOutOfRange,
}

/// A square grid of `size * size` cells.
pub struct Board {
    cells: Vec<Player>,
    size: u8,
}

impl View for Board {
    type V = Seq<Player>;

    closed spec fn view(&self) -> Seq<Player> {
        self.cells@
    }
}

impl Board {
    /// The side length of the grid.
    pub closed spec fn spec_size(&self) -> u8 {
        self.size
    }

    /// The grid is square and small enough for 8-bit index arithmetic.
    pub open spec fn wf(&self) -> bool {
        &&& 1 <= self.spec_size() <= 15
        &&& self@.len() == self.spec_size() * self.spec_size()
    }

    /// A fresh, fully empty grid.
    pub fn new(size: u8) -> (b: Board)
        requires
            1 <= size <= 15,
        ensures
            b.wf(),
            b.spec_size() == size,
            forall|i: int| 0 <= i < b@.len() ==> b@[i] == Player::Empty,
    {
        proof {
            lemma_size_sq_bounds(size as int);
        }
        let n: usize = (size as usize) * (size as usize);
        let mut cells: Vec<Player> = Vec::new();
        let mut i: usize = 0;
        while i < n
            invariant
                i <= n,
                cells@.len() == i,
                forall|j: int| 0 <= j < i ==> cells@[j] == Player::Empty,
            decreases n - i,
        {
            cells.push(Player::Empty);
            i = i + 1;
        }
        Board { cells, size }
    }

    /// A grid over the given cells, which must fill it exactly.
    pub fn from_cells(size: u8, cells: Vec<Player>) -> (b: Board)
        requires
            1 <= size <= 15,
            cells@.len() == size * size,
        ensures
            b.wf(),
            b.spec_size() == size,
            b@ == cells@,
    {
        Board { cells, size }
    }

    pub fn size(&self) -> (s: u8)
        ensures
            s == self.spec_size(),
    {
        self.size
    }

    /// Defensive read: coordinates outside the grid report an error.
    pub fn get(&self, row: u8, col: u8) -> (r: Result<Player, BoardError>)
        requires
            self.wf(),
        ensures
            row < self.spec_size() && col < self.spec_size() ==> r == Ok::<Player, BoardError>(
                self@[row * self.spec_size() + col],
            ),
            !(row < self.spec_size() && col < self.spec_size()) ==> r == Err::<
                Player,
                BoardError,
            >(BoardError::IndexOutOfRange),
    {
        if row < self.size && col < self.size {
            proof {
                lemma_size_sq_bounds(self.size as int);
                lemma_cell_index_in_bounds(self.size as int, row as int, col as int);
            }
            let idx: usize = (row as usize) * (self.size as usize) + (col as usize);
            Ok(self.cells[idx])
        } else {
            Err(BoardError::IndexOutOfRange)
        }
    }

    /// Read a cell by its row-major index, known to be inside the grid.
    pub(crate) fn at_index(&self, idx: usize) -> (p: Player)
        requires
            idx < self@.len(),
        ensures
            p == self@[idx as int],
    {
        self.cells[idx]
    }

    /// Overwrite one cell unconditionally. The session layer confirms the
    /// cell is empty before committing a mark onto it.
    pub fn set(&mut self, row: u8, col: u8, value: Player)
        requires
            old(self).wf(),
            row < old(self).spec_size(),
            col < old(self).spec_size(),
        ensures
            final(self).wf(),
            final(self).spec_size() == old(self).spec_size(),
            final(self)@ == old(self)@.update(
                row * old(self).spec_size() + col,
                value,
            ),
    {
        proof {
            lemma_size_sq_bounds(self.size as int);
            lemma_cell_index_in_bounds(self.size as int, row as int, col as int);
        }
        let idx: usize = (row as usize) * (self.size as usize) + (col as usize);
        self.cells[idx] = value;
    }

    /// True exactly when no cell of the grid is empty.
    pub fn is_full(&self) -> (r: bool)
        ensures
            r == board_full(self@),
    {
        let mut i: usize = 0;
        while i < self.cells.len()
            invariant
                i <= self@.len(),
                forall|j: int| 0 <= j < i ==> self@[j] != Player::Empty,
            decreases self@.len() - i,
        {
            if self.cells[i] == Player::Empty {
                return false;
            }
            i = i + 1;
        }
        true
    }
}

} // verus!
