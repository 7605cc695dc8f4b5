//! The game session: one board, a cursor, the turn to play, and the
//! commit/resolve protocol that drives the session to a terminal outcome.

use vstd::prelude::*;

use crate::board::Board;
use crate::board::BoardError;
use crate::lines::anti_diag_cells;
use crate::lines::board_full;
use crate::lines::col_cells;
use crate::lines::lemma_cell_index_in_bounds;
use crate::lines::lemma_diag_index_in_bounds;
use crate::lines::lemma_match_count_le_len;
use crate::lines::lemma_size_sq_bounds;
use crate::lines::main_diag_cells;
use crate::lines::match_count;
use crate::lines::resolve_winner;
use crate::lines::row_cells;

verus! {

/// A cell of the board: one of the two player marks, or empty.
#[derive(Clone, Copy, PartialEq, Eq, Structural, Debug)]
pub enum Player {
    X,
    O,
    Empty,
}

/// The mark that plays after `p`. Meaningful only for the two player marks.
pub open spec fn other_player(p: Player) -> Player {
    if p == Player::X {
        Player::O
    } else {
        Player::X
    }
}

/// Where the session stands: still playing, won by a mark, or drawn.
#[derive(Clone, Copy, PartialEq, Eq, Structural, Debug)]
pub enum Outcome {
    Active,
    Won(Player),
    Draw,
}

/// A game session. Created fresh with an empty board, cursor at the
/// top-left cell and the first player to move; mutated only by cursor
/// requests, one commit per turn, and the resolution step.
pub struct Game {
    board: Board,
    turn: Player,
    cursor: (u8, u8),
    confirm: bool,
    outcome: Outcome,
    is_ai: bool,
    can_player_select: bool,
}

/// Everything of the session except the cursor is as it was.
pub open spec fn unchanged_but_cursor(pre: Game, post: Game) -> bool {
    &&& post.spec_board() == pre.spec_board()
    &&& post.spec_size() == pre.spec_size()
    &&& post.spec_turn() == pre.spec_turn()
    &&& post.spec_confirm() == pre.spec_confirm()
    &&& post.spec_outcome() == pre.spec_outcome()
    &&& post.spec_is_ai() == pre.spec_is_ai()
    &&& post.spec_can_select() == pre.spec_can_select()
}

impl Game {
    /// The board contents, row-major.
    pub closed spec fn spec_board(&self) -> Seq<Player> {
        self.board@
    }

    /// The side length of the board.
    pub closed spec fn spec_size(&self) -> u8 {
        self.board.spec_size()
    }

    /// The mark that commits next.
    pub closed spec fn spec_turn(&self) -> Player {
        self.turn
    }

    /// The selected cell, as (column, row).
    pub closed spec fn spec_cursor(&self) -> (u8, u8) {
        self.cursor
    }

    /// Whether a commit is pending resolution.
    pub closed spec fn spec_confirm(&self) -> bool {
        self.confirm
    }

    /// The session outcome.
    pub closed spec fn spec_outcome(&self) -> Outcome {
        self.outcome
    }

    /// Whether the session plays against the automated opponent.
    pub closed spec fn spec_is_ai(&self) -> bool {
        self.is_ai
    }

    /// Whether selection is enabled for the surrounding menu layer.
    pub closed spec fn spec_can_select(&self) -> bool {
        self.can_player_select
    }

    /// The session invariant: the board is square and small enough for
    /// 8-bit index arithmetic, the cursor is inside it, and the turn is
    /// always one of the two player marks.
    pub open spec fn wf(&self) -> bool {
        &&& 1 <= self.spec_size() <= 15
        &&& self.spec_board().len() == self.spec_size() * self.spec_size()
        &&& self.spec_cursor().0 < self.spec_size()
        &&& self.spec_cursor().1 < self.spec_size()
        &&& self.spec_turn() != Player::Empty
    }

    /// A fresh session: empty board, cursor at (0, 0), first player to move.
    pub fn new(size: u8, is_ai: bool) -> (g: Game)
        requires
            1 <= size <= 15,
        ensures
            g.wf(),
            g.spec_size() == size,
            forall|i: int| 0 <= i < g.spec_board().len() ==> g.spec_board()[i] == Player::Empty,
            g.spec_turn() == Player::X,
            g.spec_cursor() == (0u8, 0u8),
            !g.spec_confirm(),
            g.spec_outcome() == Outcome::Active,
            g.spec_is_ai() == is_ai,
            g.spec_can_select(),
    {
        Game {
            board: Board::new(size),
            turn: Player::X,
            cursor: (0, 0),
            confirm: false,
            outcome: Outcome::Active,
            is_ai,
            can_player_select: true,
        }
    }

    /// A session in a chosen intermediate state, for replaying positions.
    pub fn from_parts(size: u8, cells: Vec<Player>, cursor: (u8, u8), turn: Player, confirm: bool) -> (g: Game)
        requires
            1 <= size <= 15,
            cells@.len() == size * size,
            cursor.0 < size,
            cursor.1 < size,
            turn != Player::Empty,
        ensures
            g.wf(),
            g.spec_size() == size,
            g.spec_board() == cells@,
            g.spec_cursor() == cursor,
            g.spec_turn() == turn,
            g.spec_confirm() == confirm,
            g.spec_outcome() == Outcome::Active,
            !g.spec_is_ai(),
            g.spec_can_select(),
    {
        Game {
            board: Board::from_cells(size, cells),
            turn,
            cursor,
            confirm,
            outcome: Outcome::Active,
            is_ai: false,
            can_player_select: true,
        }
    }

    /// Move the cursor to `pos`; a request outside the grid is ignored.
    pub fn select_cell(&mut self, pos: (u8, u8))
        requires
            old(self).wf(),
        ensures
            final(self).wf(),
            unchanged_but_cursor(*old(self), *final(self)),
            final(self).spec_cursor() == (if pos.0 < old(self).spec_size() && pos.1 < old(
                self,
            ).spec_size() {
                pos
            } else {
                old(self).spec_cursor()
            }),
    {
        if pos.0 < self.board.size() && pos.1 < self.board.size() {
            self.cursor = pos;
        }
    }

    /// One step left; a request at the left edge is ignored.
    #[allow(non_snake_case)]
    pub fn handleButtonLeft(&mut self)
        requires
            old(self).wf(),
        ensures
            final(self).wf(),
            unchanged_but_cursor(*old(self), *final(self)),
            final(self).spec_cursor().1 == old(self).spec_cursor().1,
            final(self).spec_cursor().0 == (if old(self).spec_cursor().0 == 0 {
                0int
            } else {
                old(self).spec_cursor().0 - 1
            }),
    {
        if self.cursor.0 == 0 {
            return;
        }
        self.select_cell((self.cursor.0 - 1, self.cursor.1));
    }

    /// One step right; a request at the right edge is ignored.
    #[allow(non_snake_case)]
    pub fn handleButtonRight(&mut self)
        requires
            old(self).wf(),
        ensures
            final(self).wf(),
            unchanged_but_cursor(*old(self), *final(self)),
            final(self).spec_cursor().1 == old(self).spec_cursor().1,
            final(self).spec_cursor().0 == (if old(self).spec_cursor().0 == old(self).spec_size()
                - 1 {
                old(self).spec_cursor().0 as int
            } else {
                old(self).spec_cursor().0 + 1
            }),
    {
        if self.cursor.0 == self.board.size() - 1 {
            return;
        }
        self.select_cell((self.cursor.0 + 1, self.cursor.1));
    }

    /// One step down; a request at the bottom edge is ignored.
    #[allow(non_snake_case)]
    pub fn handleButtonDown(&mut self)
        requires
            old(self).wf(),
        ensures
            final(self).wf(),
            unchanged_but_cursor(*old(self), *final(self)),
            final(self).spec_cursor().0 == old(self).spec_cursor().0,
            final(self).spec_cursor().1 == (if old(self).spec_cursor().1 == old(self).spec_size()
                - 1 {
                old(self).spec_cursor().1 as int
            } else {
                old(self).spec_cursor().1 + 1
            }),
    {
        if self.cursor.1 == self.board.size() - 1 {
            return;
        }
        self.select_cell((self.cursor.0, self.cursor.1 + 1));
    }

    /// One step up; a request at the top edge is ignored.
    #[allow(non_snake_case)]
    pub fn handleButtonUp(&mut self)
        requires
            old(self).wf(),
        ensures
            final(self).wf(),
            unchanged_but_cursor(*old(self), *final(self)),
            final(self).spec_cursor().0 == old(self).spec_cursor().0,
            final(self).spec_cursor().1 == (if old(self).spec_cursor().1 == 0 {
                0int
            } else {
                old(self).spec_cursor().1 - 1
            }),
    {
        if self.cursor.1 == 0 {
            return;
        }
        self.select_cell((self.cursor.0, self.cursor.1 - 1));
    }

    /// Commit the current turn's mark onto the cursor cell. The commit is
    /// accepted only while the session is active, no earlier commit awaits
    /// resolution, and the cell is empty: then the mark is written, the
    /// turn flips to the other player, and a commit becomes pending.
    /// Otherwise -- in particular onto an occupied cell -- the request is
    /// rejected silently and nothing changes, the turn included.
    #[allow(non_snake_case)]
    pub fn handleConfirm(&mut self)
        requires
            old(self).wf(),
        ensures
            final(self).wf(),
            ({
                let col = old(self).spec_cursor().0;
                let row = old(self).spec_cursor().1;
                let i = row * old(self).spec_size() + col;
                if old(self).spec_outcome() == Outcome::Active && !old(self).spec_confirm() && old(
                    self,
                ).spec_board()[i] == Player::Empty {
                    &&& final(self).spec_board() == old(self).spec_board().update(
                        i,
                        old(self).spec_turn(),
                    )
                    &&& final(self).spec_turn() == other_player(old(self).spec_turn())
                    &&& final(self).spec_turn() != old(self).spec_turn()
                    &&& final(self).spec_confirm()
                    &&& final(self).spec_cursor() == old(self).spec_cursor()
                    &&& final(self).spec_outcome() == old(self).spec_outcome()
                    &&& final(self).spec_size() == old(self).spec_size()
                    &&& final(self).spec_is_ai() == old(self).spec_is_ai()
                    &&& final(self).spec_can_select() == old(self).spec_can_select()
                } else {
                    *final(self) == *old(self)
                }
            }),
    {
        if self.outcome != Outcome::Active {
            return;
        }
        if self.confirm {
            return;
        }
        let (x, y) = self.cursor;
        match self.board.get(y, x) {
            Ok(Player::Empty) => {
                self.board.set(y, x, self.turn);
                self.turn = match self.turn {
                    Player::X => Player::O,
                    _ => Player::X,
                };
                self.confirm = true;
            },
            _ => {},
        }
    }

    /// Count, along the cursor's row and its column, the cells that hold
    /// the cursor cell's mark; both counts are zero when that cell is
    /// empty. Returns (row count, column count, cursor cell's mark).
    pub fn count_matching_rows_cols(&self) -> (r: (u8, u8, Player))
        requires
            self.wf(),
        ensures
            r.2 == self.spec_board()[self.spec_cursor().1 * self.spec_size()
                + self.spec_cursor().0],
            r.0 == match_count(
                self.spec_board(),
                r.2,
                row_cells(self.spec_size() as int, self.spec_cursor().1 as int),
            ),
            r.1 == match_count(
                self.spec_board(),
                r.2,
                col_cells(self.spec_size() as int, self.spec_cursor().0 as int),
            ),
    {
        let (sel_col, sel_row) = self.cursor;
        let size = self.board.size();
        let target = match self.board.get(sel_row, sel_col) {
            Ok(p) => p,
            Err(_) => Player::Empty,
        };

        let ghost rows = row_cells(size as int, sel_row as int);
        let ghost cols = col_cells(size as int, sel_col as int);

        let mut count_row: u8 = 0;
        let mut count_col: u8 = 0;
        let mut cell: u8 = 0;
        while cell < size
            invariant
                self.wf(),
                size == self.spec_size(),
                sel_col == self.spec_cursor().0,
                sel_row == self.spec_cursor().1,
                cell <= size,
                rows == row_cells(size as int, sel_row as int),
                cols == col_cells(size as int, sel_col as int),
                count_row == match_count(self.spec_board(), target, rows.take(cell as int)),
                count_col == match_count(self.spec_board(), target, cols.take(cell as int)),
            decreases size - cell,
        {
            proof {
                lemma_size_sq_bounds(size as int);
                lemma_cell_index_in_bounds(size as int, sel_row as int, cell as int);
                lemma_cell_index_in_bounds(size as int, cell as int, sel_col as int);
                lemma_match_count_le_len(self.spec_board(), target, rows.take(cell as int));
                lemma_match_count_le_len(self.spec_board(), target, cols.take(cell as int));
                assert(rows.take(cell + 1).drop_last() =~= rows.take(cell as int));
                assert(cols.take(cell + 1).drop_last() =~= cols.take(cell as int));
            }
            let idx_row: usize = (sel_row as usize) * (size as usize) + (cell as usize);
            let idx_col: usize = (cell as usize) * (size as usize) + (sel_col as usize);

            if self.board.at_index(idx_row) == target && target != Player::Empty {
                count_row = count_row + 1;
            }
            if self.board.at_index(idx_col) == target && target != Player::Empty {
                count_col = count_col + 1;
            }
            cell = cell + 1;
        }
        proof {
            assert(rows.take(size as int) =~= rows);
            assert(cols.take(size as int) =~= cols);
        }
        (count_row, count_col, target)
    }

    /// Count the cells of the two diagonals that hold their anchor's mark:
    /// the top-left cell anchors the main diagonal, the top-right cell the
    /// anti diagonal. Only meaningful on an odd-sized board; on an even
    /// size both counts are zero and both anchors report Empty, so no
    /// diagonal win is ever detected there. Returns (main count, anti
    /// count, main anchor, anti anchor).
    pub fn count_matching_diagonals(&self) -> (r: (u8, u8, Player, Player))
        requires
            self.wf(),
        ensures
            self.spec_size() % 2 == 0 ==> r == (0u8, 0u8, Player::Empty, Player::Empty),
            self.spec_size() % 2 == 1 ==> {
                &&& r.2 == self.spec_board()[0]
                &&& r.3 == self.spec_board()[self.spec_size() - 1]
                &&& r.0 == match_count(
                    self.spec_board(),
                    r.2,
                    main_diag_cells(self.spec_size() as int),
                )
                &&& r.1 == match_count(
                    self.spec_board(),
                    r.3,
                    anti_diag_cells(self.spec_size() as int),
                )
            },
    {
        let size = self.board.size();
        if size % 2 == 0 {
            return (0, 0, Player::Empty, Player::Empty);
        }
        proof {
            lemma_size_sq_bounds(size as int);
        }
        let target_lr_diag = self.board.at_index(0);
        let target_rl_diag = self.board.at_index((size - 1) as usize);

        let ghost mains = main_diag_cells(size as int);
        let ghost antis = anti_diag_cells(size as int);

        let mut count_lr_diag: u8 = 0;
        let mut count_rl_diag: u8 = 0;
        let mut y: u8 = 0;
        while y < size
            invariant
                self.wf(),
                size == self.spec_size(),
                y <= size,
                mains == main_diag_cells(size as int),
                antis == anti_diag_cells(size as int),
                count_lr_diag == match_count(self.spec_board(), target_lr_diag, mains.take(y as int)),
                count_rl_diag == match_count(self.spec_board(), target_rl_diag, antis.take(y as int)),
            decreases size - y,
        {
            proof {
                lemma_size_sq_bounds(size as int);
                lemma_diag_index_in_bounds(size as int, y as int);
                lemma_match_count_le_len(self.spec_board(), target_lr_diag, mains.take(y as int));
                lemma_match_count_le_len(self.spec_board(), target_rl_diag, antis.take(y as int));
                assert(mains.take(y + 1).drop_last() =~= mains.take(y as int));
                assert(antis.take(y + 1).drop_last() =~= antis.take(y as int));
            }
            let lr_diag_cell: usize = (y as usize) * (size as usize + 1);
            let rl_diag_cell: usize = (y as usize + 1) * (size as usize - 1);

            if self.board.at_index(lr_diag_cell) == target_lr_diag && target_lr_diag
                != Player::Empty {
                count_lr_diag = count_lr_diag + 1;
            }
            if self.board.at_index(rl_diag_cell) == target_rl_diag && target_rl_diag
                != Player::Empty {
                count_rl_diag = count_rl_diag + 1;
            }
            y = y + 1;
        }
        proof {
            assert(mains.take(size as int) =~= mains);
            assert(antis.take(size as int) =~= antis);
        }
        (count_lr_diag, count_rl_diag, target_lr_diag, target_rl_diag)
    }

    /// Resolve the line scan around the cursor cell: if one of the four
    /// counts reaches the board size, the winner is the mark behind the
    /// largest count, ties broken in the order row, column, main diagonal,
    /// anti diagonal; otherwise there is no winner this turn.
    pub fn try_get_winner(&self) -> (w: Option<Player>)
        requires
            self.wf(),
        ensures
            w == resolve_winner(
                self.spec_board(),
                self.spec_size() as int,
                self.spec_cursor().0 as int,
                self.spec_cursor().1 as int,
            ),
    {
        let size = self.board.size();
        let (count_row, count_col, target) = self.count_matching_rows_cols();
        let (count_lr_diag, count_rl_diag, target_lr_diag, target_rl_diag) =
            self.count_matching_diagonals();

        let is_match_all = count_row == size || count_col == size || count_lr_diag == size
            || count_rl_diag == size;

        if is_match_all {
            if count_row >= count_col && count_row >= count_lr_diag && count_row >= count_rl_diag {
                Some(target)
            } else if count_col >= count_lr_diag && count_col >= count_rl_diag {
                Some(target)
            } else if count_lr_diag >= count_rl_diag {
                Some(target_lr_diag)
            } else {
                Some(target_rl_diag)
            }
        } else {
            None
        }
    }

    /// The side length of the board.
    pub fn size(&self) -> (s: u8)
        ensures
            s == self.spec_size(),
    {
        self.board.size()
    }

    /// The selected cell, as (column, row).
    pub fn cursor(&self) -> (c: (u8, u8))
        ensures
            c == self.spec_cursor(),
    {
        self.cursor
    }

    /// The mark that commits next.
    pub fn turn(&self) -> (t: Player)
        ensures
            t == self.spec_turn(),
    {
        self.turn
    }

    /// Whether a commit awaits resolution.
    pub fn confirm_pending(&self) -> (c: bool)
        ensures
            c == self.spec_confirm(),
    {
        self.confirm
    }

    /// Where the session stands.
    pub fn outcome(&self) -> (o: Outcome)
        ensures
            o == self.spec_outcome(),
    {
        self.outcome
    }

    /// One cell of the board, defensively: coordinates outside the grid
    /// report an error.
    pub fn cell(&self, row: u8, col: u8) -> (r: Result<Player, BoardError>)
        requires
            self.wf(),
        ensures
            row < self.spec_size() && col < self.spec_size() ==> r == Ok::<Player, BoardError>(
                self.spec_board()[row * self.spec_size() + col],
            ),
            !(row < self.spec_size() && col < self.spec_size()) ==> r == Err::<
                Player,
                BoardError,
            >(BoardError::IndexOutOfRange),
    {
        self.board.get(row, col)
    }

    /// The resolution step, run once after each commit: a completed line
    /// ends the session as Won by its mark; a full board without one ends
    /// it as Draw; otherwise the session stays active and the pending
    /// commit is cleared. On a session that is already terminal, or has no
    /// commit pending, nothing changes at all -- resolving twice is a no-op.
    pub fn update(&mut self)
        requires
            old(self).wf(),
        ensures
            final(self).wf(),
            old(self).spec_outcome() != Outcome::Active ==> *final(self) == *old(self),
            !old(self).spec_confirm() ==> *final(self) == *old(self),
            old(self).spec_outcome() == Outcome::Active && old(self).spec_confirm() ==> {
                let w = resolve_winner(
                    old(self).spec_board(),
                    old(self).spec_size() as int,
                    old(self).spec_cursor().0 as int,
                    old(self).spec_cursor().1 as int,
                );
                &&& final(self).spec_board() == old(self).spec_board()
                &&& final(self).spec_turn() == old(self).spec_turn()
                &&& final(self).spec_cursor() == old(self).spec_cursor()
                &&& final(self).spec_size() == old(self).spec_size()
                &&& !final(self).spec_confirm()
                &&& final(self).spec_is_ai() == old(self).spec_is_ai()
                &&& final(self).spec_can_select() == old(self).spec_can_select()
                &&& final(self).spec_outcome() == (match w {
                    Some(p) => Outcome::Won(p),
                    None => if board_full(old(self).spec_board()) {
                        Outcome::Draw
                    } else {
                        Outcome::Active
                    },
                })
            },
    {
        if self.outcome != Outcome::Active {
            return;
        }
        if !self.confirm {
            return;
        }
        self.confirm = false;

        let winner = self.try_get_winner();
        match winner {
            Some(p) => {
                self.outcome = Outcome::Won(p);
            },
            None => {
                if self.board.is_full() {
                    self.outcome = Outcome::Draw;
                }
            },
        }
    }
}

} // verus!
