use vstd::prelude::*;

verus! {

/// Width of the playable board, in cells.
pub const X_LENGTH: u32 = 10;

/// Height of the playable board, in cells.
pub const Y_LENGTH: u32 = 18;

/// Side of the square occupancy storage. It is a configuration choice that
/// leaves slack around the playable board; it must be at least `X_LENGTH`
/// and `Y_LENGTH`, which `GameBoard::wf` relies on.
pub const BOARD_SIDE: usize = 25;

/// A cell position on the grid.
#[derive(Clone, Copy, Debug, PartialEq, Eq, Structural)]
pub struct Position {
    pub x: i32,
    pub y: i32,
}

/// Is `(x, y)` on the playable board?
pub open spec fn on_board(x: int, y: int) -> bool {
    0 <= x < X_LENGTH && 0 <= y < Y_LENGTH
}

/// Is `(x, y)` inside the occupancy storage?
pub open spec fn in_storage(x: int, y: int) -> bool {
    0 <= x < BOARD_SIDE && 0 <= y < BOARD_SIDE
}

/// Index of `(x, y)` in the row-major storage.
pub open spec fn cell_index(x: int, y: int) -> int {
    y * BOARD_SIDE + x
}

proof fn lemma_cell_index(x: int, y: int, i: int, j: int)
    requires
        in_storage(x, y),
        in_storage(i, j),
    ensures
        0 <= cell_index(x, y) < BOARD_SIDE * BOARD_SIDE,
        cell_index(x, y) == cell_index(i, j) <==> (x == i && y == j),
{
    assert(0 <= y * 25 + x < 625) by (nonlinear_arith)
        requires 0 <= x < 25, 0 <= y < 25;
    assert(y * 25 + x == j * 25 + i ==> x == i && y == j) by (nonlinear_arith)
        requires 0 <= x < 25, 0 <= y < 25, 0 <= i < 25, 0 <= j < 25;
}

/// Is `after` the board `before` with `(x, y)` occupied, and nothing else changed?
pub open spec fn marked(before: GameBoard, after: GameBoard, x: int, y: int) -> bool {
    &&& after.wf()
    &&& forall|i: int, j: int|
        in_storage(i, j) ==> #[trigger] after.occupied(i, j) == (before.occupied(i, j) || (i == x
            && j == y))
}

/// Do `a` and `b` agree on every storage cell?
pub open spec fn same_occupancy(a: GameBoard, b: GameBoard) -> bool {
    forall|x: int, y: int| in_storage(x, y) ==> #[trigger] a.occupied(x, y) == b.occupied(x, y)
}

/// Is every cell occupied in `before` also occupied in `after`?
pub open spec fn occupancy_grows(before: GameBoard, after: GameBoard) -> bool {
    forall|x: int, y: int| in_storage(x, y) && #[trigger] before.occupied(x, y) ==> after.occupied(x, y)
}

/// Marking a cell a second time leaves the board as the first marking left it.
pub proof fn lemma_mark_occupied_idempotent(
    b0: GameBoard,
    b1: GameBoard,
    b2: GameBoard,
    x: int,
    y: int,
)
    requires
        marked(b0, b1, x, y),
        marked(b1, b2, x, y),
    ensures
        same_occupancy(b1, b2),
{
}

/// Along any run of boards in which each step keeps every occupied cell,
/// a cell once occupied stays occupied.
pub proof fn lemma_occupancy_monotonic(boards: Seq<GameBoard>, k: int, l: int)
    requires
        forall|i: int| 0 <= i < boards.len() - 1 ==> occupancy_grows(#[trigger] boards[i], boards[i + 1]),
        0 <= k <= l < boards.len(),
    ensures
        occupancy_grows(boards[k], boards[l]),
    decreases l - k,
{
    if k < l {
        lemma_occupancy_monotonic(boards, k, l - 1);
        assert(occupancy_grows(boards[l - 1], boards[l]));
    }
}

/// Occupancy of the fixed cells: one flag per storage cell, stored row by row.
pub struct GameBoard {
    cells: Vec<bool>,
}

impl GameBoard {
    pub closed spec fn wf(&self) -> bool {
        self.cells@.len() == BOARD_SIDE * BOARD_SIDE
    }

    /// Has a fixed cell been recorded at `(x, y)`?
    pub closed spec fn occupied(&self, x: int, y: int) -> bool {
        self.cells@[cell_index(x, y)]
    }

    /// A board on which no cell is occupied.
    pub fn new() -> (r: GameBoard)
        ensures
            r.wf(),
            forall|x: int, y: int| in_storage(x, y) ==> !r.occupied(x, y),
    {
        let cells: Vec<bool> = vec![false; BOARD_SIDE * BOARD_SIDE];
        proof {
            assert forall|x: int, y: int| in_storage(x, y) implies !cells@[cell_index(x, y)] by {
                lemma_cell_index(x, y, x, y);
            }
        }
        GameBoard { cells }
    }

    /// Reports whether `pos` is occupied; `pos` must lie inside the storage.
    pub fn is_occupied(&self, x: usize, y: usize) -> (r: bool)
        requires
            self.wf(),
            in_storage(x as int, y as int),
        ensures
            r == self.occupied(x as int, y as int),
    {
        proof {
            lemma_cell_index(x as int, y as int, x as int, y as int);
        }
        self.cells[y * BOARD_SIDE + x]
    }

    /// Records a fixed cell at `(x, y)`; marking an occupied cell again changes nothing.
    pub fn mark_occupied(&mut self, x: usize, y: usize)
        requires
            old(self).wf(),
            in_storage(x as int, y as int),
        ensures
            marked(*old(self), *final(self), x as int, y as int),
    {
        proof {
            lemma_cell_index(x as int, y as int, x as int, y as int);
        }
        self.cells.set(y * BOARD_SIDE + x, true);
        proof {
            assert forall|i: int, j: int| in_storage(i, j) implies #[trigger] self.occupied(i, j) == (
            old(self).occupied(i, j) || (i == x && j == y)) by {
                lemma_cell_index(x as int, y as int, i, j);
                lemma_cell_index(i, j, i, j);
            }
        }
    }

    /// Does the cell at `pos` stop a falling block? A cell off the playable
    /// board never does; one on it does when it rests on the floor or on an
    /// occupied cell directly below.
    pub open spec fn blocks(&self, pos: Position) -> bool {
        on_board(pos.x as int, pos.y as int) && (pos.y == 0 || self.occupied(
            pos.x as int,
            pos.y - 1,
        ))
    }

    /// Reports whether the cell at `pos` stops a falling block.
    pub fn is_blocked(&self, pos: &Position) -> (r: bool)
        requires
            self.wf(),
        ensures
            r == self.blocks(*pos),
    {
        if pos.x < 0 || pos.y < 0 || pos.x as u32 >= X_LENGTH || pos.y as u32 >= Y_LENGTH {
            return false;
        }
        pos.y == 0 || self.is_occupied(pos.x as usize, (pos.y - 1) as usize)
    }
}

impl Default for GameBoard {
    fn default() -> (r: GameBoard)
        ensures
            r.wf(),
            forall|x: int, y: int| in_storage(x, y) ==> !r.occupied(x, y),
    {
        GameBoard::new()
    }
}

} // verus!
