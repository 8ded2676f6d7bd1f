use vstd::prelude::*;

use crate::error::GameError;
use crate::text::same_text;

verus! {

pub open spec fn pick_error_message() -> Seq<char> {
    "Must choice X or O (any case)!"@
}

/// One of the two marks a player can put on the board.
#[derive(Debug, Clone, Copy, PartialEq, Eq, Structural)]
pub enum PlayerPick {
    X,
    O,
}

impl PlayerPick {
    /// The mark of the other side.
    pub open spec fn other(self) -> PlayerPick {
        match self {
            PlayerPick::X => PlayerPick::O,
            PlayerPick::O => PlayerPick::X,
        }
    }

    /// The mark as it is written.
    pub open spec fn text(self) -> Seq<char> {
        match self {
            PlayerPick::X => "X"@,
            PlayerPick::O => "O"@,
        }
    }

    pub fn as_str(self) -> (r: &'static str)
        ensures
            r@ == self.text(),
    {
        match self {
            PlayerPick::X => "X",
            PlayerPick::O => "O",
        }
    }

    /// Reads `"X"` or `"O"`; any other text is refused.
    pub fn parse(value: &str) -> (r: Result<PlayerPick, GameError>)
        ensures
            value@ == "X"@ ==> r == Ok::<PlayerPick, GameError>(PlayerPick::X),
            value@ == "O"@ ==> r == Ok::<PlayerPick, GameError>(PlayerPick::O),
            value@ != "X"@ && value@ != "O"@ ==> r is Err && match r {
                Err(GameError::InvalidInput(s)) => s@ == pick_error_message(),
                _ => false,
            },
    {
        proof {
            reveal_strlit("X");
            reveal_strlit("O");
            assert("X"@[0] != "O"@[0]);
        }
        if same_text(value, "X") {
            Ok(PlayerPick::X)
        } else if same_text(value, "O") {
            Ok(PlayerPick::O)
        } else {
            Err(GameError::InvalidInput(String::from_str("Must choice X or O (any case)!")))
        }
    }

    pub fn opponent(self) -> (r: PlayerPick)
        ensures
            r == self.other(),
    {
        match self {
            PlayerPick::X => PlayerPick::O,
            PlayerPick::O => PlayerPick::X,
        }
    }
}

/// The content of one square.
#[derive(Debug, Clone, Copy, PartialEq, Eq, Structural)]
pub enum Cell {
    Empty,
    Taken(PlayerPick),
}

/// Number of squares on the board.
pub const CELLS: usize = 9;

/// The index of square `(r, c)` in row-major order.
pub open spec fn cell_index(r: int, c: int) -> int {
    3 * r + c
}

/// `p` holds the three squares `a`, `b` and `c`.
pub open spec fn holds_all(cells: Seq<Cell>, p: PlayerPick, a: int, b: int, c: int) -> bool {
    cells[a] == Cell::Taken(p) && cells[b] == Cell::Taken(p) && cells[c] == Cell::Taken(p)
}

/// `p` holds one of the eight lines: three rows, three columns, two diagonals.
pub open spec fn has_line(cells: Seq<Cell>, p: PlayerPick) -> bool {
    ||| holds_all(cells, p, 0, 1, 2)
    ||| holds_all(cells, p, 3, 4, 5)
    ||| holds_all(cells, p, 6, 7, 8)
    ||| holds_all(cells, p, 0, 3, 6)
    ||| holds_all(cells, p, 1, 4, 7)
    ||| holds_all(cells, p, 2, 5, 8)
    ||| holds_all(cells, p, 0, 4, 8)
    ||| holds_all(cells, p, 2, 4, 6)
}

/// No square is empty.
pub open spec fn is_full(cells: Seq<Cell>) -> bool {
    forall|i: int| 0 <= i < 9 ==> cells[i] != Cell::Empty
}

pub open spec fn empty_at(cells: Seq<Cell>, i: int) -> int {
    if cells[i] == Cell::Empty {
        1
    } else {
        0
    }
}

/// How many squares are empty.
pub open spec fn empty_count(cells: Seq<Cell>) -> int {
    empty_at(cells, 0) + empty_at(cells, 1) + empty_at(cells, 2) + empty_at(cells, 3)
        + empty_at(cells, 4) + empty_at(cells, 5) + empty_at(cells, 6) + empty_at(cells, 7)
        + empty_at(cells, 8)
}

/// The empty squares among the first `n`, as `(row, column)` in row-major order.
pub open spec fn empty_cells_upto(cells: Seq<Cell>, n: int) -> Seq<(usize, usize)>
    decreases n,
{
    if n <= 0 {
        Seq::empty()
    } else if cells[n - 1] == Cell::Empty {
        empty_cells_upto(cells, n - 1).push((((n - 1) / 3) as usize, ((n - 1) % 3) as usize))
    } else {
        empty_cells_upto(cells, n - 1)
    }
}

/// All empty squares in row-major order.
pub open spec fn empty_cells(cells: Seq<Cell>) -> Seq<(usize, usize)> {
    empty_cells_upto(cells, 9)
}

/// Each listed square is on the board, among the first `n`, and empty; and the
/// list is empty only when those squares are all taken.
pub proof fn lemma_empty_cells_upto(cells: Seq<Cell>, n: int)
    requires
        cells.len() == 9,
        0 <= n <= 9,
    ensures
        forall|k: int|
            0 <= k < empty_cells_upto(cells, n).len() ==> {
                let m = #[trigger] empty_cells_upto(cells, n)[k];
                &&& m.0 < 3
                &&& m.1 < 3
                &&& cell_index(m.0 as int, m.1 as int) < n
                &&& cells[cell_index(m.0 as int, m.1 as int)] == Cell::Empty
            },
        (exists|j: int| 0 <= j < n && cells[j] == Cell::Empty) ==> empty_cells_upto(
            cells,
            n,
        ).len() > 0,
    decreases n,
{
    if n > 0 {
        lemma_empty_cells_upto(cells, n - 1);
        if exists|j: int| 0 <= j < n && cells[j] == Cell::Empty {
            if forall|j: int| 0 <= j < n - 1 ==> cells[j] != Cell::Empty {
                assert(cells[n - 1] == Cell::Empty);
            }
        }
    }
}

/// How a square is written.
pub open spec fn cell_text(c: Cell) -> Seq<char> {
    match c {
        Cell::Empty => " "@,
        Cell::Taken(p) => p.text(),
    }
}

/// Row `r` written as its three squares joined by `" | "`.
pub open spec fn row_text(cells: Seq<Cell>, r: int) -> Seq<char> {
    cell_text(cells[3 * r]) + " | "@ + cell_text(cells[3 * r + 1]) + " | "@ + cell_text(
        cells[3 * r + 2],
    )
}

/// The line written between two rows.
pub open spec fn divider() -> Seq<char> {
    "\n---------\n"@
}

/// The board written as three rows with a divider between each two.
pub open spec fn board_text(cells: Seq<Cell>) -> Seq<char> {
    row_text(cells, 0) + divider() + row_text(cells, 1) + divider() + row_text(cells, 2)
}

/// A 3 by 3 grid of squares, stored row by row.
#[derive(Debug, Clone, Copy)]
pub struct Board {
    pub cells: [Cell; CELLS],
}

impl View for Board {
    type V = Seq<Cell>;

    open spec fn view(&self) -> Seq<Cell> {
        self.cells@
    }
}

impl Board {
    /// A board with every square empty.
    pub fn new() -> (b: Board)
        ensures
            b@.len() == 9,
            forall|i: int| 0 <= i < 9 ==> b@[i] == Cell::Empty,
    {
        Board { cells: [Cell::Empty; CELLS] }
    }

    /// The content of square `(r, c)`.
    pub fn cell(&self, r: usize, c: usize) -> (v: Cell)
        requires
            r < 3,
            c < 3,
        ensures
            v == self@[cell_index(r as int, c as int)],
    {
        self.cells[3 * r + c]
    }

    /// True when no square is empty.
    pub fn is_full(&self) -> (r: bool)
        ensures
            r == is_full(self@),
    {
        let mut i: usize = 0;
        while i < CELLS
            invariant
                i <= 9,
                forall|j: int| 0 <= j < i ==> self@[j] != Cell::Empty,
            decreases 9 - i,
        {
            if self.cells[i] == Cell::Empty {
                return false;
            }
            i = i + 1;
        }
        true
    }

    fn holds_all(&self, p: PlayerPick, a: usize, b: usize, c: usize) -> (r: bool)
        requires
            a < 9,
            b < 9,
            c < 9,
        ensures
            r == holds_all(self@, p, a as int, b as int, c as int),
    {
        let m = Cell::Taken(p);
        self.cells[a] == m && self.cells[b] == m && self.cells[c] == m
    }

    /// True when `p` holds a whole row, column or diagonal.
    pub fn win(&self, p: PlayerPick) -> (r: bool)
        ensures
            r == has_line(self@, p),
    {
        // columns
        self.holds_all(p, 0, 3, 6) || self.holds_all(p, 1, 4, 7) || self.holds_all(p, 2, 5, 8)
        // rows
         || self.holds_all(p, 0, 1, 2) || self.holds_all(p, 3, 4, 5) || self.holds_all(p, 6, 7, 8)
        // diagonals
         || self.holds_all(p, 0, 4, 8) || self.holds_all(p, 2, 4, 6)
    }

    /// Puts `p` on square `(r, c)`; fails, leaving the board as it was, when the
    /// square is off the board or taken.
    pub fn place(&mut self, r: usize, c: usize, p: PlayerPick) -> (res: Result<(), GameError>)
        ensures
            (r >= 3 || c >= 3 || old(self)@[cell_index(r as int, c as int)] != Cell::Empty)
                <==> res is Err,
            res is Err ==> res == Err::<(), GameError>(GameError::InvalidMove(r, c))
                && final(self)@ == old(self)@,
            res is Ok ==> final(self)@ == old(self)@.update(
                cell_index(r as int, c as int),
                Cell::Taken(p),
            ),
    {
        if r >= 3 || c >= 3 {
            return Err(GameError::InvalidMove(r, c));
        }
        if self.cells[3 * r + c] != Cell::Empty {
            return Err(GameError::InvalidMove(r, c));
        }
        self.cells[3 * r + c] = Cell::Taken(p);
        Ok(())
    }

    /// The empty squares as `(row, column)`, in row-major order.
    pub fn empty_cells(&self) -> (v: Vec<(usize, usize)>)
        ensures
            v@ == empty_cells(self@),
    {
        let mut v: Vec<(usize, usize)> = Vec::new();
        let mut i: usize = 0;
        while i < CELLS
            invariant
                i <= 9,
                v@ == empty_cells_upto(self@, i as int),
            decreases 9 - i,
        {
            if self.cells[i] == Cell::Empty {
                v.push((i / 3, i % 3));
            }
            i = i + 1;
        }
        v
    }

    /// Puts `p` on the empty square at position `index` of `empty_cells`, and
    /// returns that square.
    pub fn play_nth_empty(&mut self, index: usize, p: PlayerPick) -> (m: (usize, usize))
        requires
            index < empty_cells(old(self)@).len(),
        ensures
            m == empty_cells(old(self)@)[index as int],
            m.0 < 3,
            m.1 < 3,
            old(self)@[cell_index(m.0 as int, m.1 as int)] == Cell::Empty,
            final(self)@ == old(self)@.update(cell_index(m.0 as int, m.1 as int), Cell::Taken(p)),
    {
        proof {
            lemma_empty_cells_upto(self@, 9);
        }
        let spots = self.empty_cells();
        let (r, c) = spots[index];
        self.cells[3 * r + c] = Cell::Taken(p);
        (r, c)
    }

    fn cell_str(c: Cell) -> (r: &'static str)
        ensures
            r@ == cell_text(c),
    {
        match c {
            Cell::Empty => " ",
            Cell::Taken(p) => p.as_str(),
        }
    }

    fn append_row(&self, t: &mut String, r: usize)
        requires
            r < 3,
        ensures
            final(t)@ == old(t)@ + row_text(self@, r as int),
    {
        t.append(Board::cell_str(self.cells[3 * r]));
        t.append(" | ");
        t.append(Board::cell_str(self.cells[3 * r + 1]));
        t.append(" | ");
        t.append(Board::cell_str(self.cells[3 * r + 2]));
        assert(t@ =~= old(t)@ + row_text(self@, r as int));
    }

    /// The board as text: three rows of three squares joined by `" | "`, with a
    /// divider line between rows.
    pub fn render(&self) -> (t: String)
        ensures
            t@ == board_text(self@),
    {
        let mut t = String::new();
        self.append_row(&mut t, 0);
        t.append("\n---------\n");
        self.append_row(&mut t, 1);
        t.append("\n---------\n");
        self.append_row(&mut t, 2);
        assert(t@ =~= board_text(self@));
        t
    }
}

} // verus!
