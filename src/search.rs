use vstd::prelude::*;

use crate::board::{empty_count, has_line, is_full, Board, Cell, PlayerPick, CELLS};

verus! {

/// Sentinel below every score that a search can produce.
pub const LOW: i32 = -1000;

/// Sentinel above every score that a search can produce.
pub const HIGH: i32 = 1000;

/// The value of a position seen from the human's side: a human line is worth
/// `10 - depth`, a computer line `depth - 10`, anything else nothing.
pub open spec fn score(cells: Seq<Cell>, human: PlayerPick, computer: PlayerPick, depth: int) -> int {
    if has_line(cells, human) {
        10 - depth
    } else if has_line(cells, computer) {
        depth - 10
    } else {
        0
    }
}

/// The mark played at a node: the human's where the node maximises.
pub open spec fn mover(human: PlayerPick, computer: PlayerPick, maximizing: bool) -> PlayerPick {
    if maximizing {
        human
    } else {
        computer
    }
}

/// The minimax value of a position, the human maximising and the computer minimising.
pub open spec fn minimax(
    cells: Seq<Cell>,
    human: PlayerPick,
    computer: PlayerPick,
    maximizing: bool,
    depth: int,
) -> int
    decreases empty_count(cells), 10int,
{
    let s = score(cells, human, computer, depth);
    if s != 0 || is_full(cells) {
        s
    } else {
        best_child(cells, human, computer, maximizing, depth, 9)
    }
}

/// The best value over the children made by playing on one of the first `n`
/// empty squares, starting from the sentinel of the node's side.
pub open spec fn best_child(
    cells: Seq<Cell>,
    human: PlayerPick,
    computer: PlayerPick,
    maximizing: bool,
    depth: int,
    n: int,
) -> int
    decreases empty_count(cells), n,
{
    if n <= 0 || n > 9 || cells.len() != 9 {
        if maximizing {
            LOW as int
        } else {
            HIGH as int
        }
    } else {
        let rest = best_child(cells, human, computer, maximizing, depth, n - 1);
        if cells[n - 1] == Cell::Empty {
            let child = cells.update(n - 1, Cell::Taken(mover(human, computer, maximizing)));
            let v = minimax(child, human, computer, !maximizing, depth + 1);
            if maximizing {
                if v > rest {
                    v
                } else {
                    rest
                }
            } else {
                if v < rest {
                    v
                } else {
                    rest
                }
            }
        } else {
            rest
        }
    }
}

/// The computer's choice among the first `n` squares, as (square, value): the
/// first empty square whose minimax value after the computer plays there is least.
pub open spec fn best_move_upto(
    cells: Seq<Cell>,
    human: PlayerPick,
    computer: PlayerPick,
    n: int,
) -> (int, int)
    decreases n,
{
    if n <= 0 {
        (0, HIGH as int)
    } else {
        let prev = best_move_upto(cells, human, computer, n - 1);
        if cells[n - 1] == Cell::Empty {
            let v = minimax(cells.update(n - 1, Cell::Taken(computer)), human, computer, true, 0);
            if v < prev.1 {
                (n - 1, v)
            } else {
                prev
            }
        } else {
            prev
        }
    }
}

/// The square that the computer plays in hard mode.
pub open spec fn best_move(cells: Seq<Cell>, human: PlayerPick, computer: PlayerPick) -> int {
    best_move_upto(cells, human, computer, 9).0
}

pub proof fn lemma_fill_one(cells: Seq<Cell>, i: int, p: PlayerPick)
    requires
        cells.len() == 9,
        0 <= i < 9,
        cells[i] == Cell::Empty,
    ensures
        empty_count(cells.update(i, Cell::Taken(p))) == empty_count(cells) - 1,
{
}

/// `v` is a value that a position at `depth` can have.
pub open spec fn in_score_range(v: int, depth: int) -> bool {
    depth - 10 <= v <= 10 - depth
}

/// Every position reached with `depth + empty squares <= 9` has a value in
/// `[depth - 10, 10 - depth]`.
pub proof fn lemma_minimax_range(
    cells: Seq<Cell>,
    human: PlayerPick,
    computer: PlayerPick,
    maximizing: bool,
    depth: int,
)
    requires
        cells.len() == 9,
        0 <= depth,
        depth + empty_count(cells) <= 9,
    ensures
        in_score_range(minimax(cells, human, computer, maximizing, depth), depth),
        score(cells, human, computer, depth) == 0 && !is_full(cells) ==> in_score_range(
            minimax(cells, human, computer, maximizing, depth),
            depth + 1,
        ),
    decreases empty_count(cells), 10int,
{
    let s = score(cells, human, computer, depth);
    if s == 0 && !is_full(cells) {
        lemma_best_child_range(cells, human, computer, maximizing, depth, 9);
    }
}

/// Over the first `n` squares the best child value is a real score as soon as one
/// of them is empty, and the sentinel otherwise.
pub proof fn lemma_best_child_range(
    cells: Seq<Cell>,
    human: PlayerPick,
    computer: PlayerPick,
    maximizing: bool,
    depth: int,
    n: int,
)
    requires
        cells.len() == 9,
        0 <= n <= 9,
        0 <= depth,
        depth + empty_count(cells) <= 9,
    ensures
        (exists|j: int| 0 <= j < n && cells[j] == Cell::Empty) ==> in_score_range(
            best_child(cells, human, computer, maximizing, depth, n),
            depth + 1,
        ),
        (forall|j: int| 0 <= j < n ==> cells[j] != Cell::Empty) ==> best_child(
            cells,
            human,
            computer,
            maximizing,
            depth,
            n,
        ) == (if maximizing {
            LOW as int
        } else {
            HIGH as int
        }),
    decreases empty_count(cells), n,
{
    if n > 0 {
        lemma_best_child_range(cells, human, computer, maximizing, depth, n - 1);
        if cells[n - 1] == Cell::Empty {
            let p = mover(human, computer, maximizing);
            lemma_fill_one(cells, n - 1, p);
            lemma_minimax_range(cells.update(n - 1, Cell::Taken(p)), human, computer, !maximizing, depth + 1);
        }
        if exists|j: int| 0 <= j < n && cells[j] == Cell::Empty {
            if forall|j: int| 0 <= j < n - 1 ==> cells[j] != Cell::Empty {
                assert(cells[n - 1] == Cell::Empty);
            }
        }
    }
}

/// Over the first `n` squares the computer's choice is an empty square with a real
/// value as soon as one of them is empty.
pub proof fn lemma_best_move_upto(cells: Seq<Cell>, human: PlayerPick, computer: PlayerPick, n: int)
    requires
        cells.len() == 9,
        0 <= n <= 9,
    ensures
        (exists|j: int| 0 <= j < n && cells[j] == Cell::Empty) ==> {
            let m = best_move_upto(cells, human, computer, n);
            &&& 0 <= m.0 < n
            &&& cells[m.0] == Cell::Empty
            &&& in_score_range(m.1, 0)
            &&& m.1 == minimax(cells.update(m.0, Cell::Taken(computer)), human, computer, true, 0)
        },
        (forall|j: int| 0 <= j < n ==> cells[j] != Cell::Empty) ==> best_move_upto(
            cells,
            human,
            computer,
            n,
        ) == (0int, HIGH as int),
    decreases n,
{
    if n > 0 {
        lemma_best_move_upto(cells, human, computer, n - 1);
        if cells[n - 1] == Cell::Empty {
            lemma_fill_one(cells, n - 1, computer);
            lemma_minimax_range(cells.update(n - 1, Cell::Taken(computer)), human, computer, true, 0);
        }
        if exists|j: int| 0 <= j < n && cells[j] == Cell::Empty {
            if forall|j: int| 0 <= j < n - 1 ==> cells[j] != Cell::Empty {
                assert(cells[n - 1] == Cell::Empty);
            }
        }
    }
}

/// The computer's choice is worth no more than any empty square among the first `n`.
pub proof fn lemma_best_move_least(
    cells: Seq<Cell>,
    human: PlayerPick,
    computer: PlayerPick,
    n: int,
    k: int,
)
    requires
        cells.len() == 9,
        0 <= k < n <= 9,
        cells[k] == Cell::Empty,
    ensures
        best_move_upto(cells, human, computer, n).1 <= minimax(
            cells.update(k, Cell::Taken(computer)),
            human,
            computer,
            true,
            0,
        ),
    decreases n,
{
    if k < n - 1 {
        lemma_best_move_least(cells, human, computer, n - 1, k);
    }
}

/// Playing `p` on an empty square gives the other mark no line it did not have.
pub proof fn lemma_play_keeps_other_lines(cells: Seq<Cell>, k: int, p: PlayerPick, q: PlayerPick)
    requires
        cells.len() == 9,
        0 <= k < 9,
        cells[k] == Cell::Empty,
        p != q,
    ensures
        has_line(cells.update(k, Cell::Taken(p)), q) == has_line(cells, q),
{
}

/// In hard mode the computer never misses a win: where some empty square would
/// complete a line of its own, and no side has a line yet, its choice completes one.
pub proof fn lemma_hard_takes_a_win(
    cells: Seq<Cell>,
    human: PlayerPick,
    computer: PlayerPick,
    k: int,
)
    requires
        cells.len() == 9,
        human != computer,
        0 <= k < 9,
        cells[k] == Cell::Empty,
        !has_line(cells, human),
        !has_line(cells, computer),
        has_line(cells.update(k, Cell::Taken(computer)), computer),
    ensures
        has_line(cells.update(best_move(cells, human, computer), Cell::Taken(computer)), computer),
{
    lemma_best_move_upto(cells, human, computer, 9);
    lemma_best_move_least(cells, human, computer, 9, k);
    lemma_play_keeps_other_lines(cells, k, computer, human);
    let m = best_move(cells, human, computer);
    let child = cells.update(m, Cell::Taken(computer));
    lemma_fill_one(cells, m, computer);
    lemma_play_keeps_other_lines(cells, m, computer, human);
    lemma_minimax_range(child, human, computer, true, 0);
    if !has_line(child, computer) {
        if is_full(child) {
            assert(minimax(child, human, computer, true, 0) == 0);
        }
    }
}

/// The human has a square that completes a line of theirs.
pub open spec fn human_can_win_now(cells: Seq<Cell>, human: PlayerPick) -> bool {
    exists|j: int|
        0 <= j < 9 && cells[j] == Cell::Empty && #[trigger] has_line(
            cells.update(j, Cell::Taken(human)),
            human,
        )
}

/// At a maximising node the best child value is at least that of each child.
pub proof fn lemma_best_child_at_least(
    cells: Seq<Cell>,
    human: PlayerPick,
    computer: PlayerPick,
    depth: int,
    n: int,
    j: int,
)
    requires
        cells.len() == 9,
        0 <= j < n <= 9,
        cells[j] == Cell::Empty,
    ensures
        best_child(cells, human, computer, true, depth, n) >= minimax(
            cells.update(j, Cell::Taken(human)),
            human,
            computer,
            false,
            depth + 1,
        ),
    decreases n,
{
    if j < n - 1 {
        lemma_best_child_at_least(cells, human, computer, depth, n - 1, j);
    }
}

/// At a maximising node whose children are all worth at most `bound`, so is the node.
pub proof fn lemma_best_child_at_most(
    cells: Seq<Cell>,
    human: PlayerPick,
    computer: PlayerPick,
    depth: int,
    n: int,
    bound: int,
)
    requires
        cells.len() == 9,
        0 <= n <= 9,
        bound >= LOW,
        forall|j: int|
            0 <= j < n && cells[j] == Cell::Empty ==> minimax(
                #[trigger] cells.update(j, Cell::Taken(human)),
                human,
                computer,
                false,
                depth + 1,
            ) <= bound,
    ensures
        best_child(cells, human, computer, true, depth, n) <= bound,
    decreases n,
{
    if n > 0 {
        lemma_best_child_at_most(cells, human, computer, depth, n - 1, bound);
    }
}

/// After the computer plays, with no line on the board and no winning square left
/// to the human, the position is worth at most 8.
pub proof fn lemma_no_threat_value(cells: Seq<Cell>, human: PlayerPick, computer: PlayerPick)
    requires
        cells.len() == 9,
        human != computer,
        empty_count(cells) <= 8,
        !has_line(cells, human),
        !has_line(cells, computer),
        !human_can_win_now(cells, human),
    ensures
        minimax(cells, human, computer, true, 0) <= 8,
{
    if !is_full(cells) {
        assert forall|j: int|
            0 <= j < 9 && cells[j] == Cell::Empty implies minimax(
            #[trigger] cells.update(j, Cell::Taken(human)),
            human,
            computer,
            false,
            1,
        ) <= 8 by {
            let g = cells.update(j, Cell::Taken(human));
            lemma_fill_one(cells, j, human);
            lemma_play_keeps_other_lines(cells, j, human, computer);
            lemma_minimax_range(g, human, computer, false, 1);
        }
        lemma_best_child_at_most(cells, human, computer, 0, 9, 8);
    }
}

/// In hard mode the computer never leaves the human a winning square when some
/// move of its own would not, unless its move completes a line of its own.
pub proof fn lemma_hard_blocks(cells: Seq<Cell>, human: PlayerPick, computer: PlayerPick, k: int)
    requires
        cells.len() == 9,
        human != computer,
        0 <= k < 9,
        cells[k] == Cell::Empty,
        !has_line(cells, human),
        !has_line(cells, computer),
        !human_can_win_now(cells.update(k, Cell::Taken(computer)), human),
    ensures
        ({
            let after = cells.update(best_move(cells, human, computer), Cell::Taken(computer));
            has_line(after, computer) || !human_can_win_now(after, human)
        }),
{
    lemma_best_move_upto(cells, human, computer, 9);
    lemma_best_move_least(cells, human, computer, 9, k);
    let ck = cells.update(k, Cell::Taken(computer));
    lemma_fill_one(cells, k, computer);
    lemma_play_keeps_other_lines(cells, k, computer, human);
    if !has_line(ck, computer) {
        lemma_no_threat_value(ck, human, computer);
    }
    let m = best_move(cells, human, computer);
    let after = cells.update(m, Cell::Taken(computer));
    lemma_fill_one(cells, m, computer);
    lemma_play_keeps_other_lines(cells, m, computer, human);
    if !has_line(after, computer) && human_can_win_now(after, human) {
        let j = choose|j: int|
            0 <= j < 9 && after[j] == Cell::Empty && #[trigger] has_line(
                after.update(j, Cell::Taken(human)),
                human,
            );
        assert(!is_full(after));
        lemma_best_child_at_least(after, human, computer, 0, 9, j);
        assert(minimax(after, human, computer, true, 0) >= 9);
    }
}

impl Board {
    /// The value of the position for the given marks at the given depth.
    pub fn score(&self, human: PlayerPick, computer: PlayerPick, depth: i32) -> (r: i32)
        requires
            0 <= depth <= 10,
        ensures
            r == score(self@, human, computer, depth as int),
    {
        if self.win(human) {
            10 - depth
        } else if self.win(computer) {
            depth - 10
        } else {
            0
        }
    }

    /// Searches the whole game tree below the current position and returns its
    /// minimax value; the board is the same again on return.
    pub fn minimax(
        &mut self,
        human: PlayerPick,
        computer: PlayerPick,
        maximizing: bool,
        depth: i32,
    ) -> (r: i32)
        requires
            0 <= depth,
            depth + empty_count(old(self)@) <= 9,
        ensures
            r == minimax(old(self)@, human, computer, maximizing, depth as int),
            final(self)@ == old(self)@,
        decreases empty_count(old(self)@),
    {
        let s = self.score(human, computer, depth);
        if s != 0 || self.is_full() {
            return s;
        }
        let ghost b0 = self@;
        let mark = if maximizing {
            human
        } else {
            computer
        };
        let mut best: i32 = if maximizing {
            LOW
        } else {
            HIGH
        };
        let mut i: usize = 0;
        while i < CELLS
            invariant
                i <= 9,
                self@ == b0,
                b0.len() == 9,
                b0 == old(self)@,
                0 <= depth,
                depth + empty_count(b0) <= 9,
                mark == mover(human, computer, maximizing),
                best == best_child(b0, human, computer, maximizing, depth as int, i as int),
            decreases 9 - i,
        {
            if self.cells[i] == Cell::Empty {
                proof {
                    lemma_fill_one(b0, i as int, mark);
                }
                self.cells[i] = Cell::Taken(mark);
                assert(self@ == b0.update(i as int, Cell::Taken(mark)));
                let v = self.minimax(human, computer, !maximizing, depth + 1);
                self.cells[i] = Cell::Empty;
                assert(self@ =~= b0);
                if maximizing {
                    if v > best {
                        best = v;
                    }
                } else {
                    if v < best {
                        best = v;
                    }
                }
            }
            i = i + 1;
        }
        best
    }

    /// Plays `computer` on the first empty square whose minimax value, with the
    /// human to move next, is least; returns that square as `(row, column)`.
    pub fn minimax_cpu_turn(&mut self, human: PlayerPick, computer: PlayerPick) -> (m: (
        usize,
        usize,
    ))
        requires
            !is_full(old(self)@),
        ensures
            3 * m.0 + m.1 == best_move(old(self)@, human, computer),
            m.0 < 3,
            m.1 < 3,
            old(self)@[best_move(old(self)@, human, computer)] == Cell::Empty,
            final(self)@ == old(self)@.update(
                best_move(old(self)@, human, computer),
                Cell::Taken(computer),
            ),
    {
        let ghost b0 = self@;
        proof {
            lemma_best_move_upto(b0, human, computer, 9);
        }
        let mut best_score: i32 = HIGH;
        let mut best_index: usize = 0;
        let mut i: usize = 0;
        while i < CELLS
            invariant
                i <= 9,
                self@ == b0,
                b0.len() == 9,
                best_move_upto(b0, human, computer, i as int) == (best_index as int, best_score as int),
            decreases 9 - i,
        {
            if self.cells[i] == Cell::Empty {
                proof {
                    lemma_fill_one(b0, i as int, computer);
                }
                self.cells[i] = Cell::Taken(computer);
                let score = self.minimax(human, computer, true, 0);
                self.cells[i] = Cell::Empty;
                assert(self@ =~= b0);
                if score < best_score {
                    best_index = i;
                    best_score = score;
                }
            }
            i = i + 1;
        }
        self.cells[best_index] = Cell::Taken(computer);
        (best_index / 3, best_index % 3)
    }
}

} // verus!
