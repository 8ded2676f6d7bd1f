use vstd::prelude::*;

use rand::rngs::ThreadRng;
use rand::Rng;

use crate::board::{board_text, cell_index, empty_cells, has_line, is_full, lemma_empty_cells_upto, Board, Cell, PlayerPick};
use crate::error::GameError;
use crate::search::{best_move, human_can_win_now, lemma_hard_blocks, lemma_hard_takes_a_win};
use crate::text::same_text;

verus! {

/// rand's thread-local generator, carried as an opaque value.
#[verifier::external_type_specification]
#[verifier::external_body]
pub struct ExThreadRng(ThreadRng);

/// Relies on rand::rng: a handle to the thread's generator.
#[verifier::external_body]
fn thread_rng() -> ThreadRng {
    rand::rng()
}

/// Relies on rand::Rng::random_range: a value of `0..n`, which panics only when
/// the range is empty.
#[verifier::external_body]
fn random_index(rng: &mut ThreadRng, n: usize) -> (r: usize)
    requires
        n > 0,
    ensures
        r < n,
{
    rng.random_range(0..n)
}

/// How the computer chooses its moves.
#[derive(Debug, Clone, Copy, PartialEq, Eq, Structural)]
pub enum Mode {
    /// A uniformly random empty square.
    Easy,
    /// The minimax choice.
    Hard,
}

pub open spec fn mode_error_message() -> Seq<char> {
    "Must choice Easy or Hard (any case)!"@
}

impl Mode {
    /// Reads `"easy"` or `"hard"`; any other text is refused.
    pub fn parse(value: &str) -> (r: Result<Mode, GameError>)
        ensures
            value@ == "easy"@ ==> r == Ok::<Mode, GameError>(Mode::Easy),
            value@ == "hard"@ ==> r == Ok::<Mode, GameError>(Mode::Hard),
            value@ != "easy"@ && value@ != "hard"@ ==> r is Err && match r {
                Err(GameError::InvalidInput(s)) => s@ == mode_error_message(),
                _ => false,
            },
    {
        proof {
            reveal_strlit("easy");
            reveal_strlit("hard");
            assert("easy"@[0] != "hard"@[0]);
        }
        if same_text(value, "easy") {
            Ok(Mode::Easy)
        } else if same_text(value, "hard") {
            Ok(Mode::Hard)
        } else {
            Err(GameError::InvalidInput(String::from_str("Must choice Easy or Hard (any case)!")))
        }
    }
}

/// What a step of the game reports.
pub enum State {
    /// The game has ended; the text says how.
    GameOver(String),
    /// The game goes on; the text is empty or says why nothing was played.
    InProgresss(String),
}

/// The mathematical content of a `State`.
pub enum StateView {
    GameOver(Seq<char>),
    InProgress(Seq<char>),
}

impl View for State {
    type V = StateView;

    open spec fn view(&self) -> StateView {
        match self {
            State::GameOver(s) => StateView::GameOver(s@),
            State::InProgresss(s) => StateView::InProgress(s@),
        }
    }
}

pub open spec fn draw_message() -> Seq<char> {
    "Game is a draw"@
}

pub open spec fn player_wins_message() -> Seq<char> {
    "Player is the Winner!"@
}

pub open spec fn computer_wins_message() -> Seq<char> {
    "Computer is the Winner!"@
}

pub open spec fn no_move_message() -> Seq<char> {
    "No player move provided"@
}

pub open spec fn invalid_move_message() -> Seq<char> {
    "Invalid move"@
}

/// A game between a human and the computer.
pub struct Game {
    board: Board,
    rng: ThreadRng,
    mode: Mode,
    is_player_turn: bool,
    player_pick: PlayerPick,
    computer_pick: PlayerPick,
}

impl Game {
    /// The squares of the board.
    pub closed spec fn cells(&self) -> Seq<Cell> {
        self.board@
    }

    pub closed spec fn mode(&self) -> Mode {
        self.mode
    }

    /// The human's mark.
    pub closed spec fn human(&self) -> PlayerPick {
        self.player_pick
    }

    /// The computer's mark.
    pub closed spec fn computer(&self) -> PlayerPick {
        self.computer_pick
    }

    /// True when the next move is the human's.
    pub closed spec fn human_to_move(&self) -> bool {
        self.is_player_turn
    }

    /// The two sides play different marks and the board has nine squares.
    pub closed spec fn wf(&self) -> bool {
        &&& self.computer_pick == self.player_pick.other()
        &&& self.board@.len() == 9
    }

    /// A new game on an empty board; X moves first.
    pub fn new(mode: Mode, player_pick: PlayerPick) -> (g: Game)
        ensures
            g.wf(),
            g.mode() == mode,
            g.human() == player_pick,
            g.computer() == player_pick.other(),
            g.human_to_move() == (player_pick == PlayerPick::X),
            forall|i: int| 0 <= i < 9 ==> g.cells()[i] == Cell::Empty,
    {
        Game::from_board(mode, player_pick, Board::new(), player_pick == PlayerPick::X)
    }

    /// A game that goes on from `board`, with the human to move when `is_player_turn`.
    pub fn from_board(mode: Mode, player_pick: PlayerPick, board: Board, is_player_turn: bool) -> (g: Game)
        ensures
            g.wf(),
            g.mode() == mode,
            g.human() == player_pick,
            g.computer() == player_pick.other(),
            g.human_to_move() == is_player_turn,
            g.cells() == board@,
    {
        let computer_pick = player_pick.opponent();
        Game {
            board,
            rng: thread_rng(),
            mode,
            is_player_turn,
            player_pick,
            computer_pick,
        }
    }

    /// True when the next move is the human's.
    pub fn is_player_turn(&self) -> (r: bool)
        ensures
            r == self.human_to_move(),
    {
        self.is_player_turn
    }

    /// The board as it stands.
    pub fn board(&self) -> (b: &Board)
        ensures
            b@ == self.cells(),
    {
        &self.board
    }

    /// The board as text, as `Board::render` writes it.
    pub fn render(&self) -> (t: String)
        ensures
            t@ == board_text(self.cells()),
    {
        self.board.render()
    }

    /// True when `p` holds a whole row, column or diagonal.
    pub fn win(&self, p: PlayerPick) -> (r: bool)
        ensures
            r == has_line(self.cells(), p),
    {
        self.board.win(p)
    }

    /// Plays the human's mark on `(r, c)`.
    fn player_turn(&mut self, r: usize, c: usize) -> (res: Result<(), GameError>)
        requires
            old(self).wf(),
        ensures
            final(self).wf(),
            final(self).rest_kept(*old(self)),
            final(self).human_to_move() == old(self).human_to_move(),
            (r >= 3 || c >= 3 || old(self).cells()[cell_index(r as int, c as int)] != Cell::Empty)
                <==> res is Err,
            res is Err ==> res == Err::<(), GameError>(GameError::InvalidMove(r, c))
                && final(self).cells() == old(self).cells(),
            res is Ok ==> final(self).cells() == old(self).cells().update(
                cell_index(r as int, c as int),
                Cell::Taken(old(self).human()),
            ),
    {
        self.board.place(r, c, self.player_pick)
    }

    /// Plays a uniformly drawn empty square for the computer.
    fn random_cpu_turn(&mut self)
        requires
            old(self).wf(),
            !is_full(old(self).cells()),
        ensures
            final(self).wf(),
            final(self).rest_kept(*old(self)),
            final(self).human_to_move() == old(self).human_to_move(),
            easy_step(old(self).cells(), final(self).cells(), old(self).computer()),
    {
        proof {
            lemma_empty_cells_upto(self.board@, 9);
        }
        let n = self.board.empty_cells().len();
        let index = random_index(&mut self.rng, n);
        self.board.play_nth_empty(index, self.computer_pick);
    }

    /// Plays the computer's minimax choice.
    fn minimax_cpu_turn(&mut self)
        requires
            old(self).wf(),
            !is_full(old(self).cells()),
        ensures
            final(self).wf(),
            final(self).rest_kept(*old(self)),
            final(self).human_to_move() == old(self).human_to_move(),
            final(self).cells() == old(self).cells().update(
                best_move(old(self).cells(), old(self).human(), old(self).computer()),
                Cell::Taken(old(self).computer()),
            ),
    {
        self.board.minimax_cpu_turn(self.player_pick, self.computer_pick);
    }

    /// Plays the computer's move as its mode asks.
    fn cpu_turn(&mut self)
        requires
            old(self).wf(),
            !is_full(old(self).cells()),
        ensures
            final(self).wf(),
            final(self).rest_kept(*old(self)),
            final(self).human_to_move() == old(self).human_to_move(),
            computer_step(old(self).cells(), final(self).cells(), *old(self)),
    {
        match self.mode {
            Mode::Easy => self.random_cpu_turn(),
            Mode::Hard => self.minimax_cpu_turn(),
        }
    }

    /// The mode and the marks are those of `other`.
    pub closed spec fn rest_kept(&self, other: Game) -> bool {
        &&& self.mode == other.mode
        &&& self.player_pick == other.player_pick
        &&& self.computer_pick == other.computer_pick
    }

    /// One step of the game. A full board is a draw, then a line of the human's
    /// and then one of the computer's end the game, and the game is left as it
    /// was. Otherwise the side to move plays: the human on `player_move`, the
    /// computer by its mode; the turn passes only when a move was made.
    pub fn run(&mut self, player_move: Option<(usize, usize)>) -> (st: State)
        requires
            old(self).wf(),
        ensures
            final(self).wf(),
            final(self).rest_kept(*old(self)),
            step(*old(self), player_move, *final(self), st@),
    {
        if self.board.is_full() {
            return State::GameOver(String::from_str("Game is a draw"));
        }
        if self.board.win(self.player_pick) {
            return State::GameOver(String::from_str("Player is the Winner!"));
        }
        if self.board.win(self.computer_pick) {
            return State::GameOver(String::from_str("Computer is the Winner!"));
        }
        if self.is_player_turn {
            match player_move {
                Some((r, c)) => {
                    if let Err(e) = self.player_turn(r, c) {
                        return State::InProgresss(e.message());
                    }
                },
                None => {
                    return State::InProgresss(String::from_str("No player move provided"));
                },
            }
        } else {
            self.cpu_turn();
        }
        self.is_player_turn = !self.is_player_turn;
        State::InProgresss(String::new())
    }
}

/// The computer played on one of the empty squares.
pub open spec fn easy_step(before: Seq<Cell>, after: Seq<Cell>, computer: PlayerPick) -> bool {
    exists|k: int|
        0 <= k < empty_cells(before).len() && after == before.update(
            cell_index(#[trigger] empty_cells(before)[k].0 as int, empty_cells(before)[k].1 as int),
            Cell::Taken(computer),
        )
}

/// The computer's move on `before` as the mode of `g` asks.
pub open spec fn computer_step(before: Seq<Cell>, after: Seq<Cell>, g: Game) -> bool {
    match g.mode() {
        Mode::Easy => easy_step(before, after, g.computer()),
        Mode::Hard => after == before.update(
            best_move(before, g.human(), g.computer()),
            Cell::Taken(g.computer()),
        ),
    }
}

/// `post` and the report `st` are what one step from `pre` gives.
pub open spec fn step(pre: Game, player_move: Option<(usize, usize)>, post: Game, st: StateView) -> bool {
    let cells = pre.cells();
    let unchanged = post.cells() == cells && post.human_to_move() == pre.human_to_move();
    if is_full(cells) {
        unchanged && st == StateView::GameOver(draw_message())
    } else if has_line(cells, pre.human()) {
        unchanged && st == StateView::GameOver(player_wins_message())
    } else if has_line(cells, pre.computer()) {
        unchanged && st == StateView::GameOver(computer_wins_message())
    } else if pre.human_to_move() {
        match player_move {
            None => unchanged && st == StateView::InProgress(no_move_message()),
            Some((r, c)) => if r >= 3 || c >= 3 || cells[cell_index(r as int, c as int)] != Cell::Empty {
                unchanged && st == StateView::InProgress(invalid_move_message())
            } else {
                &&& post.cells() == cells.update(cell_index(r as int, c as int), Cell::Taken(pre.human()))
                &&& !post.human_to_move()
                &&& st == StateView::InProgress(Seq::empty())
            },
        }
    } else {
        &&& computer_step(cells, post.cells(), pre)
        &&& post.human_to_move()
        &&& st == StateView::InProgress(Seq::empty())
    }
}

/// Hard mode has no chance in it: two steps with the computer to move, from games
/// in hard mode with the same board and marks, leave the same board and report the
/// same state.
pub proof fn lemma_hard_step_deterministic(
    g1: Game,
    g2: Game,
    move1: Option<(usize, usize)>,
    move2: Option<(usize, usize)>,
    post1: Game,
    post2: Game,
    st1: StateView,
    st2: StateView,
)
    requires
        g1.mode() == Mode::Hard,
        g2.mode() == Mode::Hard,
        g1.cells() == g2.cells(),
        g1.human() == g2.human(),
        g1.computer() == g2.computer(),
        !g1.human_to_move(),
        !g2.human_to_move(),
        step(g1, move1, post1, st1),
        step(g2, move2, post2, st2),
    ensures
        post1.cells() == post2.cells(),
        post1.human_to_move() == post2.human_to_move(),
        st1 == st2,
{
}

/// A step in hard mode with the computer to move completes a line of the
/// computer's whenever one square would.
pub proof fn lemma_hard_step_wins(
    g: Game,
    player_move: Option<(usize, usize)>,
    post: Game,
    st: StateView,
    k: int,
)
    requires
        g.wf(),
        g.mode() == Mode::Hard,
        !g.human_to_move(),
        !is_full(g.cells()),
        !has_line(g.cells(), g.human()),
        !has_line(g.cells(), g.computer()),
        0 <= k < 9,
        g.cells()[k] == Cell::Empty,
        has_line(g.cells().update(k, Cell::Taken(g.computer())), g.computer()),
        step(g, player_move, post, st),
    ensures
        has_line(post.cells(), g.computer()),
{
    lemma_hard_takes_a_win(g.cells(), g.human(), g.computer(), k);
}

/// A step in hard mode with the computer to move leaves the human no winning
/// square whenever some move would, unless it completes a line of the computer's.
pub proof fn lemma_hard_step_blocks(
    g: Game,
    player_move: Option<(usize, usize)>,
    post: Game,
    st: StateView,
    k: int,
)
    requires
        g.wf(),
        g.mode() == Mode::Hard,
        !g.human_to_move(),
        !is_full(g.cells()),
        !has_line(g.cells(), g.human()),
        !has_line(g.cells(), g.computer()),
        0 <= k < 9,
        g.cells()[k] == Cell::Empty,
        !human_can_win_now(g.cells().update(k, Cell::Taken(g.computer())), g.human()),
        step(g, player_move, post, st),
    ensures
        has_line(post.cells(), g.computer()) || !human_can_win_now(post.cells(), g.human()),
{
    lemma_hard_blocks(g.cells(), g.human(), g.computer(), k);
}

} // verus!
