use unbeatable_3t_core::{Board, Cell, Game, Mode, PlayerPick, State};

fn board_of(text: &str) -> Board {
    let mut b = Board::new();
    for (i, ch) in text.chars().enumerate() {
        b.cells[i] = match ch {
            'X' => Cell::Taken(PlayerPick::X),
            'O' => Cell::Taken(PlayerPick::O),
            _ => Cell::Empty,
        };
    }
    b
}

fn over(st: State) -> Option<String> {
    match st {
        State::GameOver(m) => Some(m),
        State::InProgresss(_) => None,
    }
}

fn progress(st: State) -> Option<String> {
    match st {
        State::GameOver(_) => None,
        State::InProgresss(m) => Some(m),
    }
}

#[test]
fn x_moves_first() {
    let g = Game::new(Mode::Hard, PlayerPick::X);
    assert!(g.is_player_turn());
    let g = Game::new(Mode::Easy, PlayerPick::O);
    assert!(!g.is_player_turn());
    assert_eq!(g.board().empty_cells().len(), 9);
}

#[test]
fn missing_move_keeps_the_turn() {
    let mut g = Game::new(Mode::Hard, PlayerPick::X);
    assert_eq!(progress(g.run(None)), Some("No player move provided".to_string()));
    assert!(g.is_player_turn());
    assert_eq!(g.board().empty_cells().len(), 9);
}

#[test]
fn invalid_move_keeps_the_turn() {
    let mut g = Game::new(Mode::Hard, PlayerPick::X);
    assert_eq!(progress(g.run(Some((3, 1)))), Some("Invalid move".to_string()));
    assert!(g.is_player_turn());
    assert_eq!(progress(g.run(Some((1, 1)))), Some(String::new()));
    assert!(!g.is_player_turn());
    assert_eq!(progress(g.run(None)), Some(String::new()));
    assert!(g.is_player_turn());
    assert_eq!(progress(g.run(Some((1, 1)))), Some("Invalid move".to_string()));
    assert!(g.is_player_turn());
    assert_eq!(g.board().empty_cells().len(), 7);
}

#[test]
fn hard_reply_to_a_corner_is_the_centre() {
    let mut g = Game::new(Mode::Hard, PlayerPick::X);
    assert_eq!(progress(g.run(Some((0, 0)))), Some(String::new()));
    assert_eq!(progress(g.run(None)), Some(String::new()));
    assert_eq!(g.board().cell(1, 1), Cell::Taken(PlayerPick::O));
    assert_eq!(g.board().empty_cells().len(), 7);
    assert!(g.is_player_turn());
}

#[test]
fn hard_blocks_a_threatened_row() {
    let mut g = Game::from_board(Mode::Hard, PlayerPick::X, board_of("XX  O    "), false);
    assert_eq!(progress(g.run(None)), Some(String::new()));
    assert_eq!(g.board().cell(0, 2), Cell::Taken(PlayerPick::O));
}

#[test]
fn hard_takes_its_own_win_before_blocking() {
    let mut g = Game::from_board(Mode::Hard, PlayerPick::X, board_of("XX OO   X"), false);
    assert_eq!(progress(g.run(None)), Some(String::new()));
    assert_eq!(g.board().cell(1, 2), Cell::Taken(PlayerPick::O));
    assert_eq!(g.board().cell(0, 2), Cell::Empty);
    assert_eq!(over(g.run(Some((0, 2)))), Some("Computer is the Winner!".to_string()));
}

#[test]
fn hard_choice_is_the_same_on_the_same_board() {
    for text in ["X        ", "XX  O    ", "  X O   X", "O X  X   "] {
        let mut a = Game::from_board(Mode::Hard, PlayerPick::X, board_of(text), false);
        let mut b = Game::from_board(Mode::Hard, PlayerPick::X, board_of(text), false);
        a.run(None);
        b.run(None);
        assert_eq!(a.board().cells, b.board().cells);
    }
}

#[test]
fn full_board_is_a_draw_once_filled() {
    let mut g = Game::from_board(Mode::Hard, PlayerPick::O, board_of("XOXXOO XX"), true);
    assert_eq!(progress(g.run(Some((2, 0)))), Some(String::new()));
    assert!(g.board().is_full());
    assert!(!g.win(PlayerPick::X));
    assert!(!g.win(PlayerPick::O));
    assert_eq!(over(g.run(None)), Some("Game is a draw".to_string()));
    assert_eq!(over(g.run(Some((0, 0)))), Some("Game is a draw".to_string()));
}

#[test]
fn human_row_ends_the_game() {
    let mut g = Game::from_board(Mode::Hard, PlayerPick::X, board_of("XXXOO    "), false);
    assert_eq!(over(g.run(None)), Some("Player is the Winner!".to_string()));
    assert_eq!(g.board().empty_cells().len(), 4);
    assert_eq!(over(g.run(Some((2, 2)))), Some("Player is the Winner!".to_string()));
}

#[test]
fn computer_line_ends_the_game() {
    let mut g = Game::from_board(Mode::Easy, PlayerPick::O, board_of("XOOXO X  "), true);
    assert_eq!(over(g.run(Some((2, 2)))), Some("Computer is the Winner!".to_string()));
}

#[test]
fn easy_with_one_square_left_plays_it() {
    let mut g = Game::from_board(Mode::Easy, PlayerPick::X, board_of("XOXXOO XX"), false);
    assert_eq!(progress(g.run(None)), Some(String::new()));
    assert_eq!(g.board().cell(2, 0), Cell::Taken(PlayerPick::O));
    assert!(g.board().is_full());
    assert!(g.is_player_turn());
}

#[test]
fn easy_plays_an_empty_square() {
    for _ in 0..20 {
        let mut g = Game::new(Mode::Easy, PlayerPick::O);
        assert_eq!(progress(g.run(None)), Some(String::new()));
        assert_eq!(g.board().empty_cells().len(), 8);
        let free = g.board().empty_cells()[0];
        assert_eq!(progress(g.run(Some(free))), Some(String::new()));
        assert_eq!(progress(g.run(None)), Some(String::new()));
        assert_eq!(g.board().empty_cells().len(), 6);
    }
}

#[test]
fn render_of_a_game() {
    let g = Game::from_board(Mode::Easy, PlayerPick::X, board_of("X   O    "), true);
    assert_eq!(g.render(), "X |   |  \n---------\n  | O |  \n---------\n  |   |  ");
}

/// Plays every sequence of human moves against the hard computer and returns how
/// many games the human won.
fn human_wins(board: Board, human: PlayerPick) -> usize {
    let mut g = Game::from_board(Mode::Hard, human, board, true);
    if let Some(m) = over(g.run(None)) {
        return if m == "Player is the Winner!" { 1 } else { 0 };
    }
    let mut wins = 0;
    for (r, c) in board.empty_cells() {
        let mut g = Game::from_board(Mode::Hard, human, board, true);
        if let Some(m) = over(g.run(Some((r, c)))) {
            panic!("unexpected end: {}", m);
        }
        let mut after = Game::from_board(Mode::Hard, human, *g.board(), false);
        match after.run(None) {
            State::GameOver(m) => {
                if m == "Player is the Winner!" {
                    wins += 1;
                }
            }
            State::InProgresss(_) => {
                wins += human_wins(*after.board(), human);
            }
        }
    }
    wins
}

#[test]
fn hard_never_loses_moving_second() {
    assert_eq!(human_wins(Board::new(), PlayerPick::X), 0);
}

#[test]
fn hard_never_loses_moving_first() {
    let mut g = Game::new(Mode::Hard, PlayerPick::O);
    assert_eq!(progress(g.run(None)), Some(String::new()));
    assert_eq!(human_wins(*g.board(), PlayerPick::O), 0);
}
