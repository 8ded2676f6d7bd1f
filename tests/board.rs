use unbeatable_3t_core::{Board, Cell, GameError, Mode, PlayerPick};

fn board_of(text: &str) -> Board {
    let mut b = Board::new();
    for (i, ch) in text.chars().enumerate() {
        b.cells[i] = match ch {
            'X' => Cell::Taken(PlayerPick::X),
            'O' => Cell::Taken(PlayerPick::O),
            _ => Cell::Empty,
        };
    }
    b
}

const LINES: [[usize; 3]; 8] = [
    [0, 1, 2],
    [3, 4, 5],
    [6, 7, 8],
    [0, 3, 6],
    [1, 4, 7],
    [2, 5, 8],
    [0, 4, 8],
    [2, 4, 6],
];

#[test]
fn each_line_wins_for_its_owner_only() {
    for p in [PlayerPick::X, PlayerPick::O] {
        for line in LINES.iter() {
            let mut b = Board::new();
            for &i in line.iter() {
                b.cells[i] = Cell::Taken(p);
            }
            assert!(b.win(p));
            assert!(!b.win(p.opponent()));
        }
    }
}

#[test]
fn two_of_a_line_is_no_win() {
    for line in LINES.iter() {
        let mut b = Board::new();
        b.cells[line[0]] = Cell::Taken(PlayerPick::X);
        b.cells[line[1]] = Cell::Taken(PlayerPick::X);
        assert!(!b.win(PlayerPick::X));
        b.cells[line[2]] = Cell::Taken(PlayerPick::O);
        assert!(!b.win(PlayerPick::X));
        assert!(!b.win(PlayerPick::O));
    }
}

#[test]
fn no_line_on_a_drawn_board() {
    let b = board_of("XOXXOOOXX");
    assert!(!b.win(PlayerPick::X));
    assert!(!b.win(PlayerPick::O));
}

#[test]
fn empty_board_has_no_line() {
    let b = Board::new();
    assert!(!b.win(PlayerPick::X));
    assert!(!b.win(PlayerPick::O));
}

#[test]
fn full_only_without_empty_squares() {
    assert!(board_of("XOXXOOOXX").is_full());
    assert!(!Board::new().is_full());
    for i in 0..9 {
        let mut b = board_of("XOXXOOOXX");
        b.cells[i] = Cell::Empty;
        assert!(!b.is_full());
    }
}

#[test]
fn place_on_taken_square_fails_and_keeps_board() {
    let mut b = board_of("X   O    ");
    let before = b.cells;
    assert_eq!(b.place(0, 0, PlayerPick::O), Err(GameError::InvalidMove(0, 0)));
    assert_eq!(b.cells, before);
    assert_eq!(b.place(1, 1, PlayerPick::X), Err(GameError::InvalidMove(1, 1)));
    assert_eq!(b.cells, before);
}

#[test]
fn place_off_the_board_fails_and_keeps_board() {
    let mut b = board_of("X        ");
    let before = b.cells;
    assert_eq!(b.place(3, 0, PlayerPick::O), Err(GameError::InvalidMove(3, 0)));
    assert_eq!(b.place(0, 3, PlayerPick::O), Err(GameError::InvalidMove(0, 3)));
    assert_eq!(b.place(7, 9, PlayerPick::O), Err(GameError::InvalidMove(7, 9)));
    assert_eq!(b.cells, before);
}

#[test]
fn place_sets_exactly_one_square() {
    let mut b = Board::new();
    assert_eq!(b.place(2, 1, PlayerPick::O), Ok(()));
    assert_eq!(b.cells, board_of("       O ").cells);
    assert_eq!(b.cell(2, 1), Cell::Taken(PlayerPick::O));
}

#[test]
fn empty_cells_in_row_major_order() {
    let b = board_of("X O  XO X");
    assert_eq!(b.empty_cells(), vec![(0, 1), (1, 0), (1, 1), (2, 1)]);
    assert_eq!(board_of("XOXXOOOXX").empty_cells(), vec![]);
    assert_eq!(Board::new().empty_cells().len(), 9);
}

#[test]
fn play_nth_empty_takes_that_square() {
    let mut b = board_of("X O  XO X");
    assert_eq!(b.play_nth_empty(2, PlayerPick::O), (1, 1));
    assert_eq!(b.cells, board_of("X O OXO X").cells);
}

#[test]
fn render_writes_rows_and_dividers() {
    let b = board_of("X O  XO  ");
    assert_eq!(b.render(), "X |   | O\n---------\n  |   | X\n---------\nO |   |  ");
    assert_eq!(
        Board::new().render(),
        "  |   |  \n---------\n  |   |  \n---------\n  |   |  "
    );
}

#[test]
fn marks_read_and_write() {
    assert_eq!(PlayerPick::parse("X"), Ok(PlayerPick::X));
    assert_eq!(PlayerPick::parse("O"), Ok(PlayerPick::O));
    assert_eq!(
        PlayerPick::parse("x"),
        Err(GameError::InvalidInput("Must choice X or O (any case)!".to_string()))
    );
    assert_eq!(PlayerPick::X.as_str(), "X");
    assert_eq!(PlayerPick::O.as_str(), "O");
    assert_eq!(PlayerPick::X.opponent(), PlayerPick::O);
    assert_eq!(PlayerPick::O.opponent(), PlayerPick::X);
}

#[test]
fn modes_read() {
    assert_eq!(Mode::parse("easy"), Ok(Mode::Easy));
    assert_eq!(Mode::parse("hard"), Ok(Mode::Hard));
    assert_eq!(
        Mode::parse("Hard"),
        Err(GameError::InvalidInput("Must choice Easy or Hard (any case)!".to_string()))
    );
    assert_eq!(
        Mode::parse(""),
        Err(GameError::InvalidInput("Must choice Easy or Hard (any case)!".to_string()))
    );
}

#[test]
fn error_messages() {
    assert_eq!(GameError::InvalidMove(4, 5).message(), "Invalid move");
    assert_eq!(GameError::InvalidInput("bad".to_string()).message(), "bad");
}

#[test]
fn score_follows_depth() {
    let b = board_of("XXXOO    ");
    assert_eq!(b.score(PlayerPick::X, PlayerPick::O, 3), 7);
    assert_eq!(b.score(PlayerPick::O, PlayerPick::X, 3), -7);
    assert_eq!(b.score(PlayerPick::O, PlayerPick::X, 0), -10);
    assert_eq!(Board::new().score(PlayerPick::X, PlayerPick::O, 5), 0);
}

#[test]
fn minimax_values_and_restores_the_board() {
    // the human (X) to move wins at once: 10 - 1
    let mut b = board_of("XX OO    ");
    assert_eq!(b.minimax(PlayerPick::X, PlayerPick::O, true, 0), 9);
    assert_eq!(b.cells, board_of("XX OO    ").cells);
    // the computer (O) to move wins at once: 1 - 10
    assert_eq!(b.minimax(PlayerPick::X, PlayerPick::O, false, 0), -9);
    assert_eq!(b.cells, board_of("XX OO    ").cells);
    // a drawn full board
    let mut d = board_of("XOXXOOOXX");
    assert_eq!(d.minimax(PlayerPick::X, PlayerPick::O, true, 4), 0);
}

#[test]
fn minimax_turn_picks_first_least_square() {
    let mut b = board_of("X        ");
    assert_eq!(b.minimax_cpu_turn(PlayerPick::X, PlayerPick::O), (1, 1));
    assert_eq!(b.cells, board_of("X   O    ").cells);
    let mut w = board_of("XX OO   X");
    assert_eq!(w.minimax_cpu_turn(PlayerPick::X, PlayerPick::O), (1, 2));
    assert!(w.win(PlayerPick::O));
}
