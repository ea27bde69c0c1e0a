use ferrisbot::chess::ChessGame;
use ferrisbot::chess_domain_data::{Cell, ChessMan, Color, Coord, FigureType, Step};

/// An 8x8 board of empty cells, each carrying the engine's cell number.
fn empty_board() -> Vec<Vec<Cell>> {
    let mut board: Vec<Vec<Cell>> = Vec::new();
    for row in 0..8i32 {
        let mut cells: Vec<Cell> = Vec::new();
        for col in 0..8i32 {
            cells.push(Cell { figure: None, number: (row * col - 1) as i8 });
        }
        board.push(cells);
    }
    board
}

fn place(board: &mut Vec<Vec<Cell>>, row: usize, col: usize, identity: FigureType) {
    board[row][col].figure = Some(ChessMan { identity, is_first_turn: true });
}

fn game_with(board: Vec<Vec<Cell>>, current_player: Color) -> ChessGame {
    ChessGame { fields: board, current_player, player_in_check: None }
}

fn initial_rendering() -> String {
    let mut result: String = " |A|B|C|D|E|F|G|H| \n".to_owned();
    result.push_str("0|♜|♞|♝|♛|♚|♝|♞|♜| \n");
    result.push_str("1|♟|♟|♟|♟|♟|♟|♟|♟| \n");
    result.push_str("2|#| |#| |#| |#| | \n");
    result.push_str("3| |#| |#| |#| |#| \n");
    result.push_str("4|#| |#| |#| |#| | \n");
    result.push_str("5| |#| |#| |#| |#| \n");
    result.push_str("6|♙|♙|♙|♙|♙|♙|♙|♙| \n");
    result.push_str("7|♖|♘|♗|♕|♔|♗|♘|♖| \n");
    result
}

#[test]
fn should_render_game_field_initial_correctly() {
    //given
    let mut chess_game = ChessGame::new();
    chess_game.new_game();
    let result = initial_rendering();

    //when
    let rendered: String = chess_game.render_current_board();

    //then
    assert!(!rendered.is_empty());
    assert_eq!(rendered, result);
}

#[test]
fn should_reset_game_state_on_new_game() {
    let mut chess_game = ChessGame::new();
    chess_game.new_game();
    // play a move that changes the board and records a check
    let reply = chess_game.make_move(&Color::White, "G0", "E4");
    assert_eq!(reply, "Black is in check!");
    assert_ne!(chess_game.render_current_board(), initial_rendering());
    assert_eq!(chess_game.player_in_check, Some(Color::Black));
    assert_eq!(chess_game.current_player, Color::Black);

    // a reset restores the starting position, the turn, and clears the check
    chess_game.new_game();
    assert_eq!(chess_game.render_current_board(), initial_rendering());
    assert_eq!(chess_game.player_in_check, None);
    assert_eq!(chess_game.current_player, Color::White);

    // resetting twice is the same as resetting once
    chess_game.new_game();
    assert_eq!(chess_game.render_current_board(), initial_rendering());

    // after the reset the same opening move is accepted again
    let replay = chess_game.make_move(&Color::White, "G0", "E4");
    assert_eq!(replay, "Black is in check!");
}

#[test]
fn should_reject_step_of_player_not_on_turn() {
    let mut chess_game = ChessGame::new();
    chess_game.new_game();

    // black is not on turn: every step is rejected, even a legal one
    let step = Step { start: Coord::parse("B0"), target: Coord::parse("D0") };
    assert!(!chess_game.is_step_allowed(&step, &Color::Black));
    let reply = chess_game.make_move(&Color::Black, "B0", "D0");
    assert_eq!(reply, "Step is not allowed!");
    assert_eq!(chess_game.render_current_board(), initial_rendering());
}

#[test]
fn should_reject_capture_of_own_piece() {
    let mut chess_game = ChessGame::new();
    chess_game.new_game();

    // the white rook may not move onto the white pawn in front of it
    let step = Step { start: Coord::parse("H0"), target: Coord::parse("G0") };
    assert!(!chess_game.is_step_allowed(&step, &Color::White));
    let reply = chess_game.make_move(&Color::White, "H0", "G0");
    assert_eq!(reply, "Step is not allowed!");
}

#[test]
fn should_reject_step_over_occupied_intermediate_square() {
    // a queen with a blocker on its rank: the movement table accepts the
    // step, the occupied intermediate square rejects it
    let mut board = empty_board();
    place(&mut board, 4, 0, FigureType::Queen(Color::White));
    place(&mut board, 4, 2, FigureType::Pawn(Color::Black));
    let game = game_with(board, Color::White);

    let blocked = Step { start: Coord::parse("E0"), target: Coord::parse("E4") };
    assert!(!game.is_step_allowed(&blocked, &Color::White));

    // the square right before the blocker stays reachable
    let short = Step { start: Coord::parse("E0"), target: Coord::parse("E1") };
    assert!(game.is_step_allowed(&short, &Color::White));
}

#[test]
fn should_allow_queen_travel_over_empty_lines_of_any_distance() {
    let mut board = empty_board();
    place(&mut board, 7, 0, FigureType::Queen(Color::White));
    let game = game_with(board, Color::White);

    // full-length file, rank and diagonal, all unobstructed
    let file = Step { start: Coord::parse("H0"), target: Coord::parse("A0") };
    let rank = Step { start: Coord::parse("H0"), target: Coord::parse("H7") };
    let diagonal = Step { start: Coord::parse("H0"), target: Coord::parse("A7") };
    assert!(game.is_step_allowed(&file, &Color::White));
    assert!(game.is_step_allowed(&rank, &Color::White));
    assert!(game.is_step_allowed(&diagonal, &Color::White));

    // shorter walks along the same lines succeed as well
    let two = Step { start: Coord::parse("H0"), target: Coord::parse("F0") };
    assert!(game.is_step_allowed(&two, &Color::White));
}

#[test]
fn should_keep_move_and_report_check_on_opponent() {
    let mut chess_game = ChessGame::new();
    chess_game.new_game();

    // the pawn double-step is accepted, and the white queen's line onto
    // the black king is open under the engine's path rules: the move is
    // kept and the check is recorded
    let reply = chess_game.make_move(&Color::White, "G0", "E4");
    assert_eq!(reply, "Black is in check!");
    assert_eq!(chess_game.player_in_check, Some(Color::Black));
    assert_eq!(chess_game.current_player, Color::Black);
    assert_ne!(chess_game.render_current_board(), initial_rendering());
}

#[test]
fn should_roll_back_move_that_leaves_own_king_in_check() {
    // white rook move that leaves the white king exposed to the black
    // queen: the board must be rolled back to the exact pre-move state
    let mut board = empty_board();
    place(&mut board, 0, 4, FigureType::King(Color::Black));
    place(&mut board, 0, 3, FigureType::Queen(Color::Black));
    place(&mut board, 7, 4, FigureType::King(Color::White));
    place(&mut board, 1, 7, FigureType::Rook(Color::White));
    let mut game = game_with(board, Color::White);

    let before = game.render_current_board();
    let reply = game.make_move(&Color::White, "B7", "D3");
    assert_eq!(reply, "step not possible White is in check!");
    assert_eq!(game.render_current_board(), before);
    assert_eq!(game.current_player, Color::White);
    assert_eq!(game.player_in_check, None);
}

#[test]
fn should_complete_quiet_move() {
    // the same rook move with no black queen on the board is quiet
    let mut board = empty_board();
    place(&mut board, 0, 4, FigureType::King(Color::Black));
    place(&mut board, 7, 4, FigureType::King(Color::White));
    place(&mut board, 1, 7, FigureType::Rook(Color::White));
    let mut game = game_with(board, Color::White);

    let before = game.render_current_board();
    let reply = game.make_move(&Color::White, "B7", "D3");
    assert_eq!(reply, "Step done!");
    assert_ne!(game.render_current_board(), before);
    assert_eq!(game.current_player, Color::Black);
    assert_eq!(game.player_in_check, None);
}

#[test]
fn should_accept_pawn_double_step_and_reject_single_step_on_first_move() {
    let mut chess_game = ChessGame::new();
    chess_game.new_game();

    // a single-step difference is rejected on the pawn's first move
    let single = chess_game.make_move(&Color::White, "G0", "E2");
    assert_eq!(single, "Step is not allowed!");
    assert_eq!(chess_game.render_current_board(), initial_rendering());

    // only the double-step difference is accepted
    let double = chess_game.make_move(&Color::White, "G0", "E4");
    assert_ne!(double, "Step is not allowed!");
}

#[test]
fn should_validate_steps_without_piece_ownership_check() {
    let mut chess_game = ChessGame::new();
    chess_game.new_game();

    // the legality chain rejects capturing an own piece but never asks
    // whether the moved piece belongs to the player: white may propose a
    // step of the black knight on A1, and only the movement table decides
    let knight_jump = Step { start: Coord::parse("A1"), target: Coord::parse("C5") };
    assert!(chess_game.is_step_allowed(&knight_jump, &Color::White));

    // the same start square with a zero number difference is rejected by
    // the knight's table
    let reply = chess_game.make_move(&Color::White, "A1", "A3");
    assert_eq!(reply, "Step is not allowed!");
}

#[test]
fn should_treat_unknown_row_letter_as_last_row() {
    let mut chess_game = ChessGame::new();
    chess_game.new_game();

    // "Z0" names the same square as "H0": the white rook moves
    let reply = chess_game.make_move(&Color::White, "Z0", "E1");
    assert_ne!(reply, "Step is not allowed!");
    let rendered = chess_game.render_current_board();
    // the rook is gone from its corner and stands on row E, column 1
    assert!(rendered.contains("7| |♘|♗|♕|♔|♗|♘|♖| \n"));
    assert!(rendered.contains("4|#|♖|#| |#| |#| | \n"));
}

#[test]
fn should_assign_cell_numbers_by_initialization_formula() {
    let mut chess_game = ChessGame::new();
    chess_game.new_game();
    for row in 0..8usize {
        for col in 0..8usize {
            let expected = (row as i32) * (col as i32) - 1;
            assert_eq!(chess_game.fields[row][col].number as i32, expected);
        }
    }
    assert_eq!(chess_game.fields[0][0].number, -1);
    assert_eq!(chess_game.fields[7][7].number, 48);
    assert_eq!(chess_game.fields[3][5].number, 14);
}

#[test]
fn should_report_no_check_mate() {
    let mut chess_game = ChessGame::new();
    chess_game.new_game();
    assert!(!chess_game.is_check_mate());
}

#[test]
fn should_start_with_empty_board_and_white_to_move() {
    let chess_game = ChessGame::new();
    assert!(chess_game.fields.is_empty());
    assert_eq!(chess_game.current_player, Color::White);
    assert_eq!(chess_game.player_in_check, None);
}
