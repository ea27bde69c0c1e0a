use ferrisbot::chess_domain_data::{ChessMan, Color, Coord, FigureType};

#[test]
fn should_convert_coordinate() {
    //given
    let coord_a_negative = Coord::A(-1);
    let coord_a_middle = Coord::A(4);
    let coord_a_over_end = Coord::A(8);

    let coord_h = Coord::H(6);

    //when
    let (row_start, col_start) = coord_a_negative.extract_2d_coordinate();
    let (row_middle, col_middle) = coord_a_middle.extract_2d_coordinate();
    let (row_end, col_end) = coord_a_over_end.extract_2d_coordinate();

    let (row_h_end, col_h_end) = coord_h.extract_2d_coordinate();

    //then
    assert_eq!(row_start, 0);
    assert_eq!(col_start, 0);

    assert_eq!(row_middle, 0);
    assert_eq!(col_middle, 4);

    assert_eq!(row_end, 0);
    assert_eq!(col_end, 7);

    assert_eq!(row_h_end, 7);
    assert_eq!(col_h_end, 6);
}

#[test]
fn should_round_trip_in_range_coordinates() {
    for row in 0..8usize {
        for col in 0..8usize {
            let coord = Coord::extract_coordinate(row, col);
            assert_eq!(coord.extract_2d_coordinate(), (row, col));
        }
    }
    // out-of-range inputs clamp instead of failing
    assert_eq!(Coord::extract_coordinate(9, 9).extract_2d_coordinate(), (7, 7));
}

#[test]
fn should_parse_square_identifiers() {
    assert_eq!(Coord::parse("A1"), Coord::A(1));
    assert_eq!(Coord::parse("C-3"), Coord::C(-3));
    assert_eq!(Coord::parse("H+7"), Coord::H(7));
    assert_eq!(Coord::parse("B0005"), Coord::B(5));
    assert_eq!(Coord::parse("G127"), Coord::G(127));
    assert_eq!(Coord::parse("D-128"), Coord::D(-128));
}

#[test]
fn should_normalize_unknown_row_letter_to_h() {
    // an unknown row letter collapses to row H instead of failing
    let coord = Coord::parse("Z5");
    assert_eq!(coord, Coord::H(5));
    assert_eq!(coord.extract_2d_coordinate(), (7, 5));
}

#[test]
fn should_look_up_diagonal_value_by_index() {
    let any = Coord::A(0);
    assert_eq!(any.get_value_by_index(0), Coord::A(0));
    assert_eq!(any.get_value_by_index(3), Coord::D(3));
    assert_eq!(any.get_value_by_index(7), Coord::H(7));
    assert_eq!(any.get_value_by_index(12), Coord::H(7));
}

#[test]
fn should_expose_row_letter_and_color_name() {
    assert_eq!(Coord::B(4).row_letter(), 'B');
    assert_eq!(Coord::H(-2).row_letter(), 'H');
    assert_eq!(Color::White.name(), "White");
    assert_eq!(Color::Black.name(), "Black");
    assert_eq!(Color::White.other(), Color::Black);
}

#[test]
fn should_unwrap_color_of_every_piece_kind() {
    assert_eq!(FigureType::Knight(Color::White).unwrap_color(), Color::White);
    assert_eq!(FigureType::Bishop(Color::Black).unwrap_color(), Color::Black);
    assert_eq!(FigureType::Rook(Color::White).unwrap_color(), Color::White);
    assert_eq!(FigureType::Pawn(Color::Black).unwrap_color(), Color::Black);
    assert_eq!(FigureType::Queen(Color::White).unwrap_color(), Color::White);
    assert_eq!(FigureType::King(Color::Black).unwrap_color(), Color::Black);
}

fn man(identity: FigureType, is_first_turn: bool) -> ChessMan {
    ChessMan { identity, is_first_turn }
}

#[test]
fn should_apply_knight_jump_constraint() {
    let knight = man(FigureType::Knight(Color::White), true);
    assert!(knight.is_step_allowed(20, 10));
    assert!(knight.is_step_allowed(10, 25));
    assert!(knight.is_step_allowed(0, 17));
    assert!(!knight.is_step_allowed(20, 9));
}

#[test]
fn should_apply_bishop_and_rook_constraints() {
    let bishop = man(FigureType::Bishop(Color::Black), true);
    assert!(bishop.is_step_allowed(10, 3));
    assert!(bishop.is_step_allowed(0, 63));
    assert!(!bishop.is_step_allowed(10, 2));

    // the rook takes exactly the complement of the bishop's set
    let rook = man(FigureType::Rook(Color::Black), true);
    assert!(!rook.is_step_allowed(10, 3));
    assert!(rook.is_step_allowed(10, 2));
    assert!(rook.is_step_allowed(5, 5));
}

#[test]
fn should_apply_king_and_queen_constraints() {
    let king = man(FigureType::King(Color::White), false);
    assert!(king.is_step_allowed(9, 8));
    assert!(king.is_step_allowed(8, 15));
    assert!(king.is_step_allowed(0, 8));
    assert!(king.is_step_allowed(9, 0));
    assert!(!king.is_step_allowed(10, 8));

    let queen = man(FigureType::Queen(Color::Black), false);
    assert!(queen.is_step_allowed(0, 63));
    assert!(queen.is_step_allowed(17, 4));
}

#[test]
fn should_gate_pawn_double_step_on_first_turn() {
    // on the first turn only the double-step difference is accepted
    let white_first = man(FigureType::Pawn(Color::White), true);
    assert!(white_first.is_step_allowed(-1, 15));
    assert!(!white_first.is_step_allowed(-1, 7));
    assert!(!white_first.is_step_allowed(-1, 6));

    let black_first = man(FigureType::Pawn(Color::Black), true);
    assert!(black_first.is_step_allowed(15, -1));
    assert!(!black_first.is_step_allowed(15, 7));

    // after the first turn the single steps are accepted and the
    // double step no longer is
    let white_moved = man(FigureType::Pawn(Color::White), false);
    assert!(white_moved.is_step_allowed(-1, 6));
    assert!(white_moved.is_step_allowed(-1, 7));
    assert!(white_moved.is_step_allowed(-1, 8));
    assert!(!white_moved.is_step_allowed(-1, 15));

    let black_moved = man(FigureType::Pawn(Color::Black), false);
    assert!(black_moved.is_step_allowed(8, 1));
    assert!(!black_moved.is_step_allowed(8, 24));
}
