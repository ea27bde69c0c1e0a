//! The chess engine: board state, move validation, check detection, move
//! application with single-ply rollback, and board rendering.
//!
//! The board is 8 rows by 8 columns; row 0 is black's back rank and row 7
//! is white's back rank. Every cell carries a derived scalar `number`,
//! assigned at board initialization as `row * column - 1`; the
//! movement-difference tables of [`crate::chess_domain_data`] are evaluated
//! against these numbers and against nothing else.

use vstd::prelude::*;

use crate::chess_domain_data::{
    spec_abs, spec_parse_square, valid_square_text, Cell, ChessMan, Color, Coord, FigureType, Step,
};
use vstd::string::StringExecFns;

verus! {

/// Mathematical abstraction of a game: the board as a sequence of rows,
/// the side to move, and the side recorded as standing in check.
pub ghost struct GameView {
    pub board: Seq<Seq<Cell>>,
    pub current_player: Color,
    pub player_in_check: Option<Color>,
}

/// The piece standing on a back-rank column in the starting position.
pub open spec fn back_rank_figure(color: Color, c: int) -> FigureType {
    if c == 0 || c == 7 {
        FigureType::Rook(color)
    } else if c == 1 || c == 6 {
        FigureType::Knight(color)
    } else if c == 2 || c == 5 {
        FigureType::Bishop(color)
    } else if c == 3 {
        FigureType::Queen(color)
    } else {
        FigureType::King(color)
    }
}

/// The piece (if any) standing on a square in the starting position.
pub open spec fn initial_figure(r: int, c: int) -> Option<FigureType> {
    if r == 0 {
        Some(back_rank_figure(Color::Black, c))
    } else if r == 1 {
        Some(FigureType::Pawn(Color::Black))
    } else if r == 6 {
        Some(FigureType::Pawn(Color::White))
    } else if r == 7 {
        Some(back_rank_figure(Color::White, c))
    } else {
        None
    }
}

/// A square of the starting position: the initial occupant (marked as not
/// yet moved) and the derived cell number.
pub open spec fn initial_cell(r: int, c: int) -> Cell {
    Cell {
        figure: match initial_figure(r, c) {
            Some(f) => Some(ChessMan { identity: f, is_first_turn: true }),
            None => None,
        },
        number: (r * c - 1) as i8,
    }
}

impl GameView {
    /// The cell at a row and column.
    pub open spec fn cell(self, r: int, c: int) -> Cell {
        self.board[r][c]
    }

    /// The board is 8 by 8 and every cell carries the number assigned at
    /// initialization: `row * column - 1`. Moves never transport numbers,
    /// so this shape is preserved by every operation.
    pub open spec fn board_well_formed(self) -> bool {
        &&& self.board.len() == 8
        &&& forall|r: int| 0 <= r < 8 ==> (#[trigger] self.board[r]).len() == 8
        &&& forall|r: int, c: int|
            0 <= r < 8 && 0 <= c < 8 ==> (#[trigger] self.cell(r, c)).number as int == r * c - 1
    }

    /// The state established by a game reset: the standard starting
    /// layout, white to move, nobody in check.
    pub open spec fn initial() -> GameView {
        GameView {
            board: Seq::new(8, |r: int| Seq::new(8, |c: int| initial_cell(r, c))),
            current_player: Color::White,
            player_in_check: None,
        }
    }
}

/// The `i`-th board index on the single-step walk from `from` towards
/// `to`; the index stays put when the two ends agree.
pub open spec fn step_towards(from: int, to: int, i: int) -> int {
    if to > from {
        from + i
    } else if to < from {
        from - i
    } else {
        from
    }
}

/// The number of single steps needed to walk from the start square to the
/// target square.
pub open spec fn walk_length(rs: int, cs: int, rt: int, ct: int) -> int {
    let dr = spec_abs(rt - rs);
    let dc = spec_abs(ct - cs);
    if dr > dc {
        dr
    } else {
        dc
    }
}

/// Whether the move is axis-aligned or exactly diagonal. Only such moves
/// have intermediate squares on a straight line between start and target;
/// a knight-shaped move crosses no square and is never blocked.
pub open spec fn is_straight_line(rs: int, cs: int, rt: int, ct: int) -> bool {
    rt == rs || ct == cs || spec_abs(rt - rs) == spec_abs(ct - cs)
}

impl GameView {
    /// Whether an occupied square lies strictly between the start and the
    /// target square on the move's straight line.
    pub open spec fn way_blocked(self, rs: int, cs: int, rt: int, ct: int) -> bool {
        &&& is_straight_line(rs, cs, rt, ct)
        &&& exists|i: int|
            1 <= i < walk_length(rs, cs, rt, ct) && (#[trigger] self.cell(
                step_towards(rs, rt, i),
                step_towards(cs, ct, i),
            )).figure is Some
    }

    /// The move-legality predicate on board positions, independent of
    /// whose turn it is: the target square must not hold a piece of the
    /// moving player's own color, the start square must be occupied,
    /// while the player is recorded as in check only their king may move,
    /// the piece's movement-difference table must accept the two cell
    /// numbers, and the path must not be blocked.
    pub open spec fn move_allowed(self, rs: int, cs: int, rt: int, ct: int, player: Color) -> bool {
        let start_cell = self.cell(rs, cs);
        let target_cell = self.cell(rt, ct);
        &&& match target_cell.figure {
            Some(target_figure) => target_figure.identity.spec_color() != player,
            None => true,
        }
        &&& match start_cell.figure {
            Some(figure) => {
                &&& (self.player_in_check == Some(player) ==> figure.identity
                    == FigureType::King(player))
                &&& figure.spec_step_allowed(start_cell.number as int, target_cell.number as int)
                &&& !self.way_blocked(rs, cs, rt, ct)
            },
            None => false,
        }
    }

    /// Whether the square lies on the board and holds a king of the
    /// given color.
    pub open spec fn is_king_cell(self, color: Color, r: int, c: int) -> bool {
        &&& 0 <= r < 8 && 0 <= c < 8
        &&& match self.cell(r, c).figure {
            Some(man) => man.identity == FigureType::King(color),
            None => false,
        }
    }

    /// Whether a king of the color stands anywhere on the board.
    pub open spec fn has_king(self, color: Color) -> bool {
        exists|r: int, c: int| self.is_king_cell(color, r, c)
    }

    /// Whether the square holds the first king of the color in row-major
    /// scan order. Check detection is evaluated against this square.
    pub open spec fn is_first_king_cell(self, color: Color, r: int, c: int) -> bool {
        &&& self.is_king_cell(color, r, c)
        &&& forall|r2: int, c2: int|
            #[trigger] self.is_king_cell(color, r2, c2) ==> 8 * r + c <= 8 * r2 + c2
    }

    /// Whether a piece of the attacker's color standing on `(r, c)` may
    /// legally step onto `(kr, kc)`, under the same move predicate that
    /// validates ordinary moves.
    pub open spec fn attack_from(self, r: int, c: int, kr: int, kc: int, attacker: Color) -> bool {
        &&& 0 <= r < 8 && 0 <= c < 8
        &&& match self.cell(r, c).figure {
            Some(man) => man.identity.spec_color() == attacker,
            None => false,
        }
        &&& self.move_allowed(r, c, kr, kc, attacker)
    }

    /// Whether any piece of the attacker's color may legally step onto
    /// the square.
    pub open spec fn attacks_square(self, kr: int, kc: int, attacker: Color) -> bool {
        exists|r: int, c: int| self.attack_from(r, c, kr, kc, attacker)
    }

    /// Whether the king of the color is under attack by the opposing
    /// side.
    pub open spec fn king_in_check(self, king_color: Color) -> bool {
        exists|r: int, c: int|
            #[trigger] self.is_first_king_cell(king_color, r, c) && self.attacks_square(
                r,
                c,
                king_color.spec_other(),
            )
    }

    /// The shared check-detection query. `me_self` selects the tested
    /// king: after a move has been applied the side to move is the
    /// mover's opponent, so `false` tests the king of the side to move
    /// (the mover's opponent) and `true` tests the king of the side that
    /// is not on turn (the mover's own). The result names the tested side
    /// exactly when its king is under attack; a board without that king
    /// reports no check.
    pub open spec fn check_status(self, me_self: bool) -> Option<Color> {
        let king_color = if me_self {
            self.current_player.spec_other()
        } else {
            self.current_player
        };
        if self.king_in_check(king_color) {
            Some(king_color)
        } else {
            None
        }
    }

    /// Full legality of a proposed step: the supplied player must be the
    /// side to move, and the move predicate must accept the squares named
    /// by the step's coordinates.
    pub open spec fn step_allowed(self, step: Step, player: Color) -> bool {
        &&& player == self.current_player
        &&& self.move_allowed(
            step.start.spec_row(),
            step.start.spec_column(),
            step.target.spec_row(),
            step.target.spec_column(),
            player,
        )
    }

    /// The state after applying a step: the side to move flips; if the
    /// start square is occupied, its piece moves to the target square
    /// with its first-turn flag cleared, both squares keep their cell
    /// numbers, and a previous occupant of the target square is gone. An
    /// empty start square moves nothing (the turn still flips); move
    /// application is only reached for validated steps, which rule that
    /// case out.
    pub open spec fn after_move(self, step: Step) -> GameView {
        let rs = step.start.spec_row();
        let cs = step.start.spec_column();
        let rt = step.target.spec_row();
        let ct = step.target.spec_column();
        let board = match self.cell(rs, cs).figure {
            Some(man) => {
                let cleared = board_update(
                    self.board,
                    rs,
                    cs,
                    Cell { figure: None, number: self.cell(rs, cs).number },
                );
                let moved = ChessMan { identity: man.identity, is_first_turn: false };
                board_update(
                    cleared,
                    rt,
                    ct,
                    Cell { figure: Some(moved), number: cleared[rt][ct].number },
                )
            },
            None => self.board,
        };
        GameView {
            board,
            current_player: self.current_player.spec_other(),
            player_in_check: self.player_in_check,
        }
    }

    /// The full textual rendering of the board: the header line followed
    /// by the eight board lines.
    pub open spec fn rendered_board(self) -> Seq<char> {
        header_text() + rows_text(self.board, 8)
    }

    /// The outcome of attempting a step: rejected outright, applied and
    /// putting the opponent in check, rolled back because the mover's own
    /// king would have been left under attack, or applied quietly.
    pub open spec fn move_outcome(self, step: Step, player: Color) -> MoveOutcome {
        if !self.step_allowed(step, player) {
            MoveOutcome::Rejected
        } else {
            let moved = self.after_move(step);
            if moved.check_status(false) is Some {
                MoveOutcome::Check(self.current_player.spec_other())
            } else if moved.check_status(true) is Some {
                MoveOutcome::RolledBack(self.current_player)
            } else {
                MoveOutcome::Done
            }
        }
    }

    /// The game state left behind by a move attempt with the given
    /// outcome: rejected and rolled-back attempts leave the state
    /// exactly as it was, a checking move is retained and records the
    /// checked side, and a quiet move is retained with the check record
    /// untouched.
    pub open spec fn state_after_outcome(self, step: Step, outcome: MoveOutcome) -> GameView {
        match outcome {
            MoveOutcome::Rejected => self,
            MoveOutcome::Check(color) => GameView {
                player_in_check: Some(color),
                ..self.after_move(step)
            },
            MoveOutcome::RolledBack(_) => self,
            MoveOutcome::Done => self.after_move(step),
        }
    }
}

/// The four possible outcomes of a move attempt.
pub enum MoveOutcome {
    Rejected,
    Check(Color),
    RolledBack(Color),
    Done,
}

/// The board after replacing the cell at a row and column.
pub open spec fn board_update(b: Seq<Seq<Cell>>, r: int, c: int, cell: Cell) -> Seq<Seq<Cell>> {
    b.update(r, b[r].update(c, cell))
}

/// The fixed reply for a rejected step.
pub open spec fn rejected_message() -> Seq<char> {
    "Step is not allowed!"@
}

/// The reply when a retained move has put a side in check.
pub open spec fn check_message(color: Color) -> Seq<char> {
    color.spec_name() + " is in check!"@
}

/// The reply when a move was rolled back because it would have left the
/// mover's own king under attack.
pub open spec fn rollback_message(color: Color) -> Seq<char> {
    "step not possible "@ + color.spec_name() + " is in check!"@
}

/// The reply for a completed, uneventful move.
pub open spec fn done_message() -> Seq<char> {
    "Step done!"@
}

/// The Unicode glyph of a piece followed by the column separator, as it
/// appears in one character-cell of the rendered board.
pub open spec fn glyph_cell_text(f: FigureType) -> Seq<char> {
    match f {
        FigureType::King(Color::Black) => "\u{265a}|"@,
        FigureType::Queen(Color::Black) => "\u{265b}|"@,
        FigureType::Knight(Color::Black) => "\u{265e}|"@,
        FigureType::Bishop(Color::Black) => "\u{265d}|"@,
        FigureType::Rook(Color::Black) => "\u{265c}|"@,
        FigureType::Pawn(Color::Black) => "\u{265f}|"@,
        FigureType::King(Color::White) => "\u{2654}|"@,
        FigureType::Queen(Color::White) => "\u{2655}|"@,
        FigureType::Knight(Color::White) => "\u{2658}|"@,
        FigureType::Bishop(Color::White) => "\u{2657}|"@,
        FigureType::Rook(Color::White) => "\u{2656}|"@,
        FigureType::Pawn(Color::White) => "\u{2659}|"@,
    }
}

/// One character-cell of the rendered board: an occupied square shows its
/// piece's glyph, an empty square shows the checkerboard marker of its
/// square color; either is followed by the column separator.
pub open spec fn cell_text(cell: Cell, r: int, c: int) -> Seq<char> {
    match cell.figure {
        Some(man) => glyph_cell_text(man.identity),
        None => if (r + c) % 2 == 0 {
            "#|"@
        } else {
            " |"@
        },
    }
}

/// The leading label of a rendered board line: the row index and a
/// separator.
pub open spec fn row_label_text(r: int) -> Seq<char> {
    if r == 0 {
        "0|"@
    } else if r == 1 {
        "1|"@
    } else if r == 2 {
        "2|"@
    } else if r == 3 {
        "3|"@
    } else if r == 4 {
        "4|"@
    } else if r == 5 {
        "5|"@
    } else if r == 6 {
        "6|"@
    } else {
        "7|"@
    }
}

/// The first `c` character-cells of row `r`, concatenated.
pub open spec fn row_cells_text(row: Seq<Cell>, r: int, c: int) -> Seq<char>
    decreases c,
{
    if c <= 0 {
        Seq::empty()
    } else {
        row_cells_text(row, r, c - 1) + cell_text(row[c - 1], r, c - 1)
    }
}

/// One full rendered board line: label, eight character-cells, and the
/// line tail.
pub open spec fn row_text(row: Seq<Cell>, r: int) -> Seq<char> {
    row_label_text(r) + row_cells_text(row, r, 8) + " \n"@
}

/// The first `r` rendered board lines, concatenated.
pub open spec fn rows_text(b: Seq<Seq<Cell>>, r: int) -> Seq<char>
    decreases r,
{
    if r <= 0 {
        Seq::empty()
    } else {
        rows_text(b, r - 1) + row_text(b[r - 1], r - 1)
    }
}

/// The header line of the rendered board.
pub open spec fn header_text() -> Seq<char> {
    " |A|B|C|D|E|F|G|H| \n"@
}

/// The reply text for each outcome of a move attempt.
pub open spec fn outcome_message(outcome: MoveOutcome) -> Seq<char> {
    match outcome {
        MoveOutcome::Rejected => rejected_message(),
        MoveOutcome::Check(color) => check_message(color),
        MoveOutcome::RolledBack(color) => rollback_message(color),
        MoveOutcome::Done => done_message(),
    }
}

/// The engine. It owns the board exclusively; the board starts empty and
/// is populated by [`ChessGame::new_game`].
#[derive(Clone, Debug)]
pub struct ChessGame {
    pub fields: Vec<Vec<Cell>>,
    pub current_player: Color,
    pub player_in_check: Option<Color>,
}

impl View for ChessGame {
    type V = GameView;

    open spec fn view(&self) -> GameView {
        GameView {
            board: Seq::new(self.fields@.len(), |r: int| self.fields@[r]@),
            current_player: self.current_player,
            player_in_check: self.player_in_check,
        }
    }
}

/// The back-rank piece for a column of the starting position.
fn back_rank_at(color: Color, col: usize) -> (f: FigureType)
    ensures
        f == back_rank_figure(color, col as int),
{
    if col == 0 || col == 7 {
        FigureType::Rook(color)
    } else if col == 1 || col == 6 {
        FigureType::Knight(color)
    } else if col == 2 || col == 5 {
        FigureType::Bishop(color)
    } else if col == 3 {
        FigureType::Queen(color)
    } else {
        FigureType::King(color)
    }
}

/// The starting-position occupant of a square.
fn initial_figure_at(row: usize, col: usize) -> (f: Option<FigureType>)
    ensures
        f == initial_figure(row as int, col as int),
{
    if row == 0 {
        Some(back_rank_at(Color::Black, col))
    } else if row == 1 {
        Some(FigureType::Pawn(Color::Black))
    } else if row == 6 {
        Some(FigureType::Pawn(Color::White))
    } else if row == 7 {
        Some(back_rank_at(Color::White, col))
    } else {
        None
    }
}

impl ChessGame {
    /// Allocates an engine with an empty board, white to move and nobody
    /// in check. The board is only populated by [`Self::new_game`].
    pub fn new() -> (r: Self)
        ensures
            r@.board.len() == 0,
            r@.current_player == Color::White,
            r@.player_in_check is None,
    {
        ChessGame { fields: Vec::new(), current_player: Color::White, player_in_check: None }
    }

    /// (Re)populates the board with the standard starting layout and
    /// resets the whole game state: white to move, no recorded check.
    /// Calling it at any time performs a hard reset; the resulting state
    /// does not depend on anything that happened before, so resetting is
    /// idempotent.
    pub fn new_game(&mut self)
        ensures
            final(self)@ == GameView::initial(),
            final(self)@.board_well_formed(),
    {
        let mut game_field: Vec<Vec<Cell>> = Vec::new();
        let mut row_index: usize = 0;
        while row_index < 8
            invariant
                row_index <= 8,
                game_field@.len() == row_index,
                forall|r: int|
                    0 <= r < row_index ==> (#[trigger] game_field@[r])@ == Seq::new(
                        8,
                        |c: int| initial_cell(r, c),
                    ),
            decreases 8 - row_index,
        {
            let mut col: Vec<Cell> = Vec::new();
            let mut col_index: usize = 0;
            while col_index < 8
                invariant
                    col_index <= 8,
                    row_index < 8,
                    col@.len() == col_index,
                    forall|c: int|
                        0 <= c < col_index ==> col@[c] == initial_cell(row_index as int, c),
                decreases 8 - col_index,
            {
                proof {
                    assert((row_index as int) * (col_index as int) <= 49) by (nonlinear_arith)
                        requires
                            row_index < 8,
                            col_index < 8,
                    ;
                    assert((row_index as int) * (col_index as int) >= 0) by (nonlinear_arith)
                        requires
                            row_index < 8,
                            col_index < 8,
                    ;
                }
                let field_number: i8 = (row_index as i8) * (col_index as i8) - 1;
                let cell: Cell = match initial_figure_at(row_index, col_index) {
                    Some(figure) => Cell {
                        figure: Some(ChessMan { identity: figure, is_first_turn: true }),
                        number: field_number,
                    },
                    None => Cell { figure: None, number: field_number },
                };
                col.push(cell);
                col_index = col_index + 1;
            }
            proof {
                assert(col@ =~= Seq::new(8, |c: int| initial_cell(row_index as int, c)));
            }
            game_field.push(col);
            row_index = row_index + 1;
        }
        self.fields = game_field;
        self.current_player = Color::White;
        self.player_in_check = None;
        proof {
            assert(self@.board =~~= GameView::initial().board);
            lemma_initial_board_well_formed();
        }
    }

    /// Walks the straight-line path between the squares of a step and
    /// reports whether an intermediate square is occupied. Walks that
    /// follow no straight line (knight jumps) cross no squares.
    fn is_way_blocked(&self, step: &Step) -> (r: bool)
        requires
            self@.board_well_formed(),
        ensures
            r == self@.way_blocked(
                step.start.spec_row(),
                step.start.spec_column(),
                step.target.spec_row(),
                step.target.spec_column(),
            ),
    {
        let (row_start, col_start) = step.start.extract_2d_coordinate();
        let (row_target, col_target) = step.target.extract_2d_coordinate();
        let row_diff_abs: usize = if row_target >= row_start {
            row_target - row_start
        } else {
            row_start - row_target
        };
        let col_diff_abs: usize = if col_target >= col_start {
            col_target - col_start
        } else {
            col_start - col_target
        };
        if !(row_target == row_start || col_target == col_start || row_diff_abs == col_diff_abs) {
            return false;
        }
        let steps: usize = if row_diff_abs > col_diff_abs {
            row_diff_abs
        } else {
            col_diff_abs
        };
        let ghost rs = row_start as int;
        let ghost cs = col_start as int;
        let ghost rt = row_target as int;
        let ghost ct = col_target as int;
        let mut row_index = row_start;
        let mut col_index = col_start;
        let mut i: usize = 1;
        while i < steps
            invariant
                self@.board_well_formed(),
                1 <= i,
                steps >= 1 ==> i <= steps,
                rs == row_start as int && cs == col_start as int,
                rt == row_target as int && ct == col_target as int,
                rs == step.start.spec_row() && cs == step.start.spec_column(),
                rt == step.target.spec_row() && ct == step.target.spec_column(),
                row_start < 8 && col_start < 8 && row_target < 8 && col_target < 8,
                is_straight_line(rs, cs, rt, ct),
                steps == walk_length(rs, cs, rt, ct),
                row_index as int == step_towards(rs, rt, i - 1),
                col_index as int == step_towards(cs, ct, i - 1),
                forall|j: int|
                    1 <= j < i ==> !((#[trigger] self@.cell(
                        step_towards(rs, rt, j),
                        step_towards(cs, ct, j),
                    )).figure is Some),
            decreases steps - i,
        {
            row_index = if row_target > row_start {
                row_index + 1
            } else if row_target < row_start {
                row_index - 1
            } else {
                row_index
            };
            col_index = if col_target > col_start {
                col_index + 1
            } else if col_target < col_start {
                col_index - 1
            } else {
                col_index
            };
            proof {
                assert(row_index as int == step_towards(rs, rt, i as int));
                assert(col_index as int == step_towards(cs, ct, i as int));
                assert(self.fields@.len() == self@.board.len());
                assert(self.fields@[row_index as int]@ == self@.board[row_index as int]);
            }
            let current_cell: Cell = self.fields[row_index][col_index];
            proof {
                assert(current_cell == self@.cell(row_index as int, col_index as int));
            }
            if current_cell.figure.is_some() {
                proof {
                    assert((self@.cell(
                        step_towards(rs, rt, i as int),
                        step_towards(cs, ct, i as int),
                    )).figure is Some);
                }
                return true;
            }
            i = i + 1;
        }
        false
    }

    /// Evaluates the move predicate for a step, independent of whose turn
    /// it is. Shared by the turn-checked validation and by the check
    /// scans, which probe moves of the side that is not on turn.
    fn move_allowed_for(&self, step: &Step, player: &Color) -> (r: bool)
        requires
            self@.board_well_formed(),
        ensures
            r == self@.move_allowed(
                step.start.spec_row(),
                step.start.spec_column(),
                step.target.spec_row(),
                step.target.spec_column(),
                *player,
            ),
    {
        let (row_start, col_start) = step.start.extract_2d_coordinate();
        let (row_target, col_target) = step.target.extract_2d_coordinate();
        proof {
            assert(self.fields@.len() == self@.board.len());
            assert(self.fields@[row_start as int]@ == self@.board[row_start as int]);
            assert(self.fields@[row_target as int]@ == self@.board[row_target as int]);
        }
        let start_cell: Cell = self.fields[row_start][col_start];
        let target_cell: Cell = self.fields[row_target][col_target];

        if let Some(target_figure) = target_cell.figure {
            if target_figure.identity.unwrap_color() == *player {
                return false;
            }
        }

        match start_cell.figure {
            Some(figure) => {
                let gate_active: bool = match self.player_in_check {
                    Some(color) => color == *player,
                    None => false,
                };
                if gate_active && !(figure.identity == FigureType::King(*player)) {
                    return false;
                }
                proof {
                    assert(0 <= (row_start as int) * (col_start as int) <= 49) by (nonlinear_arith)
                        requires
                            row_start < 8,
                            col_start < 8,
                    ;
                    assert(0 <= (row_target as int) * (col_target as int) <= 49)
                        by (nonlinear_arith)
                        requires
                            row_target < 8,
                            col_target < 8,
                    ;
                    assert(start_cell == self@.cell(row_start as int, col_start as int));
                    assert(target_cell == self@.cell(row_target as int, col_target as int));
                    assert(-1 <= start_cell.number as int <= 48);
                    assert(-1 <= target_cell.number as int <= 48);
                }
                figure.is_step_allowed(start_cell.number, target_cell.number)
                    && !self.is_way_blocked(step)
            },
            None => false,
        }
    }

    /// Decides whether a proposed step is legal for the supplied player
    /// under the full rule chain: turn enforcement, no capture of an own
    /// piece, an occupied start square, the king-only restriction while
    /// in check, the piece's movement-difference table, and path
    /// blocking.
    pub fn is_step_allowed(&self, step: &Step, player: &Color) -> (r: bool)
        requires
            self@.board_well_formed(),
        ensures
            r == self@.step_allowed(*step, *player),
    {
        if !(*player == self.current_player) {
            return false;
        }
        self.move_allowed_for(step, player)
    }

    /// Scans the board in row-major order for the first king of the
    /// given color and returns its coordinate paired with the color.
    fn get_king_data(&self, king_color: Color) -> (r: Option<(Coord, Color)>)
        requires
            self@.board_well_formed(),
        ensures
            match r {
                Some(found) => found.1 == king_color && self@.is_first_king_cell(
                    king_color,
                    found.0.spec_row(),
                    found.0.spec_column(),
                ),
                None => !self@.has_king(king_color),
            },
    {
        let mut row_index: usize = 0;
        while row_index < 8
            invariant
                self@.board_well_formed(),
                row_index <= 8,
                forall|r2: int, c2: int|
                    0 <= r2 < row_index && 0 <= c2 < 8 ==> !(#[trigger] self@.is_king_cell(
                        king_color,
                        r2,
                        c2,
                    )),
            decreases 8 - row_index,
        {
            let mut col_index: usize = 0;
            while col_index < 8
                invariant
                    self@.board_well_formed(),
                    row_index < 8,
                    col_index <= 8,
                    forall|r2: int, c2: int|
                        0 <= r2 < row_index && 0 <= c2 < 8 ==> !(#[trigger] self@.is_king_cell(
                            king_color,
                            r2,
                            c2,
                        )),
                    forall|c2: int|
                        0 <= c2 < col_index ==> !(#[trigger] self@.is_king_cell(
                            king_color,
                            row_index as int,
                            c2,
                        )),
                decreases 8 - col_index,
            {
                proof {
                    assert(self.fields@.len() == self@.board.len());
                    assert(self.fields@[row_index as int]@ == self@.board[row_index as int]);
                }
                let cell: Cell = self.fields[row_index][col_index];
                let mut is_searched_king: bool = false;
                if let Some(figure) = cell.figure {
                    if figure.identity == FigureType::King(king_color) {
                        is_searched_king = true;
                    }
                }
                if is_searched_king {
                    let coord = Coord::extract_coordinate(row_index, col_index);
                    proof {
                        assert(self@.is_king_cell(
                            king_color,
                            row_index as int,
                            col_index as int,
                        ));
                        assert forall|r2: int, c2: int|
                            #[trigger] self@.is_king_cell(king_color, r2, c2) implies 8 * (
                        row_index as int) + col_index as int <= 8 * r2 + c2 by {
                            if 8 * r2 + c2 < 8 * (row_index as int) + col_index as int {
                                assert(r2 < row_index as int || (r2 == row_index as int && c2
                                    < col_index as int));
                            }
                        }
                    }
                    return Some((coord, king_color));
                }
                col_index = col_index + 1;
            }
            row_index = row_index + 1;
        }
        None
    }

    /// Applies a step to the board: flips the side to move and, when the
    /// start square is occupied, transports its piece to the target
    /// square with the first-turn flag cleared. Both squares keep their
    /// cell numbers.
    fn move_figure(&mut self, step: &Step)
        requires
            old(self)@.board_well_formed(),
        ensures
            final(self)@ == old(self)@.after_move(*step),
            final(self)@.board_well_formed(),
    {
        self.current_player = match self.current_player {
            Color::Black => Color::White,
            Color::White => Color::Black,
        };
        let (row_start, col_start) = step.start.extract_2d_coordinate();
        proof {
            assert(self.fields@.len() == self@.board.len());
            assert(self.fields@[row_start as int]@ == self@.board[row_start as int]);
        }
        let start_cell: Cell = self.fields[row_start][col_start];
        let figure: ChessMan = match start_cell.figure {
            Some(figure) => figure,
            None => {
                proof {
                    assert(self@.board =~~= old(self)@.after_move(*step).board);
                    lemma_well_formed_same_board(old(self)@, self@);
                }
                return ;
            },
        };
        let moved = ChessMan { identity: figure.identity, is_first_turn: false };
        self.fields[row_start][col_start] = Cell { figure: None, number: start_cell.number };
        let (row_target, col_target) = step.target.extract_2d_coordinate();
        proof {
            assert(self.fields@[row_target as int]@ == self@.board[row_target as int]);
        }
        let target_number: i8 = self.fields[row_target][col_target].number;
        self.fields[row_target][col_target] = Cell {
            figure: Some(moved),
            number: target_number,
        };
        proof {
            let rs = step.start.spec_row();
            let cs = step.start.spec_column();
            let rt = step.target.spec_row();
            let ct = step.target.spec_column();
            let cleared = board_update(
                old(self)@.board,
                rs,
                cs,
                Cell { figure: None, number: old(self)@.cell(rs, cs).number },
            );
            assert(cleared[rt][ct] == (if rt == rs && ct == cs {
                Cell { figure: None, number: old(self)@.cell(rs, cs).number }
            } else {
                old(self)@.cell(rt, ct)
            }));
            assert(self@.board =~~= old(self)@.after_move(*step).board);
            assert forall|r: int, c: int| 0 <= r < 8 && 0 <= c < 8 implies (#[trigger] self@.cell(
                r,
                c,
            )).number as int == r * c - 1 by {
                assert(old(self)@.cell(r, c).number as int == r * c - 1);
            }
        }
    }

    /// Determines whether the tested side's king is under attack by
    /// scanning every square for an opposing piece that may legally step
    /// onto the king's square. After a move has been applied the side to
    /// move is the mover's opponent, so `me_self == false` tests the
    /// king of the side to move and `me_self == true` tests the king of
    /// the side that just moved. Returns the tested color exactly when
    /// its king is in check; a board without that king reports no check.
    pub fn player_in_check(&self, me_self: bool) -> (r: Option<Color>)
        requires
            self@.board_well_formed(),
        ensures
            r == self@.check_status(me_self),
    {
        let king_color: Color = if me_self {
            self.current_player.other()
        } else {
            self.current_player
        };
        let king_data = self.get_king_data(king_color);
        let coord_king: Coord = match king_data {
            Some(found) => found.0,
            None => {
                return None;
            },
        };
        let (king_row, king_col) = coord_king.extract_2d_coordinate();
        let attacker: Color = king_color.other();
        let ghost kr = coord_king.spec_row();
        let ghost kc = coord_king.spec_column();
        let mut row_index: usize = 0;
        while row_index < 8
            invariant
                self@.board_well_formed(),
                row_index <= 8,
                attacker == king_color.spec_other(),
                king_color == (if me_self {
                    self.current_player.spec_other()
                } else {
                    self.current_player
                }),
                self@.is_first_king_cell(king_color, kr, kc),
                kr == coord_king.spec_row() && kc == coord_king.spec_column(),
                forall|r2: int, c2: int|
                    0 <= r2 < row_index && 0 <= c2 < 8 ==> !(#[trigger] self@.attack_from(
                        r2,
                        c2,
                        kr,
                        kc,
                        attacker,
                    )),
            decreases 8 - row_index,
        {
            let mut col_index: usize = 0;
            while col_index < 8
                invariant
                    self@.board_well_formed(),
                    row_index < 8,
                    col_index <= 8,
                    attacker == king_color.spec_other(),
                    king_color == (if me_self {
                        self.current_player.spec_other()
                    } else {
                        self.current_player
                    }),
                    self@.is_first_king_cell(king_color, kr, kc),
                    kr == coord_king.spec_row() && kc == coord_king.spec_column(),
                    forall|r2: int, c2: int|
                        0 <= r2 < row_index && 0 <= c2 < 8 ==> !(#[trigger] self@.attack_from(
                            r2,
                            c2,
                            kr,
                            kc,
                            attacker,
                        )),
                    forall|c2: int|
                        0 <= c2 < col_index ==> !(#[trigger] self@.attack_from(
                            row_index as int,
                            c2,
                            kr,
                            kc,
                            attacker,
                        )),
                decreases 8 - col_index,
            {
                proof {
                    assert(self.fields@.len() == self@.board.len());
                    assert(self.fields@[row_index as int]@ == self@.board[row_index as int]);
                }
                let cell: Cell = self.fields[row_index][col_index];
                let mut pointed_attacker: bool = false;
                if let Some(pointed_player) = cell.figure {
                    if pointed_player.identity.unwrap_color() == attacker {
                        pointed_attacker = true;
                    }
                }
                if pointed_attacker {
                    let from = Coord::extract_coordinate(row_index, col_index);
                    let step = Step { start: from, target: coord_king };
                    if self.move_allowed_for(&step, &attacker) {
                        proof {
                            assert(self@.attack_from(
                                row_index as int,
                                col_index as int,
                                kr,
                                kc,
                                attacker,
                            ));
                            assert(self@.attacks_square(kr, kc, attacker));
                            assert(self@.king_in_check(king_color));
                        }
                        return Some(king_color);
                    }
                }
                proof {
                    assert(!self@.attack_from(
                        row_index as int,
                        col_index as int,
                        kr,
                        kc,
                        attacker,
                    ));
                }
                col_index = col_index + 1;
            }
            row_index = row_index + 1;
        }
        proof {
            if self@.king_in_check(king_color) {
                let (r2, c2) = choose|r2: int, c2: int|
                    #[trigger] self@.is_first_king_cell(king_color, r2, c2)
                        && self@.attacks_square(r2, c2, attacker);
                lemma_first_king_unique(self@, king_color, r2, c2, kr, kc);
                let (ar, ac) = choose|ar: int, ac: int| self@.attack_from(ar, ac, kr, kc, attacker);
                assert(false);
            }
        }
        None
    }

    /// Renders the board as a fixed-width textual grid: a header row of
    /// column letters, then one line per board row prefixed with the row
    /// index. Occupied squares show their piece's Unicode glyph; empty
    /// squares alternate between a shaded and a blank marker in a
    /// checkerboard pattern. Read-only.
    pub fn render_current_board(&self) -> (r: String)
        requires
            self@.board_well_formed(),
        ensures
            r@ == self@.rendered_board(),
    {
        let mut rendered_field: String = " |A|B|C|D|E|F|G|H| \n".to_owned();
        let mut row_index: usize = 0;
        while row_index < 8
            invariant
                self@.board_well_formed(),
                row_index <= 8,
                rendered_field@ == header_text() + rows_text(self@.board, row_index as int),
            decreases 8 - row_index,
        {
            rendered_field.append(row_label_at(row_index));
            let ghost row_seq = self@.board[row_index as int];
            let ghost line_start = header_text() + rows_text(self@.board, row_index as int);
            let mut col_index: usize = 0;
            while col_index < 8
                invariant
                    self@.board_well_formed(),
                    row_index < 8,
                    col_index <= 8,
                    row_seq == self@.board[row_index as int],
                    line_start == header_text() + rows_text(self@.board, row_index as int),
                    rendered_field@ == line_start + row_label_text(row_index as int)
                        + row_cells_text(row_seq, row_index as int, col_index as int),
                decreases 8 - col_index,
            {
                proof {
                    assert(self.fields@.len() == self@.board.len());
                    assert(self.fields@[row_index as int]@ == self@.board[row_index as int]);
                }
                let cell: Cell = self.fields[row_index][col_index];
                match cell.figure {
                    Some(figure) => {
                        rendered_field.append(glyph_cell_at(figure.identity));
                    },
                    None => {
                        if (row_index + col_index) % 2 == 0 {
                            rendered_field.append("#|");
                        } else {
                            rendered_field.append(" |");
                        }
                    },
                }
                proof {
                    assert(rendered_field@ =~= line_start + row_label_text(row_index as int)
                        + row_cells_text(row_seq, row_index as int, col_index as int + 1));
                }
                col_index = col_index + 1;
            }
            rendered_field.append(" \n");
            proof {
                assert(rendered_field@ =~= header_text() + rows_text(
                    self@.board,
                    row_index as int + 1,
                ));
            }
            row_index = row_index + 1;
        }
        rendered_field
    }

    /// Attempts a move: parses the two square identifiers, validates the
    /// step for the supplied player, applies it, and evaluates check.
    /// A rejected step leaves the state untouched; a retained move that
    /// puts the opponent in check records the check; a move that would
    /// leave the mover's own king under attack is rolled back to the
    /// exact pre-move state. The returned text names the outcome.
    pub fn make_move(&mut self, color: &Color, from: &str, to: &str) -> (r: String)
        requires
            old(self)@.board_well_formed(),
            valid_square_text(from@),
            valid_square_text(to@),
        ensures
            final(self)@.board_well_formed(),
            ({
                let step = (Step {
                    start: spec_parse_square(from@),
                    target: spec_parse_square(to@),
                });
                let outcome = old(self)@.move_outcome(step, *color);
                &&& r@ == outcome_message(outcome)
                &&& final(self)@ == old(self)@.state_after_outcome(step, outcome)
            }),
    {
        let start = Coord::parse(from);
        let target = Coord::parse(to);
        let step = Step { start, target };
        let is_allowed: bool = self.is_step_allowed(&step, color);
        if !is_allowed {
            return "Step is not allowed!".to_owned();
        }
        let (row_start, col_start) = start.extract_2d_coordinate();
        let (row_target, col_target) = target.extract_2d_coordinate();
        proof {
            assert(self.fields@.len() == self@.board.len());
            assert(self.fields@[row_start as int]@ == self@.board[row_start as int]);
            assert(self.fields@[row_target as int]@ == self@.board[row_target as int]);
        }
        let saved_start: Cell = self.fields[row_start][col_start];
        let saved_target: Cell = self.fields[row_target][col_target];
        self.move_figure(&step);
        let opponent_player_in_check: Option<Color> = self.player_in_check(false);
        if let Some(checked_color) = opponent_player_in_check {
            self.player_in_check = Some(checked_color);
            proof {
                lemma_well_formed_same_board(old(self)@.after_move(step), self@);
            }
            return checked_color.name().to_owned().concat(" is in check!");
        }
        let own_player_in_check: Option<Color> = self.player_in_check(true);
        if let Some(checked_color) = own_player_in_check {
            proof {
                assert(self.fields@.len() == self@.board.len());
                assert(self.fields@[row_start as int]@ == self@.board[row_start as int]);
                assert(self.fields@[row_target as int]@ == self@.board[row_target as int]);
            }
            self.fields[row_start][col_start] = saved_start;
            proof {
                assert(self.fields@[row_target as int]@.len() == 8);
            }
            self.fields[row_target][col_target] = saved_target;
            self.current_player = match self.current_player {
                Color::Black => Color::White,
                Color::White => Color::Black,
            };
            proof {
                let g0 = old(self)@;
                let rs = step.start.spec_row();
                let cs = step.start.spec_column();
                let rt = step.target.spec_row();
                let ct = step.target.spec_column();
                let b1 = g0.after_move(step).board;
                let restored = board_update(
                    board_update(b1, rs, cs, saved_start),
                    rt,
                    ct,
                    saved_target,
                );
                assert(self@.board =~~= restored);
                assert(restored =~~= g0.board);
                lemma_well_formed_same_board(old(self)@, self@);
            }
            return "step not possible ".to_owned().concat(checked_color.name()).concat(
                " is in check!",
            );
        }
        "Step done!".to_owned()
    }

    /// Terminal-state detection is an explicit non-goal of this engine;
    /// the query is provided for interface completeness and always
    /// reports that the game is not over.
    pub fn is_check_mate(&self) -> (r: bool)
        ensures
            !r,
    {
        false
    }
}

/// The rendered character-cell of a piece.
fn glyph_cell_at(f: FigureType) -> (r: &'static str)
    ensures
        r@ == glyph_cell_text(f),
{
    match f {
        FigureType::King(Color::Black) => "\u{265a}|",
        FigureType::Queen(Color::Black) => "\u{265b}|",
        FigureType::Knight(Color::Black) => "\u{265e}|",
        FigureType::Bishop(Color::Black) => "\u{265d}|",
        FigureType::Rook(Color::Black) => "\u{265c}|",
        FigureType::Pawn(Color::Black) => "\u{265f}|",
        FigureType::King(Color::White) => "\u{2654}|",
        FigureType::Queen(Color::White) => "\u{2655}|",
        FigureType::Knight(Color::White) => "\u{2658}|",
        FigureType::Bishop(Color::White) => "\u{2657}|",
        FigureType::Rook(Color::White) => "\u{2656}|",
        FigureType::Pawn(Color::White) => "\u{2659}|",
    }
}

/// The rendered label of a board line.
fn row_label_at(r: usize) -> (s: &'static str)
    ensures
        s@ == row_label_text(r as int),
{
    match r {
        0 => "0|",
        1 => "1|",
        2 => "2|",
        3 => "3|",
        4 => "4|",
        5 => "5|",
        6 => "6|",
        _ => "7|",
    }
}

/// Board well-formedness depends only on the board: it transfers between
/// any two views that share the same board value.
proof fn lemma_well_formed_same_board(g1: GameView, g2: GameView)
    requires
        g1.board == g2.board,
        g1.board_well_formed(),
    ensures
        g2.board_well_formed(),
{
    assert forall|r: int| 0 <= r < 8 implies (#[trigger] g2.board[r]).len() == 8 by {
        assert(g2.board[r] == g1.board[r]);
    }
    assert forall|r: int, c: int| 0 <= r < 8 && 0 <= c < 8 implies (#[trigger] g2.cell(
        r,
        c,
    )).number as int == r * c - 1 by {
        assert(g2.cell(r, c) == g1.cell(r, c));
    }
}

/// The first king of a color in row-major order stands on a unique
/// square.
proof fn lemma_first_king_unique(g: GameView, color: Color, r1: int, c1: int, r2: int, c2: int)
    requires
        g.is_first_king_cell(color, r1, c1),
        g.is_first_king_cell(color, r2, c2),
    ensures
        r1 == r2,
        c1 == c2,
{
    assert(8 * r1 + c1 <= 8 * r2 + c2);
    assert(8 * r2 + c2 <= 8 * r1 + c1);
}

/// The starting position satisfies the board shape invariant.
pub proof fn lemma_initial_board_well_formed()
    ensures
        GameView::initial().board_well_formed(),
{
    assert forall|r: int, c: int| 0 <= r < 8 && 0 <= c < 8 implies (#[trigger] GameView::initial()
        .cell(r, c)).number as int == r * c - 1 by {
        assert(0 <= r * c <= 49) by (nonlinear_arith)
            requires
                0 <= r < 8,
                0 <= c < 8,
        ;
        assert(GameView::initial().cell(r, c) == initial_cell(r, c));
    }
}

/// A game reset yields one fixed state: any two games that have just been
/// reset are indistinguishable, whatever their prior histories were, so
/// resetting twice is the same as resetting once.
pub proof fn lemma_new_game_idempotent(once: GameView, twice: GameView)
    requires
        once == GameView::initial(),
        twice == GameView::initial(),
    ensures
        twice == once,
{
}

/// Turn enforcement: whatever the board looks like and whatever piece is
/// addressed, a step offered by a player who is not the side to move is
/// rejected.
pub proof fn lemma_wrong_player_rejected(g: GameView, step: Step, player: Color)
    requires
        player != g.current_player,
    ensures
        !g.step_allowed(step, player),
{
}

/// No self-capture: a step whose target square holds a piece of the
/// moving player's own color is rejected, for every piece and position.
pub proof fn lemma_own_color_target_rejected(g: GameView, step: Step, player: Color)
    requires
        g.cell(step.target.spec_row(), step.target.spec_column()).figure matches Some(
            target_figure,
        ) && target_figure.identity.spec_color() == player,
    ensures
        !g.step_allowed(step, player),
{
}

/// Path blocking: a step that traverses an occupied intermediate square
/// on its straight line is rejected, even when the movement-difference
/// table accepts the two cell numbers.
pub proof fn lemma_blocked_way_rejected(g: GameView, step: Step, player: Color)
    requires
        g.way_blocked(
            step.start.spec_row(),
            step.start.spec_column(),
            step.target.spec_row(),
            step.target.spec_column(),
        ),
    ensures
        !g.step_allowed(step, player),
{
}

/// A checking move is retained: when a move attempt ends in check, the
/// state left behind carries the applied move's board, the turn has
/// passed, and the checked side is recorded; nothing is rolled back.
pub proof fn lemma_check_move_retained(g: GameView, step: Step, player: Color, color: Color)
    requires
        g.move_outcome(step, player) == MoveOutcome::Check(color),
    ensures
        g.state_after_outcome(step, g.move_outcome(step, player)).board == g.after_move(
            step,
        ).board,
        g.state_after_outcome(step, g.move_outcome(step, player)).current_player
            == g.current_player.spec_other(),
        g.state_after_outcome(step, g.move_outcome(step, player)).player_in_check == Some(color),
{
}

/// A rolled-back move leaves no trace: when a move attempt ends in a
/// rollback, the state left behind is exactly the pre-move state, and a
/// subsequent rendering of the board is identical to a pre-move
/// rendering.
pub proof fn lemma_rollback_restores_state(g: GameView, step: Step, player: Color)
    requires
        g.move_outcome(step, player) matches MoveOutcome::RolledBack(_),
    ensures
        g.state_after_outcome(step, g.move_outcome(step, player)) == g,
        g.state_after_outcome(step, g.move_outcome(step, player)).rendered_board()
            == g.rendered_board(),
{
}

/// A queen of the side to move, outside the check gate, may always travel
/// to a square that does not hold an own piece as long as the way there
/// is not blocked: the queen's movement table is unconstrained, so an
/// empty diagonal, file, rank, or any unobstructed walk of whatever
/// distance is accepted.
pub proof fn lemma_queen_clear_way_allowed(g: GameView, step: Step, player: Color)
    requires
        player == g.current_player,
        g.player_in_check != Some(player),
        g.cell(step.start.spec_row(), step.start.spec_column()).figure matches Some(figure)
            && figure.identity == FigureType::Queen(player),
        match g.cell(step.target.spec_row(), step.target.spec_column()).figure {
            Some(target_figure) => target_figure.identity.spec_color() != player,
            None => true,
        },
        !g.way_blocked(
            step.start.spec_row(),
            step.start.spec_column(),
            step.target.spec_row(),
            step.target.spec_column(),
        ),
    ensures
        g.step_allowed(step, player),
{
}

} // verus!
