//! Leaf value types of the chess engine: colors, piece kinds, square
//! coordinates, and the per-piece movement-difference tables.
//!
//! Movement legality is decided purely from the difference between the
//! `number` fields of the start and target cells (see [`crate::chess`] for
//! how those numbers are assigned), against fixed constraint sets:
//! knights jump, bishops stay on the diagonal set, rooks take the
//! complement of the diagonal set, kings move one step, queens are
//! unconstrained, and pawns move by signed differences gated by their
//! first-turn flag.

use vstd::prelude::*;
use vstd::string::StrSliceExecFns;

verus! {

/// One of the two sides. Besides identifying a piece's owner it also marks
/// whose turn it is and which side is recorded as standing in check.
#[derive(Clone, Copy, Debug, PartialEq, Eq, Structural)]
pub enum Color {
    White,
    Black,
}

impl Color {
    /// The opposing side.
    pub open spec fn spec_other(self) -> Color {
        match self {
            Color::White => Color::Black,
            Color::Black => Color::White,
        }
    }

    /// Flips the side.
    pub fn other(self) -> (r: Color)
        ensures
            r == self.spec_other(),
    {
        match self {
            Color::White => Color::Black,
            Color::Black => Color::White,
        }
    }

    /// The text form of the side, as it appears in the engine's replies.
    pub open spec fn spec_name(self) -> Seq<char> {
        match self {
            Color::White => "White"@,
            Color::Black => "Black"@,
        }
    }

    /// Returns the side's name; the replacement for a `Display` rendering.
    pub fn name(self) -> (r: &'static str)
        ensures
            r@ == self.spec_name(),
    {
        match self {
            Color::White => "White",
            Color::Black => "Black",
        }
    }
}

/// A piece kind paired with the color that owns it.
#[derive(Clone, Copy, Debug, PartialEq, Eq, Structural)]
pub enum FigureType {
    Knight(Color),
    Bishop(Color),
    Rook(Color),
    Pawn(Color),
    Queen(Color),
    King(Color),
}

impl FigureType {
    /// The color carried by any of the variants.
    pub open spec fn spec_color(self) -> Color {
        match self {
            FigureType::Knight(color_value) => color_value,
            FigureType::Bishop(color_value) => color_value,
            FigureType::Rook(color_value) => color_value,
            FigureType::Pawn(color_value) => color_value,
            FigureType::Queen(color_value) => color_value,
            FigureType::King(color_value) => color_value,
        }
    }

    /// Extracts the owning color of the piece.
    pub fn unwrap_color(self) -> (r: Color)
        ensures
            r == self.spec_color(),
    {
        match self {
            FigureType::Knight(color_value) => color_value,
            FigureType::Bishop(color_value) => color_value,
            FigureType::Rook(color_value) => color_value,
            FigureType::Pawn(color_value) => color_value,
            FigureType::Queen(color_value) => color_value,
            FigureType::King(color_value) => color_value,
        }
    }
}

/// Identifies one of the 64 squares: the variant letter codes the row
/// (`A` is row 0, `H` is row 7) and the payload is a column offset that is
/// clamped into `0..8` whenever a two-dimensional index is extracted.
#[derive(Clone, Copy, Debug, PartialEq, Eq, Structural)]
pub enum Coord {
    A(i8),
    B(i8),
    C(i8),
    D(i8),
    E(i8),
    F(i8),
    G(i8),
    H(i8),
}

/// Reason codes for the outcomes of a move attempt.
#[derive(Clone, Copy, Debug, PartialEq, Eq, Structural)]
pub enum Reasons {
    Check,
    CheckMate,
    StaleMate,
    StepViolation,
    WrongPlayer,
    EmptyField,
}

/// A proposed move: a start square and a target square. Built per move
/// attempt and discarded afterwards.
#[derive(Clone, Debug)]
pub struct Step {
    pub start: Coord,
    pub target: Coord,
}

/// A placed piece: its identity plus a flag that is `true` until the piece
/// moves for the first time. The flag exists solely to gate the pawn's
/// double-step rule and is never reset.
#[derive(Clone, Copy, Debug, PartialEq, Eq, Structural)]
pub struct ChessMan {
    pub identity: FigureType,
    pub is_first_turn: bool,
}

/// One board square: an optional occupant and the derived scalar `number`
/// that the movement-difference tables are evaluated against.
#[derive(Clone, Copy, Debug, PartialEq, Eq)]
pub struct Cell {
    pub figure: Option<ChessMan>,
    pub number: i8,
}

/// Clamps a column offset into the board range `0..8`.
pub open spec fn spec_clamp_column(col: int) -> int {
    if col < 0 {
        0
    } else if col > 7 {
        7
    } else {
        col
    }
}

impl Coord {
    /// The row index coded by the variant letter.
    pub open spec fn spec_row(self) -> int {
        match self {
            Coord::A(_) => 0,
            Coord::B(_) => 1,
            Coord::C(_) => 2,
            Coord::D(_) => 3,
            Coord::E(_) => 4,
            Coord::F(_) => 5,
            Coord::G(_) => 6,
            Coord::H(_) => 7,
        }
    }

    /// The raw column payload, before clamping.
    pub open spec fn spec_raw_column(self) -> int {
        match self {
            Coord::A(col) => col as int,
            Coord::B(col) => col as int,
            Coord::C(col) => col as int,
            Coord::D(col) => col as int,
            Coord::E(col) => col as int,
            Coord::F(col) => col as int,
            Coord::G(col) => col as int,
            Coord::H(col) => col as int,
        }
    }

    /// The column index after clamping into the board range.
    pub open spec fn spec_column(self) -> int {
        spec_clamp_column(self.spec_raw_column())
    }

    /// Row letter of the square, the display form of a coordinate. The
    /// column is intentionally not part of this rendering.
    pub open spec fn spec_row_letter(self) -> char {
        match self {
            Coord::A(_) => 'A',
            Coord::B(_) => 'B',
            Coord::C(_) => 'C',
            Coord::D(_) => 'D',
            Coord::E(_) => 'E',
            Coord::F(_) => 'F',
            Coord::G(_) => 'G',
            Coord::H(_) => 'H',
        }
    }

    /// Returns the row letter of the square.
    pub fn row_letter(self) -> (r: char)
        ensures
            r == self.spec_row_letter(),
    {
        match self {
            Coord::A(_) => 'A',
            Coord::B(_) => 'B',
            Coord::C(_) => 'C',
            Coord::D(_) => 'D',
            Coord::E(_) => 'E',
            Coord::F(_) => 'F',
            Coord::G(_) => 'G',
            Coord::H(_) => 'H',
        }
    }

    /// Clamps an out-of-range column offset to the nearest valid index.
    fn normalize_column_interval(self, col: i8) -> (r: usize)
        ensures
            r == spec_clamp_column(col as int),
    {
        if col < 0 {
            return 0;
        }
        if col > 7 {
            return 7;
        }
        col as usize
    }

    /// Projects the coordinate to a `(row, column)` pair, both in `0..8`.
    pub fn extract_2d_coordinate(self) -> (r: (usize, usize))
        ensures
            r.0 == self.spec_row(),
            r.1 == self.spec_column(),
            r.0 < 8,
            r.1 < 8,
    {
        match self {
            Coord::A(col) => (0, self.normalize_column_interval(col)),
            Coord::B(col) => (1, self.normalize_column_interval(col)),
            Coord::C(col) => (2, self.normalize_column_interval(col)),
            Coord::D(col) => (3, self.normalize_column_interval(col)),
            Coord::E(col) => (4, self.normalize_column_interval(col)),
            Coord::F(col) => (5, self.normalize_column_interval(col)),
            Coord::G(col) => (6, self.normalize_column_interval(col)),
            Coord::H(col) => (7, self.normalize_column_interval(col)),
        }
    }

    /// The coordinate denoting a `(row, column)` pair: rows above the board
    /// collapse to the last row and columns are clamped into range, so that
    /// in-range pairs convert losslessly.
    pub open spec fn spec_from_row_column(row: int, col: int) -> Coord {
        let column = spec_clamp_column(col) as i8;
        if row <= 0 {
            Coord::A(column)
        } else if row == 1 {
            Coord::B(column)
        } else if row == 2 {
            Coord::C(column)
        } else if row == 3 {
            Coord::D(column)
        } else if row == 4 {
            Coord::E(column)
        } else if row == 5 {
            Coord::F(column)
        } else if row == 6 {
            Coord::G(column)
        } else {
            Coord::H(column)
        }
    }

    /// Converts a `(row, column)` index pair back into a coordinate.
    pub fn extract_coordinate(row: usize, col: usize) -> (r: Coord)
        ensures
            r == Self::spec_from_row_column(row as int, col as int),
    {
        let column: i8 = if col > 7 {
            7
        } else {
            col as i8
        };
        match row {
            0 => Coord::A(column),
            1 => Coord::B(column),
            2 => Coord::C(column),
            3 => Coord::D(column),
            4 => Coord::E(column),
            5 => Coord::F(column),
            6 => Coord::G(column),
            _ => Coord::H(column),
        }
    }

    /// The fixed coordinate associated with a diagonal index.
    pub open spec fn spec_value_by_index(idx: u8) -> Coord {
        if idx == 0 {
            Coord::A(0)
        } else if idx == 1 {
            Coord::B(1)
        } else if idx == 2 {
            Coord::C(2)
        } else if idx == 3 {
            Coord::D(3)
        } else if idx == 4 {
            Coord::E(4)
        } else if idx == 5 {
            Coord::F(5)
        } else if idx == 6 {
            Coord::G(6)
        } else {
            Coord::H(7)
        }
    }

    /// Looks up the diagonal square for an index; indices past the board
    /// collapse to the last square.
    pub fn get_value_by_index(&self, idx: u8) -> (r: Coord)
        ensures
            r == Self::spec_value_by_index(idx),
    {
        match idx {
            0 => Coord::A(0),
            1 => Coord::B(1),
            2 => Coord::C(2),
            3 => Coord::D(3),
            4 => Coord::E(4),
            5 => Coord::F(5),
            6 => Coord::G(6),
            _ => Coord::H(7),
        }
    }
}

/// Absolute value of a movement difference.
pub open spec fn spec_abs(d: int) -> int {
    if d < 0 {
        -d
    } else {
        d
    }
}

/// The absolute differences a bishop may travel: exactly the diagonal
/// moves under the board's cell numbering.
pub open spec fn is_diagonal_difference(d: int) -> bool {
    ||| d == 7
    ||| d == 9
    ||| d == 14
    ||| d == 18
    ||| d == 21
    ||| d == 27
    ||| d == 28
    ||| d == 35
    ||| d == 36
    ||| d == 42
    ||| d == 45
    ||| d == 49
    ||| d == 54
    ||| d == 63
}

/// The absolute differences a king may travel: one step in any direction.
pub open spec fn is_one_step_difference(d: int) -> bool {
    d == 1 || d == 7 || d == 8 || d == 9
}

/// The absolute differences a knight may jump.
pub open spec fn is_jump_difference(d: int) -> bool {
    d == 10 || d == 15 || d == 17
}

/// The signed differences a white pawn may travel outside its first turn.
pub open spec fn is_white_pawn_difference(d: int) -> bool {
    d == -7 || d == -8 || d == -9
}

/// The signed differences a black pawn may travel outside its first turn.
pub open spec fn is_black_pawn_difference(d: int) -> bool {
    d == 7 || d == 8 || d == 9
}

impl ChessMan {
    /// The movement-difference table of the piece, evaluated on the
    /// `number` fields of the start and target cells. Pawns use the signed
    /// difference and, on their first turn, accept only the double-step
    /// value; every other piece uses the absolute difference.
    pub open spec fn spec_step_allowed(self, start: int, target: int) -> bool {
        let difference = start - target;
        let difference_abs = spec_abs(difference);
        match self.identity {
            FigureType::Knight(_) => is_jump_difference(difference_abs),
            FigureType::Bishop(_) => is_diagonal_difference(difference_abs),
            FigureType::King(_) => is_one_step_difference(difference_abs),
            FigureType::Queen(_) => true,
            FigureType::Pawn(_) => match self.identity.spec_color() {
                Color::White => if self.is_first_turn {
                    difference == -16
                } else {
                    is_white_pawn_difference(difference)
                },
                Color::Black => if self.is_first_turn {
                    difference == 16
                } else {
                    is_black_pawn_difference(difference)
                },
            },
            FigureType::Rook(_) => !is_diagonal_difference(difference_abs),
        }
    }

    /// Decides whether this piece's movement table permits travelling from
    /// a cell numbered `start_field_num` to one numbered
    /// `target_field_num`.
    pub fn is_step_allowed(&self, start_field_num: i8, target_field_num: i8) -> (r: bool)
        requires
            -127 <= start_field_num - target_field_num <= 127,
        ensures
            r == self.spec_step_allowed(start_field_num as int, target_field_num as int),
    {
        let difference: i8 = start_field_num - target_field_num;
        let difference_abs: i8 = if difference < 0 {
            -difference
        } else {
            difference
        };
        match self.identity {
            FigureType::Knight(_) => {
                difference_abs == 10 || difference_abs == 15 || difference_abs == 17
            },
            FigureType::Bishop(_) => is_diagonal_difference_value(difference_abs),
            FigureType::King(_) => {
                difference_abs == 1 || difference_abs == 7 || difference_abs == 8
                    || difference_abs == 9
            },
            FigureType::Queen(_) => true,
            FigureType::Pawn(_) => {
                match self.identity.unwrap_color() {
                    Color::White => {
                        if self.is_first_turn {
                            difference == -16
                        } else {
                            difference == -7 || difference == -8 || difference == -9
                        }
                    },
                    Color::Black => {
                        if self.is_first_turn {
                            difference == 16
                        } else {
                            difference == 7 || difference == 8 || difference == 9
                        }
                    },
                }
            },
            FigureType::Rook(_) => !is_diagonal_difference_value(difference_abs),
        }
    }
}

/// Tests a concrete difference against the diagonal constraint set.
fn is_diagonal_difference_value(d: i8) -> (r: bool)
    ensures
        r == is_diagonal_difference(d as int),
{
    d == 7 || d == 9 || d == 14 || d == 18 || d == 21 || d == 27 || d == 28 || d == 35 || d == 36
        || d == 42 || d == 45 || d == 49 || d == 54 || d == 63
}

/// Round trip of the two coordinate conversions: an in-range
/// `(row, column)` pair is reproduced exactly by converting it to a
/// [`Coord`] and projecting it back, so the conversion is lossless on the
/// board.
pub proof fn lemma_coordinate_round_trip(row: int, col: int)
    requires
        0 <= row < 8,
        0 <= col < 8,
    ensures
        Coord::spec_from_row_column(row, col).spec_row() == row,
        Coord::spec_from_row_column(row, col).spec_column() == col,
{
}

/// Whether the character is a decimal digit.
pub open spec fn is_digit_char(c: char) -> bool {
    '0' as int <= c as int && c as int <= '9' as int
}

/// Numeric value of a decimal digit character.
pub open spec fn spec_digit_value(c: char) -> int {
    c as int - '0' as int
}

/// Whether every character of the sequence is a decimal digit.
pub open spec fn all_digit_chars(s: Seq<char>) -> bool {
    forall|i: int| 0 <= i < s.len() ==> is_digit_char(#[trigger] s[i])
}

/// The decimal value of a digit sequence.
pub open spec fn spec_digits_value(s: Seq<char>) -> int
    decreases s.len(),
{
    if s.len() == 0 {
        0
    } else {
        spec_digits_value(s.drop_last()) * 10 + spec_digit_value(s.last())
    }
}

/// The digit portion of a signed-number text: everything after an
/// optional leading sign.
pub open spec fn spec_signed_digits(s: Seq<char>) -> Seq<char> {
    if s.len() > 0 && (s[0] == '-' || s[0] == '+') {
        s.skip(1)
    } else {
        s
    }
}

/// The value of a signed-number text.
pub open spec fn spec_signed_value(s: Seq<char>) -> int {
    if s.len() > 0 && s[0] == '-' {
        -spec_digits_value(s.skip(1))
    } else {
        spec_digits_value(spec_signed_digits(s))
    }
}

/// Whether the text is an optional sign followed by at least one decimal
/// digit, with a value that fits into a signed byte. Exactly these texts
/// parse as a column offset.
pub open spec fn valid_signed_byte_text(s: Seq<char>) -> bool {
    &&& spec_signed_digits(s).len() > 0
    &&& all_digit_chars(spec_signed_digits(s))
    &&& -128 <= spec_signed_value(s) <= 127
}

/// Whether the text is a well-formed square identifier: a leading row
/// letter followed by a column offset text. Row letters other than
/// `A`..`H` are tolerated and collapse to the last row.
pub open spec fn valid_square_text(s: Seq<char>) -> bool {
    s.len() >= 2 && valid_signed_byte_text(s.skip(1))
}

/// The coordinate denoted by a well-formed square identifier.
pub open spec fn spec_parse_square(s: Seq<char>) -> Coord {
    let column = spec_signed_value(s.skip(1)) as i8;
    if s[0] == 'A' {
        Coord::A(column)
    } else if s[0] == 'B' {
        Coord::B(column)
    } else if s[0] == 'C' {
        Coord::C(column)
    } else if s[0] == 'D' {
        Coord::D(column)
    } else if s[0] == 'E' {
        Coord::E(column)
    } else if s[0] == 'F' {
        Coord::F(column)
    } else if s[0] == 'G' {
        Coord::G(column)
    } else {
        Coord::H(column)
    }
}

/// A digit sequence has a non-negative value.
proof fn lemma_digits_value_nonneg(s: Seq<char>)
    requires
        all_digit_chars(s),
    ensures
        spec_digits_value(s) >= 0,
    decreases s.len(),
{
    if s.len() > 0 {
        assert(all_digit_chars(s.drop_last())) by {
            assert forall|i: int| 0 <= i < s.drop_last().len() implies is_digit_char(
                #[trigger] s.drop_last()[i],
            ) by {
                assert(s.drop_last()[i] == s[i]);
            }
        }
        lemma_digits_value_nonneg(s.drop_last());
    }
}

/// The value of a prefix of a digit sequence never exceeds the value of
/// the whole sequence.
proof fn lemma_digits_value_prefix_le(s: Seq<char>, k: int)
    requires
        all_digit_chars(s),
        0 <= k <= s.len(),
    ensures
        0 <= spec_digits_value(s.take(k)) <= spec_digits_value(s),
    decreases s.len() - k,
{
    assert(all_digit_chars(s.take(k))) by {
        assert forall|i: int| 0 <= i < s.take(k).len() implies is_digit_char(
            #[trigger] s.take(k)[i],
        ) by {
            assert(s.take(k)[i] == s[i]);
        }
    }
    lemma_digits_value_nonneg(s.take(k));
    if k == s.len() {
        assert(s.take(k) =~= s);
    } else {
        lemma_digits_value_prefix_le(s, k + 1);
        assert(s.take(k + 1).drop_last() =~= s.take(k));
        assert(s.take(k + 1).last() == s[k]);
        assert(spec_digits_value(s.take(k + 1)) == spec_digits_value(s.take(k)) * 10
            + spec_digit_value(s[k]));
    }
}

impl Coord {
    /// Parses a square identifier such as `A1` or `C-3`: the first
    /// character picks the row (unknown letters collapse to row `H`) and
    /// the remainder is the signed column offset.
    pub fn parse(value: &str) -> (r: Coord)
        requires
            valid_square_text(value@),
        ensures
            r == spec_parse_square(value@),
    {
        let n = value.unicode_len();
        let letter = value.get_char(0);
        let ghost tail = value@.skip(1);
        let first_tail = value.get_char(1);
        let mut idx: usize = 1;
        let mut negative: bool = false;
        if first_tail == '-' {
            negative = true;
            idx = 2;
        } else if first_tail == '+' {
            idx = 2;
        }
        let ghost digits = spec_signed_digits(tail);
        proof {
            assert(digits =~= value@.skip(idx as int));
            lemma_digits_value_prefix_le(digits, digits.len() as int);
            assert(spec_digits_value(digits) <= 128);
        }
        let mut acc: i32 = 0;
        let mut i: usize = idx;
        while i < n
            invariant
                idx <= i <= n,
                n == value@.len(),
                valid_square_text(value@),
                digits == spec_signed_digits(value@.skip(1)),
                digits =~= value@.skip(idx as int),
                idx <= 2,
                acc == spec_digits_value(digits.take(i - idx)),
                spec_digits_value(digits) <= 128,
                0 <= acc <= 128,
            decreases n - i,
        {
            let c = value.get_char(i);
            proof {
                assert(digits[i - idx] == value@[i as int]);
                assert(is_digit_char(value@[i as int]));
                assert(digits.take(i + 1 - idx).drop_last() =~= digits.take(i - idx));
                assert(digits.take(i + 1 - idx).last() == digits[i - idx]);
                lemma_digits_value_prefix_le(digits, i + 1 - idx);
            }
            let d: i32 = (c as u32) as i32 - 48;
            acc = acc * 10 + d;
            i = i + 1;
        }
        proof {
            assert(digits.take(n - idx) =~= digits);
        }
        let column: i8 = if negative {
            (0 - acc) as i8
        } else {
            acc as i8
        };
        match letter {
            'A' => Coord::A(column),
            'B' => Coord::B(column),
            'C' => Coord::C(column),
            'D' => Coord::D(column),
            'E' => Coord::E(column),
            'F' => Coord::F(column),
            'G' => Coord::G(column),
            _ => Coord::H(column),
        }
    }
}

} // verus!
