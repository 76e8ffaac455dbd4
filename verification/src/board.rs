//! Coordinates and the 8×8 board.

use vstd::prelude::*;
use vstd::string::{StrSliceExecFns, StringExecFns};
use crate::Side;
use crate::error::Error;
use crate::piece::{Piece, Rank};

verus! {

/// A square, by row and column, both counted from 0.
///
/// A coordinate is on the board when both are at most 7; `new` does not
/// check this, `new_safe` and `from_human` do.
#[derive(Clone, Copy, Debug, PartialEq, Eq, Structural)]
pub struct Coordinate {
    pub row: usize,
    pub column: usize,
}

/// The board: eight rows of eight cells, row 0 being White's back row.
#[derive(Clone, Copy, Debug, PartialEq, Eq)]
pub struct Board {
    pub data: [[Option<Piece>; 8]; 8],
}

/// The place of the square `c` in the row-major list of the 64 cells.
pub open spec fn cell_index(c: Coordinate) -> int {
    8 * c.row + c.column
}

/// The square whose place in the row-major list of cells is `i`.
pub open spec fn square(i: int) -> Coordinate {
    Coordinate { row: (i / 8) as usize, column: (i % 8) as usize }
}

/// The cells with the cell at `c` overwritten; the cells themselves where `c`
/// lies off the board.
pub open spec fn put(cells: Seq<Option<Piece>>, c: Coordinate, piece: Option<Piece>) -> Seq<
    Option<Piece>,
> {
    if c.in_bounds() {
        cells.update(cell_index(c), piece)
    } else {
        cells
    }
}

/// The letter that names column `column`.
pub open spec fn file_letter(column: int) -> char {
    if column == 0 {
        'a'
    } else if column == 1 {
        'b'
    } else if column == 2 {
        'c'
    } else if column == 3 {
        'd'
    } else if column == 4 {
        'e'
    } else if column == 5 {
        'f'
    } else if column == 6 {
        'g'
    } else {
        'h'
    }
}

/// The digit that names row `row`.
pub open spec fn rank_digit(row: int) -> char {
    if row == 0 {
        '1'
    } else if row == 1 {
        '2'
    } else if row == 2 {
        '3'
    } else if row == 3 {
        '4'
    } else if row == 4 {
        '5'
    } else if row == 5 {
        '6'
    } else if row == 6 {
        '7'
    } else {
        '8'
    }
}

/// The two characters that name the square `c`: file letter, then rank digit.
pub open spec fn notation(c: Coordinate) -> Seq<char> {
    seq![file_letter(c.column as int), rank_digit(c.row as int)]
}

/// The column that the letter `file` names, if it names one.
pub open spec fn column_named(file: char) -> Option<usize> {
    if file == 'a' {
        Some(0usize)
    } else if file == 'b' {
        Some(1usize)
    } else if file == 'c' {
        Some(2usize)
    } else if file == 'd' {
        Some(3usize)
    } else if file == 'e' {
        Some(4usize)
    } else if file == 'f' {
        Some(5usize)
    } else if file == 'g' {
        Some(6usize)
    } else if file == 'h' {
        Some(7usize)
    } else {
        None
    }
}

/// The row that the digit `digit` names, if it names one.
pub open spec fn row_named(digit: char) -> Option<usize> {
    if digit == '1' {
        Some(0usize)
    } else if digit == '2' {
        Some(1usize)
    } else if digit == '3' {
        Some(2usize)
    } else if digit == '4' {
        Some(3usize)
    } else if digit == '5' {
        Some(4usize)
    } else if digit == '6' {
        Some(5usize)
    } else if digit == '7' {
        Some(6usize)
    } else if digit == '8' {
        Some(7usize)
    } else {
        None
    }
}

/// The square that `text` names: a file letter `a` to `h`, then a rank digit
/// `1` to `8`, and nothing else.
pub open spec fn square_named(text: Seq<char>) -> Result<Coordinate, Error> {
    if text.len() == 2 && column_named(text[0]) is Some && row_named(text[1]) is Some {
        Ok(Coordinate { row: row_named(text[1])->0, column: column_named(text[0])->0 })
    } else {
        Err(Error::InvalidCoordinate)
    }
}

impl Coordinate {
    /// Whether the coordinate lies on the board.
    pub open spec fn in_bounds(self) -> bool {
        self.row <= 7 && self.column <= 7
    }

    /// The square at the given row and column, whether or not it lies on the
    /// board.
    pub fn new(row: usize, column: usize) -> (c: Coordinate)
        ensures
            c == (Coordinate { row, column }),
    {
        Coordinate { row, column }
    }

    /// The square at the given row and column, if it lies on the board.
    pub fn new_safe(row: usize, column: usize) -> (res: Result<Coordinate, Error>)
        ensures
            row <= 7 && column <= 7 ==> res == Ok::<Coordinate, Error>(Coordinate { row, column }),
            !(row <= 7 && column <= 7) ==> res == Err::<Coordinate, Error>(
                Error::InvalidCoordinate,
            ),
    {
        if row <= 7 && column <= 7 {
            Ok(Coordinate::new(row, column))
        } else {
            Err(Error::InvalidCoordinate)
        }
    }

    /// Reads a square from its name, such as `e4`.
    pub fn from_human(string: String) -> (res: Result<Coordinate, Error>)
        ensures
            res == square_named(string@),
    {
        let text = string.as_str();
        if text.unicode_len() != 2 {
            return Err(Error::InvalidCoordinate);
        }
        let file = text.get_char(0);
        let digit = text.get_char(1);
        let column: usize = if file == 'a' {
            0
        } else if file == 'b' {
            1
        } else if file == 'c' {
            2
        } else if file == 'd' {
            3
        } else if file == 'e' {
            4
        } else if file == 'f' {
            5
        } else if file == 'g' {
            6
        } else if file == 'h' {
            7
        } else {
            return Err(Error::InvalidCoordinate);
        };
        let row: usize = if digit == '1' {
            0
        } else if digit == '2' {
            1
        } else if digit == '3' {
            2
        } else if digit == '4' {
            3
        } else if digit == '5' {
            4
        } else if digit == '6' {
            5
        } else if digit == '7' {
            6
        } else if digit == '8' {
            7
        } else {
            return Err(Error::InvalidCoordinate);
        };
        Ok(Coordinate { row, column })
    }

    /// Whether the square lies on the board.
    pub fn check(&self) -> (res: Result<(), Error>)
        ensures
            self.in_bounds() ==> res == Ok::<(), Error>(()),
            !self.in_bounds() ==> res == Err::<(), Error>(Error::InvalidCoordinate),
    {
        if self.row <= 7 && self.column <= 7 {
            Ok(())
        } else {
            Err(Error::InvalidCoordinate)
        }
    }

    /// The row, counted from 0.
    pub fn row(&self) -> (r: usize)
        ensures
            r == self.row,
    {
        self.row
    }

    /// The column, counted from 0.
    pub fn column(&self) -> (c: usize)
        ensures
            c == self.column,
    {
        self.column
    }

    /// Writes the square's name, such as `e4`.
    pub fn to_human(&self) -> (text: String)
        requires
            self.in_bounds(),
        ensures
            text@ == notation(*self),
    {
        let col = if self.column == 0 {
            proof { reveal_strlit("a"); }
            "a"
        } else if self.column == 1 {
            proof { reveal_strlit("b"); }
            "b"
        } else if self.column == 2 {
            proof { reveal_strlit("c"); }
            "c"
        } else if self.column == 3 {
            proof { reveal_strlit("d"); }
            "d"
        } else if self.column == 4 {
            proof { reveal_strlit("e"); }
            "e"
        } else if self.column == 5 {
            proof { reveal_strlit("f"); }
            "f"
        } else if self.column == 6 {
            proof { reveal_strlit("g"); }
            "g"
        } else {
            proof { reveal_strlit("h"); }
            "h"
        };
        let row = if self.row == 0 {
            proof { reveal_strlit("1"); }
            "1"
        } else if self.row == 1 {
            proof { reveal_strlit("2"); }
            "2"
        } else if self.row == 2 {
            proof { reveal_strlit("3"); }
            "3"
        } else if self.row == 3 {
            proof { reveal_strlit("4"); }
            "4"
        } else if self.row == 4 {
            proof { reveal_strlit("5"); }
            "5"
        } else if self.row == 5 {
            proof { reveal_strlit("6"); }
            "6"
        } else if self.row == 6 {
            proof { reveal_strlit("7"); }
            "7"
        } else {
            proof { reveal_strlit("8"); }
            "8"
        };
        let text = String::from_str(col).concat(row);
        text
    }
}

/// Reading back the name of a square of the board gives that square, and
/// every text that names a square is the name of the square it names.
pub proof fn lemma_notation_round_trip(c: Coordinate, text: Seq<char>)
    ensures
        c.in_bounds() ==> square_named(notation(c)) == Ok::<Coordinate, Error>(c),
        square_named(text) is Ok ==> square_named(text)->Ok_0.in_bounds() && notation(
            square_named(text)->Ok_0,
        ) == text,
{
}

impl View for Board {
    type V = Seq<Option<Piece>>;

    /// The 64 cells, row by row from row 0.
    open spec fn view(&self) -> Seq<Option<Piece>> {
        Seq::new(64, |i: int| self.data[i / 8][i % 8])
    }
}

/// The rank on column `column` of a back row at the start of a game.
pub open spec fn back_row_rank(column: int) -> Rank {
    if column == 0 || column == 7 {
        Rank::Rook
    } else if column == 1 || column == 6 {
        Rank::Knight
    } else if column == 2 || column == 5 {
        Rank::Bishop
    } else if column == 3 {
        Rank::Queen
    } else {
        Rank::King
    }
}

/// What cell `i` holds at the start of a game.
pub open spec fn starting_cell(i: int) -> Option<Piece> {
    if i / 8 == 0 {
        Some(Piece::of(Side::White, back_row_rank(i % 8)))
    } else if i / 8 == 1 {
        Some(Piece::of(Side::White, Rank::Pawn))
    } else if i / 8 == 6 {
        Some(Piece::of(Side::Black, Rank::Pawn))
    } else if i / 8 == 7 {
        Some(Piece::of(Side::Black, back_row_rank(i % 8)))
    } else {
        None
    }
}

/// The cells at the start of a game.
pub open spec fn starting_cells() -> Seq<Option<Piece>> {
    Seq::new(64, |i: int| starting_cell(i))
}

/// The occupied cells among the first `n`, in row-major order, each with its
/// square.
pub open spec fn occupied_below(cells: Seq<Option<Piece>>, n: int) -> Seq<(Coordinate, Piece)>
    decreases n,
{
    if n <= 0 {
        Seq::empty()
    } else {
        let before = occupied_below(cells, n - 1);
        match cells[n - 1] {
            Some(piece) => before.push((square(n - 1), piece)),
            None => before,
        }
    }
}

/// Every occupied cell with its square, in row-major order.
pub open spec fn occupied(cells: Seq<Option<Piece>>) -> Seq<(Coordinate, Piece)> {
    occupied_below(cells, 64)
}

/// The squares among `entries` that hold `target`, in order.
pub open spec fn squares_holding(entries: Seq<(Coordinate, Piece)>, target: Piece) -> Seq<
    Coordinate,
>
    decreases entries.len(),
{
    if entries.len() == 0 {
        Seq::empty()
    } else {
        let before = squares_holding(entries.drop_last(), target);
        if entries.last().1 == target {
            before.push(entries.last().0)
        } else {
            before
        }
    }
}

/// The list of occupied cells is sound and complete: each entry names a
/// square of the board and the piece on it, and every piece on the board has
/// its entry.
pub proof fn lemma_occupied(cells: Seq<Option<Piece>>, n: int)
    requires
        0 <= n <= 64,
        cells.len() == 64,
    ensures
        occupied_below(cells, n).len() <= n,
        forall|j: int|
            0 <= j < occupied_below(cells, n).len() ==> {
                let entry = #[trigger] occupied_below(cells, n)[j];
                &&& entry.0.in_bounds()
                &&& cell_index(entry.0) < n
                &&& cells[cell_index(entry.0)] == Some(entry.1)
            },
        forall|c: Coordinate|
            c.in_bounds() && cell_index(c) < n && (#[trigger] cells[cell_index(c)]) is Some
                ==> exists|j: int|
                0 <= j < occupied_below(cells, n).len() && #[trigger] occupied_below(cells, n)[j]
                    == (c, cells[cell_index(c)]->0),
    decreases n,
{
    if n > 0 {
        lemma_occupied(cells, n - 1);
        let before = occupied_below(cells, n - 1);
        let now = occupied_below(cells, n);
        assert forall|c: Coordinate|
            c.in_bounds() && cell_index(c) < n && (#[trigger] cells[cell_index(c)]) is Some
            implies exists|j: int|
            0 <= j < now.len() && #[trigger] now[j] == (c, cells[cell_index(c)]->0) by {
            if cell_index(c) < n - 1 {
                let j = choose|j: int|
                    0 <= j < before.len() && #[trigger] before[j] == (c, cells[cell_index(c)]->0);
                assert(now[j] == before[j]);
            } else {
                assert(now[now.len() - 1] == (c, cells[cell_index(c)]->0));
            }
        }
    }
}

/// `squares_holding` finds each entry that holds the piece, and nothing
/// else: every square it returns belongs to an entry with that piece.
pub proof fn lemma_squares_holding(entries: Seq<(Coordinate, Piece)>, target: Piece)
    ensures
        squares_holding(entries, target).len() <= entries.len(),
        forall|j: int|
            0 <= j < entries.len() && (#[trigger] entries[j]).1 == target ==> squares_holding(
                entries,
                target,
            ).len() > 0,
        forall|k: int|
            0 <= k < squares_holding(entries, target).len() ==> exists|j: int|
                0 <= j < entries.len() && #[trigger] entries[j] == (
                    #[trigger] squares_holding(entries, target)[k],
                    target,
                ),
    decreases entries.len(),
{
    if entries.len() > 0 {
        let shorter = entries.drop_last();
        lemma_squares_holding(shorter, target);
        let found = squares_holding(entries, target);
        assert forall|k: int| 0 <= k < found.len() implies exists|j: int|
            0 <= j < entries.len() && #[trigger] entries[j] == (#[trigger] found[k], target) by {}
        assert forall|j: int| 0 <= j < entries.len() && (#[trigger] entries[j]).1 == target implies found.len()
            > 0 by {
            if j < shorter.len() {
                assert(shorter[j] == entries[j]);
            }
        }
    }
}

impl Board {
    /// What the cell at `c` holds.
    pub open spec fn at(self, c: Coordinate) -> Option<Piece> {
        self@[cell_index(c)]
    }

    /// The board at the start of a game.
    pub fn default() -> (board: Board)
        ensures
            board@ == starting_cells(),
    {
        let board = Board {
            data: [
                [
                    Some(Piece::pack(Side::White, Rank::Rook)),
                    Some(Piece::pack(Side::White, Rank::Knight)),
                    Some(Piece::pack(Side::White, Rank::Bishop)),
                    Some(Piece::pack(Side::White, Rank::Queen)),
                    Some(Piece::pack(Side::White, Rank::King)),
                    Some(Piece::pack(Side::White, Rank::Bishop)),
                    Some(Piece::pack(Side::White, Rank::Knight)),
                    Some(Piece::pack(Side::White, Rank::Rook)),
                ],
                [
                    Some(Piece::pack(Side::White, Rank::Pawn)),
                    Some(Piece::pack(Side::White, Rank::Pawn)),
                    Some(Piece::pack(Side::White, Rank::Pawn)),
                    Some(Piece::pack(Side::White, Rank::Pawn)),
                    Some(Piece::pack(Side::White, Rank::Pawn)),
                    Some(Piece::pack(Side::White, Rank::Pawn)),
                    Some(Piece::pack(Side::White, Rank::Pawn)),
                    Some(Piece::pack(Side::White, Rank::Pawn)),
                ],
                [None, None, None, None, None, None, None, None],
                [None, None, None, None, None, None, None, None],
                [None, None, None, None, None, None, None, None],
                [None, None, None, None, None, None, None, None],
                [
                    Some(Piece::pack(Side::Black, Rank::Pawn)),
                    Some(Piece::pack(Side::Black, Rank::Pawn)),
                    Some(Piece::pack(Side::Black, Rank::Pawn)),
                    Some(Piece::pack(Side::Black, Rank::Pawn)),
                    Some(Piece::pack(Side::Black, Rank::Pawn)),
                    Some(Piece::pack(Side::Black, Rank::Pawn)),
                    Some(Piece::pack(Side::Black, Rank::Pawn)),
                    Some(Piece::pack(Side::Black, Rank::Pawn)),
                ],
                [
                    Some(Piece::pack(Side::Black, Rank::Rook)),
                    Some(Piece::pack(Side::Black, Rank::Knight)),
                    Some(Piece::pack(Side::Black, Rank::Bishop)),
                    Some(Piece::pack(Side::Black, Rank::Queen)),
                    Some(Piece::pack(Side::Black, Rank::King)),
                    Some(Piece::pack(Side::Black, Rank::Bishop)),
                    Some(Piece::pack(Side::Black, Rank::Knight)),
                    Some(Piece::pack(Side::Black, Rank::Rook)),
                ],
            ],
        };
        board
    }

    /// The board with no piece on it.
    pub fn empty() -> (board: Board)
        ensures
            board@ == Seq::new(64, |i: int| None::<Piece>),
    {
        let board = Board {
            data: [
                [None, None, None, None, None, None, None, None],
                [None, None, None, None, None, None, None, None],
                [None, None, None, None, None, None, None, None],
                [None, None, None, None, None, None, None, None],
                [None, None, None, None, None, None, None, None],
                [None, None, None, None, None, None, None, None],
                [None, None, None, None, None, None, None, None],
                [None, None, None, None, None, None, None, None],
            ],
        };
        board
    }

    /// What the cell at `coordinate` holds.
    pub fn piece_at(&self, coordinate: Coordinate) -> (cell: &Option<Piece>)
        requires
            coordinate.in_bounds(),
        ensures
            *cell == self.at(coordinate),
    {
        &self.data[coordinate.row()][coordinate.column()]
    }

    /// Every piece on the board with its square, in row-major order.
    pub fn pieces_with_coordinates(&self) -> (entries: Vec<(Coordinate, Piece)>)
        ensures
            entries@ == occupied(self@),
    {
        let mut entries: Vec<(Coordinate, Piece)> = Vec::new();
        let mut index: usize = 0;
        while index < 64
            invariant
                index <= 64,
                entries@ == occupied_below(self@, index as int),
            decreases 64 - index,
        {
            match self.data[index / 8][index % 8] {
                Some(p) => {
                    entries.push((Coordinate::new(index / 8, index % 8), p));
                },
                None => {},
            }
            index = index + 1;
        }
        entries
    }

    /// The eight rows, from row 0.
    pub fn rows(&self) -> (rows: &[[Option<Piece>; 8]])
        ensures
            rows@ == self.data@,
    {
        &self.data
    }

    /// Whether the cell at `coordinate` holds no piece.
    pub fn is_empty(&self, coordinate: Coordinate) -> (empty: bool)
        requires
            coordinate.in_bounds(),
        ensures
            empty == (self.at(coordinate) is None),
    {
        match *self.piece_at(coordinate) {
            None => true,
            _ => false,
        }
    }

    /// Overwrites the cell at `coordinate`, whatever it held.
    pub fn update(&mut self, coordinate: &Coordinate, piece: Option<Piece>) -> (res: Result<
        (),
        Error,
    >)
        ensures
            final(self)@ == put(old(self)@, *coordinate, piece),
            coordinate.in_bounds() ==> res == Ok::<(), Error>(()),
            !coordinate.in_bounds() ==> res == Err::<(), Error>(Error::InvalidCoordinate),
    {
        match coordinate.check() {
            Ok(()) => {},
            Err(e) => {
                return Err(e);
            },
        }
        self.data[coordinate.row()][coordinate.column()] = piece;
        Ok(())
    }

    /// The squares that hold `target_piece`, in row-major order.
    pub fn find_pieces(&self, target_piece: Piece) -> (squares: Vec<Coordinate>)
        ensures
            squares@ == squares_holding(occupied(self@), target_piece),
    {
        let entries = self.pieces_with_coordinates();
        let mut squares: Vec<Coordinate> = Vec::new();
        let mut i: usize = 0;
        while i < entries.len()
            invariant
                i <= entries.len(),
                squares@ == squares_holding(entries@.take(i as int), target_piece),
            decreases entries.len() - i,
        {
            proof {
                assert(entries@.take(i + 1).drop_last() =~= entries@.take(i as int));
            }
            let (coordinate, piece) = entries[i];
            if piece == target_piece {
                squares.push(coordinate);
            }
            i = i + 1;
        }
        proof {
            assert(entries@.take(entries.len() as int) =~= entries@);
        }
        squares
    }
}

} // verus!
