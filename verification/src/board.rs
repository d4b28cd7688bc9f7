//! The 3×3 grid: what a cell holds, placing a mark, and the text picture
//! of the grid.

use vstd::prelude::*;

verus! {

/// What one cell of the grid holds.
#[derive(Clone, Copy, Debug, PartialEq, Eq, Structural)]
pub enum Piece {
    X,
    O,
    Empty,
}

impl Piece {
    /// A mark is what a player may place: `X` or `O`, never `Empty`.
    pub open spec fn is_mark(self) -> bool {
        self != Piece::Empty
    }

    /// The character that stands for this cell in the picture of the grid.
    pub open spec fn glyph(self) -> char {
        match self {
            Piece::X => 'X',
            Piece::O => 'O',
            Piece::Empty => ' ',
        }
    }
}

/// A grid: three rows of three cells.
pub open spec fn is_grid(cells: Seq<Seq<Piece>>) -> bool {
    &&& cells.len() == 3
    &&& forall|r: int| 0 <= r < 3 ==> (#[trigger] cells[r]).len() == 3
}

/// The grid with every cell empty.
pub open spec fn empty_grid() -> Seq<Seq<Piece>> {
    Seq::new(3, |r: int| Seq::new(3, |c: int| Piece::Empty))
}

/// `cells` with the cell at (`row`, `col`) replaced by `piece`.
pub open spec fn with_piece(cells: Seq<Seq<Piece>>, row: int, col: int, piece: Piece) -> Seq<
    Seq<Piece>,
> {
    cells.update(row, cells[row].update(col, piece))
}

/// The message for a position that is off the grid.
pub open spec fn out_of_bounds() -> Seq<char> {
    "Position out of bounds"@
}

/// The message for a cell that already holds a mark.
pub open spec fn already_occupied() -> Seq<char> {
    "Position already occupied"@
}

/// What stands between two cells of one row.
pub open spec fn cell_gap() -> Seq<char> {
    " | "@
}

/// What stands between two rows: a divider on a line of its own.
pub open spec fn row_gap() -> Seq<char> {
    "\n---------\n"@
}

/// One row of the picture: its three glyphs with a gap between neighbours.
pub open spec fn row_text(row: Seq<Piece>) -> Seq<char> {
    seq![row[0].glyph()] + cell_gap() + seq![row[1].glyph()] + cell_gap() + seq![row[2].glyph()]
}

/// The picture of the whole grid: its three rows, top first, with a divider
/// between neighbours and no line break at the end.
pub open spec fn rendering(cells: Seq<Seq<Piece>>) -> Seq<char> {
    row_text(cells[0]) + row_gap() + row_text(cells[1]) + row_gap() + row_text(cells[2])
}

/// Where the glyph of the cell at (`row`, `col`) stands in the picture.
pub open spec fn glyph_index(row: int, col: int) -> int {
    20 * row + 4 * col
}

/// What placing `piece` at (`row`, `col`) on `cells` comes to: the new grid,
/// or the message of the refusal. A position off the grid is refused before
/// the cell is looked at.
pub open spec fn placement(cells: Seq<Seq<Piece>>, row: int, col: int, piece: Piece) -> Result<
    Seq<Seq<Piece>>,
    Seq<char>,
> {
    if !(0 <= row < 3 && 0 <= col < 3) {
        Err(out_of_bounds())
    } else if cells[row][col] != Piece::Empty {
        Err(already_occupied())
    } else {
        Ok(with_piece(cells, row, col, piece))
    }
}

/// The board of a game. Its view is the grid as rows of cells, top row first.
pub struct Board {
    pub grid: [[Piece; 3]; 3],
}

impl View for Board {
    type V = Seq<Seq<Piece>>;

    open spec fn view(&self) -> Seq<Seq<Piece>> {
        Seq::new(3, |r: int| self.grid[r]@)
    }
}

impl Board {
    /// The view of a board is always a grid.
    pub proof fn view_is_grid(&self)
        ensures
            is_grid(self@),
    {
    }

    /// A board with all nine cells empty.
    pub fn new() -> (board: Board)
        ensures
            board@ == empty_grid(),
    {
        let board = Board { grid: [[Piece::Empty; 3]; 3] };
        assert(board@ =~~= empty_grid());
        board
    }

    /// Puts `piece` on the cell at (`row`, `col`).
    ///
    /// A position off the grid is refused first, then a cell that is already
    /// taken; a refused call leaves the board as it was. Otherwise exactly
    /// that one cell changes.
    pub fn place_piece(&mut self, row: usize, col: usize, piece: Piece) -> (result: Result<
        (),
        &'static str,
    >)
        requires
            piece.is_mark(),
        ensures
            match placement(old(self)@, row as int, col as int, piece) {
                Ok(cells) => result is Ok && final(self)@ == cells,
                Err(message) => {
                    &&& result matches Err(text) && text@ == message
                    &&& *final(self) == *old(self)
                },
            },
            row >= 3 || col >= 3 ==> {
                &&& result matches Err(text) && text@ == out_of_bounds()
                &&& *final(self) == *old(self)
            },
    {
        if row >= 3 || col >= 3 {
            return Err("Position out of bounds");
        }
        if self.grid[row][col] != Piece::Empty {
            return Err("Position already occupied");
        }
        self.grid[row][col] = piece;
        Ok(())
    }

    /// The picture of the board as text, for display.
    pub fn get_board_state(&self) -> (text: String)
        ensures
            text@ == rendering(self@),
    {
        let mut text = String::new();
        self.append_row(&mut text, 0);
        text.append("\n---------\n");
        self.append_row(&mut text, 1);
        text.append("\n---------\n");
        self.append_row(&mut text, 2);
        text
    }

    fn append_row(&self, text: &mut String, row: usize)
        requires
            row < 3,
        ensures
            final(text)@ == old(text)@ + row_text(self@[row as int]),
    {
        text.append(glyph_text(self.grid[row][0]));
        text.append(" | ");
        text.append(glyph_text(self.grid[row][1]));
        text.append(" | ");
        text.append(glyph_text(self.grid[row][2]));
    }
}

fn glyph_text(piece: Piece) -> (text: &'static str)
    ensures
        text@ == seq![piece.glyph()],
{
    proof {
        reveal_strlit("X");
        reveal_strlit("O");
        reveal_strlit(" ");
    }
    match piece {
        Piece::X => "X",
        Piece::O => "O",
        Piece::Empty => " ",
    }
}

/// A cell of the empty grid takes a mark once: the first placement succeeds,
/// and a second one on the same cell, with either mark, is refused as taken.
pub proof fn empty_cell_takes_one_mark(row: int, col: int, first: Piece, second: Piece)
    requires
        0 <= row < 3,
        0 <= col < 3,
        first.is_mark(),
        second.is_mark(),
    ensures
        placement(empty_grid(), row, col, first) == Ok::<Seq<Seq<Piece>>, Seq<char>>(
            with_piece(empty_grid(), row, col, first),
        ),
        placement(with_piece(empty_grid(), row, col, first), row, col, second) == Err::<
            Seq<Seq<Piece>>,
            Seq<char>,
        >(already_occupied()),
{
}

/// A placement that succeeds fills one empty cell and touches no other.
pub proof fn placement_changes_one_cell(cells: Seq<Seq<Piece>>, row: int, col: int, piece: Piece)
    requires
        is_grid(cells),
        placement(cells, row, col, piece) is Ok,
    ensures
        0 <= row < 3 && 0 <= col < 3,
        cells[row][col] == Piece::Empty,
        is_grid(with_piece(cells, row, col, piece)),
        with_piece(cells, row, col, piece)[row][col] == piece,
        forall|r: int, c: int|
            0 <= r < 3 && 0 <= c < 3 && !(r == row && c == col) ==> #[trigger] with_piece(
                cells,
                row,
                col,
                piece,
            )[r][c] == cells[r][c],
{
}

/// The picture has 49 characters, and the glyph of each cell stands at its
/// `glyph_index`.
pub proof fn rendering_shows_each_cell(cells: Seq<Seq<Piece>>, row: int, col: int)
    requires
        is_grid(cells),
        0 <= row < 3,
        0 <= col < 3,
    ensures
        rendering(cells).len() == 49,
        rendering(cells)[glyph_index(row, col)] == cells[row][col].glyph(),
{
    reveal_strlit(" | ");
    reveal_strlit("\n---------\n");
}

/// The picture of the empty grid: three equal lines of blank cells, with a
/// divider between neighbours.
pub proof fn rendering_of_empty_grid()
    ensures
        forall|row: int| 0 <= row < 3 ==> row_text(#[trigger] empty_grid()[row]) == "  |   |  "@,
        rendering(empty_grid()) == "  |   |  "@ + row_gap() + "  |   |  "@ + row_gap()
            + "  |   |  "@,
{
    reveal_strlit(" | ");
    reveal_strlit("  |   |  ");
}

/// Placing a piece changes the one character of the picture that stands for
/// its cell, and nothing else: every gap and divider stays where it was.
pub proof fn placement_changes_one_glyph(cells: Seq<Seq<Piece>>, row: int, col: int, piece: Piece)
    requires
        is_grid(cells),
        0 <= row < 3,
        0 <= col < 3,
    ensures
        rendering(with_piece(cells, row, col, piece)) == rendering(cells).update(
            glyph_index(row, col),
            piece.glyph(),
        ),
{
    reveal_strlit("\n---------\n");
    row_text_after_update(cells[row], col, piece);
    row_text_length(cells[0]);
    row_text_length(cells[1]);
    row_text_length(cells[2]);
}

proof fn row_text_length(row: Seq<Piece>)
    ensures
        row_text(row).len() == 9,
{
    reveal_strlit(" | ");
}

proof fn row_text_after_update(row: Seq<Piece>, col: int, piece: Piece)
    requires
        row.len() == 3,
        0 <= col < 3,
    ensures
        row_text(row.update(col, piece)) == row_text(row).update(4 * col, piece.glyph()),
{
    reveal_strlit(" | ");
}

} // verus!
