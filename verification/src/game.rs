//! One game on a board: whose turn it is, how the game stands, and the single
//! transition that a move makes.

use crate::board::{
    already_occupied, empty_grid, is_grid, out_of_bounds, placement, with_piece, Board, Piece,
};
use vstd::prelude::*;

verus! {

/// How a game stands. `Win` and `Draw` are final.
#[derive(Debug, PartialEq, Eq, Structural)]
pub enum GameState {
    InPlay,
    Win(Piece),
    Draw,
}

/// The message for a move on a game that is over.
pub open spec fn game_over() -> Seq<char> {
    "Game is not in play"@
}

/// Row `row` holds `mark` in all three cells.
pub open spec fn row_complete(cells: Seq<Seq<Piece>>, row: int, mark: Piece) -> bool {
    cells[row][0] == mark && cells[row][1] == mark && cells[row][2] == mark
}

/// Column `col` holds `mark` in all three cells.
pub open spec fn column_complete(cells: Seq<Seq<Piece>>, col: int, mark: Piece) -> bool {
    cells[0][col] == mark && cells[1][col] == mark && cells[2][col] == mark
}

/// The diagonal from the top left holds `mark` in all three cells.
pub open spec fn diagonal_complete(cells: Seq<Seq<Piece>>, mark: Piece) -> bool {
    cells[0][0] == mark && cells[1][1] == mark && cells[2][2] == mark
}

/// The diagonal from the top right holds `mark` in all three cells.
pub open spec fn anti_diagonal_complete(cells: Seq<Seq<Piece>>, mark: Piece) -> bool {
    cells[0][2] == mark && cells[1][1] == mark && cells[2][0] == mark
}

/// Some line through the cell at (`row`, `col`) is complete for `mark`: its
/// row, its column, or a diagonal that the cell lies on.
pub open spec fn wins_at(cells: Seq<Seq<Piece>>, row: int, col: int, mark: Piece) -> bool {
    ||| row_complete(cells, row, mark)
    ||| column_complete(cells, col, mark)
    ||| row == col && diagonal_complete(cells, mark)
    ||| row + col == 2 && anti_diagonal_complete(cells, mark)
}

/// Some one of the eight lines of the grid is complete for `mark`.
pub open spec fn has_line(cells: Seq<Seq<Piece>>, mark: Piece) -> bool {
    ||| row_complete(cells, 0, mark)
    ||| row_complete(cells, 1, mark)
    ||| row_complete(cells, 2, mark)
    ||| column_complete(cells, 0, mark)
    ||| column_complete(cells, 1, mark)
    ||| column_complete(cells, 2, mark)
    ||| diagonal_complete(cells, mark)
    ||| anti_diagonal_complete(cells, mark)
}

/// No cell of the grid is empty.
pub open spec fn is_full(cells: Seq<Seq<Piece>>) -> bool {
    forall|row: int, col: int|
        0 <= row < 3 && 0 <= col < 3 ==> (#[trigger] cells[row][col]) != Piece::Empty
}

/// How the game stands once `mark` has been placed at (`row`, `col`), `cells`
/// being the grid after the placement. A win goes before a draw.
pub open spec fn outcome_after(
    cells: Seq<Seq<Piece>>,
    row: int,
    col: int,
    mark: Piece,
) -> GameState {
    if wins_at(cells, row, col, mark) {
        GameState::Win(mark)
    } else if is_full(cells) {
        GameState::Draw
    } else {
        GameState::InPlay
    }
}

/// The mark of the other player.
pub open spec fn opponent(mark: Piece) -> Piece {
    if mark == Piece::X {
        Piece::O
    } else {
        Piece::X
    }
}

/// The mathematical state of a game.
pub struct GameView {
    pub cells: Seq<Seq<Piece>>,
    pub turn: Piece,
    pub state: GameState,
}

/// The state in which every game starts.
pub open spec fn initial() -> GameView {
    GameView { cells: empty_grid(), turn: Piece::X, state: GameState::InPlay }
}

/// The transition of the game: what a move at (`row`, `col`) makes of `game`,
/// or the message with which it is refused.
///
/// A finished game refuses every move. Otherwise the player whose turn it is
/// places a mark, and the board's refusals pass through. After a placement the
/// outcome is judged; the turn passes on only while the game is still in play.
pub open spec fn step(game: GameView, row: int, col: int) -> Result<GameView, Seq<char>> {
    if game.state != GameState::InPlay {
        Err(game_over())
    } else {
        match placement(game.cells, row, col, game.turn) {
            Err(message) => Err(message),
            Ok(cells) => {
                let state = outcome_after(cells, row, col, game.turn);
                let turn = if state == GameState::InPlay {
                    opponent(game.turn)
                } else {
                    game.turn
                };
                Ok(GameView { cells, turn, state })
            },
        }
    }
}

/// The outcome agrees with the board. While the game is in play no line is
/// complete and a cell is free; a win shows a line of the winner, who moved
/// last, and none of the loser; a draw shows a full grid without a line.
pub open spec fn consistent(game: GameView) -> bool {
    &&& is_grid(game.cells)
    &&& game.turn.is_mark()
    &&& match game.state {
        GameState::InPlay => {
            &&& !has_line(game.cells, Piece::X)
            &&& !has_line(game.cells, Piece::O)
            &&& !is_full(game.cells)
        },
        GameState::Win(mark) => {
            &&& mark == game.turn
            &&& has_line(game.cells, mark)
            &&& !has_line(game.cells, opponent(mark))
        },
        GameState::Draw => {
            &&& !has_line(game.cells, Piece::X)
            &&& !has_line(game.cells, Piece::O)
            &&& is_full(game.cells)
        },
    }
}

/// One game: the board, the mark of the player to move, and how the game
/// stands. Once the game is over, `current_turn` stays at the player who
/// moved last.
pub struct Game {
    pub board: Board,
    pub current_turn: Piece,
    pub state: GameState,
}

impl View for Game {
    type V = GameView;

    open spec fn view(&self) -> GameView {
        GameView { cells: self.board@, turn: self.current_turn, state: self.state }
    }
}

impl Game {
    /// The turn belongs to a player.
    pub open spec fn well_formed(&self) -> bool {
        self.current_turn.is_mark()
    }

    /// A game on an empty board, `X` to move.
    pub fn new() -> (game: Game)
        ensures
            game@ == initial(),
            game.well_formed(),
            consistent(game@),
    {
        proof {
            initial_is_consistent();
        }
        Game { board: Board::new(), current_turn: Piece::X, state: GameState::InPlay }
    }

    /// Plays the move of the player whose turn it is at (`row`, `col`).
    ///
    /// The game goes to `step` of its state, or, on a refusal, stays exactly
    /// as it was and returns the message.
    pub fn play_move(&mut self, row: usize, col: usize) -> (result: Result<(), &'static str>)
        requires
            old(self).well_formed(),
        ensures
            final(self).well_formed(),
            match step(old(self)@, row as int, col as int) {
                Ok(next) => result is Ok && final(self)@ == next,
                Err(message) => {
                    &&& result matches Err(text) && text@ == message
                    &&& *final(self) == *old(self)
                },
            },
            old(self).state != GameState::InPlay ==> {
                &&& result matches Err(text) && text@ == game_over()
                &&& *final(self) == *old(self)
            },
            consistent(old(self)@) ==> consistent(final(self)@),
    {
        proof {
            if consistent(self@) && step(self@, row as int, col as int) is Ok {
                step_keeps_consistent(self@, row as int, col as int);
            }
        }
        if let GameState::InPlay = self.state {
            self.board.place_piece(row, col, self.current_turn)?;
            self.update_game_state(row, col);
            if let GameState::InPlay = self.state {
                self.switch_turn();
            }
            Ok(())
        } else {
            Err("Game is not in play")
        }
    }

    /// Passes the turn to the other player.
    fn switch_turn(&mut self)
        ensures
            final(self).current_turn == opponent(old(self).current_turn),
            final(self).board == old(self).board,
            final(self).state == old(self).state,
    {
        self.current_turn = match self.current_turn {
            Piece::X => Piece::O,
            _ => Piece::X,
        };
    }

    /// Judges the outcome after the player to move has placed a mark at
    /// (`row`, `col`).
    fn update_game_state(&mut self, row: usize, col: usize)
        requires
            row < 3,
            col < 3,
            old(self).state == GameState::InPlay,
        ensures
            final(self).state == outcome_after(
                old(self).board@,
                row as int,
                col as int,
                old(self).current_turn,
            ),
            final(self).board == old(self).board,
            final(self).current_turn == old(self).current_turn,
    {
        if self.has_won(row, col) {
            self.state = GameState::Win(self.current_turn);
        } else if self.is_draw() {
            self.state = GameState::Draw;
        }
    }

    /// Whether a line through (`row`, `col`) is complete for the player to
    /// move.
    fn has_won(&self, row: usize, col: usize) -> (won: bool)
        requires
            row < 3,
            col < 3,
        ensures
            won == wins_at(self.board@, row as int, col as int, self.current_turn),
    {
        let grid = &self.board.grid;
        let mark = self.current_turn;
        (grid[row][0] == mark && grid[row][1] == mark && grid[row][2] == mark)
            || (grid[0][col] == mark && grid[1][col] == mark && grid[2][col] == mark)
            || (row == col && grid[0][0] == mark && grid[1][1] == mark && grid[2][2] == mark)
            || (row + col == 2 && grid[0][2] == mark && grid[1][1] == mark && grid[2][0] == mark)
    }

    /// Whether every cell of the board is taken.
    fn is_draw(&self) -> (full: bool)
        ensures
            full == is_full(self.board@),
    {
        let mut row: usize = 0;
        while row < 3
            invariant
                row <= 3,
                taken_before(self.board@, row as int, 0),
            decreases 3 - row,
        {
            let mut col: usize = 0;
            while col < 3
                invariant
                    row < 3,
                    col <= 3,
                    taken_before(self.board@, row as int, col as int),
                decreases 3 - col,
            {
                if self.board.grid[row][col] == Piece::Empty {
                    assert(self.board@[row as int][col as int] == Piece::Empty);
                    return false;
                }
                col += 1;
            }
            row += 1;
        }
        true
    }
}

/// Every cell that stands before (`row`, `col`) in reading order is taken.
spec fn taken_before(cells: Seq<Seq<Piece>>, row: int, col: int) -> bool {
    forall|r: int, c: int|
        0 <= r < 3 && 0 <= c < 3 && (r < row || (r == row && c < col)) ==> (
        #[trigger] cells[r][c]) != Piece::Empty
}

/// The three refusals of a move can be told apart by their messages.
pub proof fn refusals_differ()
    ensures
        game_over() != out_of_bounds(),
        game_over() != already_occupied(),
        out_of_bounds() != already_occupied(),
{
    reveal_strlit("Game is not in play");
    reveal_strlit("Position out of bounds");
    reveal_strlit("Position already occupied");
    assert(out_of_bounds().len() == 22);
    assert(already_occupied().len() == 25);
}

/// A game that is won or drawn refuses every move.
pub proof fn finished_game_refuses(game: GameView, row: int, col: int)
    requires
        game.state != GameState::InPlay,
    ensures
        step(game, row, col) == Err::<GameView, Seq<char>>(game_over()),
{
}

/// Only a game in play accepts a move, and it then stays in play with the
/// turn passed on, or ends with the turn left at the player who moved: won by
/// that player, or drawn.
pub proof fn accepted_move_outcomes(game: GameView, row: int, col: int)
    requires
        step(game, row, col) is Ok,
    ensures
        game.state == GameState::InPlay,
        step(game, row, col) matches Ok(next) && {
            ||| next.state == GameState::InPlay && next.turn == opponent(game.turn)
            ||| next.state == GameState::Win(game.turn) && next.turn == game.turn
            ||| next.state == GameState::Draw && next.turn == game.turn
        },
{
}

/// Two accepted moves on a new game leave it in play with `X` to move again:
/// the turn went from `X` to `O` and back.
pub proof fn turn_returns_after_two_moves(row1: int, col1: int, row2: int, col2: int)
    requires
        step(initial(), row1, col1) matches Ok(first) && step(first, row2, col2) is Ok,
    ensures
        step(initial(), row1, col1) matches Ok(first) && {
            &&& first.state == GameState::InPlay
            &&& first.turn == Piece::O
            &&& step(first, row2, col2) matches Ok(second) && {
                &&& second.state == GameState::InPlay
                &&& second.turn == Piece::X
            }
        },
{
}

/// Where `mark` had no line, placing it completes a line exactly when a line
/// through the new cell is complete: looking at those lines is enough.
pub proof fn new_line_runs_through_new_cell(
    cells: Seq<Seq<Piece>>,
    row: int,
    col: int,
    mark: Piece,
)
    requires
        is_grid(cells),
        0 <= row < 3,
        0 <= col < 3,
        !has_line(cells, mark),
    ensures
        has_line(with_piece(cells, row, col, mark), mark) == wins_at(
            with_piece(cells, row, col, mark),
            row,
            col,
            mark,
        ),
{
}

/// A new game is consistent.
pub proof fn initial_is_consistent()
    ensures
        consistent(initial()),
{
    assert(initial().cells[0][0] == Piece::Empty);
}

/// Every accepted move keeps the game consistent: the outcome that `step`
/// records is the one that the whole board shows.
pub proof fn step_keeps_consistent(game: GameView, row: int, col: int)
    requires
        consistent(game),
        step(game, row, col) is Ok,
    ensures
        step(game, row, col) matches Ok(next) && consistent(next),
{
    new_line_runs_through_new_cell(game.cells, row, col, game.turn);
}

} // verus!
