//! The text interface to a game: commands, the line with a move, and what
//! is written in reply to each line.

use crate::board::rendering;
use crate::game::{initial, step, Game, GameView};
use crate::text::{position, position_of, trim, trimmed};
use vstd::prelude::*;

verus! {

/// What is shown at the start, and for `help`.
pub const HELP_MESSAGE: &'static str = "\
-----------------------\n\
Welcome to Tic Tac Toe!\n\
-----------------------\n\
\n\
Available commands:\n\
- play: Start the game\n\
- exit: Exit the game\n\
- help: Display this help message\n";

/// What a line asks for while no move is awaited.
#[derive(Clone, Copy, Debug, PartialEq, Eq, Structural)]
pub enum Command {
    Play,
    Help,
    Exit,
    Invalid,
}

/// The command that a line gives: its text without the white space around
/// it names the command, and any other text is invalid.
pub open spec fn command_of(line: Seq<char>) -> Command {
    let word = trimmed(line);
    if word == "play"@ {
        Command::Play
    } else if word == "help"@ {
        Command::Help
    } else if word == "exit"@ {
        Command::Exit
    } else {
        Command::Invalid
    }
}

impl Command {
    /// What is written in reply to the command.
    pub open spec fn text(self) -> Seq<char> {
        match self {
            Command::Play => "Playing the game..."@,
            Command::Help => HELP_MESSAGE@,
            Command::Exit => "Exiting game..."@,
            Command::Invalid => "Invalid command"@,
        }
    }

    /// The reply to the command.
    pub fn message(self) -> (text: &'static str)
        ensures
            text@ == self.text(),
    {
        match self {
            Command::Play => "Playing the game...",
            Command::Help => HELP_MESSAGE,
            Command::Exit => "Exiting game...",
            Command::Invalid => "Invalid command",
        }
    }
}

/// Reads a command from a line of input.
impl<'a> From<&'a str> for Command {
    fn from(input: &'a str) -> (command: Command) {
        let word = trim(input).to_owned();
        if word == "play".to_owned() {
            Command::Play
        } else if word == "help".to_owned() {
            Command::Help
        } else if word == "exit".to_owned() {
            Command::Exit
        } else {
            Command::Invalid
        }
    }
}

impl<'a> vstd::std_specs::convert::FromSpecImpl<&'a str> for Command {
    open spec fn obeys_from_spec() -> bool {
        true
    }

    open spec fn from_spec(input: &'a str) -> Command {
        command_of(input@)
    }
}

/// A running interface: the game, and whether the next line is to hold a
/// move or a command.
pub struct Session {
    pub game: Game,
    pub awaiting_move: bool,
}

/// The mathematical state of a session.
pub struct SessionView {
    pub game: GameView,
    pub awaiting_move: bool,
}

impl View for Session {
    type V = SessionView;

    open spec fn view(&self) -> SessionView {
        SessionView { game: self.game@, awaiting_move: self.awaiting_move }
    }
}

/// What a line of input brings about: the text to write, and whether the
/// interface is done.
pub struct Reply {
    pub text: String,
    pub finished: bool,
}

/// What `respond` comes to: the session afterwards, the text to write, and
/// whether the interface is done.
pub struct Response {
    pub next: SessionView,
    pub text: Seq<char>,
    pub finished: bool,
}

/// The session in which every interface starts: a new game, a command awaited.
pub open spec fn opening() -> SessionView {
    SessionView { game: initial(), awaiting_move: false }
}

/// What is written before the first line is read.
pub open spec fn greeting() -> Seq<char> {
    HELP_MESSAGE@ + "\n"@
}

/// The reply to a line that is to hold a move. A line that writes a
/// position, a row and a column with one comma between them, is a move
/// there: a refusal is reported, and the board is shown either way. Any
/// other line is turned down, and the game stays as it was. A command is
/// awaited next.
pub open spec fn respond_to_move(game: GameView, line: Seq<char>) -> Response {
    match position_of(line) {
        Some((row, col)) => match step(game, row as int, col as int) {
            Ok(next) => Response {
                next: SessionView { game: next, awaiting_move: false },
                text: rendering(next.cells) + "\n"@,
                finished: false,
            },
            Err(message) => Response {
                next: SessionView { game, awaiting_move: false },
                text: "Error: "@ + message + "\n"@ + rendering(game.cells) + "\n"@,
                finished: false,
            },
        },
        None => Response {
            next: SessionView { game, awaiting_move: false },
            text: "Invalid input. Please enter row, col\n"@,
            finished: false,
        },
    }
}

/// The reply to a line that is to hold a command. `play` shows the board
/// and asks for a move, which the next line is to hold; `exit` ends the
/// interface; every command but `play` is answered with its own text.
pub open spec fn respond_to_command(game: GameView, line: Seq<char>) -> Response {
    let command = command_of(line);
    match command {
        Command::Play => Response {
            next: SessionView { game, awaiting_move: true },
            text: rendering(game.cells) + "\n"@ + "Enter your move (row, col):\n"@,
            finished: false,
        },
        _ => Response {
            next: SessionView { game, awaiting_move: false },
            text: command.text() + "\n"@,
            finished: command == Command::Exit,
        },
    }
}

/// The reply of a session to one line of input.
pub open spec fn respond(session: SessionView, line: Seq<char>) -> Response {
    if session.awaiting_move {
        respond_to_move(session.game, line)
    } else {
        respond_to_command(session.game, line)
    }
}

/// Everything that is written in reply to `lines`, one after the other, from
/// `session` on. Lines after the one that ends the interface are not read.
pub open spec fn replies(session: SessionView, lines: Seq<Seq<char>>) -> Seq<char>
    decreases lines.len(),
{
    if lines.len() == 0 {
        Seq::empty()
    } else {
        let response = respond(session, lines.first());
        if response.finished {
            response.text
        } else {
            response.text + replies(response.next, lines.drop_first())
        }
    }
}

/// Everything that an interface writes when its input is `lines`.
pub open spec fn transcript(lines: Seq<Seq<char>>) -> Seq<char> {
    greeting() + replies(opening(), lines)
}

impl Session {
    /// The game of the session is well formed.
    pub open spec fn well_formed(&self) -> bool {
        self.game.well_formed()
    }

    /// A session with a new game, awaiting a command.
    pub fn new() -> (session: Session)
        ensures
            session@ == opening(),
            session.well_formed(),
    {
        Session { game: Game::new(), awaiting_move: false }
    }

    /// The text that is written before the first line is read.
    pub fn greeting() -> (text: String)
        ensures
            text@ == greeting(),
    {
        let mut text = String::from_str(HELP_MESSAGE);
        text.append("\n");
        text
    }

    /// Takes one line of input and gives the reply to it.
    pub fn handle_line(&mut self, line: &str) -> (reply: Reply)
        requires
            old(self).well_formed(),
        ensures
            final(self).well_formed(),
            final(self)@ == respond(old(self)@, line@).next,
            reply.text@ == respond(old(self)@, line@).text,
            reply.finished == respond(old(self)@, line@).finished,
    {
        if self.awaiting_move {
            self.awaiting_move = false;
            match position(line) {
                Some((row, col)) => {
                    let mut text = String::new();
                    if let Err(message) = self.game.play_move(row, col) {
                        text.append("Error: ");
                        text.append(message);
                        text.append("\n");
                    }
                    text.append(self.game.board.get_board_state().as_str());
                    text.append("\n");
                    Reply { text, finished: false }
                },
                None => Reply {
                    text: String::from_str("Invalid input. Please enter row, col\n"),
                    finished: false,
                },
            }
        } else {
            let command = Command::from(line);
            match command {
                Command::Play => {
                    self.awaiting_move = true;
                    let mut text = self.game.board.get_board_state();
                    text.append("\n");
                    text.append("Enter your move (row, col):\n");
                    Reply { text, finished: false }
                },
                Command::Exit => {
                    let mut text = String::from_str(command.message());
                    text.append("\n");
                    Reply { text, finished: true }
                },
                _ => {
                    let mut text = String::from_str(command.message());
                    text.append("\n");
                    Reply { text, finished: false }
                },
            }
        }
    }

    /// Takes note that no line could be read. A move that was awaited is
    /// given up, and a command is awaited next; where a command was awaited,
    /// the interface is done, which the result says.
    pub fn input_missing(&mut self) -> (finished: bool)
        ensures
            finished == !old(self).awaiting_move,
            final(self).game == old(self).game,
            !final(self).awaiting_move,
    {
        let finished = !self.awaiting_move;
        self.awaiting_move = false;
        finished
    }
}

/// Runs the interface on the lines of its input and returns all that it
/// writes: the greeting, then the reply to each line, up to the line that
/// ends the interface or to the end of the input.
pub fn start_game_interface(lines: &Vec<String>) -> (output: String)
    ensures
        output@ == transcript(lines.deep_view()),
{
    let mut output = Session::greeting();
    let mut session = Session::new();
    let mut index: usize = 0;
    assert(lines.deep_view().skip(0) =~= lines.deep_view());
    while index < lines.len()
        invariant
            index <= lines.len(),
            session.well_formed(),
            transcript(lines.deep_view()) == output@ + replies(
                session@,
                lines.deep_view().skip(index as int),
            ),
        decreases lines.len() - index,
    {
        let ghost rest = lines.deep_view().skip(index as int);
        assert(rest.drop_first() =~= lines.deep_view().skip(index + 1));
        let reply = session.handle_line(lines[index].as_str());
        output.append(reply.text.as_str());
        if reply.finished {
            return output;
        }
        index += 1;
    }
    output
}

} // verus!
