use tic_tac_toe::board::Piece;
use tic_tac_toe::cli::{start_game_interface, Command, Session, HELP_MESSAGE};
use tic_tac_toe::game::GameState;

#[test]
fn test_initial_help_message() {
    let input: Vec<String> = "".lines().map(String::from).collect();

    let output = start_game_interface(&input);

    assert!(output.contains(HELP_MESSAGE));
}

#[test]
fn test_display_board_on_play() {
    let input: Vec<String> = "play\nexit\n".lines().map(String::from).collect();

    let output = start_game_interface(&input);

    let expected_board_state = "  |   |  \n---------\n  |   |  \n---------\n  |   |  ";

    assert!(output.contains(expected_board_state))
}

#[test]
fn test_exit_command() {
    let input: Vec<String> = "exit\n".lines().map(String::from).collect();

    let output = start_game_interface(&input);

    assert!(output.contains("Exiting game..."));
}

#[test]
fn test_invalid_command() {
    let input: Vec<String> = "unknown\nexit\n".lines().map(String::from).collect();

    let output = start_game_interface(&input);

    assert!(output.contains("Invalid command"));
}

#[test]
fn commands_are_read_from_trimmed_lines() {
    assert_eq!(Command::from("play"), Command::Play);
    assert_eq!(Command::from("  help\t"), Command::Help);
    assert_eq!(Command::from("exit\r"), Command::Exit);
    assert_eq!(Command::from("Play"), Command::Invalid);
    assert_eq!(Command::from("play now"), Command::Invalid);
    assert_eq!(Command::from(""), Command::Invalid);
    assert_eq!(Command::from("pl ay"), Command::Invalid);
}

#[test]
fn each_command_has_its_message() {
    assert_eq!(Command::Play.message(), "Playing the game...");
    assert_eq!(Command::Help.message(), HELP_MESSAGE);
    assert_eq!(Command::Exit.message(), "Exiting game...");
    assert_eq!(Command::Invalid.message(), "Invalid command");
}

#[test]
fn help_message_lists_the_commands() {
    let expected = "-----------------------\n\
Welcome to Tic Tac Toe!\n\
-----------------------\n\
\n\
Available commands:\n\
- play: Start the game\n\
- exit: Exit the game\n\
- help: Display this help message\n";
    assert_eq!(HELP_MESSAGE, expected);
    assert_eq!(Session::greeting(), format!("{}\n", expected));
}

#[test]
fn empty_input_gives_the_greeting_alone() {
    let output = start_game_interface(&Vec::new());
    assert_eq!(output, format!("{}\n", HELP_MESSAGE));
}

#[test]
fn transcript_of_a_move() {
    let input = vec!["play".to_string(), "1,1".to_string(), "exit".to_string()];
    let expected = format!(
        "{}\n{}\n{}\n{}\n{}\n",
        HELP_MESSAGE,
        "  |   |  \n---------\n  |   |  \n---------\n  |   |  ",
        "Enter your move (row, col):",
        "  |   |  \n---------\n  | X |  \n---------\n  |   |  ",
        "Exiting game...",
    );
    assert_eq!(start_game_interface(&input), expected);
}

#[test]
fn transcript_of_refused_moves() {
    let lines = ["play", "0, 0", "play", "0,0", "play", "3,0", "play", "1", "help", "what"];
    let input: Vec<String> = lines
        .iter()
        .map(|line| line.to_string())
        .collect();
    let empty = "  |   |  \n---------\n  |   |  \n---------\n  |   |  \n";
    let taken = "X |   |  \n---------\n  |   |  \n---------\n  |   |  \n";
    let prompt = "Enter your move (row, col):\n";
    let expected = [
        HELP_MESSAGE,
        "\n",
        empty,
        prompt,
        taken,
        taken,
        prompt,
        "Error: Position already occupied\n",
        taken,
        taken,
        prompt,
        "Error: Position out of bounds\n",
        taken,
        taken,
        prompt,
        "Invalid input. Please enter row, col\n",
        HELP_MESSAGE,
        "\n",
        "Invalid command\n",
    ]
    .concat();
    assert_eq!(start_game_interface(&input), expected);
}

#[test]
fn lines_after_exit_are_not_read() {
    let input = vec!["exit".to_string(), "play".to_string(), "help".to_string()];
    assert_eq!(start_game_interface(&input), format!("{}\nExiting game...\n", HELP_MESSAGE));
}

#[test]
fn line_after_play_is_a_move_even_if_it_names_a_command() {
    let input = vec!["play".to_string(), "exit".to_string(), "help".to_string()];
    let output = start_game_interface(&input);
    assert!(output.contains("Invalid input. Please enter row, col\n"));
    assert!(!output.contains("Exiting game..."));
    assert!(output.ends_with(&format!("{}\n", HELP_MESSAGE)));
}

#[test]
fn transcript_of_a_game_played_to_the_end() {
    let mut input = Vec::new();
    for position in ["0,0", "1,0", "0,1", "1,1", "0,2", "2,2"] {
        input.push("play".to_string());
        input.push(position.to_string());
    }
    let output = start_game_interface(&input);
    let won = "X | X | X\n---------\nO | O |  \n---------\n  |   |  \n";
    assert!(output.ends_with(&format!(
        "{}{}Enter your move (row, col):\nError: Game is not in play\n{}",
        won, won, won
    )));
}

#[test]
fn session_steps_through_a_move() {
    let mut session = Session::new();
    assert!(!session.awaiting_move);
    let reply = session.handle_line("play");
    assert!(session.awaiting_move);
    assert!(!reply.finished);
    assert_eq!(
        reply.text,
        "  |   |  \n---------\n  |   |  \n---------\n  |   |  \nEnter your move (row, col):\n"
    );
    let reply = session.handle_line("2, 1");
    assert!(!session.awaiting_move);
    assert!(!reply.finished);
    assert_eq!(reply.text, "  |   |  \n---------\n  |   |  \n---------\n  | X |  \n");
    assert_eq!(session.game.board.grid[2][1], Piece::X);
    assert_eq!(session.game.current_turn, Piece::O);
    assert_eq!(session.game.state, GameState::InPlay);
    let reply = session.handle_line(" exit ");
    assert!(reply.finished);
    assert_eq!(reply.text, "Exiting game...\n");
}

#[test]
fn missing_input_gives_up_a_move_or_ends_the_session() {
    let mut session = Session::new();
    session.handle_line("play");
    assert!(session.awaiting_move);
    assert!(!session.input_missing());
    assert!(!session.awaiting_move);
    assert_eq!(session.game.current_turn, Piece::X);
    assert!(session.input_missing());
    assert!(!session.awaiting_move);
}

#[test]
fn malformed_move_line_is_turned_down() {
    let input = vec!["play".to_string(), "a,1,2".to_string()];
    let expected = format!(
        "{}\n{}\n{}\n{}\n",
        HELP_MESSAGE,
        "  |   |  \n---------\n  |   |  \n---------\n  |   |  ",
        "Enter your move (row, col):",
        "Invalid input. Please enter row, col",
    );
    let output = start_game_interface(&input);
    assert_eq!(output, expected);
    assert!(output.ends_with("Invalid input. Please enter row, col\n"));
    assert!(!output.contains('X'));
}

#[test]
fn move_line_with_a_field_too_many_or_no_number_leaves_the_game() {
    for line in ["1,x,2", "1,2,", ",,1,,2", "1,,2", "1,2,3", "1", "", ",", "x,1", "1,y", "-1,2"] {
        let mut session = Session::new();
        session.handle_line("play");
        let reply = session.handle_line(line);
        assert_eq!(reply.text, "Invalid input. Please enter row, col\n");
        assert!(!reply.finished);
        assert!(!session.awaiting_move);
        assert_eq!(session.game.current_turn, Piece::X);
        assert_eq!(session.game.state, GameState::InPlay);
        for row in 0..3 {
            for col in 0..3 {
                assert_eq!(session.game.board.grid[row][col], Piece::Empty);
            }
        }
    }
}

#[test]
fn well_formed_move_line_is_played() {
    for (line, row, col) in [("1,2", 1, 2), (" 0 , 0 ", 0, 0), ("+2,1", 2, 1)] {
        let mut session = Session::new();
        session.handle_line("play");
        let reply = session.handle_line(line);
        assert!(reply.text.contains('X'));
        assert_eq!(session.game.board.grid[row][col], Piece::X);
        assert_eq!(session.game.current_turn, Piece::O);
    }
}
