use tictactoe::game;
use tictactoe::Board;
use tictactoe::Game;
use tictactoe::Mark;
use tictactoe::State;

const CIRCLE: &str = "○";
const CROSS: &str = "☓";

#[test]
fn game_decode_mars_in_board_err() {
    let value = format!("♂        ;P{CIRCLE}");

    let result = game::decode(value.as_str());

    assert!(result.is_err());
}

#[test]
fn game_decode_mars_in_state_err() {
    let value = "         ;P♂";

    let result = game::decode(value);

    assert!(result.is_err());
}

#[test]
fn game_decode_win_ok() {
    let value = format!("{CIRCLE}{CIRCLE}{CIRCLE}{CROSS}{CROSS}    ;W{CIRCLE}");

    let result = game::decode(value.as_str()).unwrap();

    assert_eq!(State::Win(Mark::Circle), result.state());
    assert_eq!(Some(Mark::Circle), result.board().at(0, 2));
    assert_eq!(Some(Mark::Cross), result.board().at(1, 1));
    assert_eq!(None, result.board().at(2, 2));
}

#[test]
fn game_decode_short_board_ok() {
    let value = format!("{CIRCLE};P{CROSS}");

    let result = game::decode(value.as_str()).unwrap();

    let mut board = Board::default();
    board.mark(0, 0, Mark::Circle);
    assert_eq!(board, result.board());
    assert_eq!(State::Playing(Mark::Cross), result.state());
}

#[test]
fn game_decode_board_tail_ignored_ok() {
    let value = format!("         x;P{CIRCLE}");

    let result = game::decode(value.as_str()).unwrap();

    assert_eq!(Game::default(), result);
}

#[test]
fn game_decode_tie_tail_ignored_ok() {
    let value = "         ;Txyz";

    let result = game::decode(value).unwrap();

    assert_eq!(State::Tie, result.state());
}

#[test]
fn game_decode_second_segment_ends_state_ok() {
    let value = format!("         ;P{CIRCLE};anything");

    let result = game::decode(value.as_str()).unwrap();

    assert_eq!(Game::default(), result);
}

#[test]
fn game_decode_missing_state_err() {
    assert!(game::decode("         ").is_err());
    assert!(game::decode("         ;").is_err());
}

#[test]
fn game_decode_state_tag_err() {
    assert!(game::decode("         ;X").is_err());
    assert!(game::decode(&format!("         ;P{CIRCLE}{CIRCLE}")).is_err());
    assert!(game::decode("         ;P").is_err());
    assert!(game::decode("         ;W").is_err());
}

#[test]
fn game_decode_empty_input_err() {
    assert!(game::decode("").is_err());
}
