use tictactoe::error::Error;
use tictactoe::game::TurnError;
use tictactoe::mark::ParseError;
use tictactoe::mark::ParseMarkError;

#[test]
fn turn_error_messages_ok() {
    assert_eq!("game is already finished", TurnError::GameFinished.message());
    assert_eq!("cell is already occupied", TurnError::CellOccupied.message());
}

#[test]
fn parse_error_messages_ok() {
    assert_eq!(
        "provided string was not `{CIRCLE}` or `{CROSS}`",
        ParseError.message()
    );
    assert_eq!(
        "provided string was not `{CIRCLE}` or `{CROSS}`",
        ParseMarkError.message()
    );
}

#[test]
fn error_wraps_failures_ok() {
    let turn = Error::from_turn(TurnError::GameFinished);
    assert_eq!("game is already finished", turn.message());

    let occupied = Error::from_turn(TurnError::CellOccupied);
    assert_eq!("cell is already occupied", occupied.message());

    let parse = Error::from_parse(ParseError);
    assert_eq!(
        "provided string was not `{CIRCLE}` or `{CROSS}`",
        parse.message()
    );
}
