use tictactoe::board;
use tictactoe::Board;
use tictactoe::Mark;

const CIRCLE: &str = "○";
const CROSS: &str = "☓";

#[test]
fn board_encode_empty_ok() {
    let board = Board::default();
    let mut buffer = String::default();

    board::encode_by_ref(&board, &mut buffer);

    let expected = "         ";
    assert_eq!(expected, buffer);
}

#[test]
fn board_encode_some_ok() {
    let mut board = Board::default();
    board.mark(0, 0, Mark::Circle);
    board.mark(1, 1, Mark::Cross);
    board.mark(2, 0, Mark::Circle);
    board.mark(1, 0, Mark::Cross);
    let mut buffer = String::default();

    board::encode_by_ref(&board, &mut buffer);

    let expected = format!("{CIRCLE}  {CROSS}{CROSS} {CIRCLE}  ");
    assert_eq!(expected, buffer);
}

#[test]
fn board_encode_full_ok() {
    let mut board = Board::default();
    board.mark(0, 0, Mark::Circle);
    board.mark(1, 1, Mark::Cross);
    board.mark(2, 0, Mark::Circle);
    board.mark(1, 0, Mark::Cross);
    board.mark(1, 2, Mark::Circle);
    board.mark(0, 1, Mark::Cross);
    board.mark(2, 1, Mark::Circle);
    board.mark(2, 2, Mark::Cross);
    board.mark(0, 2, Mark::Circle);
    let mut buffer = String::default();

    board::encode_by_ref(&board, &mut buffer);

    let expected =
        format!("{CIRCLE}{CROSS}{CIRCLE}{CROSS}{CROSS}{CIRCLE}{CIRCLE}{CIRCLE}{CROSS}");
    assert_eq!(expected, buffer);
}

#[test]
fn board_decode_empty_ok() {
    let value = "         ";

    let result = board::decode(value).unwrap();

    let expected = Board::default();
    assert_eq!(expected, result);
}

#[test]
fn board_decode_some_ok() {
    let value = format!("{CIRCLE}  {CROSS}{CROSS} {CIRCLE}  ");

    let result = board::decode(value.as_str()).unwrap();

    let mut expected = Board::default();
    expected.mark(0, 0, Mark::Circle);
    expected.mark(1, 1, Mark::Cross);
    expected.mark(2, 0, Mark::Circle);
    expected.mark(1, 0, Mark::Cross);
    assert_eq!(expected, result);
}

#[test]
fn board_decode_full_ok() {
    let value = format!("{CIRCLE}{CROSS}{CIRCLE}{CROSS}{CROSS}{CIRCLE}{CIRCLE}{CIRCLE}{CROSS}");

    let result = board::decode(value.as_str()).unwrap();

    let mut expected = Board::default();
    expected.mark(0, 0, Mark::Circle);
    expected.mark(1, 1, Mark::Cross);
    expected.mark(2, 0, Mark::Circle);
    expected.mark(1, 0, Mark::Cross);
    expected.mark(1, 2, Mark::Circle);
    expected.mark(0, 1, Mark::Cross);
    expected.mark(2, 1, Mark::Circle);
    expected.mark(2, 2, Mark::Cross);
    expected.mark(0, 2, Mark::Circle);
    assert_eq!(expected, result);
}

#[test]
fn decode_mars_err() {
    let value = format!("♂");

    let result = board::decode(value.as_str());

    assert!(result.is_err());
}

#[test]
fn board_at_and_full_ok() {
    let mut board = Board::default();
    assert_eq!(None, board.at(0, 0));
    assert!(!board.full());

    board.mark(0, 0, Mark::Circle);
    assert_eq!(Some(Mark::Circle), board.at(0, 0));
    assert!(!board.full());

    for row in 0..3 {
        for column in 0..3 {
            board.mark(row, column, Mark::Cross);
        }
    }
    assert!(board.full());
    assert_eq!(Some(Mark::Cross), board.at(0, 0));
}

#[test]
fn board_render_empty_ok() {
    let board = Board::default();

    let rendered = board.render();

    let expected = "┌─┬─┬─┐\n│ │ │ │\n├─┼─┼─┤\n│ │ │ │\n├─┼─┼─┤\n│ │ │ │\n└─┴─┴─┘\n";
    assert_eq!(expected, rendered);
}

#[test]
fn board_render_some_ok() {
    let mut board = Board::default();
    board.mark(0, 0, Mark::Circle);
    board.mark(1, 1, Mark::Cross);

    let rendered = board.render();

    let expected = format!(
        "┌─┬─┬─┐\n│{CIRCLE}│ │ │\n├─┼─┼─┤\n│ │{CROSS}│ │\n├─┼─┼─┤\n│ │ │ │\n└─┴─┴─┘\n"
    );
    assert_eq!(expected, rendered);
}
