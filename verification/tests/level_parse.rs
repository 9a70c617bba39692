use snake_core::common::Position;
use snake_core::game::SnakeGame;

#[test]
fn empty_text_is_rejected() {
    assert!(SnakeGame::from_str("").is_err());
    assert!(SnakeGame::from_str("\n\n\n").is_err());
}

#[test]
fn dimension_line_must_be_two_numbers() {
    assert!(SnakeGame::from_str("9\n").is_err());
    assert!(SnakeGame::from_str("9;8\n").is_err());
    assert!(SnakeGame::from_str("a,8\n").is_err());
    assert!(SnakeGame::from_str("9,\n").is_err());
    assert!(SnakeGame::from_str(",8\n").is_err());
    // a sign is not a digit
    assert!(SnakeGame::from_str("+9,8\nwwwwwwwww\n").is_err());
}

#[test]
fn zero_dimensions_are_rejected() {
    assert!(SnakeGame::from_str("0,8\n").is_err());
    assert!(SnakeGame::from_str("9,0\n").is_err());
}

#[test]
fn oversized_numbers_are_rejected() {
    let s = "99999999999999999999999999999999999999,8\nw\n";
    assert!(SnakeGame::from_str(s).is_err());
}

#[test]
fn map_must_have_enough_rows_and_columns() {
    // too few rows
    assert!(SnakeGame::from_str("3,2\nwww\n1,1\n1,1").is_err());
    // a row shorter than the declared width
    assert!(SnakeGame::from_str("3,2\nwww\nww\n1,1\n1,1").is_err());
}

#[test]
fn only_space_and_w_are_map_cells() {
    assert!(SnakeGame::from_str("3,2\nwww\nwxw\n1,1\n1,1").is_err());
}

#[test]
fn food_and_snake_lines_are_required() {
    assert!(SnakeGame::from_str("3,2\nwww\nwww\n").is_err());
    assert!(SnakeGame::from_str("3,2\nwww\nwww\n1,1\n").is_err());
    // an empty piece in the snake list is not a pair
    assert!(SnakeGame::from_str("3,2\nwww\nwww\n1,1\n1,1;").is_err());
}

#[test]
fn minimal_level_parses_to_the_declared_state() {
    let s = "3,3\nwww\nw w\nwww\n1,1\n1,1";
    let game = SnakeGame::from_str(s).unwrap();
    assert_eq!(game.dimension(), (3, 3));
    let snapshot = game.snapshot();
    assert_eq!(snapshot.snake, vec![Position::new(1, 1)]);
    assert_eq!(snapshot.food, Position::new(1, 1));
    assert!(game.on_walls(&Position::new(0, 0)));
    assert!(!game.on_walls(&Position::new(1, 1)));
}

#[test]
fn blank_lines_and_extra_row_characters_are_ignored() {
    let s = "\n3,2\n\nwww extra\nw w also extra\n\n\n0,1\n1,1;1,0\n\nleftover text is ignored\n";
    let game = SnakeGame::from_str(s).unwrap();
    assert_eq!(game.dimension(), (3, 2));
    let snapshot = game.snapshot();
    assert_eq!(snapshot.snake, vec![Position::new(1, 1), Position::new(1, 0)]);
    assert_eq!(snapshot.food, Position::new(0, 1));
    // the cell at (1, 1) comes from the second map row
    assert!(!game.on_walls(&Position::new(1, 1)));
    assert!(game.on_walls(&Position::new(0, 1)));
}

#[test]
fn carriage_returns_are_stripped() {
    let s = "3,3\r\nwww\r\nw w\r\nwww\r\n1,1\r\n1,1\r\n";
    let game = SnakeGame::from_str(s).unwrap();
    assert_eq!(game.dimension(), (3, 3));
    assert_eq!(game.snapshot().snake, vec![Position::new(1, 1)]);
}
