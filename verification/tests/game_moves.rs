use snake_core::common::{Direction, Position};
use snake_core::game::{SnakeError, SnakeGame};

fn create_game() -> SnakeGame {
    let s = r#"
9,8
wwwwwwwww
w       w
w       w
w       w
w       w
w       w
w       w
wwwwwwwww
4,4
2,2;2,1"#;
    SnakeGame::from_str(s).unwrap()
}

#[test]
fn test_snake_should_move_till_wall() {
    let mut game = create_game();

    let result = game.play(Direction::Up);
    assert!(result.is_ok());
    let result = game.play(Direction::Up);
    assert!(result.is_ok());
    let result = game.play(Direction::Up);
    assert!(result.is_ok());
    let result = game.play(Direction::Up);
    assert!(result.is_ok());
    let result = game.play(Direction::Up);
    assert!(result.is_err());
    assert_eq!(
        result.err().unwrap(),
        SnakeError::OnWall(Position::new(2, 7))
    );
}

#[test]
fn test_snake_should_move_changing_direction() {
    let mut game = create_game();

    let snapshot = game.play(Direction::Up).unwrap();
    assert_eq!(snapshot.snake[0], Position::new(2, 3));
    assert_eq!(snapshot.snake[1], Position::new(2, 2));
    assert_eq!(snapshot.snake.len(), 2);
    let snapshot = game.play(Direction::Left).unwrap();
    assert_eq!(snapshot.snake[0], Position::new(1, 3));
    assert_eq!(snapshot.snake[1], Position::new(2, 3));
    assert_eq!(snapshot.snake.len(), 2);
    let snapshot = game.play(Direction::Down).unwrap();
    assert_eq!(snapshot.snake[0], Position::new(1, 2));
    assert_eq!(snapshot.snake[1], Position::new(1, 3));
    assert_eq!(snapshot.snake.len(), 2);
}

#[test]
fn test_snake_eats_increasing_length() {
    let mut game = create_game();

    _ = game.play(Direction::Up).unwrap();
    let snapshot = game.play(Direction::Up).unwrap();
    assert_eq!(snapshot.snake[0], Position::new(2, 4));
    assert_eq!(snapshot.snake.len(), 2);

    _ = game.play(Direction::Right).unwrap();
    let snapshot = game.play(Direction::Right).unwrap();
    assert_eq!(snapshot.snake[0], Position::new(4, 4));
    assert_eq!(snapshot.snake.len(), 2);

    let snapshot = game.play(Direction::Right).unwrap();
    assert_eq!(snapshot.snake[0], Position::new(5, 4));
    assert_eq!(snapshot.snake[1], Position::new(4, 4));
    assert_eq!(snapshot.snake[2], Position::new(3, 4));
    assert_eq!(snapshot.snake.len(), 3);

    let snapshot = game.play(Direction::Right).unwrap();
    assert_eq!(snapshot.snake[0], Position::new(6, 4));
    assert_eq!(snapshot.snake[1], Position::new(5, 4));
    assert_eq!(snapshot.snake[2], Position::new(4, 4));
    assert_eq!(snapshot.snake.len(), 3);
}
