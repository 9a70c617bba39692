use snake_core::common::{Direction, Position};
use snake_core::game::{SnakeError, SnakeGame};

fn create_game() -> SnakeGame {
    let s = r#"
9,8
wwwwwwwww
w       w
w       w
w       w
w       w
w       w
w       w
wwwwwwwww
4,4
2,2;2,1"#;
    SnakeGame::from_str(s).unwrap()
}

#[test]
fn snapshot_reproduces_declared_level() {
    let game = create_game();
    let snapshot = game.snapshot();
    assert_eq!(snapshot.snake, vec![Position::new(2, 2), Position::new(2, 1)]);
    assert_eq!(snapshot.food, Position::new(4, 4));
    assert!(!snapshot.food_ate);
}

#[test]
fn dimension_and_walls_match_the_level() {
    let game = create_game();
    assert_eq!(game.dimension(), (9, 8));
    assert!(game.on_walls(&Position::new(0, 0)));
    assert!(game.on_walls(&Position::new(8, 0)));
    assert!(game.on_walls(&Position::new(2, 7)));
    assert!(!game.on_walls(&Position::new(1, 1)));
    assert!(!game.on_walls(&Position::new(4, 4)));
    // out of bounds counts as a wall
    assert!(game.on_walls(&Position::new(9, 1)));
    assert!(game.on_walls(&Position::new(1, 8)));
}

#[test]
fn direction_allows_rejects_exact_reversal_only() {
    assert!(!Direction::Up.allows(&Direction::Down));
    assert!(!Direction::Down.allows(&Direction::Up));
    assert!(!Direction::Left.allows(&Direction::Right));
    assert!(!Direction::Right.allows(&Direction::Left));
    assert!(Direction::Up.allows(&Direction::Up));
    assert!(Direction::Up.allows(&Direction::Left));
    assert!(Direction::Up.allows(&Direction::Right));
    assert!(Direction::Left.allows(&Direction::Up));
    assert!(Direction::Left.allows(&Direction::Down));
}

#[test]
fn position_new_sets_both_coordinates() {
    let p = Position::new(3, 5);
    assert_eq!(p.x, 3);
    assert_eq!(p.y, 5);
}

#[test]
fn reversal_request_is_ignored_and_motion_continues() {
    // the initial direction is Up, so Down is an illegal reversal
    let mut game = create_game();
    let snapshot = game.play(Direction::Down).unwrap();
    assert_eq!(snapshot.snake[0], Position::new(2, 3));
    assert_eq!(snapshot.snake[1], Position::new(2, 2));

    // still ignored after the direction has changed: a Right request while
    // heading Left keeps the snake moving left, into the wall column
    let snapshot = game.play(Direction::Left).unwrap();
    assert_eq!(snapshot.snake[0], Position::new(1, 3));
    let result = game.play(Direction::Right);
    assert_eq!(result.err().unwrap(), SnakeError::OnWall(Position::new(0, 3)));
}

#[test]
fn eating_reports_the_tick_and_places_fresh_food() {
    let mut game = create_game();
    _ = game.play(Direction::Up).unwrap();
    let snapshot = game.play(Direction::Up).unwrap();
    assert!(!snapshot.food_ate);
    _ = game.play(Direction::Right).unwrap();
    let snapshot = game.play(Direction::Right).unwrap();

    // the head landed exactly on the food
    assert_eq!(snapshot.snake[0], Position::new(4, 4));
    assert!(snapshot.food_ate);
    // length grows only on the next tick
    assert_eq!(snapshot.snake.len(), 2);

    // the new food lies on a free cell: on the board, not on a wall and
    // not under the snake
    assert!(!game.on_walls(&snapshot.food));
    assert!(!snapshot.snake.contains(&snapshot.food));

    // the next tick reports food_ate only if it lands on the new food
    let previous_food = snapshot.food;
    let snapshot = game.play(Direction::Right).unwrap();
    assert_eq!(snapshot.snake.len(), 3);
    assert_eq!(snapshot.food_ate, snapshot.snake[0] == previous_food);
}

#[test]
fn self_collision_is_reported_with_the_position() {
    // a level whose snake curls around the cell above its head: moving up
    // runs into the segment at (2,3), which the shift does not vacate
    let s = r#"
9,8
wwwwwwwww
w       w
w       w
w       w
w       w
w       w
w       w
wwwwwwwww
6,6
2,2;1,2;1,3;2,3;3,3"#;
    let mut game = SnakeGame::from_str(s).unwrap();
    let result = game.play(Direction::Up);
    assert_eq!(result.err().unwrap(), SnakeError::OnSnake(Position::new(2, 3)));
}

#[test]
fn errors_are_not_latched_and_keep_the_committed_head() {
    let mut game = create_game();
    for _ in 0..4 {
        assert!(game.play(Direction::Up).is_ok());
    }
    // the failing tick still commits the head move
    assert_eq!(
        game.play(Direction::Up).err().unwrap(),
        SnakeError::OnWall(Position::new(2, 7))
    );
    // the engine happily computes the next move from the wall cell
    assert_eq!(
        game.play(Direction::Up).err().unwrap(),
        SnakeError::OnWall(Position::new(2, 8))
    );
}

#[test]
fn identical_seeds_give_identical_runs() {
    let directions = [
        Direction::Up,
        Direction::Up,
        Direction::Right,
        Direction::Right,
        Direction::Right,
        Direction::Up,
        Direction::Left,
    ];

    fastrand::seed(1234567);
    let mut first = create_game();
    let first_run: Vec<_> = directions.iter().map(|d| first.play(*d)).collect();

    fastrand::seed(1234567);
    let mut second = create_game();
    let second_run: Vec<_> = directions.iter().map(|d| second.play(*d)).collect();

    assert_eq!(first_run.len(), second_run.len());
    for (a, b) in first_run.iter().zip(second_run.iter()) {
        match (a, b) {
            (Ok(sa), Ok(sb)) => {
                assert_eq!(sa.snake, sb.snake);
                assert_eq!(sa.food, sb.food);
                assert_eq!(sa.food_ate, sb.food_ate);
            }
            (Err(ea), Err(eb)) => assert_eq!(ea, eb),
            _ => panic!("the two runs diverged"),
        }
    }
}
