use bevy_pong::court::{
    AI_SPEED, BALL_SIZE, BALL_SPEED, COURT_HEIGHT, COURT_WIDTH, PADDLE_HEIGHT, PADDLE_REACH,
    PADDLE_WIDTH, PLAYER_SPEED, POSITION_LIMIT, SPEED_LIMIT,
};
use bevy_pong::entity::{
    is_in_range, spawn_game_elements, spawn_player, Ball, Entities, InitialTransform, Paddle,
    PaddleSide, Score, Velocity,
};
use bevy_pong::vector::Vector;

#[test]
fn court_constants() {
    assert_eq!(COURT_HEIGHT, 300_000_000);
    assert_eq!(COURT_WIDTH, 600_000_000);
    assert_eq!(PADDLE_REACH, COURT_HEIGHT - PADDLE_HEIGHT / 2);
    assert_eq!(PADDLE_REACH, 250_000_000);
    assert_eq!(BALL_SIZE, 20_000_000);
    assert_eq!(PADDLE_WIDTH, 20_000_000);
    assert_eq!(PADDLE_HEIGHT, 100_000_000);
    assert_eq!(PLAYER_SPEED, 500);
    assert_eq!(AI_SPEED, 250);
    assert_eq!(BALL_SPEED, 550);
}

#[test]
fn ball_spawns_in_the_middle_about_to_be_served() {
    let ball = Ball::spawn();
    assert_eq!(ball.position, Vector { x: 0, y: 0 });
    assert_eq!(ball.initial, InitialTransform(Vector { x: 0, y: 0 }));
    assert_eq!(ball.velocity.direction, Vector { x: -970_142, y: 242_535 });
    assert_eq!(ball.velocity.speed, 550);
    assert!(ball.is_valid());
}

#[test]
fn serve_is_the_normalized_aim() {
    let serve = Velocity::serve();
    assert_eq!(Some(serve.direction), Vector::new(-1_000_000, 250_000).normalize());
    assert_eq!(serve.speed, BALL_SPEED);
    assert!(serve.is_valid());
}

#[test]
fn paddles_spawn_on_their_lines() {
    let left = Paddle::spawn(PaddleSide::Left);
    assert_eq!(left.side, PaddleSide::Left);
    assert_eq!(left.position, Vector { x: -600_000_000, y: 0 });
    assert_eq!(left.initial, InitialTransform(Vector { x: -600_000_000, y: 0 }));
    assert!(left.is_valid());
    let right = Paddle::spawn(PaddleSide::Right);
    assert_eq!(right.side, PaddleSide::Right);
    assert_eq!(right.position, Vector { x: 600_000_000, y: 0 });
    assert_eq!(right.initial, InitialTransform(Vector { x: 600_000_000, y: 0 }));
    assert!(right.is_valid());
}

#[test]
fn spawn_player_gives_the_left_paddle() {
    assert_eq!(spawn_player(), Paddle::spawn(PaddleSide::Left));
}

#[test]
fn spawn_game_elements_gives_the_ball_and_the_right_paddle() {
    let (ball, right) = spawn_game_elements();
    assert_eq!(ball, Ball::spawn());
    assert_eq!(right, Paddle::spawn(PaddleSide::Right));
}

#[test]
fn entities_spawn_together() {
    let entities = Entities::spawn();
    assert_eq!(entities.ball, Ball::spawn());
    assert_eq!(entities.left, Paddle::spawn(PaddleSide::Left));
    assert_eq!(entities.right, Paddle::spawn(PaddleSide::Right));
    assert!(entities.is_valid());
}

#[test]
fn entities_reset_goes_back_to_the_spawn() {
    let mut entities = Entities::spawn();
    entities.ball.position = Vector { x: 601_000_000, y: -123_456_789 };
    entities.ball.velocity.direction = Vector { x: 600_000, y: -800_000 };
    entities.left.position.y = 250_000_000;
    entities.right.position.y = -17;
    entities.reset();
    assert_eq!(entities, Entities::spawn());
}

#[test]
fn entities_reset_goes_back_to_the_recorded_places() {
    let mut entities = Entities::spawn();
    entities.ball.initial = InitialTransform(Vector { x: 5, y: 6 });
    entities.ball.velocity.speed = 7;
    entities.left.initial = InitialTransform(Vector { x: -600_000_000, y: 8 });
    entities.reset();
    assert_eq!(entities.ball.position, Vector { x: 5, y: 6 });
    assert_eq!(entities.ball.initial, InitialTransform(Vector { x: 5, y: 6 }));
    assert_eq!(entities.ball.velocity, Velocity::serve());
    assert_eq!(entities.left.position, Vector { x: -600_000_000, y: 8 });
    assert_eq!(entities.right, Paddle::spawn(PaddleSide::Right));
}

#[test]
fn entities_with_swapped_paddles_are_not_valid() {
    let mut entities = Entities::spawn();
    entities.left.side = PaddleSide::Right;
    assert!(!entities.is_valid());
    let mut entities = Entities::spawn();
    entities.right.side = PaddleSide::Left;
    assert!(!entities.is_valid());
}

#[test]
fn is_in_range_ends_at_the_limit() {
    assert!(is_in_range(&Vector { x: POSITION_LIMIT, y: -POSITION_LIMIT }));
    assert!(!is_in_range(&Vector { x: POSITION_LIMIT + 1, y: 0 }));
    assert!(!is_in_range(&Vector { x: 0, y: -POSITION_LIMIT - 1 }));
    assert!(!is_in_range(&Vector { x: i64::MIN, y: i64::MAX }));
}

#[test]
fn velocity_is_valid_with_a_unit_direction_and_a_moderate_speed() {
    let unit = Vector { x: 0, y: 1_000_000 };
    assert!(Velocity { direction: unit, speed: 0 }.is_valid());
    assert!(Velocity { direction: unit, speed: SPEED_LIMIT }.is_valid());
    assert!(!Velocity { direction: unit, speed: SPEED_LIMIT + 1 }.is_valid());
    assert!(!Velocity { direction: Vector { x: 0, y: 0 }, speed: 550 }.is_valid());
    assert!(!Velocity { direction: Vector { x: -1_000_000, y: 250_000 }, speed: 550 }.is_valid());
}

#[test]
fn ball_is_valid_within_the_limit() {
    let mut ball = Ball::spawn();
    ball.position = Vector { x: POSITION_LIMIT, y: -POSITION_LIMIT };
    assert!(ball.is_valid());
    ball.position.x = POSITION_LIMIT + 1;
    assert!(!ball.is_valid());
    let mut ball = Ball::spawn();
    ball.initial = InitialTransform(Vector { x: 0, y: POSITION_LIMIT + 1 });
    assert!(!ball.is_valid());
    let mut ball = Ball::spawn();
    ball.velocity.direction = Vector { x: 1, y: 1 };
    assert!(!ball.is_valid());
}

#[test]
fn paddle_is_valid_on_its_line_and_within_reach() {
    let mut paddle = Paddle::spawn(PaddleSide::Left);
    paddle.position.y = PADDLE_REACH;
    assert!(paddle.is_valid());
    paddle.position.y = PADDLE_REACH + 1;
    assert!(!paddle.is_valid());
    paddle.position.y = -PADDLE_REACH;
    assert!(paddle.is_valid());
    paddle.position.y = -PADDLE_REACH - 1;
    assert!(!paddle.is_valid());
    let mut paddle = Paddle::spawn(PaddleSide::Left);
    paddle.position.x += 1;
    assert!(!paddle.is_valid());
    let mut paddle = Paddle::spawn(PaddleSide::Right);
    paddle.initial = InitialTransform(Vector { x: 600_000_000, y: PADDLE_REACH + 1 });
    assert!(!paddle.is_valid());
}

#[test]
fn score_starts_at_zero() {
    let score = Score::new();
    assert_eq!(score, Score { player: 0, computer: 0 });
    assert_eq!(Score::default(), score);
    assert!(!score.has_points());
}

#[test]
fn score_has_points_once_either_side_has_won() {
    assert!(Score { player: 1, computer: 0 }.has_points());
    assert!(Score { player: 0, computer: 1 }.has_points());
    assert!(Score { player: 3, computer: 4 }.has_points());
}

#[test]
fn score_reset_sets_both_counters_to_zero() {
    let mut score = Score { player: 3, computer: u32::MAX };
    score.reset();
    assert_eq!(score, Score::new());
}
