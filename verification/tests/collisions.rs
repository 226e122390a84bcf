use bevy_pong::collision::{bounce_off_paddle, bounce_off_walls, check_paddle_collision};
use bevy_pong::entity::{Ball, Paddle, PaddleSide};
use bevy_pong::vector::Vector;

const UNIT: i64 = 1_000_000;

fn ball_at(x: i64, y: i64, dx: i64, dy: i64) -> Ball {
    let mut ball = Ball::spawn();
    ball.position = Vector { x, y };
    ball.velocity.direction = Vector { x: dx, y: dy };
    ball
}

#[test]
fn boxes_that_touch_overlap() {
    let paddle = Vector { x: -600 * UNIT, y: 0 };
    // The ball is 10 wide on each side, the paddle 10 wide and 50 high.
    assert!(check_paddle_collision(&Vector { x: -580 * UNIT, y: 0 }, &paddle));
    assert!(check_paddle_collision(&Vector { x: -620 * UNIT, y: 0 }, &paddle));
    assert!(check_paddle_collision(&Vector { x: -600 * UNIT, y: 60 * UNIT }, &paddle));
    assert!(check_paddle_collision(&Vector { x: -600 * UNIT, y: -60 * UNIT }, &paddle));
    assert!(check_paddle_collision(&Vector { x: -580 * UNIT, y: 60 * UNIT }, &paddle));
    assert!(check_paddle_collision(&Vector { x: -620 * UNIT, y: -60 * UNIT }, &paddle));
}

#[test]
fn boxes_a_hair_apart_do_not_overlap() {
    let paddle = Vector { x: -600 * UNIT, y: 0 };
    assert!(!check_paddle_collision(&Vector { x: -580 * UNIT + 1, y: 0 }, &paddle));
    assert!(!check_paddle_collision(&Vector { x: -620 * UNIT - 1, y: 0 }, &paddle));
    assert!(!check_paddle_collision(&Vector { x: -600 * UNIT, y: 60 * UNIT + 1 }, &paddle));
    assert!(!check_paddle_collision(&Vector { x: -600 * UNIT, y: -60 * UNIT - 1 }, &paddle));
}

#[test]
fn boxes_far_apart_do_not_overlap() {
    let paddle = Vector { x: 600 * UNIT, y: 100 * UNIT };
    assert!(!check_paddle_collision(&Vector { x: 0, y: 0 }, &paddle));
    assert!(!check_paddle_collision(&Vector { x: 600 * UNIT, y: -100 * UNIT }, &paddle));
    assert!(!check_paddle_collision(&Vector { x: i64::MIN, y: i64::MAX }, &paddle));
    assert!(!check_paddle_collision(
        &Vector { x: i64::MAX, y: i64::MAX },
        &Vector { x: i64::MIN, y: i64::MIN }
    ));
}

#[test]
fn ball_inside_a_paddle_overlaps() {
    let paddle = Vector { x: 600 * UNIT, y: 100 * UNIT };
    assert!(check_paddle_collision(&paddle, &paddle));
    assert!(check_paddle_collision(&Vector { x: 605 * UNIT, y: 70 * UNIT }, &paddle));
}

#[test]
fn ball_beyond_the_upper_wall_bounces() {
    let mut ball = ball_at(0, 301 * UNIT, 0, UNIT);
    bounce_off_walls(&mut ball);
    assert_eq!(ball.position, Vector { x: 0, y: 300 * UNIT });
    assert_eq!(ball.velocity.direction, Vector { x: 0, y: -UNIT });
}

#[test]
fn ball_beyond_the_lower_wall_bounces() {
    let mut ball = ball_at(17, -300 * UNIT - 1, 600_000, -800_000);
    bounce_off_walls(&mut ball);
    assert_eq!(ball.position, Vector { x: 17, y: -300 * UNIT });
    assert_eq!(ball.velocity.direction, Vector { x: 600_000, y: 800_000 });
}

#[test]
fn ball_on_a_wall_does_not_bounce() {
    let mut ball = ball_at(0, 300 * UNIT, 600_000, 800_000);
    let before = ball;
    bounce_off_walls(&mut ball);
    assert_eq!(ball, before);
    let mut ball = ball_at(0, -300 * UNIT, 600_000, -800_000);
    let before = ball;
    bounce_off_walls(&mut ball);
    assert_eq!(ball, before);
}

#[test]
fn ball_between_the_walls_does_not_bounce() {
    let mut ball = ball_at(5, 6, -970_142, 242_535);
    let before = ball;
    bounce_off_walls(&mut ball);
    assert_eq!(ball, before);
}

#[test]
fn wall_bounce_keeps_speed_and_initial_place() {
    let mut ball = ball_at(0, 400 * UNIT, 0, UNIT);
    bounce_off_walls(&mut ball);
    assert_eq!(ball.velocity.speed, 550);
    assert_eq!(ball.initial, Ball::spawn().initial);
}

#[test]
fn ball_at_the_edge_of_the_left_paddle_is_sent_back() {
    let paddle = Paddle::spawn(PaddleSide::Left);
    let mut ball = ball_at(-590 * UNIT, 0, -UNIT, 0);
    bounce_off_paddle(&mut ball, &paddle);
    assert_eq!(ball.position, Vector { x: -580 * UNIT, y: 0 });
    assert_eq!(ball.velocity.direction, Vector { x: UNIT, y: 0 });
    assert_eq!(ball.velocity.speed, 550);
}

#[test]
fn ball_at_the_edge_of_the_right_paddle_is_sent_back() {
    let paddle = Paddle::spawn(PaddleSide::Right);
    let mut ball = ball_at(590 * UNIT, 0, UNIT, 0);
    bounce_off_paddle(&mut ball, &paddle);
    assert_eq!(ball.position, Vector { x: 580 * UNIT, y: 0 });
    assert_eq!(ball.velocity.direction, Vector { x: -UNIT, y: 0 });
}

#[test]
fn ball_behind_the_centre_of_a_paddle_is_pushed_out_behind_it() {
    let paddle = Paddle::spawn(PaddleSide::Left);
    let mut ball = ball_at(-600 * UNIT - 1, 0, -UNIT, 0);
    bounce_off_paddle(&mut ball, &paddle);
    assert_eq!(ball.position.x, -620 * UNIT);
    let mut ball = ball_at(-600 * UNIT, 0, -UNIT, 0);
    bounce_off_paddle(&mut ball, &paddle);
    assert_eq!(ball.position.x, -580 * UNIT);
}

#[test]
fn off_centre_hit_deflects_the_ball() {
    let paddle = Paddle::spawn(PaddleSide::Left);
    // 25 above the centre: a vertical component of 0.5 before scaling.
    let mut ball = ball_at(-590 * UNIT, 25 * UNIT, -UNIT, 0);
    bounce_off_paddle(&mut ball, &paddle);
    assert_eq!(ball.position, Vector { x: -580 * UNIT, y: 25 * UNIT });
    assert_eq!(ball.velocity.direction, Vector { x: 894_427, y: 447_213 });
    assert!(ball.velocity.direction.is_unit());
}

#[test]
fn deflection_is_limited() {
    let paddle = Paddle::spawn(PaddleSide::Left);
    // 55 below the centre would be -1.1; the limit is -0.8.
    let mut ball = ball_at(-590 * UNIT, -55 * UNIT, -UNIT, 0);
    bounce_off_paddle(&mut ball, &paddle);
    assert_eq!(ball.velocity.direction, Vector { x: 780_868, y: -624_695 });
    let mut ball = ball_at(-590 * UNIT, 40 * UNIT, -UNIT, 0);
    bounce_off_paddle(&mut ball, &paddle);
    assert_eq!(ball.velocity.direction, Vector { x: 780_868, y: 624_695 });
    let mut ball = ball_at(-590 * UNIT, i64::MAX, -UNIT, 0);
    bounce_off_paddle(&mut ball, &paddle);
    assert_eq!(ball.velocity.direction, Vector { x: 780_868, y: 624_695 });
}

#[test]
fn deflection_replaces_the_vertical_direction() {
    let paddle = Paddle::spawn(PaddleSide::Left);
    let mut ball = ball_at(-590 * UNIT, 0, -600_000, 800_000);
    bounce_off_paddle(&mut ball, &paddle);
    assert_eq!(ball.velocity.direction, Vector { x: UNIT, y: 0 });
}

#[test]
fn deflection_is_measured_from_the_paddle() {
    let mut paddle = Paddle::spawn(PaddleSide::Right);
    paddle.position.y = 100 * UNIT;
    let mut ball = ball_at(590 * UNIT, 125 * UNIT, UNIT, 0);
    bounce_off_paddle(&mut ball, &paddle);
    assert_eq!(ball.velocity.direction, Vector { x: -894_427, y: 447_213 });
}

#[test]
fn hit_that_leaves_no_direction_keeps_the_old_one() {
    let paddle = Paddle::spawn(PaddleSide::Left);
    let mut ball = ball_at(-590 * UNIT, 0, 0, -UNIT);
    bounce_off_paddle(&mut ball, &paddle);
    assert_eq!(ball.position, Vector { x: -580 * UNIT, y: 0 });
    assert_eq!(ball.velocity.direction, Vector { x: 0, y: -UNIT });
    // 49 millionths off centre still round to no deflection at all.
    let mut ball = ball_at(-590 * UNIT, 49, 0, UNIT);
    bounce_off_paddle(&mut ball, &paddle);
    assert_eq!(ball.velocity.direction, Vector { x: 0, y: UNIT });
}

#[test]
fn vertical_ball_hit_off_centre_takes_the_deflection() {
    let paddle = Paddle::spawn(PaddleSide::Left);
    let mut ball = ball_at(-590 * UNIT, -50, 0, UNIT);
    bounce_off_paddle(&mut ball, &paddle);
    assert_eq!(ball.velocity.direction, Vector { x: 0, y: -UNIT });
}

#[test]
fn steepest_ball_hit_at_the_steepest_stays_as_steep() {
    let paddle = Paddle::spawn(PaddleSide::Right);
    let mut ball = ball_at(590 * UNIT, 45 * UNIT, 600_000, 800_000);
    bounce_off_paddle(&mut ball, &paddle);
    assert_eq!(ball.velocity.direction, Vector { x: -600_000, y: 800_000 });
    let mut ball = ball_at(590 * UNIT, -45 * UNIT, 600_000, 800_000);
    bounce_off_paddle(&mut ball, &paddle);
    assert_eq!(ball.velocity.direction, Vector { x: -600_000, y: -800_000 });
}
