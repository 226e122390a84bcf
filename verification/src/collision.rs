//! What the ball runs into: the two walls and the two paddles.

use crate::court::{
    BALL_SIZE, COURT_HEIGHT, DEFLECTION_SPAN, MAX_DEFLECTION, MIN_LEAN, PADDLE_HEIGHT,
    PADDLE_WIDTH, POSITION_LIMIT,
};
use crate::entity::{Ball, BallView, Paddle, PaddleView, VelocityView};
use crate::fixed::{clamp, clamp_to, lemma_square_strictly_monotonic, magnitude, trunc_div, ONE};
use crate::vector::{
    lemma_fine_length, lemma_flip_keeps_length, lemma_normalized_components,
    lemma_normalized_is_unit, lemma_unit_components_bounded, Vector, VectorView,
};
use vstd::arithmetic::div_mod::lemma_fundamental_div_mod;
use vstd::prelude::*;

verus! {

/// Whether the box of the ball around `ball` and the box of a paddle around
/// `paddle` have a point in common. Boxes that only touch do overlap.
pub open spec fn overlaps(ball: VectorView, paddle: VectorView) -> bool {
    &&& ball.x - BALL_SIZE / 2 <= paddle.x + PADDLE_WIDTH / 2
    &&& ball.x + BALL_SIZE / 2 >= paddle.x - PADDLE_WIDTH / 2
    &&& ball.y - BALL_SIZE / 2 <= paddle.y + PADDLE_HEIGHT / 2
    &&& ball.y + BALL_SIZE / 2 >= paddle.y - PADDLE_HEIGHT / 2
}

/// The ball after the walls have had their say: a ball beyond a wall is put
/// back on it and sent the other way; any other ball is left alone.
pub open spec fn wall_bounce(b: BallView) -> BallView {
    if b.position.y > COURT_HEIGHT {
        BallView {
            position: VectorView { x: b.position.x, y: COURT_HEIGHT as int },
            velocity: VelocityView {
                direction: b.velocity.direction.flip_y(),
                speed: b.velocity.speed,
            },
            initial: b.initial,
        }
    } else if b.position.y < -COURT_HEIGHT {
        BallView {
            position: VectorView { x: b.position.x, y: -COURT_HEIGHT as int },
            velocity: VelocityView {
                direction: b.velocity.direction.flip_y(),
                speed: b.velocity.speed,
            },
            initial: b.initial,
        }
    } else {
        b
    }
}

/// Where a ball at `ball_x` is put when it hits a paddle at `paddle_x`: just
/// clear of the paddle, on the side that the centre of the ball is on.
pub open spec fn push_out(ball_x: int, paddle_x: int) -> int {
    if ball_x < paddle_x {
        paddle_x - (PADDLE_WIDTH / 2 + BALL_SIZE / 2)
    } else {
        paddle_x + (PADDLE_WIDTH / 2 + BALL_SIZE / 2)
    }
}

/// The vertical component that a hit gives the ball: the more off-centre the
/// hit, the steeper, up to a limit.
pub open spec fn deflection(ball_y: int, paddle_y: int) -> int {
    clamp(
        trunc_div(ball_y - paddle_y, DEFLECTION_SPAN as int),
        -MAX_DEFLECTION as int,
        MAX_DEFLECTION as int,
    )
}

/// The direction of a ball that came with `direction` and hit a paddle
/// `paddle_y` high at the height `ball_y`: turned round, deflected, and
/// scaled to length 1. Should that leave no direction at all, the ball keeps
/// the one it came with.
pub open spec fn rebound(direction: VectorView, ball_y: int, paddle_y: int) -> VectorView {
    let aim = VectorView { x: -direction.x, y: deflection(ball_y, paddle_y) };
    if aim.is_zero() {
        direction
    } else {
        aim.normalized()
    }
}

/// The ball after it has hit a paddle at `paddle`.
pub open spec fn paddle_bounce(b: BallView, paddle: VectorView) -> BallView {
    BallView {
        position: VectorView { x: push_out(b.position.x, paddle.x), y: b.position.y },
        velocity: VelocityView {
            direction: rebound(b.velocity.direction, b.position.y, paddle.y),
            speed: b.velocity.speed,
        },
        initial: b.initial,
    }
}

/// The ball after the paddles have had their say. The left paddle is asked
/// first, and a ball that hits it does not hit the right one as well.
pub open spec fn collide(b: BallView, left: PaddleView, right: PaddleView) -> BallView {
    if overlaps(b.position, left.position) {
        paddle_bounce(b, left.position)
    } else if overlaps(b.position, right.position) {
        paddle_bounce(b, right.position)
    } else {
        b
    }
}

/// A wall leaves the ball a direction of length 1 and puts it between the
/// walls.
pub proof fn lemma_wall_bounce(b: BallView)
    requires
        b.velocity.wf(),
    ensures
        wall_bounce(b).velocity.wf(),
        wall_bounce(b).velocity.speed == b.velocity.speed,
        -COURT_HEIGHT <= wall_bounce(b).position.y <= COURT_HEIGHT,
        wall_bounce(b).position.x == b.position.x,
{
    lemma_flip_keeps_length(b.velocity.direction);
}

/// A paddle leaves the ball a direction of length 1.
pub proof fn lemma_rebound_is_unit(direction: VectorView, ball_y: int, paddle_y: int)
    requires
        direction.is_unit(),
    ensures
        rebound(direction, ball_y, paddle_y).is_unit(),
{
    let aim = VectorView { x: -direction.x, y: deflection(ball_y, paddle_y) };
    if !aim.is_zero() {
        lemma_normalized_is_unit(aim);
    }
}

/// A ball that came leaning sideways by `MIN_LEAN` or more leaves a paddle
/// leaning as much toward the side that it came from, however steep the hit:
/// the deflection is too limited to stand the ball up. Such a ball always
/// leaves with a new direction.
pub proof fn lemma_rebound_keeps_lean(direction: VectorView, ball_y: int, paddle_y: int)
    requires
        magnitude(direction.x) >= MIN_LEAN,
    ensures
        magnitude(rebound(direction, ball_y, paddle_y).x) >= MIN_LEAN,
        direction.x > 0 ==> rebound(direction, ball_y, paddle_y).x <= -MIN_LEAN,
        direction.x < 0 ==> rebound(direction, ball_y, paddle_y).x >= MIN_LEAN,
        rebound(direction, ball_y, paddle_y) == (VectorView {
            x: -direction.x,
            y: deflection(ball_y, paddle_y),
        }).normalized(),
{
    let aim = VectorView { x: -direction.x, y: deflection(ball_y, paddle_y) };
    let n: int = aim.fine_length();
    lemma_fine_length(aim);
    lemma_normalized_components(aim);
    let a: int = magnitude(aim.x);
    let b: int = magnitude(aim.y);
    let p: int = a * ONE * ONE;
    let m: int = MIN_LEAN as int;
    let q: int = aim.norm_sq() * ONE * ONE;
    assert(9 * (b * b) <= 16 * (a * a)) by (nonlinear_arith)
        requires
            0 <= b <= 800_000,
            600_000 <= a,
    ;
    assert(aim.norm_sq() == a * a + b * b) by (nonlinear_arith)
        requires
            aim.norm_sq() == aim.x * aim.x + aim.y * aim.y,
            a == magnitude(aim.x),
            b == magnitude(aim.y),
    ;
    assert((m * n) * (m * n) <= p * p) by (nonlinear_arith)
        requires
            m == 600_000,
            ONE == 1_000_000,
            p == a * ONE * ONE,
            q == (a * a + b * b) * ONE * ONE,
            0 <= n,
            n * n <= q,
            9 * (b * b) <= 16 * (a * a),
    ;
    assert(0 <= m * n && 0 <= p) by (nonlinear_arith)
        requires
            m == 600_000,
            0 <= n,
            p == a * ONE * ONE,
            0 <= a,
    ;
    if m * n > p {
        lemma_square_strictly_monotonic(p, m * n);
    }
    let w: int = p / n;
    lemma_fundamental_div_mod(p, n);
    if w < m {
        assert(n * w + n <= m * n) by (nonlinear_arith)
            requires
                w + 1 <= m,
                0 < n,
        ;
    }
}

/// A hit turns the ball round: unless it came straight up or down, it leaves
/// toward the side that it came from.
pub proof fn lemma_rebound_turns(direction: VectorView, ball_y: int, paddle_y: int)
    ensures
        direction.x > 0 ==> rebound(direction, ball_y, paddle_y).x <= 0,
        direction.x < 0 ==> rebound(direction, ball_y, paddle_y).x >= 0,
{
    let aim = VectorView { x: -direction.x, y: deflection(ball_y, paddle_y) };
    if !aim.is_zero() {
        lemma_normalized_components(aim);
    }
}

/// Tells whether the ball at `ball` and a paddle at `paddle` overlap.
pub fn check_paddle_collision(ball: &Vector, paddle: &Vector) -> (hit: bool)
    ensures
        hit == overlaps(ball@, paddle@),
{
    let ball_half: i128 = (BALL_SIZE / 2) as i128;
    let half_width: i128 = (PADDLE_WIDTH / 2) as i128;
    let half_height: i128 = (PADDLE_HEIGHT / 2) as i128;
    let bx: i128 = ball.x as i128;
    let by: i128 = ball.y as i128;
    let px: i128 = paddle.x as i128;
    let py: i128 = paddle.y as i128;
    bx - ball_half <= px + half_width && bx + ball_half >= px - half_width && by - ball_half <= py
        + half_height && by + ball_half >= py - half_height
}

/// Bounces the ball off a wall, if it is beyond one.
pub fn bounce_off_walls(ball: &mut Ball)
    requires
        old(ball).velocity.wf(),
    ensures
        final(ball)@ == wall_bounce(old(ball)@),
        final(ball).velocity.wf(),
        -COURT_HEIGHT <= final(ball).position.y <= COURT_HEIGHT,
{
    proof {
        lemma_wall_bounce(ball@);
        lemma_unit_components_bounded(ball.velocity.direction@);
    }
    if ball.position.y > COURT_HEIGHT {
        ball.position.y = COURT_HEIGHT;
        ball.velocity.direction.y = -ball.velocity.direction.y;
    } else if ball.position.y < -COURT_HEIGHT {
        ball.position.y = -COURT_HEIGHT;
        ball.velocity.direction.y = -ball.velocity.direction.y;
    }
}

/// Bounces the ball off a paddle that it has hit.
pub fn bounce_off_paddle(ball: &mut Ball, paddle: &Paddle)
    requires
        old(ball).velocity.wf(),
        -POSITION_LIMIT <= paddle.position.x <= POSITION_LIMIT,
    ensures
        final(ball)@ == paddle_bounce(old(ball)@, paddle.position@),
        final(ball).velocity.wf(),
{
    proof {
        lemma_unit_components_bounded(ball.velocity.direction@);
        lemma_rebound_is_unit(
            ball.velocity.direction@,
            ball.position.y as int,
            paddle.position.y as int,
        );
    }
    let clearance: i64 = PADDLE_WIDTH / 2 + BALL_SIZE / 2;
    if ball.position.x < paddle.position.x {
        ball.position.x = paddle.position.x - clearance;
    } else {
        ball.position.x = paddle.position.x + clearance;
    }
    let offset: i128 = ball.position.y as i128 - paddle.position.y as i128;
    let steepness: i64 = clamp_to(offset / DEFLECTION_SPAN as i128, -MAX_DEFLECTION, MAX_DEFLECTION);
    let aim = Vector { x: -ball.velocity.direction.x, y: steepness };
    match aim.normalize() {
        Some(direction) => {
            ball.velocity.direction = direction;
        },
        None => {},
    }
}

} // verus!
