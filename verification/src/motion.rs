//! The three systems that move things: the player's paddle, the scripted
//! paddle and the ball.

use crate::collision::{
    bounce_off_paddle, bounce_off_walls, check_paddle_collision, collide, lemma_rebound_is_unit,
    lemma_rebound_keeps_lean, lemma_wall_bounce, wall_bounce,
};
use crate::court::{AI_SPEED, COURT_HEIGHT, COURT_WIDTH, MIN_LEAN, PADDLE_REACH, PLAYER_SPEED};
use crate::entity::{Ball, BallView, Paddle, PaddleSide, PaddleView, RoundEnd};
use crate::fixed::{
    clamp, clamp_to, lemma_travel_bound, magnitude, signum, travel, travel_distance,
};
use crate::vector::{lemma_unit_components_bounded, Vector, VectorView};
use vstd::prelude::*;

verus! {

/// What the player wants of the paddle, as mathematics sees it.
pub open spec fn intent_of(movement: Option<Vector>) -> Option<VectorView> {
    match movement {
        Some(v) => Some(v@),
        None => None,
    }
}

/// A paddle at the height `y`, otherwise like `p`.
pub open spec fn at_height(p: PaddleView, y: int) -> PaddleView {
    PaddleView {
        side: p.side,
        position: VectorView { x: p.position.x, y },
        initial: p.initial,
    }
}

/// The player's paddle after `dt` microseconds of the intent `intent`: it
/// moves with the vertical component of the intent and stops where its reach
/// ends. Without an intent it stays where it is.
pub open spec fn player_step(p: PaddleView, intent: Option<VectorView>, dt: int) -> PaddleView {
    match intent {
        Some(v) => at_height(
            p,
            clamp(
                p.position.y + travel(v.y, PLAYER_SPEED as int, dt),
                -PADDLE_REACH as int,
                PADDLE_REACH as int,
            ),
        ),
        None => p,
    }
}

/// How far the scripted paddle moves in `dt` microseconds.
pub open spec fn ai_stride(dt: int) -> int {
    AI_SPEED * dt
}

/// The scripted paddle after `dt` microseconds with the ball at the height
/// `ball_y`: it moves one stride toward the ball, however near the ball is,
/// and stops where its reach ends. Level with the ball it stays where it is.
pub open spec fn ai_step(p: PaddleView, ball_y: int, dt: int) -> PaddleView {
    at_height(
        p,
        clamp(
            p.position.y + signum(ball_y - p.position.y) * ai_stride(dt),
            -PADDLE_REACH as int,
            PADDLE_REACH as int,
        ),
    )
}

/// The ball after `dt` microseconds of free flight.
pub open spec fn integrate(b: BallView, dt: int) -> BallView {
    BallView {
        position: VectorView {
            x: b.position.x + travel(b.velocity.direction.x, b.velocity.speed, dt),
            y: b.position.y + travel(b.velocity.direction.y, b.velocity.speed, dt),
        },
        velocity: b.velocity,
        initial: b.initial,
    }
}

/// The ball after `dt` microseconds: it flies, then the walls and then the
/// paddles turn it back.
pub open spec fn ball_step(b: BallView, left: PaddleView, right: PaddleView, dt: int) -> BallView {
    collide(wall_bounce(integrate(b, dt)), left, right)
}

/// The signal that a ball at `b` gives: beyond the right line the left side
/// has won, beyond the left line the right side, and in between nobody yet.
pub open spec fn round_end_signal(b: BallView) -> Option<RoundEnd> {
    if b.position.x > COURT_WIDTH {
        Some(RoundEnd { winner: PaddleSide::Left })
    } else if b.position.x < -COURT_WIDTH {
        Some(RoundEnd { winner: PaddleSide::Right })
    } else {
        None
    }
}

/// A paddle that the player or the script has moved is within reach.
pub proof fn lemma_paddle_stays_in_reach(
    p: PaddleView,
    intent: Option<VectorView>,
    ball_y: int,
    dt: int,
)
    ensures
        intent.is_some() ==> -PADDLE_REACH <= player_step(p, intent, dt).position.y
            <= PADDLE_REACH,
        -PADDLE_REACH <= ai_step(p, ball_y, dt).position.y <= PADDLE_REACH,
        p.wf() ==> player_step(p, intent, dt).wf() && ai_step(p, ball_y, dt).wf(),
{
}

/// How far the paddle is from being level with a ball at the height `ball_y`.
pub open spec fn ai_gap(p: PaddleView, ball_y: int) -> int {
    magnitude(ball_y - p.position.y)
}

/// The scripted paddle after `n` ticks of `dt` microseconds each, with the
/// ball at rest at the height `ball_y`.
pub open spec fn ai_run(p: PaddleView, ball_y: int, dt: int, n: nat) -> PaddleView
    decreases n,
{
    if n == 0 {
        p
    } else {
        ai_step(ai_run(p, ball_y, dt, (n - 1) as nat), ball_y, dt)
    }
}

/// One tick of the scripted paddle, with the ball within its reach. Level
/// with the ball the paddle rests. Below the ball it does not move down, and
/// ends less than a stride above the ball; above the ball likewise. A paddle
/// a stride or more away comes a whole stride nearer; a nearer paddle ends
/// within a stride.
pub proof fn lemma_ai_step_approaches(p: PaddleView, ball_y: int, dt: int)
    requires
        p.wf(),
        -PADDLE_REACH <= ball_y <= PADDLE_REACH,
        0 <= dt,
    ensures
        ai_step(p, ball_y, dt).wf(),
        p.position.y == ball_y ==> ai_step(p, ball_y, dt) == p,
        p.position.y < ball_y ==> p.position.y <= ai_step(p, ball_y, dt).position.y < ball_y
            + ai_stride(dt),
        p.position.y > ball_y ==> ball_y - ai_stride(dt) < ai_step(p, ball_y, dt).position.y
            <= p.position.y,
        ai_gap(p, ball_y) >= ai_stride(dt) ==> ai_gap(ai_step(p, ball_y, dt), ball_y) == ai_gap(
            p,
            ball_y,
        ) - ai_stride(dt),
        ai_gap(p, ball_y) < ai_stride(dt) ==> ai_gap(ai_step(p, ball_y, dt), ball_y) <= ai_stride(
            dt,
        ) - ai_gap(p, ball_y),
{
    let stride: int = ai_stride(dt);
    let toward: int = signum(ball_y - p.position.y);
    assert(toward * stride == if toward == 1 {
        stride
    } else if toward == -1 {
        -stride
    } else {
        0
    }) by (nonlinear_arith)
        requires
            toward == 1 || toward == -1 || toward == 0,
    ;
}

/// Many ticks of the scripted paddle, with the ball at rest within its reach.
/// As long as whole strides fit into the gap, every tick closes the gap by a
/// stride; after that the gap stays within a stride.
pub proof fn lemma_ai_converges(p: PaddleView, ball_y: int, dt: int, n: nat)
    requires
        p.wf(),
        -PADDLE_REACH <= ball_y <= PADDLE_REACH,
        0 <= dt,
    ensures
        ai_run(p, ball_y, dt, n).wf(),
        n * ai_stride(dt) <= ai_gap(p, ball_y) ==> ai_gap(ai_run(p, ball_y, dt, n), ball_y)
            == ai_gap(p, ball_y) - n * ai_stride(dt),
        n * ai_stride(dt) > ai_gap(p, ball_y) ==> ai_gap(ai_run(p, ball_y, dt, n), ball_y)
            <= ai_stride(dt),
        p.position.y <= ball_y && n * ai_stride(dt) <= ai_gap(p, ball_y) ==> ai_run(
            p,
            ball_y,
            dt,
            n,
        ).position.y == p.position.y + n * ai_stride(dt),
        p.position.y >= ball_y && n * ai_stride(dt) <= ai_gap(p, ball_y) ==> ai_run(
            p,
            ball_y,
            dt,
            n,
        ).position.y == p.position.y - n * ai_stride(dt),
    decreases n,
{
    let stride: int = ai_stride(dt);
    if n == 0 {
        assert(n * stride == 0) by (nonlinear_arith)
            requires
                n == 0,
        ;
    } else {
        let before: PaddleView = ai_run(p, ball_y, dt, (n - 1) as nat);
        lemma_ai_converges(p, ball_y, dt, (n - 1) as nat);
        lemma_ai_step_approaches(before, ball_y, dt);
        assert(n * stride == (n - 1) * stride + stride) by (nonlinear_arith);
        assert(0 <= (n - 1) * stride) by (nonlinear_arith)
            requires
                n >= 1,
                stride >= 0,
        ;
    }
}

/// Once the scripted paddle is level with a ball at rest, it stays level.
pub proof fn lemma_ai_rests(p: PaddleView, ball_y: int, dt: int, n: nat)
    requires
        p.position.y == ball_y,
        -PADDLE_REACH <= ball_y <= PADDLE_REACH,
    ensures
        ai_run(p, ball_y, dt, n) == p,
    decreases n,
{
    if n > 0 {
        lemma_ai_rests(p, ball_y, dt, (n - 1) as nat);
        assert(signum(0) * ai_stride(dt) == 0) by (nonlinear_arith)
            requires
                signum(0) == 0,
        ;
    }
}

/// Running the scripted paddle for `m` ticks and then for `n` more is running
/// it for `m + n`.
pub proof fn lemma_ai_run_splits(p: PaddleView, ball_y: int, dt: int, m: nat, n: nat)
    ensures
        ai_run(p, ball_y, dt, m + n) == ai_run(ai_run(p, ball_y, dt, m), ball_y, dt, n),
    decreases n,
{
    if n > 0 {
        lemma_ai_run_splits(p, ball_y, dt, m, (n - 1) as nat);
        assert((m + n - 1) as nat == m + (n - 1) as nat);
    }
}

/// A scripted paddle whose gap to a ball at rest is a whole number `k` of
/// strides is level with the ball after `k` ticks, and from then on.
pub proof fn lemma_ai_arrives(p: PaddleView, ball_y: int, dt: int, k: nat, n: nat)
    requires
        p.wf(),
        -PADDLE_REACH <= ball_y <= PADDLE_REACH,
        0 <= dt,
        ai_gap(p, ball_y) == k * ai_stride(dt),
        n >= k,
    ensures
        ai_run(p, ball_y, dt, n).position.y == ball_y,
{
    lemma_ai_converges(p, ball_y, dt, k);
    lemma_ai_run_splits(p, ball_y, dt, k, (n - k) as nat);
    assert(k + (n - k) as nat == n);
    lemma_ai_rests(ai_run(p, ball_y, dt, k), ball_y, dt, (n - k) as nat);
}

/// A ball with a direction of length 1 has one after its step too, keeps its
/// speed, and ends the step between the walls. If it leaned sideways by
/// `MIN_LEAN` or more, it still does.
pub proof fn lemma_ball_step(b: BallView, left: PaddleView, right: PaddleView, dt: int)
    requires
        b.velocity.wf(),
    ensures
        ball_step(b, left, right, dt).velocity.wf(),
        ball_step(b, left, right, dt).velocity.speed == b.velocity.speed,
        ball_step(b, left, right, dt).initial == b.initial,
        -COURT_HEIGHT <= ball_step(b, left, right, dt).position.y <= COURT_HEIGHT,
        magnitude(b.velocity.direction.x) >= MIN_LEAN ==> magnitude(
            ball_step(b, left, right, dt).velocity.direction.x,
        ) >= MIN_LEAN,
{
    let flown = integrate(b, dt);
    lemma_wall_bounce(flown);
    let turned = wall_bounce(flown);
    lemma_rebound_is_unit(turned.velocity.direction, turned.position.y, left.position.y);
    lemma_rebound_is_unit(turned.velocity.direction, turned.position.y, right.position.y);
    if magnitude(b.velocity.direction.x) >= MIN_LEAN {
        lemma_rebound_keeps_lean(turned.velocity.direction, turned.position.y, left.position.y);
        lemma_rebound_keeps_lean(turned.velocity.direction, turned.position.y, right.position.y);
    }
}

/// Moves the player's paddle for `dt` microseconds as `movement` asks.
pub fn move_player(paddle: &mut Paddle, movement: Option<Vector>, dt: u32)
    ensures
        final(paddle)@ == player_step(old(paddle)@, intent_of(movement), dt as int),
        movement.is_some() ==> -PADDLE_REACH <= final(paddle).position.y <= PADDLE_REACH,
        old(paddle).wf() ==> final(paddle).wf(),
{
    match movement {
        Some(intent) => {
            let delta: i128 = travel_distance(intent.y, PLAYER_SPEED, dt);
            proof {
                assert(-0x8000_0000_0000_0000 * 500 * 0xffff_ffff <= intent.y * PLAYER_SPEED * dt
                    <= 0x8000_0000_0000_0000 * 500 * 0xffff_ffff) by (nonlinear_arith)
                    requires
                        -0x8000_0000_0000_0000 <= intent.y <= 0x8000_0000_0000_0000,
                        PLAYER_SPEED == 500,
                        0 <= dt <= 0xffff_ffff,
                ;
            }
            paddle.position.y = clamp_to(paddle.position.y as i128 + delta, -PADDLE_REACH, PADDLE_REACH);
        },
        None => {},
    }
}

/// Moves the scripted paddle for `dt` microseconds toward the ball.
pub fn move_ai_paddle(paddle: &mut Paddle, ball: &Ball, dt: u32)
    ensures
        final(paddle)@ == ai_step(old(paddle)@, ball.position.y as int, dt as int),
        -PADDLE_REACH <= final(paddle).position.y <= PADDLE_REACH,
        old(paddle).wf() ==> final(paddle).wf(),
{
    let gap: i128 = ball.position.y as i128 - paddle.position.y as i128;
    let stride: i128 = AI_SPEED as i128 * dt as i128;
    let here: i128 = paddle.position.y as i128;
    let moved: i128 = if gap > 0 {
        here + stride
    } else if gap < 0 {
        here - stride
    } else {
        here
    };
    assert(moved == here + signum(gap as int) * ai_stride(dt as int)) by (nonlinear_arith)
        requires
            stride == ai_stride(dt as int),
            gap > 0 ==> moved == here + stride && signum(gap as int) == 1,
            gap < 0 ==> moved == here - stride && signum(gap as int) == -1,
            gap == 0 ==> moved == here && signum(gap as int) == 0,
    ;
    paddle.position.y = clamp_to(moved, -PADDLE_REACH, PADDLE_REACH);
}

/// Moves the ball for `dt` microseconds, bounces it off the walls and the
/// paddles, and tells whether the round is over.
pub fn move_ball(ball: &mut Ball, left: &Paddle, right: &Paddle, dt: u32) -> (signal: Option<
    RoundEnd,
>)
    requires
        old(ball).wf(),
        left.wf(),
        right.wf(),
    ensures
        final(ball)@ == ball_step(old(ball)@, left@, right@, dt as int),
        signal == round_end_signal(final(ball)@),
        final(ball).velocity.wf(),
        final(ball).velocity.speed == old(ball).velocity.speed,
        final(ball).initial == old(ball).initial,
        -COURT_HEIGHT <= final(ball).position.y <= COURT_HEIGHT,
{
    proof {
        lemma_unit_components_bounded(ball.velocity.direction@);
        lemma_travel_bound(ball.velocity.direction.x as int, ball.velocity.speed as int, dt as int);
        lemma_travel_bound(ball.velocity.direction.y as int, ball.velocity.speed as int, dt as int);
        assert(0 <= ball.velocity.speed * dt <= 1_000_000 * 0xffff_ffff) by (nonlinear_arith)
            requires
                0 <= ball.velocity.speed <= 1_000_000,
                0 <= dt <= 0xffff_ffff,
        ;
        lemma_ball_step(ball@, left@, right@, dt as int);
    }
    let dx: i128 = travel_distance(ball.velocity.direction.x, ball.velocity.speed, dt);
    let dy: i128 = travel_distance(ball.velocity.direction.y, ball.velocity.speed, dt);
    ball.position.x = (ball.position.x as i128 + dx) as i64;
    ball.position.y = (ball.position.y as i128 + dy) as i64;
    assert(ball@ == integrate(old(ball)@, dt as int));
    bounce_off_walls(ball);
    if check_paddle_collision(&ball.position, &left.position) {
        bounce_off_paddle(ball, left);
    } else if check_paddle_collision(&ball.position, &right.position) {
        bounce_off_paddle(ball, right);
    }
    if ball.position.x > COURT_WIDTH {
        Some(RoundEnd { winner: PaddleSide::Left })
    } else if ball.position.x < -COURT_WIDTH {
        Some(RoundEnd { winner: PaddleSide::Right })
    } else {
        None
    }
}

} // verus!
