//! The things on the court: the ball, the two paddles and the score.

use crate::court::{
    BALL_SPEED, COURT_WIDTH, PADDLE_REACH, POSITION_LIMIT, SPEED_LIMIT,
};
use crate::fixed::{is_sqrt_floor, lemma_isqrt_unique, ONE};
use crate::vector::{Vector, VectorView};
use vstd::prelude::*;

verus! {

/// One of the two sides of the court. The player has the left paddle, the
/// script the right one.
#[derive(Clone, Copy, Debug, PartialEq, Eq, Structural)]
pub enum PaddleSide {
    Left,
    Right,
}

/// The signal that a round is over.
#[derive(Clone, Copy, Debug, PartialEq, Eq, Structural)]
pub struct RoundEnd {
    /// The side that the ball did not leave the court on.
    pub winner: PaddleSide,
}

/// Where something stood when it was spawned, and goes back to after a round.
#[derive(Clone, Copy, Debug, PartialEq, Eq, Structural)]
pub struct InitialTransform(pub Vector);

/// How the ball moves: a direction of length 1 and a speed.
#[derive(Clone, Copy, Debug, PartialEq, Eq, Structural)]
pub struct Velocity {
    pub direction: Vector,
    pub speed: u32,
}

/// The mathematical value of a [`Velocity`].
pub struct VelocityView {
    pub direction: VectorView,
    pub speed: int,
}

impl View for Velocity {
    type V = VelocityView;

    open spec fn view(&self) -> VelocityView {
        VelocityView { direction: self.direction@, speed: self.speed as int }
    }
}

/// The ball.
#[derive(Clone, Copy, Debug, PartialEq, Eq, Structural)]
pub struct Ball {
    pub position: Vector,
    pub velocity: Velocity,
    pub initial: InitialTransform,
}

/// The mathematical value of a [`Ball`].
pub struct BallView {
    pub position: VectorView,
    pub velocity: VelocityView,
    pub initial: VectorView,
}

impl View for Ball {
    type V = BallView;

    open spec fn view(&self) -> BallView {
        BallView {
            position: self.position@,
            velocity: self.velocity@,
            initial: self.initial.0@,
        }
    }
}

/// A paddle.
#[derive(Clone, Copy, Debug, PartialEq, Eq, Structural)]
pub struct Paddle {
    pub side: PaddleSide,
    pub position: Vector,
    pub initial: InitialTransform,
}

/// The mathematical value of a [`Paddle`].
pub struct PaddleView {
    pub side: PaddleSide,
    pub position: VectorView,
    pub initial: VectorView,
}

impl View for Paddle {
    type V = PaddleView;

    open spec fn view(&self) -> PaddleView {
        PaddleView { side: self.side, position: self.position@, initial: self.initial.0@ }
    }
}

/// The rounds won so far by each side.
#[derive(Clone, Copy, Debug, PartialEq, Eq, Structural)]
pub struct Score {
    pub player: u32,
    pub computer: u32,
}

/// The mathematical value of a [`Score`].
pub struct ScoreView {
    pub player: nat,
    pub computer: nat,
}

impl View for Score {
    type V = ScoreView;

    open spec fn view(&self) -> ScoreView {
        ScoreView { player: self.player as nat, computer: self.computer as nat }
    }
}

/// Everything that is on the court during a session of play.
#[derive(Clone, Copy, Debug, PartialEq, Eq, Structural)]
pub struct Entities {
    pub ball: Ball,
    pub left: Paddle,
    pub right: Paddle,
}

/// The mathematical value of [`Entities`].
pub struct EntitiesView {
    pub ball: BallView,
    pub left: PaddleView,
    pub right: PaddleView,
}

impl View for Entities {
    type V = EntitiesView;

    open spec fn view(&self) -> EntitiesView {
        EntitiesView { ball: self.ball@, left: self.left@, right: self.right@ }
    }
}

/// Whether both coordinates of `p` are within the limit that the library
/// computes with.
pub open spec fn in_range(p: VectorView) -> bool {
    &&& -POSITION_LIMIT <= p.x <= POSITION_LIMIT
    &&& -POSITION_LIMIT <= p.y <= POSITION_LIMIT
}

/// The point in the middle of the court.
pub open spec fn origin() -> VectorView {
    VectorView { x: 0, y: 0 }
}

/// The direction in which the ball is served, before it is scaled to
/// length 1: to the left and a little upward.
pub open spec fn serve_aim() -> VectorView {
    VectorView { x: -ONE, y: ONE / 4 }
}

impl VelocityView {
    /// The velocity with which the ball is served.
    pub open spec fn serve() -> VelocityView {
        VelocityView { direction: serve_aim().normalized(), speed: BALL_SPEED as int }
    }

    /// A direction of length 1 and a speed that the library can compute with.
    pub open spec fn wf(self) -> bool {
        &&& self.direction.is_unit()
        &&& 0 <= self.speed <= SPEED_LIMIT
    }
}

impl BallView {
    /// The ball as it is spawned: at rest in the middle, about to be served.
    pub open spec fn spawned() -> BallView {
        BallView { position: origin(), velocity: VelocityView::serve(), initial: origin() }
    }

    /// Positions within the limit and a well-formed velocity.
    pub open spec fn wf(self) -> bool {
        &&& in_range(self.position)
        &&& in_range(self.initial)
        &&& self.velocity.wf()
    }

    /// The ball back where it was spawned, served again.
    pub open spec fn reset(self) -> BallView {
        BallView {
            position: self.initial,
            velocity: VelocityView::serve(),
            initial: self.initial,
        }
    }
}

impl PaddleView {
    /// The paddle of `side` as it is spawned: on its line, in the middle.
    pub open spec fn spawned(side: PaddleSide) -> PaddleView {
        let x: int = match side {
            PaddleSide::Left => -COURT_WIDTH as int,
            PaddleSide::Right => COURT_WIDTH as int,
        };
        PaddleView {
            side,
            position: VectorView { x, y: 0 },
            initial: VectorView { x, y: 0 },
        }
    }

    /// The paddle stands on the line where it was spawned, and neither it nor
    /// the place where it was spawned is out of reach.
    pub open spec fn wf(self) -> bool {
        &&& -POSITION_LIMIT <= self.position.x <= POSITION_LIMIT
        &&& self.position.x == self.initial.x
        &&& -PADDLE_REACH <= self.position.y <= PADDLE_REACH
        &&& -PADDLE_REACH <= self.initial.y <= PADDLE_REACH
    }

    /// The paddle back where it was spawned.
    pub open spec fn reset(self) -> PaddleView {
        PaddleView { side: self.side, position: self.initial, initial: self.initial }
    }
}

impl EntitiesView {
    /// The court as a session of play begins.
    pub open spec fn spawned() -> EntitiesView {
        EntitiesView {
            ball: BallView::spawned(),
            left: PaddleView::spawned(PaddleSide::Left),
            right: PaddleView::spawned(PaddleSide::Right),
        }
    }

    /// A well-formed ball between a well-formed left and a well-formed right
    /// paddle.
    pub open spec fn wf(self) -> bool {
        &&& self.ball.wf()
        &&& self.left.wf()
        &&& self.right.wf()
        &&& self.left.side == PaddleSide::Left
        &&& self.right.side == PaddleSide::Right
    }

    /// Everything back where it was spawned, and the ball served again.
    pub open spec fn reset(self) -> EntitiesView {
        EntitiesView {
            ball: self.ball.reset(),
            left: self.left.reset(),
            right: self.right.reset(),
        }
    }
}

impl ScoreView {
    /// The score after `winner` has won a round.
    pub open spec fn credit(self, winner: PaddleSide) -> ScoreView {
        match winner {
            PaddleSide::Left => ScoreView { player: self.player + 1, computer: self.computer },
            PaddleSide::Right => ScoreView { player: self.player, computer: self.computer + 1 },
        }
    }
}

/// The direction of the serve, in numbers.
pub proof fn lemma_serve_direction()
    ensures
        serve_aim().normalized() == (VectorView { x: -970_142, y: 242_535 }),
        VelocityView::serve().wf(),
        BallView::spawned().wf(),
{
    let v: VectorView = serve_aim();
    assert(v.norm_sq() * ONE * ONE == 1_062_500_000_000_000_000_000_000) by (nonlinear_arith)
        requires
            v.norm_sq() == v.x * v.x + v.y * v.y,
            v.x == -1_000_000,
            v.y == 250_000,
            ONE == 1_000_000,
    ;
    assert(is_sqrt_floor(1_062_500_000_000_000_000_000_000, 1_030_776_406_404)) by (nonlinear_arith);
    lemma_isqrt_unique(1_062_500_000_000_000_000_000_000, 1_030_776_406_404);
    assert(v.fine_length() == 1_030_776_406_404);
    assert(v.x * ONE * ONE == -1_000_000_000_000_000_000) by (nonlinear_arith)
        requires
            v.x == -1_000_000,
            ONE == 1_000_000,
    ;
    assert(v.y * ONE * ONE == 250_000_000_000_000_000) by (nonlinear_arith)
        requires
            v.y == 250_000,
            ONE == 1_000_000,
    ;
    let w: VectorView = v.normalized();
    assert(w.x == -970_142);
    assert(w.y == 242_535);
    assert(w.norm_sq() == 970_142 * 970_142 + 242_535 * 242_535);
}

/// Putting everything back where it was spawned keeps it well-formed, and
/// doing so twice is doing so once.
pub proof fn lemma_reset(e: EntitiesView)
    requires
        e.wf(),
    ensures
        e.reset().wf(),
        e.reset().reset() == e.reset(),
{
    lemma_serve_direction();
}

impl Velocity {
    /// Whether the direction has length 1 and the speed is within the limit.
    pub open spec fn wf(&self) -> bool {
        self@.wf()
    }

    /// Makes the velocity with which the ball is served.
    pub fn serve() -> (v: Velocity)
        ensures
            v@ == VelocityView::serve(),
            v.direction.x == -970_142,
            v.direction.y == 242_535,
            v.wf(),
    {
        proof {
            lemma_serve_direction();
        }
        Velocity { direction: Vector { x: -970_142, y: 242_535 }, speed: BALL_SPEED }
    }

    /// Tells whether the velocity is well-formed.
    pub fn is_valid(&self) -> (r: bool)
        ensures
            r == self.wf(),
    {
        self.direction.is_unit() && self.speed <= SPEED_LIMIT
    }
}

/// Tells whether both coordinates of `p` are within the limit that the library
/// computes with.
pub fn is_in_range(p: &Vector) -> (r: bool)
    ensures
        r == in_range(p@),
{
    -POSITION_LIMIT <= p.x && p.x <= POSITION_LIMIT && -POSITION_LIMIT <= p.y && p.y
        <= POSITION_LIMIT
}

impl Ball {
    /// Whether the positions are within the limit and the velocity is
    /// well-formed.
    pub open spec fn wf(&self) -> bool {
        self@.wf()
    }

    /// Makes the ball as it enters play: in the middle of the court, about to
    /// be served.
    pub fn spawn() -> (ball: Ball)
        ensures
            ball@ == BallView::spawned(),
            ball.wf(),
    {
        proof {
            lemma_serve_direction();
        }
        let middle = Vector { x: 0, y: 0 };
        Ball { position: middle, velocity: Velocity::serve(), initial: InitialTransform(middle) }
    }

    /// Tells whether the ball is well-formed.
    pub fn is_valid(&self) -> (r: bool)
        ensures
            r == self.wf(),
    {
        is_in_range(&self.position) && is_in_range(&self.initial.0) && self.velocity.is_valid()
    }
}

impl Paddle {
    /// Whether the paddle stands on its line and within reach.
    pub open spec fn wf(&self) -> bool {
        self@.wf()
    }

    /// Makes the paddle of `side` as it enters play: on its line, in the
    /// middle.
    pub fn spawn(side: PaddleSide) -> (paddle: Paddle)
        ensures
            paddle@ == PaddleView::spawned(side),
            paddle.wf(),
    {
        let x: i64 = match side {
            PaddleSide::Left => -COURT_WIDTH,
            PaddleSide::Right => COURT_WIDTH,
        };
        let place = Vector { x, y: 0 };
        Paddle { side, position: place, initial: InitialTransform(place) }
    }

    /// Tells whether the paddle is well-formed.
    pub fn is_valid(&self) -> (r: bool)
        ensures
            r == self.wf(),
    {
        -POSITION_LIMIT <= self.position.x && self.position.x <= POSITION_LIMIT
            && self.position.x == self.initial.0.x && -PADDLE_REACH <= self.position.y
            && self.position.y <= PADDLE_REACH && -PADDLE_REACH <= self.initial.0.y
            && self.initial.0.y <= PADDLE_REACH
    }
}

impl Entities {
    /// Whether the ball and the paddles are well-formed and each paddle is on
    /// its own side.
    pub open spec fn wf(&self) -> bool {
        self@.wf()
    }

    /// Makes the court as a session of play begins.
    pub fn spawn() -> (entities: Entities)
        ensures
            entities@ == EntitiesView::spawned(),
            entities.wf(),
    {
        let left = spawn_player();
        let (ball, right) = spawn_game_elements();
        Entities { ball, left, right }
    }

    /// Puts everything back where it was spawned and serves the ball again.
    pub fn reset(&mut self)
        ensures
            final(self)@ == old(self)@.reset(),
    {
        self.ball.position = self.ball.initial.0;
        self.ball.velocity = Velocity::serve();
        self.left.position = self.left.initial.0;
        self.right.position = self.right.initial.0;
    }

    /// Tells whether the entities are well-formed.
    pub fn is_valid(&self) -> (r: bool)
        ensures
            r == self.wf(),
    {
        self.ball.is_valid() && self.left.is_valid() && self.right.is_valid() && self.left.side
            == PaddleSide::Left && self.right.side == PaddleSide::Right
    }
}

impl Default for Score {
    /// The score of a game in which no round has been played.
    fn default() -> (score: Score)
        ensures
            score.player == 0,
            score.computer == 0,
    {
        Score { player: 0, computer: 0 }
    }
}

impl Score {
    /// Makes the score of a game in which no round has been played.
    pub fn new() -> (score: Score)
        ensures
            score.player == 0,
            score.computer == 0,
    {
        Score { player: 0, computer: 0 }
    }

    /// Sets both counters back to zero.
    pub fn reset(&mut self)
        ensures
            final(self).player == 0,
            final(self).computer == 0,
    {
        self.player = 0;
        self.computer = 0;
    }

    /// Tells whether either side has won a round.
    pub fn has_points(&self) -> (r: bool)
        ensures
            r == (self.player > 0 || self.computer > 0),
    {
        self.player > 0 || self.computer > 0
    }
}

/// Makes the player's paddle, on the left.
pub fn spawn_player() -> (paddle: Paddle)
    ensures
        paddle@ == PaddleView::spawned(PaddleSide::Left),
        paddle.wf(),
{
    Paddle::spawn(PaddleSide::Left)
}

/// Makes what the player plays against: the ball and the scripted paddle, on
/// the right.
pub fn spawn_game_elements() -> (elements: (Ball, Paddle))
    ensures
        elements.0@ == BallView::spawned(),
        elements.0.wf(),
        elements.1@ == PaddleView::spawned(PaddleSide::Right),
        elements.1.wf(),
{
    (Ball::spawn(), Paddle::spawn(PaddleSide::Right))
}

} // verus!
