//! The geometry of the court and the speeds of what moves on it.
//!
//! Lengths are in fixed point (see [`crate::fixed`]); speeds are whole court
//! units per second.

use vstd::prelude::*;

verus! {

/// The walls are at `-COURT_HEIGHT` and `COURT_HEIGHT`.
pub const COURT_HEIGHT: i64 = 300_000_000;

/// The ball leaves the court beyond `-COURT_WIDTH` and `COURT_WIDTH`; the
/// paddles stand on these two lines.
pub const COURT_WIDTH: i64 = 600_000_000;

/// The side of the square ball.
pub const BALL_SIZE: i64 = 20_000_000;

/// The width of a paddle.
pub const PADDLE_WIDTH: i64 = 20_000_000;

/// The height of a paddle.
pub const PADDLE_HEIGHT: i64 = 100_000_000;

/// How far from the middle line the centre of a paddle may be: the wall less
/// half a paddle.
pub const PADDLE_REACH: i64 = 250_000_000;

/// The speed of the player's paddle at full intent.
pub const PLAYER_SPEED: u32 = 500;

/// The speed of the scripted paddle.
pub const AI_SPEED: u32 = 250;

/// The speed of the ball.
pub const BALL_SPEED: u32 = 550;

/// The distance from the centre of a paddle at which a hit deflects the ball
/// by a full unit, before the deflection is limited.
pub const DEFLECTION_SPAN: i64 = 50;

/// The largest vertical component a hit gives the ball before the direction
/// is scaled back to length 1.
pub const MAX_DEFLECTION: i64 = 800_000;

/// The least magnitude of the horizontal component of the direction of a
/// ball in play. The serve leans sideways more than this, and no hit can
/// make the ball lean less.
pub const MIN_LEAN: i64 = 600_000;

/// The largest magnitude of a coordinate that the library computes with.
pub const POSITION_LIMIT: i64 = 1_000_000_000_000_000_000;

/// The largest speed that the library computes with.
pub const SPEED_LIMIT: u32 = 1_000_000;

/// The constants fit together: the reach of a paddle is the wall less half a
/// paddle, and a paddle at its reach touches the wall.
pub proof fn lemma_court_geometry()
    ensures
        PADDLE_REACH == COURT_HEIGHT - PADDLE_HEIGHT / 2,
        PADDLE_REACH + PADDLE_HEIGHT / 2 == COURT_HEIGHT,
        BALL_SIZE == PADDLE_WIDTH,
        BALL_SPEED <= SPEED_LIMIT,
        COURT_WIDTH <= POSITION_LIMIT,
{
}

} // verus!
