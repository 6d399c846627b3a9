//! Paddle control: the player's paddle follows the current key state, the
//! AI paddle tracks the ball's height, and both integrate their position by
//! their velocity once per tick.

use vstd::prelude::*;

use crate::utils::{abs_spec, Position, Shape, Vec2, Vec2i, Velocity};

verus! {

pub const PADDLE_WIDTH: i64 = 10;

pub const PADDLE_HEIGHT: i64 = 100;

/// Vertical distance a paddle covers in one tick.
pub const SPEED: i64 = 5;

/// Horizontal distance between a paddle and its window edge.
pub const PADDLE_PADDING: i64 = 50;

/// Height at which both paddles spawn.
pub const PADDLE_START_Y: i64 = -25;

/// One paddle's state: where it is, how it moves this tick, and its fixed
/// rectangle footprint.
#[derive(Clone, Copy, Debug, PartialEq, Eq, Structural)]
pub struct Paddle {
    pub position: Position,
    pub velocity: Velocity,
    pub shape: Shape,
}

/// The mathematical value of a [`Paddle`], over unbounded integers.
pub ghost struct PaddleModel {
    pub position: Vec2i,
    pub velocity: Vec2i,
    pub shape: Shape,
}

impl View for Paddle {
    type V = PaddleModel;

    open spec fn view(&self) -> PaddleModel {
        PaddleModel { position: self.position@, velocity: self.velocity@, shape: self.shape }
    }
}

impl Paddle {
    /// A freshly spawned paddle at horizontal position `x`: standing still at
    /// the starting height, with the standard paddle rectangle.
    pub fn new(x: i64) -> (p: Paddle)
        ensures
            p@.position == (Vec2i { x: x as int, y: PADDLE_START_Y as int }),
            p@.velocity == (Vec2i { x: 0, y: 0 }),
            p@.shape == (Shape::Rectangle { width: PADDLE_WIDTH, height: PADDLE_HEIGHT }),
    {
        Paddle {
            position: Position(Vec2 { x, y: PADDLE_START_Y }),
            velocity: Velocity(Vec2 { x: 0, y: 0 }),
            shape: Shape::Rectangle { width: PADDLE_WIDTH, height: PADDLE_HEIGHT },
        }
    }
}

/// Vertical velocity the player's paddle takes from the key state: down
/// wins when both keys are held, up alone moves up, neither stops the
/// paddle.
pub open spec fn player_velocity_y_spec(up_pressed: bool, down_pressed: bool) -> int {
    if down_pressed {
        -(SPEED as int)
    } else if up_pressed {
        SPEED as int
    } else {
        0
    }
}

/// Vertical velocity of the AI paddle: move toward the ball's height, and
/// stop when exactly level with it.
pub open spec fn ai_velocity_y_spec(paddle_y: int, ball_y: int) -> int {
    if paddle_y - ball_y > 0 {
        -(SPEED as int)
    } else if paddle_y - ball_y < 0 {
        SPEED as int
    } else {
        0
    }
}

/// Set the player paddle's velocity from the current key state.  Only the
/// vertical component is recomputed; there is no acceleration or momentum.
pub fn handle_input(velocity: &mut Velocity, up_pressed: bool, down_pressed: bool)
    ensures
        final(velocity)@.y == player_velocity_y_spec(up_pressed, down_pressed),
        final(velocity)@.x == old(velocity)@.x,
{
    if down_pressed {
        velocity.0.y = -SPEED;
    } else if up_pressed {
        velocity.0.y = SPEED;
    } else {
        velocity.0.y = 0;
    }
}

/// Set the AI paddle's velocity from the sign of its height relative to the
/// ball: above moves down, below moves up, level stops.
pub fn ai_paddle(velocity: &mut Velocity, paddle_position: &Position, ball_position: &Position)
    ensures
        final(velocity)@.y == ai_velocity_y_spec(paddle_position@.y, ball_position@.y),
        final(velocity)@.x == old(velocity)@.x,
{
    if paddle_position.0.y > ball_position.0.y {
        velocity.0.y = -SPEED;
    } else if paddle_position.0.y < ball_position.0.y {
        velocity.0.y = SPEED;
    } else {
        velocity.0.y = 0;
    }
}

/// Integrate one paddle's position by its velocity.  Paddles move every
/// tick; the countdown never holds them.
pub fn move_paddle(paddle: &mut Paddle)
    requires
        i64::MIN <= old(paddle)@.position.x + old(paddle)@.velocity.x <= i64::MAX,
        i64::MIN <= old(paddle)@.position.y + old(paddle)@.velocity.y <= i64::MAX,
    ensures
        final(paddle)@.position.x == old(paddle)@.position.x + old(paddle)@.velocity.x,
        final(paddle)@.position.y == old(paddle)@.position.y + old(paddle)@.velocity.y,
        final(paddle)@.velocity == old(paddle)@.velocity,
        final(paddle)@.shape == old(paddle)@.shape,
{
    paddle.position.0.x = paddle.position.0.x + paddle.velocity.0.x;
    paddle.position.0.y = paddle.position.0.y + paddle.velocity.0.y;
}

/// The AI paddle's height after one tick against a ball at height `ball_y`.
pub open spec fn ai_step_spec(paddle_y: int, ball_y: int) -> int {
    paddle_y + ai_velocity_y_spec(paddle_y, ball_y)
}

/// The AI paddle's height after `n` ticks against a stationary ball.
pub open spec fn ai_track_spec(paddle_y: int, ball_y: int, n: nat) -> int
    decreases n,
{
    if n == 0 {
        paddle_y
    } else {
        ai_track_spec(ai_step_spec(paddle_y, ball_y), ball_y, (n - 1) as nat)
    }
}

/// Law: while the AI paddle is strictly above a stationary ball, each tick
/// strictly lowers it, by exactly one tick's SPEED.
pub proof fn lemma_ai_tracks_down(paddle_y: int, ball_y: int)
    requires
        paddle_y > ball_y,
    ensures
        ai_step_spec(paddle_y, ball_y) == paddle_y - SPEED,
        ai_step_spec(paddle_y, ball_y) < paddle_y,
{
}

/// Law: once the AI paddle is within one tick's SPEED of a stationary ball's
/// height, it stays within that band forever after.
pub proof fn lemma_ai_stays_within_band(paddle_y: int, ball_y: int)
    requires
        abs_spec(paddle_y - ball_y) < SPEED,
    ensures
        abs_spec(ai_step_spec(paddle_y, ball_y) - ball_y) < SPEED,
{
}

/// Law: an AI paddle starting at or above a stationary ball descends by
/// SPEED per tick and, after `(paddle_y - ball_y) / SPEED` ticks, sits
/// within one tick's SPEED above the ball's height — exactly the initial
/// gap's remainder modulo SPEED.
pub proof fn lemma_ai_converges(paddle_y: int, ball_y: int, n: nat)
    requires
        paddle_y >= ball_y,
        n == (paddle_y - ball_y) / (SPEED as int),
    ensures
        ai_track_spec(paddle_y, ball_y, n) == ball_y + (paddle_y - ball_y) % (SPEED as int),
        0 <= ai_track_spec(paddle_y, ball_y, n) - ball_y < SPEED,
        forall|k: nat|
            k < n ==> #[trigger] ai_track_spec(paddle_y, ball_y, k) == paddle_y - SPEED * k,
    decreases n,
{
    let d = paddle_y - ball_y;
    if n == 0 {
        assert(d % 5 == d);
    } else {
        assert(d >= 5);
        let y1 = ai_step_spec(paddle_y, ball_y);
        assert(y1 == paddle_y - 5);
        assert((d - 5) / 5 == d / 5 - 1);
        assert((d - 5) % 5 == d % 5);
        lemma_ai_converges(y1, ball_y, (n - 1) as nat);
        assert forall|k: nat| k < n implies #[trigger] ai_track_spec(paddle_y, ball_y, k)
            == paddle_y - SPEED * k by {
            if k == 0 {
            } else {
                assert(ai_track_spec(paddle_y, ball_y, k) == ai_track_spec(y1, ball_y, (k - 1) as nat));
                assert(ai_track_spec(y1, ball_y, (k - 1) as nat) == y1 - SPEED * (k - 1));
                assert(SPEED * k == SPEED * (k - 1) + SPEED) by (nonlinear_arith);
            }
        }
    }
}

} // verus!
