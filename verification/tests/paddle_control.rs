use pong_core::paddle::{ai_paddle, handle_input, move_paddle, Paddle, SPEED};
use pong_core::utils::{Position, Vec2, Velocity};

#[test]
fn down_key_wins_over_up() {
    let mut vel = Velocity(Vec2::new(3, 0));
    handle_input(&mut vel, true, true);
    assert_eq!(vel.0.y, -SPEED);
    assert_eq!(vel.0.x, 3);
}

#[test]
fn up_key_moves_up() {
    let mut vel = Velocity(Vec2::new(0, 0));
    handle_input(&mut vel, true, false);
    assert_eq!(vel.0.y, SPEED);
}

#[test]
fn no_key_stops_the_paddle() {
    let mut vel = Velocity(Vec2::new(0, -SPEED));
    handle_input(&mut vel, false, false);
    assert_eq!(vel.0.y, 0);
}

#[test]
fn ai_moves_down_when_above_the_ball() {
    let mut vel = Velocity(Vec2::new(0, 0));
    ai_paddle(&mut vel, &Position(Vec2::new(-400, 50)), &Position(Vec2::new(0, 0)));
    assert_eq!(vel.0.y, -SPEED);
}

#[test]
fn ai_moves_up_when_below_the_ball() {
    let mut vel = Velocity(Vec2::new(0, 0));
    ai_paddle(&mut vel, &Position(Vec2::new(-400, -50)), &Position(Vec2::new(0, 0)));
    assert_eq!(vel.0.y, SPEED);
}

#[test]
fn ai_stops_when_level_with_the_ball() {
    let mut vel = Velocity(Vec2::new(0, 7));
    ai_paddle(&mut vel, &Position(Vec2::new(-400, 12)), &Position(Vec2::new(0, 12)));
    assert_eq!(vel.0.y, 0);
}

#[test]
fn paddles_integrate_position_by_velocity() {
    let mut p = Paddle::new(450);
    p.velocity = Velocity(Vec2::new(0, SPEED));
    let y0 = p.position.0.y;
    move_paddle(&mut p);
    assert_eq!(p.position.0.x, 450);
    assert_eq!(p.position.0.y, y0 + SPEED);
}

#[test]
fn ai_tracking_converges_to_within_one_speed() {
    // A stationary ball at y = 0 and an AI paddle strictly above it: each
    // tick strictly lowers the paddle until it is within one tick's SPEED.
    let ball = Position(Vec2::new(0, 0));
    let mut p = Paddle::new(-450);
    p.position.0.y = 13;
    let mut heights = Vec::new();
    for _ in 0..4 {
        ai_paddle(&mut p.velocity, &p.position, &ball);
        move_paddle(&mut p);
        heights.push(p.position.0.y);
    }
    assert_eq!(heights, vec![8, 3, -2, 3]);
    // Strict descent while above, then the paddle stays within SPEED.
    assert!(heights[0] < 13 && heights[1] < heights[0]);
    for h in &heights[2..] {
        assert!((h - 0).abs() < SPEED);
    }
}
