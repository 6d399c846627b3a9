use pong_core::ball::{
    collision, move_ball, reset_on_score, sprite_flip_rotation, Ball, EntityId, Obstacle, RADIUS,
};
use pong_core::border::Border;
use pong_core::game_manager::Scored;
use pong_core::utils::{Collision, Position, Shape, Vec2, Velocity};

fn wall_at(x: i64, y: i64, width: i64, height: i64, entity: EntityId) -> Obstacle {
    Obstacle {
        entity,
        position: Position(Vec2::new(x, y)),
        shape: Shape::Rectangle { width, height },
    }
}

#[test]
fn held_ball_does_not_move() {
    let mut b = Ball::new();
    move_ball(&mut b, false);
    assert_eq!(b.position.0, Vec2::new(0, 0));
    assert_eq!(b.velocity.0, Vec2::new(6, 6));
}

#[test]
fn free_ball_integrates_position() {
    let mut b = Ball::new();
    move_ball(&mut b, true);
    move_ball(&mut b, true);
    assert_eq!(b.position.0, Vec2::new(12, 12));
}

#[test]
fn collision_reflects_and_reports_the_hit() {
    let mut b = Ball::new();
    b.position = Position(Vec2::new(-75, 0));
    b.velocity = Velocity(Vec2::new(-6, 2));
    // A tall wall just left of the ball: the ball touches its right face.
    let walls = vec![wall_at(-100, 0, 20, 100000, EntityId::Wall(Border::Left))];
    let events = collision(&mut b, &walls);
    assert_eq!(events.len(), 1);
    assert_eq!(events[0].collision, Collision::Right);
    assert_eq!(events[0].entity, EntityId::Wall(Border::Left));
    assert_eq!(b.velocity.0, Vec2::new(6, 2));
    // The pass reads the position but never moves the ball.
    assert_eq!(b.position.0, Vec2::new(-75, 0));
}

#[test]
fn collision_checks_every_obstacle_once() {
    // Two overlapping walls on the same side: both hits are reported and
    // the horizontal sign flips twice, back to where it started.
    let mut b = Ball::new();
    b.position = Position(Vec2::new(-75, 0));
    b.velocity = Velocity(Vec2::new(-6, 0));
    let walls = vec![
        wall_at(-100, 0, 20, 100000, EntityId::Wall(Border::Left)),
        wall_at(-100, 0, 20, 100000, EntityId::PlayerPaddle),
    ];
    let events = collision(&mut b, &walls);
    assert_eq!(events.len(), 2);
    assert_eq!(b.velocity.0, Vec2::new(-6, 0));
}

#[test]
fn missed_obstacles_emit_nothing() {
    let mut b = Ball::new();
    let walls = vec![wall_at(500, 0, 20, 100000, EntityId::Wall(Border::Right))];
    let events = collision(&mut b, &walls);
    assert!(events.is_empty());
    assert_eq!(b.velocity.0, Vec2::new(6, 6));
}

#[test]
fn speed_magnitude_survives_any_collision_sequence() {
    // Only signs ever change: the squared speed before and after a pass
    // with several hits is identical.
    let mut b = Ball::new();
    b.position = Position(Vec2::new(0, -90));
    b.velocity = Velocity(Vec2::new(6, -6));
    let before = b.velocity.0.x * b.velocity.0.x + b.velocity.0.y * b.velocity.0.y;
    let walls = vec![
        wall_at(0, -100, 100000, 20, EntityId::Wall(Border::Bottom)),
        wall_at(-15, 0, 20, 100000, EntityId::Wall(Border::Left)),
    ];
    let events = collision(&mut b, &walls);
    assert_eq!(events.len(), 2);
    let after = b.velocity.0.x * b.velocity.0.x + b.velocity.0.y * b.velocity.0.y;
    assert_eq!(before, after);
    assert_eq!(b.velocity.0.x.abs(), 6);
    assert_eq!(b.velocity.0.y.abs(), 6);
}

#[test]
fn double_reflection_restores_the_velocity() {
    // Reflecting off the same side twice cancels: run the same one-wall
    // pass twice from the same spot.
    let mut b = Ball::new();
    b.position = Position(Vec2::new(-75, 0));
    b.velocity = Velocity(Vec2::new(-6, 2));
    let walls = vec![wall_at(-100, 0, 20, 100000, EntityId::Wall(Border::Left))];
    collision(&mut b, &walls);
    collision(&mut b, &walls);
    assert_eq!(b.velocity.0, Vec2::new(-6, 2));
}

#[test]
fn reset_after_player_score_keeps_serve_direction() {
    let mut b = Ball::new();
    b.position = Position(Vec2::new(320, 40));
    b.velocity = Velocity(Vec2::new(6, -6));
    reset_on_score(&mut b, &vec![Scored::Player]);
    assert_eq!(b.position.0, Vec2::new(0, 0));
    assert_eq!(b.velocity.0, Vec2::new(6, -6));
}

#[test]
fn reset_after_ai_score_serves_back_toward_the_player() {
    let mut b = Ball::new();
    b.position = Position(Vec2::new(-320, 40));
    b.velocity = Velocity(Vec2::new(6, -6));
    reset_on_score(&mut b, &vec![Scored::Ai]);
    assert_eq!(b.position.0, Vec2::new(0, 0));
    assert_eq!(b.velocity.0, Vec2::new(-6, -6));
}

#[test]
fn reset_without_scores_changes_nothing() {
    let mut b = Ball::new();
    b.position = Position(Vec2::new(320, 40));
    reset_on_score(&mut b, &Vec::new());
    assert_eq!(b.position.0, Vec2::new(320, 40));
}

#[test]
fn ball_spawns_at_origin_with_standard_circle() {
    let b = Ball::new();
    assert_eq!(b.position.0, Vec2::new(0, 0));
    assert_eq!(b.velocity.0, Vec2::new(6, 6));
    assert_eq!(b.shape, Shape::Circle { radius: RADIUS });
}

#[test]
fn sprite_orientation_follows_the_velocity() {
    assert_eq!(sprite_flip_rotation(&Velocity(Vec2::new(6, 6))), (true, 45));
    assert_eq!(sprite_flip_rotation(&Velocity(Vec2::new(6, -6))), (true, -45));
    assert_eq!(sprite_flip_rotation(&Velocity(Vec2::new(-6, 6))), (false, -45));
    assert_eq!(sprite_flip_rotation(&Velocity(Vec2::new(-6, -6))), (false, 45));
}
