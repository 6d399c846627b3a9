use pong_core::ball::{Ball, EntityId};
use pong_core::border::Border;
use pong_core::game_manager::{Countdown, Score, Scored};
use pong_core::paddle::Paddle;
use pong_core::utils::{Collision, Position, Shape, Vec2, Velocity};
use pong_core::world::World;

#[test]
fn a_new_world_spawns_everything_in_place() {
    let w = World::new(1000, 600);
    assert_eq!(w.ball.position.0, Vec2::new(0, 0));
    assert_eq!(w.ball.velocity.0, Vec2::new(6, 6));
    assert_eq!(w.player.position.0, Vec2::new(450, -25));
    assert_eq!(w.ai.position.0, Vec2::new(-450, -25));
    assert_eq!(w.half_width, 500);
    assert_eq!(w.half_height, 300);
    assert_eq!(w.score, Score::new());
    // The match opens behind the initial three-second countdown.
    assert_eq!(w.countdown, Some(Countdown { elapsed: 0, duration: 3000 }));
}

#[test]
fn resize_moves_the_walls() {
    let mut w = World::new(1000, 600);
    w.resize(800, 400);
    assert_eq!(w.half_width, 400);
    assert_eq!(w.half_height, 200);
    let obs = w.obstacles();
    assert_eq!(obs[0].entity, EntityId::Wall(Border::Left));
    assert_eq!(obs[0].position.0, Vec2::new(-400, 0));
    assert_eq!(obs[1].position.0, Vec2::new(400, 0));
    assert_eq!(obs[2].position.0, Vec2::new(0, 200));
    assert_eq!(obs[3].position.0, Vec2::new(0, -200));
}

#[test]
fn obstacles_list_walls_then_paddles() {
    let w = World::new(1000, 600);
    let obs = w.obstacles();
    assert_eq!(obs.len(), 6);
    assert_eq!(obs[4].entity, EntityId::PlayerPaddle);
    assert_eq!(obs[4].position.0, Vec2::new(450, -25));
    assert_eq!(obs[5].entity, EntityId::AiPaddle);
    assert_eq!(obs[5].shape, Shape::Rectangle { width: 10, height: 100 });
}

#[test]
fn the_initial_countdown_holds_the_serve() {
    let mut w = World::new(1000, 600);
    // Three seconds of frames pass before the ball first moves.
    for _ in 0..3 {
        let (hits, scored) = w.tick(false, false, 1000);
        assert!(hits.is_empty() && scored.is_empty());
        assert_eq!(w.ball.position.0, Vec2::new(0, 0));
    }
    assert_eq!(w.countdown, None);
    w.tick(false, false, 1000);
    assert_eq!(w.ball.position.0, Vec2::new(6, 6));
}

fn world_about_to_score() -> World {
    // The ball closes in on the left wall; both paddles stand clear of the
    // middle of the field.
    let mut w = World {
        ball: Ball::new(),
        player: Paddle::new(40),
        ai: Paddle::new(-40),
        half_width: 100,
        half_height: 5000,
        score: Score::new(),
        countdown: None,
    };
    w.ball.position = Position(Vec2::new(-69, 0));
    w.ball.velocity = Velocity(Vec2::new(-6, 0));
    w
}

#[test]
fn crossing_the_left_wall_scores_the_ai_and_resets() {
    let mut w = world_about_to_score();
    let (hits, scored) = w.tick(false, false, 16);

    // The ball moved to (-75, 0) and touched the left wall's inner face.
    assert_eq!(hits.len(), 1);
    assert_eq!(hits[0].collision, Collision::Right);
    assert_eq!(hits[0].entity, EntityId::Wall(Border::Left));

    // Exactly one score event, for the AI, and one counter step.
    assert_eq!(scored, vec![Scored::Ai]);
    assert_eq!(w.score.ai, 1);
    assert_eq!(w.score.player, 0);

    // The ball is back at the origin, serving toward the player's side,
    // and a fresh countdown now holds it.
    assert_eq!(w.ball.position.0, Vec2::new(0, 0));
    assert_eq!(w.ball.velocity.0, Vec2::new(-6, 0));
    assert_eq!(w.countdown, Some(Countdown { elapsed: 0, duration: 3000 }));
}

#[test]
fn after_a_score_the_ball_rests_until_released() {
    let mut w = world_about_to_score();
    w.tick(false, false, 16);
    assert_eq!(w.score.ai, 1);

    // Every tick until three seconds have accumulated leaves the ball at
    // the origin; the timer consumes exactly the frame durations.
    for expected_elapsed in [1000u64, 2000, 2999] {
        let (hits, scored) = w.tick(false, false, if expected_elapsed == 2999 { 999 } else { 1000 });
        assert!(hits.is_empty() && scored.is_empty());
        assert_eq!(w.ball.position.0, Vec2::new(0, 0));
        assert_eq!(w.countdown, Some(Countdown { elapsed: expected_elapsed, duration: 3000 }));
    }

    // The tick that reaches the full duration destroys the timer but still
    // holds the ball.
    w.tick(false, false, 1);
    assert_eq!(w.countdown, None);
    assert_eq!(w.ball.position.0, Vec2::new(0, 0));

    // The next tick integrates normally again.
    w.tick(false, false, 16);
    assert_eq!(w.ball.position.0, Vec2::new(-6, 0));
    assert_eq!(w.score.ai, 1);
}

#[test]
fn paddles_move_even_while_the_ball_is_held() {
    let mut w = World::new(1000, 600);
    let player_y0 = w.player.position.0.y;
    let (_, _) = w.tick(false, true, 16);
    assert!(w.countdown.is_some());
    assert_eq!(w.player.position.0.y, player_y0 - 5);
    // The AI paddle at y -25 lies below the ball at y 0, so it climbs.
    assert_eq!(w.ai.position.0.y, -20);
}

#[test]
fn velocity_is_untouched_while_held() {
    let mut w = World::new(1000, 600);
    w.tick(true, false, 500);
    assert_eq!(w.ball.velocity.0, Vec2::new(6, 6));
}
