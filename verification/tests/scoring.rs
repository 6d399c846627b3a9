use pong_core::ball::{BallCollision, EntityId};
use pong_core::border::Border;
use pong_core::game_manager::{
    count, countdown_display_seconds, countdown_guard, detect_scoring, start_countdown_on_score,
    Countdown, Score, Scored,
};
use pong_core::utils::Collision;

fn hit(side: Collision, entity: EntityId) -> BallCollision {
    BallCollision { collision: side, entity }
}

#[test]
fn left_wall_collision_scores_the_ai() {
    let mut score = Score::new();
    let events = vec![hit(Collision::Left, EntityId::Wall(Border::Left))];
    let scored = detect_scoring(&events, &mut score);
    assert_eq!(scored, vec![Scored::Ai]);
    assert_eq!(score.ai, 1);
    assert_eq!(score.player, 0);
}

#[test]
fn right_wall_collision_scores_the_player() {
    let mut score = Score::new();
    let events = vec![hit(Collision::Right, EntityId::Wall(Border::Right))];
    let scored = detect_scoring(&events, &mut score);
    assert_eq!(scored, vec![Scored::Player]);
    assert_eq!(score.player, 1);
    assert_eq!(score.ai, 0);
}

#[test]
fn top_and_bottom_sides_never_score() {
    let mut score = Score::new();
    let events = vec![
        hit(Collision::Top, EntityId::Wall(Border::Left)),
        hit(Collision::Bottom, EntityId::Wall(Border::Right)),
        hit(Collision::Top, EntityId::Wall(Border::Top)),
        hit(Collision::Bottom, EntityId::Wall(Border::Bottom)),
    ];
    let scored = detect_scoring(&events, &mut score);
    assert!(scored.is_empty());
    assert_eq!(score.player, 0);
    assert_eq!(score.ai, 0);
}

#[test]
fn top_and_bottom_walls_never_score() {
    let mut score = Score::new();
    let events = vec![
        hit(Collision::Left, EntityId::Wall(Border::Top)),
        hit(Collision::Right, EntityId::Wall(Border::Bottom)),
    ];
    let scored = detect_scoring(&events, &mut score);
    assert!(scored.is_empty());
}

#[test]
fn paddle_hits_never_score() {
    let mut score = Score::new();
    let events = vec![
        hit(Collision::Left, EntityId::PlayerPaddle),
        hit(Collision::Right, EntityId::AiPaddle),
    ];
    let scored = detect_scoring(&events, &mut score);
    assert!(scored.is_empty());
}

#[test]
fn each_scoring_event_counts_once() {
    let mut score = Score::new();
    let events = vec![
        hit(Collision::Left, EntityId::Wall(Border::Left)),
        hit(Collision::Right, EntityId::Wall(Border::Right)),
        hit(Collision::Right, EntityId::Wall(Border::Left)),
    ];
    let scored = detect_scoring(&events, &mut score);
    assert_eq!(scored, vec![Scored::Ai, Scored::Player, Scored::Ai]);
    assert_eq!(score.ai, 2);
    assert_eq!(score.player, 1);
}

#[test]
fn countdown_accumulates_and_expires() {
    let mut cd = Some(Countdown::new());
    assert!(!countdown_guard(&cd));
    count(&mut cd, 1000);
    assert_eq!(cd, Some(Countdown { elapsed: 1000, duration: 3000 }));
    count(&mut cd, 1999);
    assert_eq!(cd, Some(Countdown { elapsed: 2999, duration: 3000 }));
    count(&mut cd, 1);
    assert_eq!(cd, None);
    assert!(countdown_guard(&cd));
}

#[test]
fn counting_without_a_timer_does_nothing() {
    let mut cd: Option<Countdown> = None;
    count(&mut cd, 500);
    assert_eq!(cd, None);
}

#[test]
fn a_score_starts_the_countdown_only_when_idle() {
    let mut cd: Option<Countdown> = None;
    start_countdown_on_score(&mut cd, &vec![Scored::Ai]);
    assert_eq!(cd, Some(Countdown { elapsed: 0, duration: 3000 }));

    // A second score while counting is ignored: the running timer stays.
    count(&mut cd, 700);
    start_countdown_on_score(&mut cd, &vec![Scored::Player]);
    assert_eq!(cd, Some(Countdown { elapsed: 700, duration: 3000 }));
}

#[test]
fn no_score_starts_no_countdown() {
    let mut cd: Option<Countdown> = None;
    start_countdown_on_score(&mut cd, &Vec::new());
    assert_eq!(cd, None);
}

#[test]
fn countdown_display_rounds_up_from_the_remaining_time() {
    let cd = Countdown { elapsed: 500, duration: 3000 };
    assert_eq!(countdown_display_seconds(&cd), 3);
    let cd = Countdown { elapsed: 2999, duration: 3000 };
    assert_eq!(countdown_display_seconds(&cd), 1);
    // A fresh three-second timer reads exactly 3: whole-second remainders
    // are not over-counted.
    let cd = Countdown { elapsed: 0, duration: 3000 };
    assert_eq!(countdown_display_seconds(&cd), 3);
}
