//! The ball: spawning, held-or-free position integration, collision response
//! against every rectangular entity, velocity reflection, and the
//! reset-to-origin serve after a score.

use vstd::prelude::*;

use crate::border::Border;
use crate::game_manager::Scored;
use crate::utils::{
    abs_spec, ball_collision, detect_spec, Collision, Position, Shape, Vec2, Vec2i, Velocity,
    COORD_LIMIT,
};

verus! {

/// Magnitude of each velocity component the ball serves with.
pub const INITIAL_SPEED: i64 = 6;

/// Radius of the ball's circle.
pub const RADIUS: i64 = 20;

/// The ball's state: where it is, how it moves, and its circle footprint.
#[derive(Clone, Copy, Debug, PartialEq, Eq, Structural)]
pub struct Ball {
    pub position: Position,
    pub velocity: Velocity,
    pub shape: Shape,
}

/// The mathematical value of a [`Ball`], over unbounded integers.
pub ghost struct BallModel {
    pub position: Vec2i,
    pub velocity: Vec2i,
    pub shape: Shape,
}

impl View for Ball {
    type V = BallModel;

    open spec fn view(&self) -> BallModel {
        BallModel { position: self.position@, velocity: self.velocity@, shape: self.shape }
    }
}

impl Ball {
    /// A freshly spawned ball: at the origin, serving diagonally up and to
    /// the right at the initial speed, with the standard circle.
    pub fn new() -> (b: Ball)
        ensures
            b@.position == (Vec2i { x: 0, y: 0 }),
            b@.velocity == (Vec2i { x: INITIAL_SPEED as int, y: INITIAL_SPEED as int }),
            b@.shape == (Shape::Circle { radius: RADIUS }),
    {
        Ball {
            position: Position(Vec2 { x: 0, y: 0 }),
            velocity: Velocity(Vec2 { x: INITIAL_SPEED, y: INITIAL_SPEED }),
            shape: Shape::Circle { radius: RADIUS },
        }
    }
}

/// Identity of a non-ball entity the ball can strike.
#[derive(Clone, Copy, Debug, PartialEq, Eq, Structural)]
pub enum EntityId {
    PlayerPaddle,
    AiPaddle,
    Wall(Border),
}

/// One non-ball entity as the collision pass sees it.
#[derive(Clone, Copy, Debug, PartialEq, Eq, Structural)]
pub struct Obstacle {
    pub entity: EntityId,
    pub position: Position,
    pub shape: Shape,
}

/// The mathematical value of an [`Obstacle`].
pub ghost struct ObstacleModel {
    pub entity: EntityId,
    pub position: Vec2i,
    pub shape: Shape,
}

impl View for Obstacle {
    type V = ObstacleModel;

    open spec fn view(&self) -> ObstacleModel {
        ObstacleModel { entity: self.entity, position: self.position@, shape: self.shape }
    }
}

pub open spec fn obstacles_view(s: Seq<Obstacle>) -> Seq<ObstacleModel> {
    s.map_values(|o: Obstacle| o@)
}

/// One overlap detected this tick: the side of the struck rectangle and the
/// identity of the entity it belongs to.
#[derive(Clone, Copy, Debug, PartialEq, Eq, Structural)]
pub struct BallCollision {
    pub collision: Collision,
    pub entity: EntityId,
}

/// The squared magnitude of a velocity: the ball's speed is compared by
/// this value, which sign flips never change.
pub open spec fn speed_sq_spec(v: Vec2i) -> int {
    v.x * v.x + v.y * v.y
}

/// Velocity after bouncing off the given side: a left or right contact
/// flips the horizontal sign, a top or bottom contact the vertical one;
/// the magnitude of each component never changes.
pub open spec fn reflect_spec(v: Vec2i, side: Collision) -> Vec2i {
    match side {
        Collision::Left | Collision::Right => Vec2i { x: -v.x, y: v.y },
        Collision::Top | Collision::Bottom => Vec2i { x: v.x, y: -v.y },
    }
}

/// What a circle at `pos` with radius `r` gets from one obstacle: a side
/// when the obstacle is a rectangle it touches, nothing otherwise.
pub open spec fn obstacle_hit_spec(pos: Vec2i, r: int, o: ObstacleModel) -> Option<Collision> {
    match o.shape {
        Shape::Rectangle { width, height } => detect_spec(
            pos,
            r,
            o.position,
            Vec2i { x: width as int / 2, y: height as int / 2 },
        ),
        Shape::Circle { .. } => None,
    }
}

pub ghost struct CollideOut {
    pub velocity: Vec2i,
    pub events: Seq<BallCollision>,
}

/// The whole collision pass: obstacles are checked once each, in order;
/// every hit emits an event and reflects the velocity before the next
/// obstacle is checked.  The ball's position is read, never moved.
pub open spec fn collide_spec(pos: Vec2i, vel: Vec2i, r: int, obs: Seq<ObstacleModel>) -> CollideOut
    decreases obs.len(),
{
    if obs.len() == 0 {
        CollideOut { velocity: vel, events: Seq::empty() }
    } else {
        match obstacle_hit_spec(pos, r, obs[0]) {
            Some(side) => {
                let rest = collide_spec(pos, reflect_spec(vel, side), r, obs.drop_first());
                CollideOut {
                    velocity: rest.velocity,
                    events: seq![BallCollision { collision: side, entity: obs[0].entity }]
                        + rest.events,
                }
            },
            None => collide_spec(pos, vel, r, obs.drop_first()),
        }
    }
}

/// Bounds under which the collision pass can evaluate one obstacle without
/// overflowing: a rectangle's extent stays within the coordinate limit.
pub open spec fn obstacle_in_bounds(o: ObstacleModel) -> bool {
    match o.shape {
        Shape::Rectangle { width, height } => {
            &&& 0 <= width
            &&& 0 <= height
            &&& -COORD_LIMIT <= o.position.x - width as int / 2
            &&& o.position.x + width as int / 2 <= COORD_LIMIT
            &&& -COORD_LIMIT <= o.position.y - height as int / 2
            &&& o.position.y + height as int / 2 <= COORD_LIMIT
        },
        Shape::Circle { .. } => true,
    }
}

/// Bounds under which the ball itself fits the collision pass.
pub open spec fn ball_in_bounds(b: BallModel) -> bool {
    &&& -COORD_LIMIT <= b.position.x <= COORD_LIMIT
    &&& -COORD_LIMIT <= b.position.y <= COORD_LIMIT
    &&& b.velocity.x != i64::MIN
    &&& b.velocity.y != i64::MIN
    &&& match b.shape {
        Shape::Circle { radius } => 0 <= radius <= COORD_LIMIT,
        Shape::Rectangle { .. } => true,
    }
}

/// Integrate the ball's position by its velocity, unless a running countdown
/// holds it; velocity is untouched either way, so motion resumes exactly
/// where it left off once the countdown ends.
pub fn move_ball(ball: &mut Ball, allowed: bool)
    requires
        allowed ==> i64::MIN <= old(ball)@.position.x + old(ball)@.velocity.x <= i64::MAX,
        allowed ==> i64::MIN <= old(ball)@.position.y + old(ball)@.velocity.y <= i64::MAX,
    ensures
        allowed ==> final(ball)@.position == (Vec2i {
            x: old(ball)@.position.x + old(ball)@.velocity.x,
            y: old(ball)@.position.y + old(ball)@.velocity.y,
        }),
        !allowed ==> final(ball)@.position == old(ball)@.position,
        final(ball)@.velocity == old(ball)@.velocity,
        final(ball)@.shape == old(ball)@.shape,
{
    if !allowed {
        return ;
    }
    ball.position.0.x = ball.position.0.x + ball.velocity.0.x;
    ball.position.0.y = ball.position.0.y + ball.velocity.0.y;
}

/// Run the collision pass: check the ball against every obstacle once, in
/// order, emitting an event and reflecting the velocity on each hit.  A
/// ball without a circle footprint is left untouched.
pub fn collision(ball: &mut Ball, obstacles: &Vec<Obstacle>) -> (events: Vec<BallCollision>)
    requires
        ball_in_bounds(old(ball)@),
        forall|i: int|
            0 <= i < obstacles@.len() ==> obstacle_in_bounds(#[trigger] obstacles@[i]@),
    ensures
        final(ball)@.position == old(ball)@.position,
        final(ball)@.shape == old(ball)@.shape,
        match old(ball)@.shape {
            Shape::Circle { radius } => {
                let out = collide_spec(
                    old(ball)@.position,
                    old(ball)@.velocity,
                    radius as int,
                    obstacles_view(obstacles@),
                );
                final(ball)@.velocity == out.velocity && events@ == out.events
            },
            Shape::Rectangle { .. } => final(ball)@.velocity == old(ball)@.velocity && events@
                =~= Seq::<BallCollision>::empty(),
        },
{
    let radius = match ball.shape {
        Shape::Circle { radius } => radius,
        Shape::Rectangle { .. } => {
            return Vec::new();
        },
    };

    let ghost obs_m = obstacles_view(obstacles@);
    let ghost pos0 = ball@.position;
    let ghost vel0 = ball@.velocity;
    let ghost full = collide_spec(pos0, vel0, radius as int, obs_m);

    let mut events: Vec<BallCollision> = Vec::new();
    let mut i: usize = 0;

    proof {
        assert(obs_m.skip(0) =~= obs_m);
        assert(events@ + full.events =~= full.events);
    }

    while i < obstacles.len()
        invariant
            obs_m == obstacles_view(obstacles@),
            obs_m.len() == obstacles@.len(),
            0 <= i <= obstacles@.len(),
            ball_in_bounds(old(ball)@),
            forall|j: int| 0 <= j < obstacles@.len() ==> obstacle_in_bounds(#[trigger] obstacles@[j]@),
            full == collide_spec(pos0, vel0, radius as int, obs_m),
            ball@.position == pos0,
            ball@.shape == old(ball)@.shape,
            pos0 == old(ball)@.position,
            vel0 == old(ball)@.velocity,
            old(ball)@.shape == (Shape::Circle { radius: radius }),
            ball@.velocity.x == vel0.x || ball@.velocity.x == -vel0.x,
            ball@.velocity.y == vel0.y || ball@.velocity.y == -vel0.y,
            collide_spec(pos0, ball@.velocity, radius as int, obs_m.skip(i as int)).velocity
                == full.velocity,
            events@ + collide_spec(pos0, ball@.velocity, radius as int, obs_m.skip(i as int)).events
                =~= full.events,
        decreases obstacles@.len() - i,
    {
        let o = obstacles[i];
        proof {
            assert(obs_m.skip(i as int)[0] == obs_m[i as int]);
            assert(obs_m[i as int] == obstacles@[i as int]@);
            assert(obs_m.skip(i as int).drop_first() =~= obs_m.skip(i as int + 1));
            assert(obstacle_in_bounds(obstacles@[i as int]@));
        }
        match o.shape {
            Shape::Rectangle { width, height } => {
                let half = Vec2 { x: width / 2, y: height / 2 };
                let hit = ball_collision(ball.position.0, radius, o.position.0, half);
                proof {
                    assert(half@ == (Vec2i { x: width as int / 2, y: height as int / 2 }));
                    assert(hit == obstacle_hit_spec(pos0, radius as int, obs_m[i as int]));
                }
                match hit {
                    Some(side) => {
                        let ghost prev_events = events@;
                        let ghost prev_vel = ball@.velocity;
                        events.push(BallCollision { collision: side, entity: o.entity });
                        match side {
                            Collision::Left | Collision::Right => {
                                ball.velocity.0.x = -ball.velocity.0.x;
                            },
                            Collision::Top | Collision::Bottom => {
                                ball.velocity.0.y = -ball.velocity.0.y;
                            },
                        }
                        proof {
                            let ev = BallCollision { collision: side, entity: obs_m[i as int].entity };
                            assert(ball@.velocity == reflect_spec(prev_vel, side));
                            let rest = collide_spec(
                                pos0,
                                reflect_spec(prev_vel, side),
                                radius as int,
                                obs_m.skip(i as int + 1),
                            );
                            assert(collide_spec(pos0, prev_vel, radius as int, obs_m.skip(i as int))
                                == (CollideOut { velocity: rest.velocity, events: seq![ev] + rest.events }));
                            assert(events@ =~= prev_events + seq![ev]);
                            assert(events@ + rest.events =~= prev_events + (seq![ev] + rest.events));
                        }
                    },
                    None => {},
                }
            },
            Shape::Circle { .. } => {
                proof {
                    assert(obstacle_hit_spec(pos0, radius as int, obs_m[i as int]) is None);
                }
            },
        }
        i = i + 1;
    }
    proof {
        assert(obs_m.skip(obs_m.len() as int) =~= Seq::<ObstacleModel>::empty());
    }
    events
}

/// Snap the ball back to the origin for each score this tick, keeping the
/// vertical direction; when the AI scored, the horizontal sign flips so the
/// serve goes back toward the player.
pub open spec fn reset_spec(ball: BallModel, scored: Seq<Scored>) -> BallModel
    decreases scored.len(),
{
    if scored.len() == 0 {
        ball
    } else {
        let stepped = match scored[0] {
            Scored::Player => BallModel {
                position: Vec2i { x: 0, y: 0 },
                velocity: ball.velocity,
                shape: ball.shape,
            },
            Scored::Ai => BallModel {
                position: Vec2i { x: 0, y: 0 },
                velocity: Vec2i { x: -ball.velocity.x, y: ball.velocity.y },
                shape: ball.shape,
            },
        };
        reset_spec(stepped, scored.drop_first())
    }
}

/// Apply the post-score reset for every score event of this tick.
pub fn reset_on_score(ball: &mut Ball, scored: &Vec<Scored>)
    requires
        old(ball)@.velocity.x != i64::MIN,
    ensures
        final(ball)@ == reset_spec(old(ball)@, scored@),
{
    let ghost full = reset_spec(ball@, scored@);
    let mut i: usize = 0;
    proof {
        assert(scored@.skip(0) =~= scored@);
    }
    while i < scored.len()
        invariant
            0 <= i <= scored@.len(),
            ball@.velocity.x == old(ball)@.velocity.x || ball@.velocity.x == -old(
                ball,
            )@.velocity.x,
            old(ball)@.velocity.x != i64::MIN,
            reset_spec(ball@, scored@.skip(i as int)) == full,
            full == reset_spec(old(ball)@, scored@),
        decreases scored@.len() - i,
    {
        proof {
            assert(scored@.skip(i as int)[0] == scored@[i as int]);
            assert(scored@.skip(i as int).drop_first() =~= scored@.skip(i as int + 1));
        }
        let ghost prev = ball@;
        ball.position.0.x = 0;
        ball.position.0.y = 0;
        match scored[i] {
            Scored::Player => {},
            Scored::Ai => {
                ball.velocity.0.x = -ball.velocity.0.x;
            },
        }
        proof {
            assert(reset_spec(prev, scored@.skip(i as int)) == reset_spec(
                ball@,
                scored@.skip(i as int + 1),
            ));
        }
        i = i + 1;
    }
    proof {
        assert(scored@.skip(scored@.len() as int) =~= Seq::<Scored>::empty());
    }
}

/// How the ball's sprite is oriented for a velocity: whether it is flipped
/// to face right, and the rotation angle in degrees that leans it into its
/// direction of travel.
pub open spec fn sprite_angle_spec(vel: Vec2i) -> int {
    (if vel.x > 0 {
        1int
    } else {
        -1int
    }) * (if vel.y > 0 {
        1int
    } else {
        -1int
    }) * 45
}

/// Compute the sprite orientation for the current velocity: flip when the
/// ball travels right, and lean the sprite 45 degrees into its direction.
pub fn sprite_flip_rotation(velocity: &Velocity) -> (r: (bool, i64))
    ensures
        r.0 == (velocity@.x > 0),
        r.1 as int == sprite_angle_spec(velocity@),
{
    let flip_x = velocity.0.x > 0;
    let flip_modifier: i64 = if flip_x {
        1
    } else {
        -1
    };
    let angle_modifier: i64 = if velocity.0.y > 0 {
        1
    } else {
        -1
    };
    (flip_x, flip_modifier * angle_modifier * 45)
}

/// A collision pass over obstacles none of which the ball touches emits
/// nothing and leaves the velocity alone.
pub proof fn lemma_no_contact_no_events(pos: Vec2i, vel: Vec2i, r: int, obs: Seq<ObstacleModel>)
    requires
        forall|i: int| 0 <= i < obs.len() ==> obstacle_hit_spec(pos, r, #[trigger] obs[i]) is None,
    ensures
        collide_spec(pos, vel, r, obs) == (CollideOut {
            velocity: vel,
            events: Seq::<BallCollision>::empty(),
        }),
    decreases obs.len(),
{
    if obs.len() > 0 {
        assert(obstacle_hit_spec(pos, r, obs[0]) is None);
        assert forall|i: int|
            0 <= i < obs.drop_first().len() implies obstacle_hit_spec(
            pos,
            r,
            #[trigger] obs.drop_first()[i],
        ) is None by {
            assert(obs.drop_first()[i] == obs[i + 1]);
        }
        lemma_no_contact_no_events(pos, vel, r, obs.drop_first());
    }
}

/// After at least one score this tick, the ball stands at the origin; its
/// footprint never changes.
pub proof fn lemma_reset_nonempty_origin(ball: BallModel, scored: Seq<Scored>)
    requires
        scored.len() > 0,
    ensures
        reset_spec(ball, scored).position == (Vec2i { x: 0, y: 0 }),
        reset_spec(ball, scored).shape == ball.shape,
    decreases scored.len(),
{
    let stepped = match scored[0] {
        Scored::Player => BallModel {
            position: Vec2i { x: 0, y: 0 },
            velocity: ball.velocity,
            shape: ball.shape,
        },
        Scored::Ai => BallModel {
            position: Vec2i { x: 0, y: 0 },
            velocity: Vec2i { x: -ball.velocity.x, y: ball.velocity.y },
            shape: ball.shape,
        },
    };
    assert(reset_spec(ball, scored) == reset_spec(stepped, scored.drop_first()));
    if scored.len() == 1 {
        assert(scored.drop_first().len() == 0);
        assert(reset_spec(stepped, scored.drop_first()) == stepped);
    } else {
        lemma_reset_nonempty_origin(stepped, scored.drop_first());
    }
}

/// The post-score reset flips at most the horizontal sign of the serve:
/// the speed, and the magnitude of each velocity component, is unchanged.
pub proof fn lemma_reset_preserves_speed(ball: BallModel, scored: Seq<Scored>)
    ensures
        speed_sq_spec(reset_spec(ball, scored).velocity) == speed_sq_spec(ball.velocity),
        abs_spec(reset_spec(ball, scored).velocity.x) == abs_spec(ball.velocity.x),
        abs_spec(reset_spec(ball, scored).velocity.y) == abs_spec(ball.velocity.y),
    decreases scored.len(),
{
    if scored.len() > 0 {
        let stepped = match scored[0] {
            Scored::Player => BallModel {
                position: Vec2i { x: 0, y: 0 },
                velocity: ball.velocity,
                shape: ball.shape,
            },
            Scored::Ai => BallModel {
                position: Vec2i { x: 0, y: 0 },
                velocity: Vec2i { x: -ball.velocity.x, y: ball.velocity.y },
                shape: ball.shape,
            },
        };
        assert(stepped.velocity.x * stepped.velocity.x == ball.velocity.x * ball.velocity.x)
            by (nonlinear_arith)
            requires
                stepped.velocity.x == ball.velocity.x || stepped.velocity.x == -ball.velocity.x,
        ;
        lemma_reset_preserves_speed(stepped, scored.drop_first());
    }
}

/// Law: reflecting off the same side twice returns the original velocity;
/// one reflection only flips a sign, so a second application cancels it.
pub proof fn lemma_reflect_twice_cancels(v: Vec2i, side: Collision)
    ensures
        reflect_spec(reflect_spec(v, side), side) == v,
{
}

/// Law: a reflection changes at most the signs of the velocity components,
/// never their magnitude, so the squared speed is invariant.
pub proof fn lemma_reflect_preserves_speed(v: Vec2i, side: Collision)
    ensures
        speed_sq_spec(reflect_spec(v, side)) == speed_sq_spec(v),
        abs_spec(reflect_spec(v, side).x) == abs_spec(v.x),
        abs_spec(reflect_spec(v, side).y) == abs_spec(v.y),
{
    let r = reflect_spec(v, side);
    assert(r.x * r.x == v.x * v.x && r.y * r.y == v.y * v.y) by (nonlinear_arith)
        requires
            (r.x == v.x || r.x == -v.x) && (r.y == v.y || r.y == -v.y),
    ;
}

/// Law: across any sequence of collisions in one pass, the ball's squared
/// speed — and the magnitude of each velocity component — is unchanged;
/// only signs flip.  Also, one pass emits at most one event per obstacle.
pub proof fn lemma_collisions_preserve_speed(
    pos: Vec2i,
    vel: Vec2i,
    r: int,
    obs: Seq<ObstacleModel>,
)
    ensures
        speed_sq_spec(collide_spec(pos, vel, r, obs).velocity) == speed_sq_spec(vel),
        abs_spec(collide_spec(pos, vel, r, obs).velocity.x)
            == abs_spec(vel.x),
        abs_spec(collide_spec(pos, vel, r, obs).velocity.y)
            == abs_spec(vel.y),
        collide_spec(pos, vel, r, obs).events.len() <= obs.len(),
    decreases obs.len(),
{
    if obs.len() == 0 {
    } else {
        match obstacle_hit_spec(pos, r, obs[0]) {
            Some(side) => {
                lemma_reflect_preserves_speed(vel, side);
                lemma_collisions_preserve_speed(pos, reflect_spec(vel, side), r, obs.drop_first());
            },
            None => {
                lemma_collisions_preserve_speed(pos, vel, r, obs.drop_first());
            },
        }
    }
}

} // verus!
