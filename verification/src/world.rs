//! The frame orchestrator: the whole game state and the fixed-order tick
//! that advances it — input to paddle velocity, paddle and ball
//! integration, collision detection, scoring, countdown update, and the
//! post-score reset, in that order, once per frame.

use vstd::prelude::*;

use crate::ball::{
    collide_spec, collision, lemma_collisions_preserve_speed, lemma_no_contact_no_events,
    lemma_reset_nonempty_origin, lemma_reset_preserves_speed, move_ball, obstacle_hit_spec,
    obstacle_in_bounds, obstacles_view, reset_on_score, reset_spec, speed_sq_spec, Ball,
    BallCollision, BallModel, CollideOut, EntityId, Obstacle, ObstacleModel,
};
use crate::border::{border_position_spec, border_shape_spec, Border, BORDER_THICKNESS};
use crate::game_manager::{
    count, count_spec, countdown_guard, countdown_guard_spec, countdown_view, detect_scoring,
    lemma_count_scored_bounds, lemma_scored_events_len, scored_events_spec, start_countdown_on_score,
    start_countdown_spec, count_scored_spec, Countdown, CountdownModel, Score, ScoreModel, Scored,
};
use crate::paddle::{
    ai_paddle, ai_velocity_y_spec, handle_input, move_paddle, player_velocity_y_spec, Paddle,
    PaddleModel, PADDLE_PADDING, PADDLE_START_Y,
};
use crate::utils::{abs_spec, lemma_separated_no_collision, Shape, Vec2i};

verus! {

/// Positions the tick accepts; far enough below the collision pass's
/// coordinate limit that one tick of motion cannot leave it.
pub const POS_LIMIT: i64 = 0x1000_0000;

/// Velocities the tick accepts.
pub const VEL_LIMIT: i64 = 0x10_0000;

/// Rectangle extents the tick accepts.
pub const EXTENT_LIMIT: i64 = 0x0800_0000;

/// The whole game state: the three moving entities, the window's half
/// extents that place the four walls, the score, and the optional
/// post-score timer.  Exactly one ball, one player paddle and one AI
/// paddle exist, and at most one timer — the shape of the state itself
/// keeps those invariants.
pub struct World {
    pub ball: Ball,
    pub player: Paddle,
    pub ai: Paddle,
    pub half_width: i64,
    pub half_height: i64,
    pub score: Score,
    pub countdown: Option<Countdown>,
}

/// The mathematical value of a [`World`], over unbounded integers.
pub ghost struct WorldModel {
    pub ball: BallModel,
    pub player: PaddleModel,
    pub ai: PaddleModel,
    pub half_width: int,
    pub half_height: int,
    pub score: ScoreModel,
    pub countdown: Option<CountdownModel>,
}

impl View for World {
    type V = WorldModel;

    open spec fn view(&self) -> WorldModel {
        WorldModel {
            ball: self.ball@,
            player: self.player@,
            ai: self.ai@,
            half_width: self.half_width as int,
            half_height: self.half_height as int,
            score: self.score@,
            countdown: countdown_view(self.countdown),
        }
    }
}

/// One frame's worth of outside input: the two key states and the elapsed
/// frame duration in milliseconds.
pub ghost struct TickInput {
    pub up: bool,
    pub down: bool,
    pub delta: int,
}

/// Everything one tick produces: the next state, the collision events of
/// the tick, and the score events derived from them.
pub ghost struct TickOutcome {
    pub world: WorldModel,
    pub collisions: Seq<BallCollision>,
    pub scored: Seq<Scored>,
}

/// The player paddle after its stage: velocity recomputed from the keys,
/// position integrated by it.
pub open spec fn player_stage_spec(w: WorldModel, up: bool, down: bool) -> PaddleModel {
    let vel = Vec2i { x: w.player.velocity.x, y: player_velocity_y_spec(up, down) };
    PaddleModel {
        position: Vec2i { x: w.player.position.x + vel.x, y: w.player.position.y + vel.y },
        velocity: vel,
        shape: w.player.shape,
    }
}

/// The AI paddle after its stage: velocity recomputed from the ball's
/// height, position integrated by it.  The ball is read before it moves.
pub open spec fn ai_stage_spec(w: WorldModel) -> PaddleModel {
    let vel = Vec2i {
        x: w.ai.velocity.x,
        y: ai_velocity_y_spec(w.ai.position.y, w.ball.position.y),
    };
    PaddleModel {
        position: Vec2i { x: w.ai.position.x + vel.x, y: w.ai.position.y + vel.y },
        velocity: vel,
        shape: w.ai.shape,
    }
}

/// The obstacles the ball is checked against, in the fixed order of the
/// pass: the four walls, then the player paddle, then the AI paddle.
pub open spec fn obstacles_spec(
    half_width: int,
    half_height: int,
    player: PaddleModel,
    ai: PaddleModel,
) -> Seq<ObstacleModel> {
    seq![
        ObstacleModel {
            entity: EntityId::Wall(Border::Left),
            position: border_position_spec(Border::Left, half_width, half_height),
            shape: border_shape_spec(Border::Left),
        },
        ObstacleModel {
            entity: EntityId::Wall(Border::Right),
            position: border_position_spec(Border::Right, half_width, half_height),
            shape: border_shape_spec(Border::Right),
        },
        ObstacleModel {
            entity: EntityId::Wall(Border::Top),
            position: border_position_spec(Border::Top, half_width, half_height),
            shape: border_shape_spec(Border::Top),
        },
        ObstacleModel {
            entity: EntityId::Wall(Border::Bottom),
            position: border_position_spec(Border::Bottom, half_width, half_height),
            shape: border_shape_spec(Border::Bottom),
        },
        ObstacleModel { entity: EntityId::PlayerPaddle, position: player.position, shape: player.shape },
        ObstacleModel { entity: EntityId::AiPaddle, position: ai.position, shape: ai.shape },
    ]
}

/// The ball's collision pass for this tick: a no-op unless the ball is a
/// circle.
pub open spec fn collide_stage_spec(
    ball_pos: Vec2i,
    vel: Vec2i,
    shape: Shape,
    obs: Seq<ObstacleModel>,
) -> CollideOut {
    match shape {
        Shape::Circle { radius } => collide_spec(ball_pos, vel, radius as int, obs),
        Shape::Rectangle { .. } => CollideOut { velocity: vel, events: Seq::empty() },
    }
}

/// One whole tick: paddles first, then the ball's held-or-free integration, the
/// collision pass against the moved paddles and the walls, scoring from
/// the collision events, the countdown update and possible restart, and
/// finally the post-score ball reset.
pub open spec fn tick_spec(w: WorldModel, up: bool, down: bool, delta: int) -> TickOutcome {
    let player1 = player_stage_spec(w, up, down);
    let ai1 = ai_stage_spec(w);
    let allowed = countdown_guard_spec(w.countdown);
    let ball_pos1 = if allowed {
        Vec2i { x: w.ball.position.x + w.ball.velocity.x, y: w.ball.position.y + w.ball.velocity.y }
    } else {
        w.ball.position
    };
    let coll = collide_stage_spec(
        ball_pos1,
        w.ball.velocity,
        w.ball.shape,
        obstacles_spec(w.half_width, w.half_height, player1, ai1),
    );
    let scored = scored_events_spec(coll.events);
    let score1 = ScoreModel {
        player: w.score.player + count_scored_spec(scored, Scored::Player),
        ai: w.score.ai + count_scored_spec(scored, Scored::Ai),
    };
    let countdown1 = start_countdown_spec(count_spec(w.countdown, delta), scored.len() > 0);
    let ball1 = BallModel { position: ball_pos1, velocity: coll.velocity, shape: w.ball.shape };
    let ball2 = reset_spec(ball1, scored);
    TickOutcome {
        world: WorldModel {
            ball: ball2,
            player: player1,
            ai: ai1,
            half_width: w.half_width,
            half_height: w.half_height,
            score: score1,
            countdown: countdown1,
        },
        collisions: coll.events,
        scored: scored,
    }
}

/// Bounds under which one tick cannot overflow: every coordinate,
/// velocity and extent is well inside the collision pass's limit, and the
/// score counters leave room for the at most six events of one tick.
pub open spec fn world_in_bounds(w: WorldModel) -> bool {
    &&& abs_spec(w.ball.position.x) <= POS_LIMIT
    &&& abs_spec(w.ball.position.y) <= POS_LIMIT
    &&& abs_spec(w.ball.velocity.x) <= VEL_LIMIT
    &&& abs_spec(w.ball.velocity.y) <= VEL_LIMIT
    &&& match w.ball.shape {
        Shape::Circle { radius } => 0 <= radius <= POS_LIMIT,
        Shape::Rectangle { .. } => true,
    }
    &&& abs_spec(w.player.position.x) <= POS_LIMIT
    &&& abs_spec(w.player.position.y) <= POS_LIMIT
    &&& abs_spec(w.player.velocity.x) <= VEL_LIMIT
    &&& abs_spec(w.player.velocity.y) <= VEL_LIMIT
    &&& paddle_shape_in_bounds(w.player.shape)
    &&& abs_spec(w.ai.position.x) <= POS_LIMIT
    &&& abs_spec(w.ai.position.y) <= POS_LIMIT
    &&& abs_spec(w.ai.velocity.x) <= VEL_LIMIT
    &&& abs_spec(w.ai.velocity.y) <= VEL_LIMIT
    &&& paddle_shape_in_bounds(w.ai.shape)
    &&& 0 <= w.half_width <= POS_LIMIT
    &&& 0 <= w.half_height <= POS_LIMIT
    &&& w.score.player <= u32::MAX - 6
    &&& w.score.ai <= u32::MAX - 6
}

pub open spec fn paddle_shape_in_bounds(s: Shape) -> bool {
    match s {
        Shape::Rectangle { width, height } => 0 <= width <= EXTENT_LIMIT && 0 <= height
            <= EXTENT_LIMIT,
        Shape::Circle { .. } => true,
    }
}

/// The state a fresh game starts in, for a window of the given size: the
/// ball serving from the origin, the paddles at their edges, the walls on
/// the window's edges, no score, and the initial three-second countdown
/// already running.
pub open spec fn initial_world_spec(width: int, height: int) -> WorldModel {
    WorldModel {
        ball: BallModel {
            position: Vec2i { x: 0, y: 0 },
            velocity: Vec2i {
                x: crate::ball::INITIAL_SPEED as int,
                y: crate::ball::INITIAL_SPEED as int,
            },
            shape: Shape::Circle { radius: crate::ball::RADIUS },
        },
        player: PaddleModel {
            position: Vec2i { x: width / 2 - PADDLE_PADDING, y: PADDLE_START_Y as int },
            velocity: Vec2i { x: 0, y: 0 },
            shape: Shape::Rectangle {
                width: crate::paddle::PADDLE_WIDTH,
                height: crate::paddle::PADDLE_HEIGHT,
            },
        },
        ai: PaddleModel {
            position: Vec2i { x: -(width / 2) + PADDLE_PADDING, y: PADDLE_START_Y as int },
            velocity: Vec2i { x: 0, y: 0 },
            shape: Shape::Rectangle {
                width: crate::paddle::PADDLE_WIDTH,
                height: crate::paddle::PADDLE_HEIGHT,
            },
        },
        half_width: width / 2,
        half_height: height / 2,
        score: ScoreModel { player: 0, ai: 0 },
        countdown: Some(
            CountdownModel {
                elapsed: 0,
                duration: crate::game_manager::COUNTDOWN_MILLIS as int,
            },
        ),
    }
}

/// A freshly spawned world for any reasonably sized window satisfies the
/// bounds the tick asks for, so the game can start ticking at once.
pub proof fn lemma_initial_world_in_bounds(width: int, height: int)
    requires
        0 <= width <= 2 * POS_LIMIT,
        0 <= height <= 2 * POS_LIMIT,
    ensures
        world_in_bounds(initial_world_spec(width, height)),
{
}

impl World {
    /// Spawn a fresh game for a window of the given size.
    pub fn new(window_width: i64, window_height: i64) -> (w: World)
        requires
            0 <= window_width,
            0 <= window_height,
        ensures
            w@ == initial_world_spec(window_width as int, window_height as int),
    {
        World {
            ball: Ball::new(),
            player: Paddle::new(window_width / 2 - PADDLE_PADDING),
            ai: Paddle::new(-(window_width / 2) + PADDLE_PADDING),
            half_width: window_width / 2,
            half_height: window_height / 2,
            score: Score::new(),
            countdown: Some(Countdown::new()),
        }
    }

    /// Take a new window size: the walls move to the new edges; nothing
    /// else changes.
    pub fn resize(&mut self, window_width: i64, window_height: i64)
        requires
            0 <= window_width,
            0 <= window_height,
        ensures
            final(self)@ == (WorldModel {
                half_width: window_width as int / 2,
                half_height: window_height as int / 2,
                ..old(self)@
            }),
    {
        self.half_width = window_width / 2;
        self.half_height = window_height / 2;
    }

    /// The obstacles the ball is checked against, in the pass's fixed
    /// order.
    pub fn obstacles(&self) -> (obs: Vec<Obstacle>)
        requires
            self.half_width != i64::MIN,
            self.half_height != i64::MIN,
        ensures
            obstacles_view(obs@) == obstacles_spec(
                self@.half_width,
                self@.half_height,
                self@.player,
                self@.ai,
            ),
    {
        let mut obs: Vec<Obstacle> = Vec::new();
        obs.push(
            Obstacle {
                entity: EntityId::Wall(Border::Left),
                position: Border::Left.get_position(self.half_width, self.half_height),
                shape: Border::Left.shape(),
            },
        );
        obs.push(
            Obstacle {
                entity: EntityId::Wall(Border::Right),
                position: Border::Right.get_position(self.half_width, self.half_height),
                shape: Border::Right.shape(),
            },
        );
        obs.push(
            Obstacle {
                entity: EntityId::Wall(Border::Top),
                position: Border::Top.get_position(self.half_width, self.half_height),
                shape: Border::Top.shape(),
            },
        );
        obs.push(
            Obstacle {
                entity: EntityId::Wall(Border::Bottom),
                position: Border::Bottom.get_position(self.half_width, self.half_height),
                shape: Border::Bottom.shape(),
            },
        );
        obs.push(
            Obstacle { entity: EntityId::PlayerPaddle, position: self.player.position, shape: self.player.shape },
        );
        obs.push(
            Obstacle { entity: EntityId::AiPaddle, position: self.ai.position, shape: self.ai.shape },
        );
        proof {
            assert(obstacles_view(obs@) =~= obstacles_spec(
                self@.half_width,
                self@.half_height,
                self@.player,
                self@.ai,
            ));
        }
        obs
    }

    /// Advance the whole game by one tick, in the fixed stage order, and
    /// hand back this tick's collision and score events.
    pub fn tick(&mut self, up_pressed: bool, down_pressed: bool, delta_ms: u64) -> (events: (
        Vec<BallCollision>,
        Vec<Scored>,
    ))
        requires
            world_in_bounds(old(self)@),
            match old(self)@.countdown {
                Some(c) => c.elapsed + delta_ms <= u64::MAX,
                None => true,
            },
        ensures
            final(self)@ == tick_spec(old(self)@, up_pressed, down_pressed, delta_ms as int).world,
            events.0@ == tick_spec(old(self)@, up_pressed, down_pressed, delta_ms as int).collisions,
            events.1@ == tick_spec(old(self)@, up_pressed, down_pressed, delta_ms as int).scored,
    {
        let ghost w0 = self@;

        handle_input(&mut self.player.velocity, up_pressed, down_pressed);
        ai_paddle(&mut self.ai.velocity, &self.ai.position, &self.ball.position);
        move_paddle(&mut self.player);
        move_paddle(&mut self.ai);

        proof {
            assert(self@.player == player_stage_spec(w0, up_pressed, down_pressed));
            assert(self@.ai == ai_stage_spec(w0));
        }

        let allowed = countdown_guard(&self.countdown);
        move_ball(&mut self.ball, allowed);

        let obstacles = self.obstacles();
        let ghost obs_m = obstacles_spec(w0.half_width, w0.half_height, self@.player, self@.ai);
        proof {
            assert(obs_m.len() == 6);
            assert(obstacle_in_bounds(obs_m[0]));
            assert(obstacle_in_bounds(obs_m[1]));
            assert(obstacle_in_bounds(obs_m[2]));
            assert(obstacle_in_bounds(obs_m[3]));
            assert(obstacle_in_bounds(obs_m[4]));
            assert(obstacle_in_bounds(obs_m[5]));
            assert forall|i: int| 0 <= i < obstacles@.len() implies obstacle_in_bounds(
                #[trigger] obstacles@[i]@,
            ) by {
                assert(obstacles@[i]@ == obstacles_view(obstacles@)[i]);
                assert(obstacles@[i]@ == obs_m[i]);
            }
        }
        let collisions = collision(&mut self.ball, &obstacles);

        proof {
            match w0.ball.shape {
                Shape::Circle { radius } => {
                    lemma_collisions_preserve_speed(
                        self@.ball.position,
                        w0.ball.velocity,
                        radius as int,
                        obs_m,
                    );
                },
                Shape::Rectangle { .. } => {},
            }
            lemma_scored_events_len(collisions@);
            lemma_count_scored_bounds(scored_events_spec(collisions@), Scored::Ai);
            lemma_count_scored_bounds(scored_events_spec(collisions@), Scored::Player);
        }

        let scored = detect_scoring(&collisions, &mut self.score);

        count(&mut self.countdown, delta_ms);
        start_countdown_on_score(&mut self.countdown, &scored);

        reset_on_score(&mut self.ball, &scored);

        proof {
            let out = tick_spec(w0, up_pressed, down_pressed, delta_ms as int);
            assert(collisions@ == out.collisions);
            assert(scored@ == out.scored);
            assert(self@.ball == out.world.ball);
            assert(self@.score == out.world.score);
            assert(self@.countdown == out.world.countdown);
            assert(self@ == out.world);
        }

        (collisions, scored)
    }
}


/// A paddle that cannot touch a ball resting at the origin: its rectangle
/// stays fully to one side of the ball by more than the radius, and it
/// never moves horizontally.
pub open spec fn paddle_clear_spec(p: PaddleModel, r: int) -> bool {
    &&& p.velocity.x == 0
    &&& match p.shape {
        Shape::Rectangle { width, height } => 0 <= width && 0 <= height && (p.position.x
            - width as int / 2 > r || p.position.x + width as int / 2 < -r),
        Shape::Circle { .. } => true,
    }
}

/// A configuration in which the ball rests at the origin touching nothing:
/// the walls lie beyond its radius and both paddles keep clear of the
/// middle of the field.
pub open spec fn hold_config_spec(w: WorldModel) -> bool {
    &&& w.ball.position == (Vec2i { x: 0, y: 0 })
    &&& match w.ball.shape {
        Shape::Circle { radius } => {
            &&& 0 <= radius
            &&& w.half_width > radius + BORDER_THICKNESS as int / 2
            &&& w.half_height > radius + BORDER_THICKNESS as int / 2
            &&& paddle_clear_spec(w.player, radius as int)
            &&& paddle_clear_spec(w.ai, radius as int)
        },
        Shape::Rectangle { .. } => true,
    }
}

/// Law: while an unfinished countdown holds the ball and the ball rests clear of
/// everything at the origin, a tick leaves the ball — position, velocity
/// and all — and the score untouched: integration is skipped, nothing
/// collides, nothing scores; only the timer advances.
pub proof fn lemma_held_tick_leaves_ball(w: WorldModel, up: bool, down: bool, delta: int)
    requires
        !countdown_guard_spec(w.countdown),
        hold_config_spec(w),
    ensures
        tick_spec(w, up, down, delta).collisions == Seq::<BallCollision>::empty(),
        tick_spec(w, up, down, delta).scored == Seq::<Scored>::empty(),
        tick_spec(w, up, down, delta).world.ball == w.ball,
        tick_spec(w, up, down, delta).world.score == w.score,
        tick_spec(w, up, down, delta).world.countdown == count_spec(w.countdown, delta),
        tick_spec(w, up, down, delta).world.half_width == w.half_width,
        tick_spec(w, up, down, delta).world.half_height == w.half_height,
        hold_config_spec(tick_spec(w, up, down, delta).world),
{
    let player1 = player_stage_spec(w, up, down);
    let ai1 = ai_stage_spec(w);
    let obs = obstacles_spec(w.half_width, w.half_height, player1, ai1);
    let origin = Vec2i { x: 0, y: 0 };
    match w.ball.shape {
        Shape::Circle { radius } => {
            let r = radius as int;
            let half_lr = Vec2i {
                x: BORDER_THICKNESS as int / 2,
                y: crate::border::INFINITE as int / 2,
            };
            let half_tb = Vec2i {
                x: crate::border::INFINITE as int / 2,
                y: BORDER_THICKNESS as int / 2,
            };
            lemma_separated_no_collision(
                origin,
                r,
                Vec2i { x: -w.half_width, y: 0 },
                half_lr,
            );
            lemma_separated_no_collision(origin, r, Vec2i { x: w.half_width, y: 0 }, half_lr);
            lemma_separated_no_collision(origin, r, Vec2i { x: 0, y: w.half_height }, half_tb);
            lemma_separated_no_collision(
                origin,
                r,
                Vec2i { x: 0, y: -w.half_height },
                half_tb,
            );
            assert(obstacle_hit_spec(origin, r, obs[0]) is None);
            assert(obstacle_hit_spec(origin, r, obs[1]) is None);
            assert(obstacle_hit_spec(origin, r, obs[2]) is None);
            assert(obstacle_hit_spec(origin, r, obs[3]) is None);
            assert(obstacle_hit_spec(origin, r, obs[4]) is None) by {
                match player1.shape {
                    Shape::Rectangle { width, height } => {
                        lemma_separated_no_collision(
                            origin,
                            r,
                            player1.position,
                            Vec2i { x: width as int / 2, y: height as int / 2 },
                        );
                    },
                    Shape::Circle { .. } => {},
                }
            }
            assert(obstacle_hit_spec(origin, r, obs[5]) is None) by {
                match ai1.shape {
                    Shape::Rectangle { width, height } => {
                        lemma_separated_no_collision(
                            origin,
                            r,
                            ai1.position,
                            Vec2i { x: width as int / 2, y: height as int / 2 },
                        );
                    },
                    Shape::Circle { .. } => {},
                }
            }
            assert forall|i: int| 0 <= i < obs.len() implies obstacle_hit_spec(
                origin,
                r,
                #[trigger] obs[i],
            ) is None by {
                assert(obs.len() == 6);
            }
            lemma_no_contact_no_events(origin, w.ball.velocity, r, obs);
        },
        Shape::Rectangle { .. } => {},
    }
    assert(scored_events_spec(Seq::<BallCollision>::empty()) == Seq::<Scored>::empty());
    assert(count_scored_spec(Seq::<Scored>::empty(), Scored::Player) == 0);
    assert(count_scored_spec(Seq::<Scored>::empty(), Scored::Ai) == 0);
    assert(reset_spec(tick_spec(w, up, down, delta).world.ball, Seq::<Scored>::empty())
        == tick_spec(w, up, down, delta).world.ball);
}

/// The elapsed time of a running timer, zero when none runs.
pub open spec fn countdown_elapsed_spec(c: Option<CountdownModel>) -> int {
    match c {
        Some(x) => x.elapsed,
        None => 0,
    }
}

/// The duration of a running timer, zero when none runs.
pub open spec fn countdown_duration_spec(c: Option<CountdownModel>) -> int {
    match c {
        Some(x) => x.duration,
        None => 0,
    }
}

/// The state after running a whole sequence of ticks from `w`.
pub open spec fn run_spec(w: WorldModel, inputs: Seq<TickInput>) -> WorldModel
    decreases inputs.len(),
{
    if inputs.len() == 0 {
        w
    } else {
        run_spec(
            tick_spec(w, inputs[0].up, inputs[0].down, inputs[0].delta).world,
            inputs.drop_first(),
        )
    }
}

/// The total frame time of a sequence of ticks.
pub open spec fn sum_delta_spec(inputs: Seq<TickInput>) -> int
    decreases inputs.len(),
{
    if inputs.len() == 0 {
        0
    } else {
        inputs[0].delta + sum_delta_spec(inputs.drop_first())
    }
}

pub proof fn lemma_sum_delta_nonneg(inputs: Seq<TickInput>)
    requires
        forall|i: int| 0 <= i < inputs.len() ==> #[trigger] inputs[i].delta >= 0,
    ensures
        sum_delta_spec(inputs) >= 0,
    decreases inputs.len(),
{
    if inputs.len() > 0 {
        assert forall|i: int|
            0 <= i < inputs.drop_first().len() implies #[trigger] inputs.drop_first()[i].delta
            >= 0 by {
            assert(inputs.drop_first()[i] == inputs[i + 1]);
        }
        lemma_sum_delta_nonneg(inputs.drop_first());
    }
}

/// Law: once a countdown has begun over a ball resting clear at the origin,
/// the ball and the score stay exactly as they are for every tick until
/// the timer has consumed its full three seconds; meanwhile the timer
/// accumulates exactly the elapsed frame durations.
pub proof fn lemma_post_score_hold(w: WorldModel, inputs: Seq<TickInput>)
    requires
        w.countdown is Some,
        !countdown_guard_spec(w.countdown),
        hold_config_spec(w),
        forall|i: int| 0 <= i < inputs.len() ==> #[trigger] inputs[i].delta >= 0,
        countdown_elapsed_spec(w.countdown) + sum_delta_spec(inputs) < countdown_duration_spec(
            w.countdown,
        ),
    ensures
        run_spec(w, inputs).ball == w.ball,
        run_spec(w, inputs).score == w.score,
        run_spec(w, inputs).countdown == Some(
            CountdownModel {
                elapsed: countdown_elapsed_spec(w.countdown) + sum_delta_spec(inputs),
                duration: countdown_duration_spec(w.countdown),
            },
        ),
        hold_config_spec(run_spec(w, inputs)),
        !countdown_guard_spec(run_spec(w, inputs).countdown),
    decreases inputs.len(),
{
    if inputs.len() == 0 {
    } else {
        let first = inputs[0];
        let rest = inputs.drop_first();
        assert forall|i: int| 0 <= i < rest.len() implies #[trigger] rest[i].delta >= 0 by {
            assert(rest[i] == inputs[i + 1]);
        }
        lemma_sum_delta_nonneg(rest);
        lemma_held_tick_leaves_ball(w, first.up, first.down, first.delta);
        let w1 = tick_spec(w, first.up, first.down, first.delta).world;
        lemma_post_score_hold(w1, rest);
    }
}

/// Law: the tick whose frame time brings the timer to its full duration
/// destroys it; the ball, still held this tick, is free to move from the
/// next tick on.
pub proof fn lemma_countdown_expiry_frees_ball(w: WorldModel, up: bool, down: bool, delta: int)
    requires
        !countdown_guard_spec(w.countdown),
        hold_config_spec(w),
        countdown_elapsed_spec(w.countdown) + delta >= countdown_duration_spec(w.countdown),
    ensures
        tick_spec(w, up, down, delta).world.countdown is None,
        tick_spec(w, up, down, delta).world.ball == w.ball,
        countdown_guard_spec(tick_spec(w, up, down, delta).world.countdown),
        hold_config_spec(tick_spec(w, up, down, delta).world),
{
    lemma_held_tick_leaves_ball(w, up, down, delta);
}

/// Law: with no countdown holding the ball, a tick integrates the ball's position by
/// exactly its velocity (unless that very tick scores and resets it).
pub proof fn lemma_free_tick_moves_ball(w: WorldModel, up: bool, down: bool, delta: int)
    requires
        countdown_guard_spec(w.countdown),
    ensures
        tick_spec(w, up, down, delta).scored.len() == 0 ==> tick_spec(
            w,
            up,
            down,
            delta,
        ).world.ball.position == (Vec2i {
            x: w.ball.position.x + w.ball.velocity.x,
            y: w.ball.position.y + w.ball.velocity.y,
        }),
{
}

/// Law: any tick that scores ends with the ball back at the origin and a
/// countdown holding the ball for the following ticks.
pub proof fn lemma_score_restarts_hold(w: WorldModel, up: bool, down: bool, delta: int)
    requires
        tick_spec(w, up, down, delta).scored.len() > 0,
    ensures
        tick_spec(w, up, down, delta).world.ball.position == (Vec2i { x: 0, y: 0 }),
        tick_spec(w, up, down, delta).world.countdown is Some,
        !countdown_guard_spec(tick_spec(w, up, down, delta).world.countdown),
{
    let player1 = player_stage_spec(w, up, down);
    let ai1 = ai_stage_spec(w);
    let allowed = countdown_guard_spec(w.countdown);
    let ball_pos1 = if allowed {
        Vec2i { x: w.ball.position.x + w.ball.velocity.x, y: w.ball.position.y + w.ball.velocity.y }
    } else {
        w.ball.position
    };
    let coll = collide_stage_spec(
        ball_pos1,
        w.ball.velocity,
        w.ball.shape,
        obstacles_spec(w.half_width, w.half_height, player1, ai1),
    );
    let scored = scored_events_spec(coll.events);
    let ball1 = BallModel { position: ball_pos1, velocity: coll.velocity, shape: w.ball.shape };
    lemma_reset_nonempty_origin(ball1, scored);
}


/// Law: the ball's speed never changes across a whole tick: a collision or
/// a post-score serve flips only the signs of the velocity components,
/// never their magnitude.
pub proof fn lemma_tick_preserves_ball_speed(w: WorldModel, up: bool, down: bool, delta: int)
    ensures
        speed_sq_spec(tick_spec(w, up, down, delta).world.ball.velocity) == speed_sq_spec(
            w.ball.velocity,
        ),
{
    let player1 = player_stage_spec(w, up, down);
    let ai1 = ai_stage_spec(w);
    let allowed = countdown_guard_spec(w.countdown);
    let ball_pos1 = if allowed {
        Vec2i { x: w.ball.position.x + w.ball.velocity.x, y: w.ball.position.y + w.ball.velocity.y }
    } else {
        w.ball.position
    };
    let obs = obstacles_spec(w.half_width, w.half_height, player1, ai1);
    match w.ball.shape {
        Shape::Circle { radius } => {
            lemma_collisions_preserve_speed(ball_pos1, w.ball.velocity, radius as int, obs);
        },
        Shape::Rectangle { .. } => {},
    }
    let coll = collide_stage_spec(ball_pos1, w.ball.velocity, w.ball.shape, obs);
    let scored = scored_events_spec(coll.events);
    let ball1 = BallModel { position: ball_pos1, velocity: coll.velocity, shape: w.ball.shape };
    lemma_reset_preserves_speed(ball1, scored);
}

/// Law: across any whole run of ticks — the whole match — the ball's speed
/// stays what the serve gave it.
pub proof fn lemma_match_preserves_ball_speed(w: WorldModel, inputs: Seq<TickInput>)
    ensures
        speed_sq_spec(run_spec(w, inputs).ball.velocity) == speed_sq_spec(w.ball.velocity),
    decreases inputs.len(),
{
    if inputs.len() > 0 {
        lemma_tick_preserves_ball_speed(w, inputs[0].up, inputs[0].down, inputs[0].delta);
        lemma_match_preserves_ball_speed(
            tick_spec(w, inputs[0].up, inputs[0].down, inputs[0].delta).world,
            inputs.drop_first(),
        );
    }
}

/// Law: the score counters never decrease: a tick adds exactly this tick's
/// scoring events, and nothing ever subtracts.
pub proof fn lemma_score_counters_never_decrease(w: WorldModel, up: bool, down: bool, delta: int)
    ensures
        tick_spec(w, up, down, delta).world.score.player >= w.score.player,
        tick_spec(w, up, down, delta).world.score.ai >= w.score.ai,
{
    lemma_count_scored_bounds(tick_spec(w, up, down, delta).scored, Scored::Player);
    lemma_count_scored_bounds(tick_spec(w, up, down, delta).scored, Scored::Ai);
}

/// Law: a fresh game for any window wider than the paddles' clearance
/// starts with the serve held: the initial countdown is running and the
/// ball rests at the origin touching nothing.
pub proof fn lemma_new_game_holds_the_serve(width: int, height: int)
    requires
        75 < width / 2,
        30 < height / 2,
    ensures
        !countdown_guard_spec(initial_world_spec(width, height).countdown),
        hold_config_spec(initial_world_spec(width, height)),
{
}

} // verus!
