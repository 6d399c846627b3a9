//! Scoring and the countdown hold: collision events against the left and
//! right walls become score events, counters rise, and a three-second timer
//! holds the ball after each score.

use vstd::prelude::*;

use crate::ball::{BallCollision, EntityId};
use crate::border::Border;
use crate::utils::Collision;

verus! {

/// How long the ball is held after a score, in milliseconds.
pub const COUNTDOWN_MILLIS: u64 = 3000;

/// Who scored: the player when the ball crossed the right wall, the AI when
/// it crossed the left one.
#[derive(Clone, Copy, Debug, PartialEq, Eq, Structural)]
pub enum Scored {
    Player,
    Ai,
}

/// The two score counters; each only ever rises.
#[derive(Clone, Copy, Debug, PartialEq, Eq, Structural)]
pub struct Score {
    pub player: u32,
    pub ai: u32,
}

/// The mathematical value of a [`Score`], over unbounded integers.
pub ghost struct ScoreModel {
    pub player: int,
    pub ai: int,
}

impl View for Score {
    type V = ScoreModel;

    open spec fn view(&self) -> ScoreModel {
        ScoreModel { player: self.player as int, ai: self.ai as int }
    }
}

impl Score {
    pub fn new() -> (s: Score)
        ensures
            s@.player == 0,
            s@.ai == 0,
    {
        Score { player: 0, ai: 0 }
    }
}

impl Default for Score {
    fn default() -> (s: Score)
        ensures
            s@.player == 0,
            s@.ai == 0,
    {
        Score::new()
    }
}

/// The post-score timer: present while the ball is held, destroyed once
/// its elapsed time reaches its duration.
#[derive(Clone, Copy, Debug, PartialEq, Eq, Structural)]
pub struct Countdown {
    pub elapsed: u64,
    pub duration: u64,
}

/// The mathematical value of a [`Countdown`], over unbounded integers.
pub ghost struct CountdownModel {
    pub elapsed: int,
    pub duration: int,
}

impl View for Countdown {
    type V = CountdownModel;

    open spec fn view(&self) -> CountdownModel {
        CountdownModel { elapsed: self.elapsed as int, duration: self.duration as int }
    }
}

impl Countdown {
    /// A fresh timer: nothing elapsed yet, running for the standard
    /// three-second window.
    pub fn new() -> (c: Countdown)
        ensures
            c@.elapsed == 0,
            c@.duration == COUNTDOWN_MILLIS as int,
    {
        Countdown { elapsed: 0, duration: COUNTDOWN_MILLIS }
    }
}

pub open spec fn countdown_view(c: Option<Countdown>) -> Option<CountdownModel> {
    match c {
        Some(x) => Some(x@),
        None => None,
    }
}

/// Whether ball motion is allowed: only an unfinished timer holds the ball.
pub open spec fn countdown_guard_spec(c: Option<CountdownModel>) -> bool {
    match c {
        None => true,
        Some(x) => x.elapsed >= x.duration,
    }
}

/// Report whether the ball may move this tick.
pub fn countdown_guard(countdown: &Option<Countdown>) -> (allowed: bool)
    ensures
        allowed == countdown_guard_spec(countdown_view(*countdown)),
{
    match countdown {
        None => true,
        Some(c) => c.elapsed >= c.duration,
    }
}

/// One tick of the timer: the elapsed frame duration is added, and a timer
/// that reaches its duration is destroyed.
pub open spec fn count_spec(c: Option<CountdownModel>, delta: int) -> Option<CountdownModel> {
    match c {
        None => None,
        Some(x) => if x.elapsed + delta >= x.duration {
            None
        } else {
            Some(CountdownModel { elapsed: x.elapsed + delta, duration: x.duration })
        },
    }
}

/// Advance the timer, if one is running, by the elapsed frame duration, and
/// destroy it once it reaches its full duration.
pub fn count(countdown: &mut Option<Countdown>, delta_ms: u64)
    requires
        match *old(countdown) {
            Some(c) => c.elapsed + delta_ms <= u64::MAX,
            None => true,
        },
    ensures
        countdown_view(*final(countdown)) == count_spec(countdown_view(*old(countdown)), delta_ms as int),
{
    match countdown {
        None => {},
        Some(c) => {
            let ticked = c.elapsed + delta_ms;
            if ticked >= c.duration {
                *countdown = None;
            } else {
                c.elapsed = ticked;
            }
        },
    }
}

/// Spawn the post-score timer.
pub fn start_countdown(countdown: &mut Option<Countdown>)
    ensures
        countdown_view(*final(countdown)) == Some(
            CountdownModel { elapsed: 0, duration: COUNTDOWN_MILLIS as int },
        ),
{
    *countdown = Some(Countdown::new());
}

/// The timer after the score stage: a score starts a fresh timer, but only
/// while none is running — at most one timer exists at a time.
pub open spec fn start_countdown_spec(c: Option<CountdownModel>, any_scored: bool) -> Option<
    CountdownModel,
> {
    if any_scored && c is None {
        Some(CountdownModel { elapsed: 0, duration: COUNTDOWN_MILLIS as int })
    } else {
        c
    }
}

/// Start the countdown when something was scored this tick and no timer is
/// already running.
pub fn start_countdown_on_score(countdown: &mut Option<Countdown>, scored: &Vec<Scored>)
    ensures
        countdown_view(*final(countdown)) == start_countdown_spec(
            countdown_view(*old(countdown)),
            scored@.len() > 0,
        ),
{
    if scored.len() > 0 && countdown.is_none() {
        start_countdown(countdown);
    }
}

/// What one collision event scores: crossing the left wall scores the AI,
/// crossing the right wall scores the player; a top or bottom contact, or a
/// hit on any other entity, scores nobody.
pub open spec fn scored_of_event_spec(e: BallCollision) -> Option<Scored> {
    match e.entity {
        EntityId::Wall(Border::Left) => if e.collision is Left || e.collision is Right {
            Some(Scored::Ai)
        } else {
            None
        },
        EntityId::Wall(Border::Right) => if e.collision is Left || e.collision is Right {
            Some(Scored::Player)
        } else {
            None
        },
        _ => None,
    }
}

/// The score events derived from this tick's collision events, in order:
/// exactly one per scoring collision, none for any other.
pub open spec fn scored_events_spec(events: Seq<BallCollision>) -> Seq<Scored>
    decreases events.len(),
{
    if events.len() == 0 {
        Seq::empty()
    } else {
        match scored_of_event_spec(events[0]) {
            Some(s) => seq![s] + scored_events_spec(events.drop_first()),
            None => scored_events_spec(events.drop_first()),
        }
    }
}

/// How many of the given score events belong to `who`.
pub open spec fn count_scored_spec(s: Seq<Scored>, who: Scored) -> int
    decreases s.len(),
{
    if s.len() == 0 {
        0
    } else {
        (if s[0] == who {
            1int
        } else {
            0int
        }) + count_scored_spec(s.drop_first(), who)
    }
}

pub proof fn lemma_count_scored_bounds(s: Seq<Scored>, who: Scored)
    ensures
        0 <= count_scored_spec(s, who) <= s.len(),
    decreases s.len(),
{
    if s.len() > 0 {
        lemma_count_scored_bounds(s.drop_first(), who);
    }
}

pub proof fn lemma_count_scored_concat(a: Seq<Scored>, b: Seq<Scored>, who: Scored)
    ensures
        count_scored_spec(a + b, who) == count_scored_spec(a, who) + count_scored_spec(b, who),
    decreases a.len(),
{
    if a.len() == 0 {
        assert(a + b =~= b);
    } else {
        assert((a + b).drop_first() =~= a.drop_first() + b);
        lemma_count_scored_concat(a.drop_first(), b, who);
    }
}

pub proof fn lemma_scored_events_len(events: Seq<BallCollision>)
    ensures
        scored_events_spec(events).len() <= events.len(),
    decreases events.len(),
{
    if events.len() > 0 {
        lemma_scored_events_len(events.drop_first());
    }
}

/// Derive this tick's score events from its collision events and raise the
/// counters: one `Scored::Ai` per scoring hit on the left wall, one
/// `Scored::Player` per scoring hit on the right wall, nothing else.
pub fn detect_scoring(events: &Vec<BallCollision>, score: &mut Score) -> (scored: Vec<Scored>)
    requires
        old(score)@.ai + count_scored_spec(scored_events_spec(events@), Scored::Ai) <= u32::MAX,
        old(score)@.player + count_scored_spec(scored_events_spec(events@), Scored::Player)
            <= u32::MAX,
    ensures
        scored@ == scored_events_spec(events@),
        final(score)@.ai == old(score)@.ai + count_scored_spec(scored@, Scored::Ai),
        final(score)@.player == old(score)@.player + count_scored_spec(scored@, Scored::Player),
{
    let ghost full = scored_events_spec(events@);
    let mut scored: Vec<Scored> = Vec::new();
    let mut i: usize = 0;
    proof {
        assert(events@.skip(0) =~= events@);
        assert(Seq::<Scored>::empty() + full =~= full);
    }
    while i < events.len()
        invariant
            0 <= i <= events@.len(),
            full == scored_events_spec(events@),
            scored@ + scored_events_spec(events@.skip(i as int)) =~= full,
            score@.ai == old(score)@.ai + count_scored_spec(scored@, Scored::Ai),
            score@.player == old(score)@.player + count_scored_spec(scored@, Scored::Player),
            old(score)@.ai + count_scored_spec(full, Scored::Ai) <= u32::MAX,
            old(score)@.player + count_scored_spec(full, Scored::Player) <= u32::MAX,
        decreases events@.len() - i,
    {
        proof {
            assert(events@.skip(i as int)[0] == events@[i as int]);
            assert(events@.skip(i as int).drop_first() =~= events@.skip(i as int + 1));
        }
        let e = events[i];
        let hit: Option<Scored> = match e.entity {
            EntityId::Wall(Border::Left) => {
                match e.collision {
                    Collision::Left | Collision::Right => Some(Scored::Ai),
                    Collision::Top | Collision::Bottom => None,
                }
            },
            EntityId::Wall(Border::Right) => {
                match e.collision {
                    Collision::Left | Collision::Right => Some(Scored::Player),
                    Collision::Top | Collision::Bottom => None,
                }
            },
            _ => None,
        };
        proof {
            assert(hit == scored_of_event_spec(events@[i as int]));
        }
        match hit {
            Some(s) => {
                proof {
                    assert(seq![s] + scored_events_spec(events@.skip(i as int + 1)) =~= scored_events_spec(
                        events@.skip(i as int),
                    ));
                    assert(scored@.push(s) =~= scored@ + seq![s]);
                    assert((scored@ + seq![s]) + scored_events_spec(events@.skip(i as int + 1)) =~= full);
                    lemma_count_scored_concat(scored@, seq![s], Scored::Ai);
                    lemma_count_scored_concat(scored@, seq![s], Scored::Player);
                    lemma_count_scored_concat(
                        scored@ + seq![s],
                        scored_events_spec(events@.skip(i as int + 1)),
                        Scored::Ai,
                    );
                    lemma_count_scored_concat(
                        scored@ + seq![s],
                        scored_events_spec(events@.skip(i as int + 1)),
                        Scored::Player,
                    );
                    lemma_count_scored_bounds(scored_events_spec(events@.skip(i as int + 1)), Scored::Ai);
                    lemma_count_scored_bounds(
                        scored_events_spec(events@.skip(i as int + 1)),
                        Scored::Player,
                    );
                    lemma_count_scored_bounds(scored@, Scored::Ai);
                    lemma_count_scored_bounds(scored@, Scored::Player);
                    assert(seq![s].drop_first() =~= Seq::<Scored>::empty());
                    assert(count_scored_spec(Seq::<Scored>::empty(), Scored::Ai) == 0);
                    assert(count_scored_spec(Seq::<Scored>::empty(), Scored::Player) == 0);
                    assert(seq![s][0] == s);
                    assert(count_scored_spec(seq![s], Scored::Ai) == (if s == Scored::Ai {
                        1int
                    } else {
                        0int
                    }));
                    assert(count_scored_spec(seq![s], Scored::Player) == (if s == Scored::Player {
                        1int
                    } else {
                        0int
                    }));
                }
                match s {
                    Scored::Ai => {
                        score.ai = score.ai + 1;
                    },
                    Scored::Player => {
                        score.player = score.player + 1;
                    },
                }
                scored.push(s);
            },
            None => {},
        }
        i = i + 1;
    }
    proof {
        assert(events@.skip(events@.len() as int) =~= Seq::<BallCollision>::empty());
        assert(scored@ + Seq::<Scored>::empty() =~= scored@);
    }
    scored
}

/// The whole number of seconds shown for a running timer: the remaining
/// time rounded up to whole seconds, so a fresh three-second timer reads 3
/// and the display never reads zero while any time remains.
pub fn countdown_display_seconds(c: &Countdown) -> (secs: u64)
    requires
        c@.elapsed <= c@.duration,
        c@.duration <= 0x1000_0000_0000,
    ensures
        secs as int == (c@.duration - c@.elapsed + 999) / 1000,
{
    (c.duration - c.elapsed + 999) / 1000
}

} // verus!
