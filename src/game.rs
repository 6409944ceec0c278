use vstd::prelude::*;

use crate::text::{decimal, numbered_text};
use crate::timer::{tick_elapsed, tick_finishes, SpawnTimer};

verus! {

/// Label of the player's sprite.
pub const PLAYER_LABEL: &'static str = "player";

/// Label of the text that shows the running score.
pub const SCORE_LABEL: &'static str = "score";

/// Label of the text that shows the high score.
pub const HIGH_SCORE_LABEL: &'static str = "high_score";

/// What the running-score text says before the number.
pub const SCORE_PREFIX: &'static str = "Score: ";

/// What the high-score text says before the number.
pub const HIGH_SCORE_PREFIX: &'static str = "High score: ";

/// Spawned targets are labelled with this word and their spawn number.
pub const BALL_PREFIX: &'static str = "ball";

/// Nanoseconds in a second.
pub const NANOS_PER_SECOND: u64 = 1_000_000_000;

/// Time between two spawns: two seconds.
pub const SPAWN_PERIOD_NANOS: u64 = 2 * NANOS_PER_SECOND;

/// Positions are counted in billionths of a field unit, so that a speed in
/// units per second times a time in nanoseconds is exact.
pub const SUBUNITS_PER_UNIT: i64 = 1_000_000_000;

/// Player speed, in field units per second (equally, in subunits per
/// nanosecond).
pub const MOVEMENT_SPEED: i64 = 150;

/// The longest frame whose movement fits an `i64` of subunits.
pub const MAX_DELTA_NANOS: u64 = 61_489_146_912_365_172;

/// Targets appear with `-FIELD_HALF_WIDTH <= x <= FIELD_HALF_WIDTH`.
pub const FIELD_HALF_WIDTH: i64 = 550 * SUBUNITS_PER_UNIT;

/// Targets appear with `-FIELD_HALF_HEIGHT <= y <= FIELD_HALF_HEIGHT`.
pub const FIELD_HALF_HEIGHT: i64 = 325 * SUBUNITS_PER_UNIT;

/// The text of the running-score display for score `n`.
pub open spec fn score_text(n: nat) -> Seq<char> {
    SCORE_PREFIX@ + decimal(n)
}

/// The text of the high-score display for high score `n`.
pub open spec fn high_score_text(n: nat) -> Seq<char> {
    HIGH_SCORE_PREFIX@ + decimal(n)
}

/// The label of the target spawned with number `k`.
pub open spec fn ball_label(k: nat) -> Seq<char> {
    BALL_PREFIX@ + decimal(k)
}

/// Whether a point lies in the field where targets appear.
pub open spec fn in_field(x: int, y: int) -> bool {
    -FIELD_HALF_WIDTH <= x <= FIELD_HALF_WIDTH && -FIELD_HALF_HEIGHT <= y <= FIELD_HALF_HEIGHT
}

/// The state that persists from frame to frame for one play session.
#[derive(Clone, Copy, Debug, PartialEq, Eq, Structural)]
pub struct GameState {
    pub high_score: u32,
    pub current_score: u32,
    /// Number of targets spawned so far; also the number of the next one.
    pub spawn_index: u32,
    pub spawn_timer: SpawnTimer,
}

impl GameState {
    /// The running score never exceeds the high score, and the timer is sound.
    pub open spec fn wf(&self) -> bool {
        self.current_score <= self.high_score && self.spawn_timer.wf()
    }

    /// A fresh session: no score, nothing spawned, the spawn timer at its
    /// start with a two-second period.
    pub open spec fn is_fresh(&self) -> bool {
        &&& self.high_score == 0
        &&& self.current_score == 0
        &&& self.spawn_index == 0
        &&& self.spawn_timer.period_nanos == SPAWN_PERIOD_NANOS
        &&& self.spawn_timer.elapsed_nanos == 0
    }

    /// A session with the given scores, nothing spawned yet, and the spawn
    /// timer at its start.
    pub fn with_scores(high_score: u32, current_score: u32) -> (s: GameState)
        requires
            current_score <= high_score,
        ensures
            s.wf(),
            s.high_score == high_score,
            s.current_score == current_score,
            s.spawn_index == 0,
            s.spawn_timer.period_nanos == SPAWN_PERIOD_NANOS,
            s.spawn_timer.elapsed_nanos == 0,
    {
        GameState {
            high_score,
            current_score,
            spawn_index: 0,
            spawn_timer: SpawnTimer::new(SPAWN_PERIOD_NANOS),
        }
    }
}

impl Default for GameState {
    fn default() -> (s: GameState)
        ensures
            s.wf(),
            s.is_fresh(),
    {
        GameState::with_scores(0, 0)
    }
}

/// The state after one more point: the running score goes up by one, and the
/// high score follows it when it is passed.
pub open spec fn after_point(s: GameState) -> GameState {
    let c = (s.current_score + 1) as u32;
    GameState {
        current_score: c,
        high_score: if c > s.high_score { c } else { s.high_score },
        ..s
    }
}

/// The state after the reset key: the running score is back to zero.
pub open spec fn after_reset(s: GameState) -> GameState {
    GameState { current_score: 0, ..s }
}

/// The state after the spawn timer is fed `delta` nanoseconds, a spawn
/// included when a period completes.
pub open spec fn after_tick(s: GameState, delta: nat) -> GameState {
    let p = s.spawn_timer.period_nanos as nat;
    let e = s.spawn_timer.elapsed_nanos as nat;
    GameState {
        spawn_timer: SpawnTimer { elapsed_nanos: tick_elapsed(p, e, delta) as u64, ..s.spawn_timer },
        spawn_index: if tick_finishes(p, e, delta) {
            (s.spawn_index + 1) as u32
        } else {
            s.spawn_index
        },
        ..s
    }
}

/// The display texts to set after a point was scored.
pub struct ScoreUpdate {
    pub score_text: String,
    /// Present when the high score changed.
    pub high_score_text: Option<String>,
}

/// Counts one point: raises the running score, and the high score with it
/// when it is passed, and gives the texts that the displays must now show.
pub fn score_point(state: &mut GameState) -> (u: ScoreUpdate)
    requires
        old(state).wf(),
        old(state).current_score < u32::MAX,
    ensures
        final(state).wf(),
        *final(state) == after_point(*old(state)),
        u.score_text@ == score_text(final(state).current_score as nat),
        u.high_score_text is Some <==> final(state).high_score > old(state).high_score,
        u.high_score_text matches Some(t) ==> t@ == high_score_text(final(state).high_score as nat),
{
    state.current_score = state.current_score + 1;
    let score = numbered_text(SCORE_PREFIX, state.current_score);
    let mut high = None;
    if state.current_score > state.high_score {
        state.high_score = state.current_score;
        high = Some(numbered_text(HIGH_SCORE_PREFIX, state.high_score));
    }
    ScoreUpdate { score_text: score, high_score_text: high }
}

/// Resets the running score to zero and gives the text that the score
/// display must now show. The high score stays.
pub fn reset_score(state: &mut GameState) -> (text: String)
    requires
        old(state).wf(),
    ensures
        final(state).wf(),
        *final(state) == after_reset(*old(state)),
        text@ == score_text(0),
{
    state.current_score = 0;
    numbered_text(SCORE_PREFIX, 0)
}

/// A target to create: its label and where it appears, in subunits.
pub struct Spawn {
    pub label: String,
    pub x: i64,
    pub y: i64,
}

/// Feeds the frame's time to the spawn timer; true when a target is due.
pub fn advance_spawn_timer(state: &mut GameState, delta_nanos: u64) -> (due: bool)
    requires
        old(state).wf(),
    ensures
        final(state).wf(),
        due == tick_finishes(
            old(state).spawn_timer.period_nanos as nat,
            old(state).spawn_timer.elapsed_nanos as nat,
            delta_nanos as nat,
        ),
        final(state).spawn_timer == after_tick(*old(state), delta_nanos as nat).spawn_timer,
        final(state).spawn_index == old(state).spawn_index,
        final(state).current_score == old(state).current_score,
        final(state).high_score == old(state).high_score,
{
    state.spawn_timer.tick(delta_nanos)
}

/// Creates the next target at the given point: it is labelled with the
/// current spawn number, which then moves on by one.
pub fn spawn_ball(state: &mut GameState, x: i64, y: i64) -> (s: Spawn)
    requires
        old(state).wf(),
        old(state).spawn_index < u32::MAX,
        in_field(x as int, y as int),
    ensures
        final(state).wf(),
        *final(state) == (GameState { spawn_index: (old(state).spawn_index + 1) as u32, ..*old(state) }),
        s.label@ == ball_label(old(state).spawn_index as nat),
        s.x == x,
        s.y == y,
{
    let label = numbered_text(BALL_PREFIX, state.spawn_index);
    state.spawn_index = state.spawn_index + 1;
    Spawn { label, x, y }
}

} // verus!
