use vstd::prelude::*;
use rand::Rng;

use crate::game::{
    after_point, after_reset, after_tick, ball_label, high_score_text, in_field, reset_score,
    score_point, score_text, spawn_ball, advance_spawn_timer, GameState, Spawn, FIELD_HALF_HEIGHT,
    FIELD_HALF_WIDTH, MAX_DELTA_NANOS, MOVEMENT_SPEED, PLAYER_LABEL,
};
use crate::text::{is_label, starts_with};
use crate::timer::tick_finishes;

verus! {

/// Whether two shapes began or stopped touching.
#[derive(Clone, Copy, Debug, PartialEq, Eq, Structural)]
pub enum CollisionState {
    Begin,
    End,
}

/// A collision reported by the engine between two labelled entities.
pub struct CollisionEvent {
    pub state: CollisionState,
    pub first: String,
    pub second: String,
}

/// Whether `s` begins with `p`.
pub open spec fn has_prefix(s: Seq<char>, p: Seq<char>) -> bool {
    p.len() <= s.len() && s.subrange(0, p.len() as int) == p
}

/// Whether the event scores: the player began to touch something, that is,
/// a contact began and exactly one of the two labels starts with the
/// player's label.
pub open spec fn scores(e: CollisionEvent) -> bool {
    e.state == CollisionState::Begin && (has_prefix(e.first@, PLAYER_LABEL@) != has_prefix(
        e.second@,
        PLAYER_LABEL@,
    ))
}

/// The labels of a scoring event that are not the player's, in pair order.
pub open spec fn taken_by(e: CollisionEvent) -> Seq<Seq<char>> {
    (if e.first@ != PLAYER_LABEL@ {
        seq![e.first@]
    } else {
        seq![]
    }) + (if e.second@ != PLAYER_LABEL@ {
        seq![e.second@]
    } else {
        seq![]
    })
}

/// How many of the events score.
pub open spec fn scoring_count(events: Seq<CollisionEvent>) -> nat
    decreases events.len(),
{
    if events.len() == 0 {
        0
    } else {
        scoring_count(events.drop_last()) + if scores(events.last()) {
            1nat
        } else {
            0nat
        }
    }
}

/// The labels removed while handling the events, in order.
pub open spec fn taken_labels(events: Seq<CollisionEvent>) -> Seq<Seq<char>>
    decreases events.len(),
{
    if events.len() == 0 {
        seq![]
    } else {
        taken_labels(events.drop_last()) + if scores(events.last()) {
            taken_by(events.last())
        } else {
            seq![]
        }
    }
}

/// The state after the events: one point for each one that scores.
pub open spec fn after_collisions(s: GameState, events: Seq<CollisionEvent>) -> GameState
    decreases events.len(),
{
    if events.len() == 0 {
        s
    } else {
        let t = after_collisions(s, events.drop_last());
        if scores(events.last()) {
            after_point(t)
        } else {
            t
        }
    }
}

/// The texts of a sequence of strings.
pub open spec fn texts(v: Seq<String>) -> Seq<Seq<char>> {
    v.map_values(|s: String| s@)
}

/// What handling a frame's collisions asks of the engine.
pub struct CollisionOutcome {
    /// One sound effect for each point scored.
    pub sounds: u32,
    /// The last text set on the score display, if any was.
    pub score_text: Option<String>,
    /// The last text set on the high-score display, if any was.
    pub high_score_text: Option<String>,
    /// Labels of the sprites to remove, in order; removing one that is
    /// already gone does nothing.
    pub removed: Vec<String>,
}

/// Whether the event scores.
pub fn is_scoring(e: &CollisionEvent) -> (r: bool)
    ensures
        r == scores(*e),
{
    e.state == CollisionState::Begin && (starts_with(e.first.as_str(), PLAYER_LABEL) != starts_with(
        e.second.as_str(),
        PLAYER_LABEL,
    ))
}

pub(crate) proof fn lemma_after_collisions_scores(s: GameState, events: Seq<CollisionEvent>)
    requires
        s.wf(),
        s.current_score + scoring_count(events) <= u32::MAX,
    ensures
        after_collisions(s, events).wf(),
        after_collisions(s, events).current_score == s.current_score + scoring_count(events),
        after_collisions(s, events).high_score == if s.current_score + scoring_count(events)
            > s.high_score {
            s.current_score + scoring_count(events)
        } else {
            s.high_score as int
        },
        after_collisions(s, events).spawn_index == s.spawn_index,
        after_collisions(s, events).spawn_timer == s.spawn_timer,
    decreases events.len(),
{
    if events.len() > 0 {
        lemma_after_collisions_scores(s, events.drop_last());
    }
}

/// Handles the frame's collisions in the order given: each event in which
/// the player begins to touch something scores a point, and the other party
/// of the pair is removed.
pub fn handle_collisions(state: &mut GameState, events: &Vec<CollisionEvent>) -> (o: CollisionOutcome)
    requires
        old(state).wf(),
        old(state).current_score + scoring_count(events@) <= u32::MAX,
    ensures
        final(state).wf(),
        *final(state) == after_collisions(*old(state), events@),
        final(state).current_score == old(state).current_score + scoring_count(events@),
        final(state).high_score == if final(state).current_score > old(state).high_score {
            final(state).current_score
        } else {
            old(state).high_score
        },
        o.sounds == scoring_count(events@),
        o.score_text is Some <==> scoring_count(events@) > 0,
        o.score_text matches Some(t) ==> t@ == score_text(final(state).current_score as nat),
        o.high_score_text is Some <==> final(state).high_score > old(state).high_score,
        o.high_score_text matches Some(t) ==> t@ == high_score_text(final(state).high_score as nat),
        texts(o.removed@) == taken_labels(events@),
{
    let ghost s0 = *state;
    let mut sounds: u32 = 0;
    let mut score: Option<String> = None;
    let mut high: Option<String> = None;
    let mut removed: Vec<String> = Vec::new();
    let mut i: usize = 0;
    proof {
        lemma_after_collisions_scores(s0, events@);
    }
    while i < events.len()
        invariant
            s0.wf(),
            s0.current_score + scoring_count(events@) <= u32::MAX,
            i <= events.len(),
            *state == after_collisions(s0, events@.subrange(0, i as int)),
            state.wf(),
            state.current_score == s0.current_score + sounds,
            sounds == scoring_count(events@.subrange(0, i as int)),
            sounds <= scoring_count(events@),
            score is Some <==> sounds > 0,
            score matches Some(t) ==> t@ == score_text(state.current_score as nat),
            state.high_score >= s0.high_score,
            high is Some <==> state.high_score > s0.high_score,
            high matches Some(t) ==> t@ == high_score_text(state.high_score as nat),
            texts(removed@) == taken_labels(events@.subrange(0, i as int)),
        decreases events.len() - i,
    {
        let ghost pre = events@.subrange(0, i as int);
        let ghost next = events@.subrange(0, i + 1);
        assert(next.drop_last() =~= pre);
        assert(next.last() == events@[i as int]);
        proof {
            lemma_scoring_count_prefix(events@, i + 1);
            lemma_after_collisions_scores(s0, next);
        }
        let e = &events[i];
        if is_scoring(e) {
            let u = score_point(state);
            sounds = sounds + 1;
            score = Some(u.score_text);
            match u.high_score_text {
                Some(t) => {
                    high = Some(t);
                },
                None => {},
            }
            if !is_label(e.first.as_str(), PLAYER_LABEL) {
                removed.push(e.first.clone());
            }
            if !is_label(e.second.as_str(), PLAYER_LABEL) {
                removed.push(e.second.clone());
            }
        }
        assert(texts(removed@) =~= taken_labels(next));
        i = i + 1;
    }
    assert(events@.subrange(0, i as int) =~= events@);
    CollisionOutcome { sounds, score_text: score, high_score_text: high, removed }
}

proof fn lemma_scoring_count_prefix(events: Seq<CollisionEvent>, n: int)
    requires
        0 <= n <= events.len(),
    ensures
        scoring_count(events.subrange(0, n)) <= scoring_count(events),
    decreases events.len(),
{
    if n < events.len() {
        assert(events.drop_last().subrange(0, n) =~= events.subrange(0, n));
        lemma_scoring_count_prefix(events.drop_last(), n);
    } else {
        assert(events.subrange(0, n) =~= events);
    }
}

/// Which direction keys are held this frame, each read as "any key of its
/// group" (up or W, down or S, left or A, right or D), and whether the reset
/// key is pressed.
#[derive(Clone, Copy, Debug, PartialEq, Eq, Structural)]
pub struct Keys {
    pub up: bool,
    pub down: bool,
    pub left: bool,
    pub right: bool,
    pub reset: bool,
}

/// How far to move the player, in subunits.
#[derive(Clone, Copy, Debug, PartialEq, Eq, Structural)]
pub struct Displacement {
    pub dx: i64,
    pub dy: i64,
}

/// The shift along one axis: `step` forward when `plus` is held, `step`
/// back when `minus` is held, both when both are.
pub open spec fn axis_shift(plus: bool, minus: bool, step: int) -> int {
    (if plus {
        step
    } else {
        0
    }) - (if minus {
        step
    } else {
        0
    })
}

/// The distance covered at full speed in `delta` nanoseconds, in subunits.
pub open spec fn stride(delta: nat) -> int {
    MOVEMENT_SPEED * delta
}

/// Moves the player at full speed along each axis whose key is held, for
/// the frame's time. Holding two perpendicular keys moves full speed along
/// both axes.
pub fn movement(keys: &Keys, delta_nanos: u64) -> (d: Displacement)
    requires
        delta_nanos <= MAX_DELTA_NANOS,
    ensures
        d.dx == axis_shift(keys.right, keys.left, stride(delta_nanos as nat)),
        d.dy == axis_shift(keys.up, keys.down, stride(delta_nanos as nat)),
{
    let t = delta_nanos as i64;
    assert(0 <= MOVEMENT_SPEED * t <= i64::MAX) by (nonlinear_arith)
        requires
            0 <= t <= MAX_DELTA_NANOS,
            MOVEMENT_SPEED == 150,
    ;
    let step: i64 = MOVEMENT_SPEED * t;
    let mut dx: i64 = 0;
    let mut dy: i64 = 0;
    if keys.up {
        dy = dy + step;
    }
    if keys.down {
        dy = dy - step;
    }
    if keys.left {
        dx = dx - step;
    }
    if keys.right {
        dx = dx + step;
    }
    Displacement { dx, dy }
}

/// Relies on rand's `thread_rng` and `Rng::gen_range` over an inclusive
/// range: a value between the two bounds, both included. It panics only on
/// an empty range, which `requires` leaves out.
#[verifier::external_body]
fn random_between(low: i64, high: i64) -> (r: i64)
    requires
        low <= high,
    ensures
        low <= r <= high,
{
    rand::thread_rng().gen_range(low..=high)
}

/// A point drawn at random in the field where targets appear.
pub fn random_spawn_point() -> (p: (i64, i64))
    ensures
        in_field(p.0 as int, p.1 as int),
{
    let x = random_between(-FIELD_HALF_WIDTH, FIELD_HALF_WIDTH);
    let y = random_between(-FIELD_HALF_HEIGHT, FIELD_HALF_HEIGHT);
    (x, y)
}

/// What the engine reports for one frame.
pub struct FrameInput {
    /// Time since the previous frame.
    pub delta_nanos: u64,
    /// Collisions in the order the engine delivered them.
    pub collisions: Vec<CollisionEvent>,
    pub keys: Keys,
}

/// What the engine is asked to do after one frame.
pub struct FrameActions {
    /// One sound effect for each point scored.
    pub sounds: u32,
    /// The text the score display must show, when it changed.
    pub score_text: Option<String>,
    /// The text the high-score display must show, when it changed.
    pub high_score_text: Option<String>,
    /// Labels of the sprites to remove, in order.
    pub removed: Vec<String>,
    pub movement: Displacement,
    /// The target to create, when one is due.
    pub spawn: Option<Spawn>,
}

/// The state after one frame: its collisions, then the reset key, then the
/// spawn timer.
pub open spec fn after_frame(s: GameState, f: FrameInput) -> GameState {
    let a = after_collisions(s, f.collisions@);
    let b = if f.keys.reset {
        after_reset(a)
    } else {
        a
    };
    after_tick(b, f.delta_nanos as nat)
}

/// Whether a target is due in the frame.
pub open spec fn spawn_due(s: GameState, f: FrameInput) -> bool {
    tick_finishes(
        s.spawn_timer.period_nanos as nat,
        s.spawn_timer.elapsed_nanos as nat,
        f.delta_nanos as nat,
    )
}

/// Whether a frame can be handled from a state without any counter running
/// out of range.
pub open spec fn frame_fits(s: GameState, f: FrameInput) -> bool {
    &&& s.current_score + scoring_count(f.collisions@) <= u32::MAX
    &&& f.delta_nanos <= MAX_DELTA_NANOS
    &&& spawn_due(s, f) ==> s.spawn_index < u32::MAX
}

/// Runs the game's rules for one frame, in a fixed order: collisions, then
/// movement, then the reset key, then spawning. A due target appears at a
/// random point of the field.
pub fn game_logic(state: &mut GameState, frame: &FrameInput) -> (a: FrameActions)
    requires
        old(state).wf(),
        frame_fits(*old(state), *frame),
    ensures
        final(state).wf(),
        *final(state) == after_frame(*old(state), *frame),
        a.sounds == scoring_count(frame.collisions@),
        texts(a.removed@) == taken_labels(frame.collisions@),
        a.score_text is Some <==> (scoring_count(frame.collisions@) > 0 || frame.keys.reset),
        a.score_text matches Some(t) ==> t@ == score_text(final(state).current_score as nat),
        a.high_score_text is Some <==> final(state).high_score > old(state).high_score,
        a.high_score_text matches Some(t) ==> t@ == high_score_text(
            final(state).high_score as nat,
        ),
        a.movement == movement_of(frame.keys, frame.delta_nanos as nat),
        a.spawn is Some <==> spawn_due(*old(state), *frame),
        a.spawn matches Some(sp) ==> sp.label@ == ball_label(old(state).spawn_index as nat)
            && in_field(sp.x as int, sp.y as int),
{
    let ghost s0 = *state;
    proof {
        lemma_after_collisions_scores(s0, frame.collisions@);
    }
    let c = handle_collisions(state, &frame.collisions);
    let mv = movement(&frame.keys, frame.delta_nanos);
    let mut score = c.score_text;
    if frame.keys.reset {
        score = Some(reset_score(state));
    }
    let ghost s1 = *state;
    let due = advance_spawn_timer(state, frame.delta_nanos);
    let mut spawn: Option<Spawn> = None;
    if due {
        let (x, y) = random_spawn_point();
        spawn = Some(spawn_ball(state, x, y));
    }
    assert(*state == after_tick(s1, frame.delta_nanos as nat));
    FrameActions {
        sounds: c.sounds,
        score_text: score,
        high_score_text: c.high_score_text,
        removed: c.removed,
        movement: mv,
        spawn,
    }
}

/// The displacement for the held keys over `delta` nanoseconds.
pub open spec fn movement_of(keys: Keys, delta: nat) -> Displacement {
    Displacement {
        dx: axis_shift(keys.right, keys.left, stride(delta)) as i64,
        dy: axis_shift(keys.up, keys.down, stride(delta)) as i64,
    }
}

/// Whether `game_logic` can take this frame from this state: the score, the
/// frame time and the spawn number stay in range.
pub fn can_handle(state: &GameState, frame: &FrameInput) -> (r: bool)
    requires
        state.wf(),
    ensures
        r == frame_fits(*state, *frame),
{
    let events = &frame.collisions;
    let mut points: u64 = 0;
    let mut i: usize = 0;
    while i < events.len()
        invariant
            i <= events.len(),
            points == scoring_count(events@.subrange(0, i as int)),
            points <= i,
        decreases events.len() - i,
    {
        let ghost next = events@.subrange(0, i + 1);
        assert(next.drop_last() =~= events@.subrange(0, i as int));
        if is_scoring(&events[i]) {
            points = points + 1;
        }
        i = i + 1;
    }
    assert(events@.subrange(0, i as int) =~= events@);
    let t = state.spawn_timer;
    let due = t.elapsed_nanos as u128 + frame.delta_nanos as u128 >= t.period_nanos as u128;
    state.current_score as u128 + points as u128 <= u32::MAX as u128 && frame.delta_nanos <= MAX_DELTA_NANOS
        && (!due || state.spawn_index < u32::MAX)
}

} // verus!
