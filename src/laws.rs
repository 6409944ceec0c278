use vstd::arithmetic::div_mod::{
    lemma_fundamental_div_mod, lemma_fundamental_div_mod_converse, lemma_mod_pos_bound,
};
use vstd::prelude::*;

use crate::frame::{
    after_collisions, after_frame, frame_fits, lemma_after_collisions_scores, scores,
    scoring_count, spawn_due, CollisionEvent, FrameInput,
};
use crate::game::{after_reset, ball_label, GameState, BALL_PREFIX};
use crate::text::{decimal, digit_char};
use crate::timer::{tick_elapsed, tick_finishes};

verus! {

proof fn lemma_all_scoring(events: Seq<CollisionEvent>)
    requires
        forall|i: int| 0 <= i < events.len() ==> scores(#[trigger] events[i]),
    ensures
        scoring_count(events) == events.len(),
    decreases events.len(),
{
    if events.len() > 0 {
        lemma_all_scoring(events.drop_last());
    }
}

/// When every one of `n` collisions is the player beginning to touch
/// something, the running score goes up by exactly `n`, and the high score
/// becomes the larger of its old value and the new running score.
pub proof fn law_each_touch_scores_once(s: GameState, events: Seq<CollisionEvent>)
    requires
        s.wf(),
        forall|i: int| 0 <= i < events.len() ==> scores(#[trigger] events[i]),
        s.current_score + events.len() <= u32::MAX,
    ensures
        after_collisions(s, events).current_score == s.current_score + events.len(),
        after_collisions(s, events).high_score == if s.current_score + events.len()
            > s.high_score {
            s.current_score + events.len()
        } else {
            s.high_score as int
        },
{
    lemma_all_scoring(events);
    lemma_after_collisions_scores(s, events);
}

/// Reset brings the running score to zero and leaves the high score as it
/// was, from any state.
pub proof fn law_reset_keeps_high_score(s: GameState)
    ensures
        after_reset(s).current_score == 0,
        after_reset(s).high_score == s.high_score,
{
}

/// A frame never lowers the high score, and the running score never passes
/// it.
pub proof fn law_high_score_never_decreases(s: GameState, f: FrameInput)
    requires
        s.wf(),
        frame_fits(s, f),
    ensures
        after_frame(s, f).high_score >= s.high_score,
        after_frame(s, f).current_score <= after_frame(s, f).high_score,
{
    lemma_after_collisions_scores(s, f.collisions@);
}

proof fn lemma_decimal_len(n: nat)
    ensures
        decimal(n).len() >= 1,
        n >= 10 ==> decimal(n).len() >= 2,
    decreases n,
{
    if n >= 10 {
        lemma_decimal_len(n / 10);
    }
}

proof fn lemma_digit_injective(a: nat, b: nat)
    requires
        a < 10,
        b < 10,
        digit_char(a) == digit_char(b),
    ensures
        a == b,
{
}

/// Different numbers are written differently in decimal.
pub proof fn law_decimal_injective(a: nat, b: nat)
    requires
        decimal(a) == decimal(b),
    ensures
        a == b,
    decreases a,
{
    lemma_decimal_len(a);
    lemma_decimal_len(b);
    if a < 10 && b < 10 {
        assert(decimal(a)[0] == digit_char(a));
        assert(decimal(b)[0] == digit_char(b));
        lemma_digit_injective(a, b);
    } else if a >= 10 && b >= 10 {
        assert(decimal(a).last() == digit_char(a % 10));
        assert(decimal(b).last() == digit_char(b % 10));
        lemma_digit_injective(a % 10, b % 10);
        assert(decimal(a).drop_last() =~= decimal(a / 10));
        assert(decimal(b).drop_last() =~= decimal(b / 10));
        law_decimal_injective(a / 10, b / 10);
        lemma_fundamental_div_mod(a as int, 10);
        lemma_fundamental_div_mod(b as int, 10);
    }
}

/// Targets spawned with different numbers have different labels.
pub proof fn law_spawn_labels_unique(j: nat, k: nat)
    requires
        j != k,
    ensures
        ball_label(j) != ball_label(k),
{
    if ball_label(j) == ball_label(k) {
        let n = BALL_PREFIX@.len() as int;
        assert(ball_label(j).subrange(n, ball_label(j).len() as int) =~= decimal(j));
        assert(ball_label(k).subrange(n, ball_label(k).len() as int) =~= decimal(k));
        law_decimal_injective(j, k);
    }
}

/// The state after a run of frames, the first frame first.
pub open spec fn after_frames(s: GameState, fs: Seq<FrameInput>) -> GameState
    decreases fs.len(),
{
    if fs.len() == 0 {
        s
    } else {
        after_frame(after_frames(s, fs.drop_last()), fs.last())
    }
}

/// How many of a run of frames spawn a target.
pub open spec fn spawns_in(s: GameState, fs: Seq<FrameInput>) -> nat
    decreases fs.len(),
{
    if fs.len() == 0 {
        0
    } else {
        spawns_in(s, fs.drop_last()) + if spawn_due(after_frames(s, fs.drop_last()), fs.last()) {
            1nat
        } else {
            0nat
        }
    }
}

/// Whether every frame of a run can be handled in turn.
pub open spec fn frames_fit(s: GameState, fs: Seq<FrameInput>) -> bool
    decreases fs.len(),
{
    if fs.len() == 0 {
        true
    } else {
        frames_fit(s, fs.drop_last()) && frame_fits(after_frames(s, fs.drop_last()), fs.last())
    }
}

/// The labels of the targets spawned over a run of frames, in order: each
/// due frame spawns one labelled with the spawn number standing before it.
pub open spec fn spawned_labels(s: GameState, fs: Seq<FrameInput>) -> Seq<Seq<char>>
    decreases fs.len(),
{
    if fs.len() == 0 {
        seq![]
    } else {
        let t = after_frames(s, fs.drop_last());
        spawned_labels(s, fs.drop_last()) + if spawn_due(t, fs.last()) {
            seq![ball_label(t.spawn_index as nat)]
        } else {
            seq![]
        }
    }
}

/// Over a run of frames the spawn number goes up by one for each target
/// spawned and by nothing else, and the `k`-th target spawned (from zero)
/// is labelled with the starting spawn number plus `k`: in a fresh session,
/// `ball0`, `ball1`, and so on.
pub proof fn law_spawn_numbers_count_spawns(s: GameState, fs: Seq<FrameInput>)
    requires
        s.wf(),
        frames_fit(s, fs),
    ensures
        after_frames(s, fs).wf(),
        after_frames(s, fs).spawn_index == s.spawn_index + spawns_in(s, fs),
        spawned_labels(s, fs).len() == spawns_in(s, fs),
        forall|k: int|
            0 <= k < spawns_in(s, fs) ==> #[trigger] spawned_labels(s, fs)[k] == ball_label(
                (s.spawn_index + k) as nat,
            ),
    decreases fs.len(),
{
    if fs.len() > 0 {
        law_spawn_numbers_count_spawns(s, fs.drop_last());
        let t = after_frames(s, fs.drop_last());
        law_high_score_never_decreases(t, fs.last());
        lemma_after_collisions_scores(t, fs.last().collisions@);
        let prev = spawned_labels(s, fs.drop_last());
        assert forall|k: int| 0 <= k < spawns_in(s, fs) implies #[trigger] spawned_labels(
            s,
            fs,
        )[k] == ball_label((s.spawn_index + k) as nat) by {
            if k < prev.len() {
                assert(spawned_labels(s, fs)[k] == prev[k]);
            }
        }
    }
}

/// The sum of a run of frame times.
pub open spec fn total_time(deltas: Seq<nat>) -> nat
    decreases deltas.len(),
{
    if deltas.len() == 0 {
        0
    } else {
        total_time(deltas.drop_last()) + deltas.last()
    }
}

/// Where a timer of `period` that stands at `elapsed` stands after a run of
/// frame times.
pub open spec fn elapsed_after(period: nat, elapsed: nat, deltas: Seq<nat>) -> nat
    decreases deltas.len(),
{
    if deltas.len() == 0 {
        elapsed
    } else {
        tick_elapsed(period, elapsed_after(period, elapsed, deltas.drop_last()), deltas.last())
    }
}

/// How many ticks of a run of frame times complete a period.
pub open spec fn completions(period: nat, elapsed: nat, deltas: Seq<nat>) -> nat
    decreases deltas.len(),
{
    if deltas.len() == 0 {
        0
    } else {
        completions(period, elapsed, deltas.drop_last()) + if tick_finishes(
            period,
            elapsed_after(period, elapsed, deltas.drop_last()),
            deltas.last(),
        ) {
            1nat
        } else {
            0nat
        }
    }
}

/// When no frame is longer than the period, the timer completes exactly
/// one period for each full period of time fed to it, and keeps the rest:
/// frames that add up to one period give one completion, frames that add
/// up to two periods give two.
pub proof fn law_timer_counts_periods(period: nat, elapsed: nat, deltas: Seq<nat>)
    requires
        0 < period,
        elapsed < period,
        forall|i: int| 0 <= i < deltas.len() ==> #[trigger] deltas[i] <= period,
    ensures
        completions(period, elapsed, deltas) == (elapsed + total_time(deltas)) as int / (period as int),
        elapsed_after(period, elapsed, deltas) == (elapsed + total_time(deltas)) as int % (period as int),
    decreases deltas.len(),
{
    if deltas.len() == 0 {
        lemma_fundamental_div_mod_converse(elapsed as int, period as int, 0, elapsed as int);
    } else {
        let init = deltas.drop_last();
        assert forall|i: int| 0 <= i < init.len() implies #[trigger] init[i] <= period by {
            assert(init[i] == deltas[i]);
        }
        law_timer_counts_periods(period, elapsed, init);
        let p = period as int;
        let total: int = (elapsed + total_time(init)) as int;
        let q: int = total / p;
        let e: int = total % p;
        let d: int = deltas.last() as int;
        lemma_fundamental_div_mod(total, p);
        lemma_mod_pos_bound(total, p);
        assert((q + 1) * p == q * p + p) by (nonlinear_arith);
        assert(q * p == p * q) by (nonlinear_arith);
        assert(d == deltas[deltas.len() - 1]);
        assert(total_time(deltas) == total_time(init) + d);
        assert(elapsed_after(period, elapsed, deltas) == tick_elapsed(
            period,
            elapsed_after(period, elapsed, init),
            deltas.last(),
        ));
        assert(elapsed_after(period, elapsed, init) == e);
        assert(tick_finishes(period, elapsed_after(period, elapsed, init), deltas.last()) == (e + d
            >= p));
        if e + d >= p {
            lemma_fundamental_div_mod_converse(total + d, p, q + 1, e + d - p);
            lemma_fundamental_div_mod_converse(e + d, p, 1, e + d - p);
        } else {
            lemma_fundamental_div_mod_converse(total + d, p, q, e + d);
            lemma_fundamental_div_mod_converse(e + d, p, 0, e + d);
        }
    }
}

} // verus!
