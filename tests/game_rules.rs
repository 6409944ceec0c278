use ball_collector::frame::{
    can_handle, game_logic, handle_collisions, is_scoring, movement, random_spawn_point, CollisionEvent,
    CollisionState, Displacement, FrameInput, Keys,
};
use ball_collector::game::{
    advance_spawn_timer, reset_score, score_point, spawn_ball, GameState, FIELD_HALF_HEIGHT,
    FIELD_HALF_WIDTH, MAX_DELTA_NANOS, NANOS_PER_SECOND, SPAWN_PERIOD_NANOS, SUBUNITS_PER_UNIT,
};
use ball_collector::text::{decimal_text, is_label, numbered_text, starts_with};
use ball_collector::timer::SpawnTimer;

fn no_keys() -> Keys {
    Keys { up: false, down: false, left: false, right: false, reset: false }
}

fn touch(first: &str, second: &str) -> CollisionEvent {
    CollisionEvent {
        state: CollisionState::Begin,
        first: String::from(first),
        second: String::from(second),
    }
}

fn frame(delta_nanos: u64, collisions: Vec<CollisionEvent>, keys: Keys) -> FrameInput {
    FrameInput { delta_nanos, collisions, keys }
}

fn in_field(x: i64, y: i64) -> bool {
    -FIELD_HALF_WIDTH <= x && x <= FIELD_HALF_WIDTH && -FIELD_HALF_HEIGHT <= y && y <= FIELD_HALF_HEIGHT
}

#[test]
fn fresh_state_is_zeroed() {
    let s = GameState::default();
    assert_eq!(s.high_score, 0);
    assert_eq!(s.current_score, 0);
    assert_eq!(s.spawn_index, 0);
    assert_eq!(s.spawn_timer.period_nanos, 2_000_000_000);
    assert_eq!(s.spawn_timer.elapsed_nanos, 0);
}

#[test]
fn three_touches_in_one_frame() {
    let mut s = GameState::default();
    let f = frame(
        0,
        vec![touch("player", "ball0"), touch("ball1", "player"), touch("player", "ball2")],
        no_keys(),
    );
    let a = game_logic(&mut s, &f);
    assert_eq!(s.current_score, 3);
    assert_eq!(s.high_score, 3);
    assert_eq!(a.sounds, 3);
    assert_eq!(a.score_text.as_deref(), Some("Score: 3"));
    assert_eq!(a.high_score_text.as_deref(), Some("High score: 3"));
    assert_eq!(a.removed, vec!["ball0".to_string(), "ball1".to_string(), "ball2".to_string()]);
    assert!(a.spawn.is_none());
}

#[test]
fn reset_key_keeps_high_score() {
    let mut s = GameState::with_scores(5, 5);
    let keys = Keys { reset: true, ..no_keys() };
    let a = game_logic(&mut s, &frame(0, vec![], keys));
    assert_eq!(s.current_score, 0);
    assert_eq!(s.high_score, 5);
    assert_eq!(a.score_text.as_deref(), Some("Score: 0"));
    assert!(a.high_score_text.is_none());
}

#[test]
fn reset_score_from_any_state() {
    let mut s = GameState::with_scores(9, 4);
    let text = reset_score(&mut s);
    assert_eq!(text, "Score: 0");
    assert_eq!(s.current_score, 0);
    assert_eq!(s.high_score, 9);
}

#[test]
fn two_seconds_in_small_frames_spawn_once() {
    let mut s = GameState::default();
    let mut labels = Vec::new();
    for d in [700_000_000u64, 700_000_000, 600_000_000] {
        let a = game_logic(&mut s, &frame(d, vec![], no_keys()));
        if let Some(sp) = a.spawn {
            labels.push(sp.label);
        }
    }
    assert_eq!(labels, vec!["ball0".to_string()]);
    assert_eq!(s.spawn_index, 1);
    assert_eq!(s.spawn_timer.elapsed_nanos, 0);
}

#[test]
fn four_seconds_in_small_frames_spawn_twice() {
    let mut s = GameState::default();
    let mut labels = Vec::new();
    for d in [1_500_000_000u64, 1_500_000_000, 1_000_000_000] {
        let a = game_logic(&mut s, &frame(d, vec![], no_keys()));
        if let Some(sp) = a.spawn {
            labels.push(sp.label);
        }
    }
    assert_eq!(labels, vec!["ball0".to_string(), "ball1".to_string()]);
    assert_eq!(s.spawn_index, 2);
}

#[test]
fn one_long_frame_spawns_once() {
    let mut s = GameState::default();
    let a = game_logic(&mut s, &frame(5 * NANOS_PER_SECOND, vec![], no_keys()));
    assert_eq!(a.spawn.map(|sp| sp.label), Some("ball0".to_string()));
    assert_eq!(s.spawn_index, 1);
    assert_eq!(s.spawn_timer.elapsed_nanos, NANOS_PER_SECOND);
}

#[test]
fn spawn_labels_count_up() {
    let mut s = GameState::default();
    for k in 0..12u32 {
        let a = game_logic(&mut s, &frame(SPAWN_PERIOD_NANOS, vec![], no_keys()));
        let sp = a.spawn.expect("a target is due every period");
        assert_eq!(sp.label, format!("ball{}", k));
        assert!(in_field(sp.x, sp.y));
    }
}

#[test]
fn spawned_points_stay_in_field() {
    for _ in 0..500 {
        let (x, y) = random_spawn_point();
        assert!(in_field(x, y));
    }
}

#[test]
fn random_points_vary() {
    let first = random_spawn_point();
    let mut differs = false;
    for _ in 0..50 {
        if random_spawn_point() != first {
            differs = true;
        }
    }
    assert!(differs);
}

#[test]
fn spawn_ball_at_given_point() {
    let mut s = GameState::default();
    s.spawn_index = 41;
    let sp = spawn_ball(&mut s, -FIELD_HALF_WIDTH, FIELD_HALF_HEIGHT);
    assert_eq!(sp.label, "ball41");
    assert_eq!(sp.x, -550 * SUBUNITS_PER_UNIT);
    assert_eq!(sp.y, 325 * SUBUNITS_PER_UNIT);
    assert_eq!(s.spawn_index, 42);
}

#[test]
fn single_key_moves_speed_times_time() {
    let sixteen_ms = 16_000_000u64;
    let up = movement(&Keys { up: true, ..no_keys() }, sixteen_ms);
    assert_eq!(up, Displacement { dx: 0, dy: 2_400_000_000 });
    let left = movement(&Keys { left: true, ..no_keys() }, sixteen_ms);
    assert_eq!(left, Displacement { dx: -2_400_000_000, dy: 0 });
    let down = movement(&Keys { down: true, ..no_keys() }, NANOS_PER_SECOND);
    assert_eq!(down, Displacement { dx: 0, dy: -150 * SUBUNITS_PER_UNIT });
}

#[test]
fn diagonal_is_not_normalised() {
    let d = movement(&Keys { up: true, right: true, ..no_keys() }, 10_000_000);
    assert_eq!(d, Displacement { dx: 1_500_000_000, dy: 1_500_000_000 });
}

#[test]
fn opposite_keys_cancel() {
    let d = movement(&Keys { up: true, down: true, left: true, right: true, reset: false }, 10_000_000);
    assert_eq!(d, Displacement { dx: 0, dy: 0 });
    let none = movement(&no_keys(), 10_000_000);
    assert_eq!(none, Displacement { dx: 0, dy: 0 });
}

#[test]
fn frame_reports_movement() {
    let mut s = GameState::default();
    let a = game_logic(&mut s, &frame(20_000_000, vec![], Keys { right: true, ..no_keys() }));
    assert_eq!(a.movement, Displacement { dx: 3_000_000_000, dy: 0 });
}

#[test]
fn n_touches_score_n() {
    for n in 0..6usize {
        let mut s = GameState::with_scores(2, 0);
        let events: Vec<CollisionEvent> =
            (0..n).map(|i| touch("player", &format!("ball{}", i))).collect();
        let o = handle_collisions(&mut s, &events);
        assert_eq!(s.current_score as usize, n);
        assert_eq!(s.high_score as usize, n.max(2));
        assert_eq!(o.sounds as usize, n);
        assert_eq!(o.removed.len(), n);
        assert_eq!(o.high_score_text.is_some(), n > 2);
    }
}

#[test]
fn other_events_do_not_score() {
    let mut s = GameState::with_scores(1, 1);
    let ended = CollisionEvent {
        state: CollisionState::End,
        first: String::from("player"),
        second: String::from("ball3"),
    };
    let events = vec![ended, touch("ball1", "ball2")];
    let o = handle_collisions(&mut s, &events);
    assert_eq!(s.current_score, 1);
    assert_eq!(s.high_score, 1);
    assert_eq!(o.sounds, 0);
    assert!(o.score_text.is_none());
    assert!(o.high_score_text.is_none());
    assert!(o.removed.is_empty());
}

#[test]
fn below_high_score_only_score_text_changes() {
    let mut s = GameState::with_scores(10, 3);
    let o = handle_collisions(&mut s, &vec![touch("player", "ball7")]);
    assert_eq!(s.current_score, 4);
    assert_eq!(s.high_score, 10);
    assert_eq!(o.score_text.as_deref(), Some("Score: 4"));
    assert!(o.high_score_text.is_none());
}

#[test]
fn same_target_twice_is_listed_twice() {
    let mut s = GameState::default();
    let o = handle_collisions(&mut s, &vec![touch("player", "ball0"), touch("ball0", "player")]);
    assert_eq!(s.current_score, 2);
    assert_eq!(o.removed, vec!["ball0".to_string(), "ball0".to_string()]);
}

#[test]
fn score_point_texts() {
    let mut s = GameState::with_scores(99, 99);
    let u = score_point(&mut s);
    assert_eq!(u.score_text, "Score: 100");
    assert_eq!(u.high_score_text.as_deref(), Some("High score: 100"));
    let mut t = GameState::with_scores(7, 2);
    let v = score_point(&mut t);
    assert_eq!(v.score_text, "Score: 3");
    assert!(v.high_score_text.is_none());
}

#[test]
fn player_prefix_decides_scoring() {
    assert!(is_scoring(&touch("player", "ball0")));
    assert!(is_scoring(&touch("ball0", "player_two")));
    assert!(!is_scoring(&touch("ball0", "ball1")));
    assert!(!is_scoring(&touch("playe", "ball1")));
    assert!(!is_scoring(&touch("player", "player2")));
}

#[test]
fn two_player_labels_do_not_score() {
    let mut s = GameState::default();
    let o = handle_collisions(&mut s, &vec![touch("player", "player_shadow")]);
    assert_eq!(s.current_score, 0);
    assert_eq!(o.sounds, 0);
    assert!(o.removed.is_empty());
}

#[test]
fn timer_keeps_remainder() {
    let mut t = SpawnTimer::new(2_000_000_000);
    assert!(!t.tick(1_999_999_999));
    assert_eq!(t.elapsed_nanos, 1_999_999_999);
    assert!(t.tick(3));
    assert_eq!(t.elapsed_nanos, 2);
    assert!(!t.tick(0));
}

#[test]
fn advance_timer_reports_due() {
    let mut s = GameState::default();
    assert!(!advance_spawn_timer(&mut s, 1_000_000_000));
    assert!(advance_spawn_timer(&mut s, 1_000_000_000));
    assert_eq!(s.spawn_index, 0);
}

#[test]
fn decimal_forms() {
    assert_eq!(decimal_text(0), "0");
    assert_eq!(decimal_text(7), "7");
    assert_eq!(decimal_text(10), "10");
    assert_eq!(decimal_text(1_234_567), "1234567");
    assert_eq!(decimal_text(u32::MAX), "4294967295");
    assert_eq!(numbered_text("Score: ", 42), "Score: 42");
    assert_eq!(numbered_text("", 5), "5");
}

#[test]
fn label_checks() {
    assert!(starts_with("player", "player"));
    assert!(starts_with("player1", "player"));
    assert!(!starts_with("play", "player"));
    assert!(starts_with("anything", ""));
    assert!(is_label("player", "player"));
    assert!(!is_label("player1", "player"));
    assert!(!is_label("ball0", "player"));
}

#[test]
fn high_score_survives_resets() {
    let mut s = GameState::default();
    let mut highest = 0;
    let reset = Keys { reset: true, ..no_keys() };
    let plan = [(2usize, false), (0, true), (1, false), (3, false), (0, true), (1, true)];
    for (touches, press_reset) in plan {
        let events: Vec<CollisionEvent> = (0..touches).map(|_| touch("player", "ball9")).collect();
        let keys = if press_reset { reset } else { no_keys() };
        let a = game_logic(&mut s, &frame(1_000_000, events, keys));
        assert!(s.high_score >= highest);
        assert!(s.current_score <= s.high_score);
        if let Some(t) = a.high_score_text {
            assert_eq!(t, format!("High score: {}", s.high_score));
        }
        if let Some(t) = a.score_text {
            assert_eq!(t, format!("Score: {}", s.current_score));
        }
        highest = s.high_score;
    }
    assert_eq!(s.high_score, 4);
    assert_eq!(s.current_score, 0);
}

#[test]
fn can_handle_limits() {
    let s = GameState::default();
    assert!(can_handle(&s, &frame(MAX_DELTA_NANOS, vec![], no_keys())));
    assert!(!can_handle(&s, &frame(MAX_DELTA_NANOS + 1, vec![], no_keys())));
    let full = GameState::with_scores(u32::MAX, u32::MAX);
    assert!(!can_handle(&full, &frame(0, vec![touch("player", "ball0")], no_keys())));
    assert!(can_handle(&full, &frame(0, vec![touch("ball1", "ball0")], no_keys())));
    let mut last = GameState::default();
    last.spawn_index = u32::MAX;
    assert!(can_handle(&last, &frame(1, vec![], no_keys())));
    assert!(!can_handle(&last, &frame(SPAWN_PERIOD_NANOS, vec![], no_keys())));
}
