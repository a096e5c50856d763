use phasetida_core::chart::{Chart, FormatVersion, JudgeLine, Note, NoteType};
use phasetida_core::engine::Engine;
use phasetida_core::scalar::Real;
use phasetida_core::states::{tick_all, Kinematics, NoteScore, NoteState, TickFrame};
use phasetida_core::states_initializing::init_line_states;
use phasetida_core::states_input::{set_touch_down, set_touch_move};
use phasetida_core::states_judge::{check_judge_result, LineProbe, NoteProbe, TouchReach};

fn fl(x: f64) -> Real {
    Real::from_bits(x.to_bits())
}

fn val(r: Real) -> f64 {
    f64::from_bits(r.to_bits())
}

fn tick_length(bpm: f64) -> f64 {
    60.0 / bpm / 32.0
}

fn make(kind: NoteType, time: i32, hold_time: f64, bpm: f64) -> Note {
    let spt = tick_length(bpm);
    let end = (f64::from(time) + hold_time) * spt;
    Note {
        note_type: kind,
        time,
        position_x: fl(0.0),
        hold_time: fl(hold_time),
        speed: fl(1.0),
        floor_position: fl(0.0),
        start_second: fl(f64::from(time) * spt),
        end_second: fl(end),
        end_rank: (end * 100_000.0) as i32,
    }
}

fn one_line(bpm: f64, above: Vec<Note>) -> Chart {
    Chart {
        offset: fl(0.0),
        judge_line_list: vec![JudgeLine {
            bpm: fl(bpm),
            tick_scale: (tick_length(bpm) * 32768.0) as i32,
            event_second: fl(0.0),
            notes_above: above,
            notes_below: vec![],
            speed_events: vec![],
            move_events: vec![],
            rotate_events: vec![],
            alpha_events: vec![],
        }],
    }
}

fn measure(
    state: &NoteState,
    bpm: f64,
    seconds: f64,
    delta_seconds: f64,
    in_range: Vec<bool>,
    swiped: Vec<bool>,
) -> NoteProbe {
    let spt = tick_length(bpm);
    let current_tick = seconds / spt;
    let left = val(state.hold_cool_down) - delta_seconds / spt;
    NoteProbe {
        time_delta: fl(current_tick - f64::from(state.note.time)),
        perfect_range: fl(0.08 / spt),
        good_range: fl(0.16 / spt),
        bad_range: fl(0.18 / spt),
        root_x: fl(960.0),
        root_y: fl(540.0),
        degree: fl(0.0),
        reach: in_range
            .iter()
            .map(|inside| TouchReach {
                point_x: fl(if *inside { 960.0 } else { 1300.5 }),
                point_y: fl(540.0),
                near: fl(660.0),
                far: fl(1260.0),
            })
            .collect(),
        travelled: swiped.iter().map(|far| fl(if *far { 60.0 } else { 0.0 })).collect(),
        current_tick: fl(current_tick),
        hold_end: fl(val(state.note.hold_time) + f64::from(state.note.time)),
        cool_down_left: fl(left),
        cool_down_refilled: fl(left + 16.0),
    }
}

fn frame_for(
    engine: &Engine,
    bpm: f64,
    seconds: f64,
    delta_seconds: f64,
    in_range: Vec<bool>,
    swiped: Vec<bool>,
) -> TickFrame {
    let spt = tick_length(bpm);
    let lines = engine.lines.len();
    let rest = Kinematics {
        x: fl(960.0),
        y: fl(540.0),
        rotate: fl(0.0),
        alpha: fl(1.0),
        line_y: fl(0.0),
    };
    let above = engine.lines[0]
        .notes_above_state
        .iter()
        .map(|state| measure(state, bpm, seconds, delta_seconds, in_range.clone(), swiped.clone()))
        .collect();
    let mut probes = vec![LineProbe { above, below: vec![] }];
    for _ in 1..lines {
        probes.push(LineProbe { above: vec![], below: vec![] });
    }
    TickFrame {
        tick_times: vec![fl(seconds / spt); lines],
        kinematics: vec![rest; lines],
        hit_progress: engine.effects.hit_effects.iter().map(|e| e.progress).collect(),
        splash_progress: engine.effects.splash_effects.iter().map(|e| e.progress).collect(),
        probes,
    }
}

fn running(engine: &Engine) -> (usize, usize) {
    (
        engine.effects.hit_effects.iter().filter(|e| e.enable).count(),
        engine.effects.splash_effects.iter().filter(|e| e.enable).count(),
    )
}

fn score_of(engine: &Engine) -> (f64, f64) {
    let s = &engine.statistics;
    let total = f64::from(s.total_notes as u32);
    let accurate = (f64::from(s.perfects) + f64::from(s.goods) * 0.65) / total;
    (f64::from(s.max_combo) / total * 100_000.0 + accurate * 900_000.0, accurate)
}

fn touch(n: usize, which: usize) -> Vec<bool> {
    let mut flags = vec![false; n];
    flags[which] = true;
    flags
}

#[test]
fn a_tap_touched_on_time_is_perfect() {
    let mut engine = Engine::new();
    let _ = init_line_states(
        &mut engine,
        one_line(120.0, vec![make(NoteType::Tap, 64, 0.0, 120.0)]),
        FormatVersion::V3,
    );
    set_touch_down(&mut engine, 0, 960.0f32.to_bits(), 540.0f32.to_bits());
    assert!(engine.touches[0].touch_valid);
    let frame = frame_for(&engine, 120.0, 1.0, 0.016, touch(30, 0), vec![false; 30]);
    tick_all(&mut engine, &frame, false);
    let note = &engine.lines[0].notes_above_state[0];
    assert!(note.score == NoteScore::Perfect);
    assert_eq!(engine.effects.sound.tap_count, 1);
    assert_eq!(engine.effects.sound.drag_count, 0);
    assert_eq!(engine.effects.sound.flick_count, 0);
    assert_eq!(running(&engine), (1, 1));
    let splash = &engine.effects.splash_effects[0];
    assert!(splash.enable);
    assert_eq!(splash.tint_type, 0);
    assert_eq!(splash.x.to_bits(), 960.0f64.to_bits());
    assert_eq!(splash.y.to_bits(), 540.0f64.to_bits());
    assert_eq!(splash.progress.to_bits(), 0);
    assert!(!engine.touches[0].touch_valid);
    assert_eq!(engine.statistics.combo, 1);
    assert_eq!(engine.statistics.max_combo, 1);
    let (score, accurate) = score_of(&engine);
    assert_eq!(score, 1_000_000.0);
    assert_eq!(accurate, 1.0);
    assert_eq!(engine.lines[0].tick_time.to_bits(), 64.0f64.to_bits());
    assert_eq!(engine.lines[0].x.to_bits(), 960.0f64.to_bits());
}

#[test]
fn a_tap_never_touched_is_missed_once_too_late() {
    let mut engine = Engine::new();
    let _ = init_line_states(
        &mut engine,
        one_line(120.0, vec![make(NoteType::Tap, 64, 0.0, 120.0)]),
        FormatVersion::V3,
    );
    let frame = frame_for(&engine, 120.0, 1.17, 0.016, vec![false; 30], vec![false; 30]);
    tick_all(&mut engine, &frame, false);
    assert!(engine.lines[0].notes_above_state[0].score == NoteScore::Unjudged);
    let frame = frame_for(&engine, 120.0, 1.181, 0.016, vec![false; 30], vec![false; 30]);
    tick_all(&mut engine, &frame, false);
    assert!(engine.lines[0].notes_above_state[0].score == NoteScore::Miss);
    assert_eq!(engine.statistics.combo, 0);
    assert_eq!(engine.statistics.max_combo, 0);
    let (score, accurate) = score_of(&engine);
    assert_eq!(accurate, 0.0);
    assert_eq!(score, 0.0);
    assert_eq!(engine.effects.sound.tap_count, 0);
    assert_eq!(running(&engine), (0, 0));
}

#[test]
fn a_tap_that_is_far_ahead_ignores_the_touch() {
    let mut engine = Engine::new();
    let _ = init_line_states(
        &mut engine,
        one_line(120.0, vec![make(NoteType::Tap, 64, 0.0, 120.0)]),
        FormatVersion::V3,
    );
    set_touch_down(&mut engine, 3, 0, 0);
    let frame = frame_for(&engine, 120.0, 0.5, 0.016, touch(30, 3), vec![false; 30]);
    tick_all(&mut engine, &frame, false);
    assert!(engine.lines[0].notes_above_state[0].score == NoteScore::Unjudged);
    assert!(!engine.touches[3].touch_valid);
}

#[test]
fn a_touch_judges_one_tap_a_tick() {
    let mut engine = Engine::new();
    let _ = init_line_states(
        &mut engine,
        one_line(
            120.0,
            vec![make(NoteType::Tap, 64, 0.0, 120.0), make(NoteType::Tap, 64, 0.0, 120.0)],
        ),
        FormatVersion::V3,
    );
    set_touch_down(&mut engine, 0, 0, 0);
    let frame = frame_for(&engine, 120.0, 1.0, 0.016, touch(30, 0), vec![false; 30]);
    tick_all(&mut engine, &frame, false);
    assert!(engine.lines[0].notes_above_state[0].score == NoteScore::Perfect);
    assert!(engine.lines[0].notes_above_state[1].score == NoteScore::Unjudged);
    assert_eq!(engine.effects.sound.tap_count, 1);
    let frame = frame_for(&engine, 120.0, 1.0, 0.0, touch(30, 0), vec![false; 30]);
    tick_all(&mut engine, &frame, false);
    assert!(engine.lines[0].notes_above_state[1].score == NoteScore::Unjudged);
    assert_eq!(engine.effects.sound.tap_count, 0);
}

fn window(delta_seconds: f64, bpm: f64) -> NoteScore {
    let state = NoteState::fresh(make(NoteType::Tap, 64, 0.0, bpm));
    let spt = tick_length(bpm);
    let mut probe = measure(&state, bpm, 1.0, 0.0, vec![], vec![]);
    probe.time_delta = fl(delta_seconds / spt);
    check_judge_result(&probe)
}

#[test]
fn the_bounds_of_the_perfect_window_are_perfect() {
    assert!(window(0.08, 120.0) == NoteScore::Perfect);
    assert!(window(-0.08, 120.0) == NoteScore::Perfect);
    assert!(window(0.0, 120.0) == NoteScore::Perfect);
    assert!(window(-0.0, 120.0) == NoteScore::Perfect);
}

#[test]
fn the_windows_follow_one_another() {
    assert!(window(0.080001, 120.0) == NoteScore::Good);
    assert!(window(0.16, 120.0) == NoteScore::Good);
    assert!(window(-0.16, 120.0) == NoteScore::Good);
    assert!(window(0.160001, 120.0) == NoteScore::Bad);
    assert!(window(0.18, 120.0) == NoteScore::Bad);
    assert!(window(-0.18, 120.0) == NoteScore::Bad);
    assert!(window(0.180001, 120.0) == NoteScore::Miss);
    assert!(window(-1.0, 120.0) == NoteScore::Miss);
    assert!(window(f64::NAN, 120.0) == NoteScore::Miss);
}

#[test]
fn a_tap_touched_a_little_late_is_good_with_tint_one() {
    let mut engine = Engine::new();
    let _ = init_line_states(
        &mut engine,
        one_line(120.0, vec![make(NoteType::Tap, 64, 0.0, 120.0)]),
        FormatVersion::V3,
    );
    set_touch_down(&mut engine, 0, 0, 0);
    let frame = frame_for(&engine, 120.0, 1.1, 0.016, touch(30, 0), vec![false; 30]);
    tick_all(&mut engine, &frame, false);
    assert!(engine.lines[0].notes_above_state[0].score == NoteScore::Good);
    assert_eq!(engine.effects.splash_effects[0].tint_type, 1);
    assert_eq!(engine.effects.hit_effects[0].tint_type, 1);
    let (score, accurate) = score_of(&engine);
    assert_eq!(accurate, 0.65);
    assert_eq!(score, 100_000.0 + 0.65 * 900_000.0);
}

#[test]
fn a_tap_touched_badly_is_bad_without_a_splash() {
    let mut engine = Engine::new();
    let _ = init_line_states(
        &mut engine,
        one_line(120.0, vec![make(NoteType::Tap, 64, 0.0, 120.0)]),
        FormatVersion::V3,
    );
    set_touch_down(&mut engine, 0, 0, 0);
    let frame = frame_for(&engine, 120.0, 1.17, 0.016, touch(30, 0), vec![false; 30]);
    tick_all(&mut engine, &frame, false);
    assert!(engine.lines[0].notes_above_state[0].score == NoteScore::Bad);
    assert_eq!(running(&engine), (0, 0));
    assert_eq!(engine.effects.sound.tap_count, 1);
    assert_eq!(engine.statistics.combo, 0);
}

#[test]
fn a_hold_held_to_its_end_is_perfect_with_two_splashes() {
    let mut engine = Engine::new();
    let _ = init_line_states(
        &mut engine,
        one_line(60.0, vec![make(NoteType::Hold, 0, 32.0, 60.0)]),
        FormatVersion::V3,
    );
    set_touch_down(&mut engine, 0, 0, 0);
    let frame = frame_for(&engine, 60.0, 0.0, 0.0, touch(30, 0), vec![false; 30]);
    tick_all(&mut engine, &frame, false);
    {
        let note = &engine.lines[0].notes_above_state[0];
        assert!(note.extra_score == NoteScore::Perfect);
        assert!(note.score == NoteScore::Unjudged);
    }
    assert_eq!(engine.effects.sound.tap_count, 1);
    assert_eq!(running(&engine), (0, 0));
    let frame = frame_for(&engine, 60.0, 0.5, 0.5, touch(30, 0), vec![false; 30]);
    tick_all(&mut engine, &frame, false);
    {
        let note = &engine.lines[0].notes_above_state[0];
        assert!(note.score == NoteScore::Unjudged);
        assert_eq!(val(note.hold_cool_down), 0.0);
    }
    assert_eq!(running(&engine), (1, 1));
    assert_eq!(engine.effects.sound.tap_count, 0);
    let frame = frame_for(&engine, 60.0, 1.0, 0.5, touch(30, 0), vec![false; 30]);
    tick_all(&mut engine, &frame, false);
    assert!(engine.lines[0].notes_above_state[0].score == NoteScore::Perfect);
    assert_eq!(running(&engine), (2, 2));
    assert_eq!(engine.statistics.combo, 1);
}

#[test]
fn a_hold_let_go_is_missed() {
    let mut engine = Engine::new();
    let _ = init_line_states(
        &mut engine,
        one_line(60.0, vec![make(NoteType::Hold, 0, 32.0, 60.0)]),
        FormatVersion::V3,
    );
    set_touch_down(&mut engine, 0, 0, 0);
    let frame = frame_for(&engine, 60.0, 0.0, 0.0, touch(30, 0), vec![false; 30]);
    tick_all(&mut engine, &frame, false);
    let frame = frame_for(&engine, 60.0, 0.25, 0.25, vec![false; 30], vec![false; 30]);
    tick_all(&mut engine, &frame, false);
    assert!(engine.lines[0].notes_above_state[0].score == NoteScore::Miss);
    assert_eq!(engine.statistics.combo, 0);
}

#[test]
fn a_cool_down_far_behind_snaps_to_zero() {
    let mut engine = Engine::new();
    let _ = init_line_states(
        &mut engine,
        one_line(60.0, vec![make(NoteType::Hold, 0, 320.0, 60.0)]),
        FormatVersion::V3,
    );
    set_touch_down(&mut engine, 0, 0, 0);
    let frame = frame_for(&engine, 60.0, 0.0, 0.0, touch(30, 0), vec![false; 30]);
    tick_all(&mut engine, &frame, false);
    let frame = frame_for(&engine, 60.0, 1.0, 1.0, touch(30, 0), vec![false; 30]);
    tick_all(&mut engine, &frame, false);
    assert_eq!(val(engine.lines[0].notes_above_state[0].hold_cool_down), 0.0);
    let frame = frame_for(&engine, 60.0, 1.25, 0.25, touch(30, 0), vec![false; 30]);
    tick_all(&mut engine, &frame, false);
    assert_eq!(val(engine.lines[0].notes_above_state[0].hold_cool_down), 8.0);
}

#[test]
fn a_flick_arms_on_a_swipe_and_is_perfect_once_passed() {
    let mut engine = Engine::new();
    let _ = init_line_states(
        &mut engine,
        one_line(120.0, vec![make(NoteType::Flick, 0, 0.0, 120.0)]),
        FormatVersion::V3,
    );
    set_touch_down(&mut engine, 0, 100.0f32.to_bits(), 100.0f32.to_bits());
    let frame = frame_for(&engine, 120.0, -0.05, 0.016, touch(30, 0), vec![false; 30]);
    tick_all(&mut engine, &frame, false);
    assert!(engine.lines[0].notes_above_state[0].extra_score == NoteScore::Unjudged);
    set_touch_move(&mut engine, 0, 160.0f32.to_bits(), 100.0f32.to_bits());
    let frame = frame_for(&engine, 120.0, -0.03, 0.016, touch(30, 0), touch(30, 0));
    tick_all(&mut engine, &frame, false);
    {
        let note = &engine.lines[0].notes_above_state[0];
        assert!(note.extra_score == NoteScore::Perfect);
        assert!(note.score == NoteScore::Unjudged);
    }
    assert_eq!(engine.touches[0].init_x, 160.0f32.to_bits());
    assert_eq!(engine.touches[0].init_y, 100.0f32.to_bits());
    assert_eq!(engine.effects.sound.flick_count, 0);
    let frame = frame_for(&engine, 120.0, 0.01, 0.016, vec![false; 30], vec![false; 30]);
    tick_all(&mut engine, &frame, false);
    assert!(engine.lines[0].notes_above_state[0].score == NoteScore::Perfect);
    assert_eq!(engine.effects.sound.flick_count, 1);
    assert_eq!(running(&engine), (1, 1));
}

#[test]
fn a_swipe_arms_one_flick_only() {
    let mut engine = Engine::new();
    let _ = init_line_states(
        &mut engine,
        one_line(
            120.0,
            vec![make(NoteType::Flick, 0, 0.0, 120.0), make(NoteType::Flick, 0, 0.0, 120.0)],
        ),
        FormatVersion::V3,
    );
    set_touch_down(&mut engine, 0, 100.0f32.to_bits(), 100.0f32.to_bits());
    set_touch_move(&mut engine, 0, 160.0f32.to_bits(), 100.0f32.to_bits());
    let frame = frame_for(&engine, 120.0, 0.0, 0.016, touch(30, 0), touch(30, 0));
    tick_all(&mut engine, &frame, false);
    assert!(engine.lines[0].notes_above_state[0].extra_score == NoteScore::Perfect);
    assert!(engine.lines[0].notes_above_state[1].extra_score == NoteScore::Unjudged);
}

#[test]
fn a_drag_arms_on_any_touch_and_leaves_it_valid() {
    let mut engine = Engine::new();
    let _ = init_line_states(
        &mut engine,
        one_line(
            120.0,
            vec![make(NoteType::Drag, 64, 0.0, 120.0), make(NoteType::Tap, 64, 0.0, 120.0)],
        ),
        FormatVersion::V3,
    );
    set_touch_down(&mut engine, 0, 0, 0);
    let frame = frame_for(&engine, 120.0, 0.95, 0.016, touch(30, 0), vec![false; 30]);
    tick_all(&mut engine, &frame, false);
    assert!(engine.lines[0].notes_above_state[0].extra_score == NoteScore::Perfect);
    assert!(engine.lines[0].notes_above_state[0].score == NoteScore::Unjudged);
    assert!(engine.lines[0].notes_above_state[1].score == NoteScore::Perfect);
    let frame = frame_for(&engine, 120.0, 1.01, 0.016, vec![false; 30], vec![false; 30]);
    tick_all(&mut engine, &frame, false);
    assert!(engine.lines[0].notes_above_state[0].score == NoteScore::Perfect);
    assert_eq!(engine.effects.sound.drag_count, 1);
    assert_eq!(engine.statistics.combo, 2);
}

#[test]
fn a_drag_never_touched_is_missed() {
    let mut engine = Engine::new();
    let _ = init_line_states(
        &mut engine,
        one_line(120.0, vec![make(NoteType::Drag, 64, 0.0, 120.0)]),
        FormatVersion::V3,
    );
    let frame = frame_for(&engine, 120.0, 1.2, 0.016, vec![false; 30], vec![false; 30]);
    tick_all(&mut engine, &frame, false);
    assert!(engine.lines[0].notes_above_state[0].score == NoteScore::Miss);
}

#[test]
fn autoplay_judges_every_note_perfect_when_due() {
    let mut engine = Engine::new();
    let _ = init_line_states(
        &mut engine,
        one_line(
            120.0,
            vec![
                make(NoteType::Tap, 0, 0.0, 120.0),
                make(NoteType::Drag, 0, 0.0, 120.0),
                make(NoteType::Flick, 0, 0.0, 120.0),
                make(NoteType::Hold, 0, 32.0, 120.0),
                make(NoteType::Tap, 64, 0.0, 120.0),
            ],
        ),
        FormatVersion::V3,
    );
    let frame = frame_for(&engine, 120.0, 0.0, 0.0, vec![false; 30], vec![false; 30]);
    tick_all(&mut engine, &frame, true);
    let notes = &engine.lines[0].notes_above_state;
    assert!(notes[0].score == NoteScore::Perfect);
    assert!(notes[1].score == NoteScore::Perfect);
    assert!(notes[2].score == NoteScore::Perfect);
    assert!(notes[3].score == NoteScore::Unjudged);
    assert!(notes[3].extra_score == NoteScore::Perfect);
    assert!(notes[4].score == NoteScore::Unjudged);
    assert_eq!(engine.effects.sound.tap_count, 2);
    assert_eq!(engine.effects.sound.drag_count, 1);
    assert_eq!(engine.effects.sound.flick_count, 1);
    assert_eq!(running(&engine), (4, 4));
    assert_eq!(engine.statistics.combo, 3);
    assert_eq!(engine.statistics.perfects, 3);
    assert_eq!(engine.statistics.total_notes, 5);
}

#[test]
fn ticking_twice_at_one_moment_changes_no_tap() {
    let mut engine = Engine::new();
    let _ = init_line_states(
        &mut engine,
        one_line(
            120.0,
            vec![make(NoteType::Tap, 64, 0.0, 120.0), make(NoteType::Tap, 66, 0.0, 120.0)],
        ),
        FormatVersion::V3,
    );
    set_touch_down(&mut engine, 0, 0, 0);
    set_touch_down(&mut engine, 1, 0, 0);
    let mut both = touch(30, 0);
    both[1] = true;
    let frame = frame_for(&engine, 120.0, 1.0, 0.016, both.clone(), vec![false; 30]);
    tick_all(&mut engine, &frame, false);
    let scores: Vec<NoteScore> =
        engine.lines[0].notes_above_state.iter().map(|n| n.score).collect();
    let effects = running(&engine);
    let combo = engine.statistics.combo;
    let frame = frame_for(&engine, 120.0, 1.0, 0.0, both, vec![false; 30]);
    tick_all(&mut engine, &frame, false);
    let again: Vec<NoteScore> =
        engine.lines[0].notes_above_state.iter().map(|n| n.score).collect();
    assert!(scores == again);
    assert_eq!(effects, running(&engine));
    assert_eq!(combo, engine.statistics.combo);
    assert_eq!(engine.effects.hit_effects[0].progress.to_bits(), 0);
}

#[test]
fn the_combo_does_not_fall_while_every_judgement_is_a_hit() {
    let mut engine = Engine::new();
    let _ = init_line_states(
        &mut engine,
        one_line(
            120.0,
            vec![
                make(NoteType::Tap, 0, 0.0, 120.0),
                make(NoteType::Tap, 32, 0.0, 120.0),
                make(NoteType::Tap, 64, 0.0, 120.0),
            ],
        ),
        FormatVersion::V3,
    );
    let mut last = 0;
    for step in 0..85 {
        let seconds = f64::from(step) * 0.0125;
        let frame = frame_for(&engine, 120.0, seconds, 0.0125, vec![false; 30], vec![false; 30]);
        tick_all(&mut engine, &frame, true);
        assert!(engine.statistics.combo >= last);
        last = engine.statistics.combo;
    }
    assert_eq!(last, 3);
    assert_eq!(engine.statistics.max_combo, 3);
}

#[test]
fn notes_without_a_probe_are_left_alone() {
    let mut engine = Engine::new();
    let _ = init_line_states(
        &mut engine,
        one_line(
            120.0,
            vec![make(NoteType::Tap, 0, 0.0, 120.0), make(NoteType::Tap, 0, 0.0, 120.0)],
        ),
        FormatVersion::V3,
    );
    let mut frame = frame_for(&engine, 120.0, 0.0, 0.0, vec![false; 30], vec![false; 30]);
    frame.probes[0].above.truncate(1);
    tick_all(&mut engine, &frame, true);
    assert!(engine.lines[0].notes_above_state[0].score == NoteScore::Perfect);
    assert!(engine.lines[0].notes_above_state[1].score == NoteScore::Unjudged);
    let mut frame = frame_for(&engine, 120.0, 0.0, 0.0, vec![false; 30], vec![false; 30]);
    frame.probes.clear();
    frame.tick_times.clear();
    frame.hit_progress.clear();
    tick_all(&mut engine, &frame, true);
    assert!(engine.lines[0].notes_above_state[1].score == NoteScore::Unjudged);
    assert_eq!(engine.lines[0].tick_time.to_bits(), 0.0f64.to_bits());
    assert_eq!(engine.lines.len(), 50);
    assert_eq!(engine.touches.len(), 30);
}

#[test]
fn a_disabled_line_is_not_judged() {
    let mut engine = Engine::new();
    let _ = init_line_states(
        &mut engine,
        one_line(120.0, vec![make(NoteType::Tap, 0, 0.0, 120.0)]),
        FormatVersion::V3,
    );
    engine.lines[0].enable = false;
    let frame = frame_for(&engine, 120.0, 0.5, 0.0, vec![false; 30], vec![false; 30]);
    tick_all(&mut engine, &frame, true);
    assert!(engine.lines[0].notes_above_state[0].score == NoteScore::Unjudged);
    assert_eq!(engine.effects.sound.tap_count, 0);
}

#[test]
fn a_touch_that_is_up_judges_nothing() {
    let mut engine = Engine::new();
    let _ = init_line_states(
        &mut engine,
        one_line(120.0, vec![make(NoteType::Tap, 64, 0.0, 120.0)]),
        FormatVersion::V3,
    );
    let frame = frame_for(&engine, 120.0, 1.0, 0.016, vec![true; 30], vec![true; 30]);
    tick_all(&mut engine, &frame, false);
    assert!(engine.lines[0].notes_above_state[0].score == NoteScore::Unjudged);
    assert!(engine.touches.iter().all(|t| t.touch_valid));
}

#[test]
fn the_first_touch_in_range_judges_and_later_ones_stay_valid_until_the_tick_ends() {
    let mut engine = Engine::new();
    let _ = init_line_states(
        &mut engine,
        one_line(
            120.0,
            vec![
                make(NoteType::Tap, 64, 0.0, 120.0),
                make(NoteType::Tap, 64, 0.0, 120.0),
                make(NoteType::Tap, 64, 0.0, 120.0),
            ],
        ),
        FormatVersion::V3,
    );
    set_touch_down(&mut engine, 2, 0, 0);
    set_touch_down(&mut engine, 7, 0, 0);
    set_touch_down(&mut engine, 9, 0, 0);
    let mut flags = vec![false; 30];
    flags[7] = true;
    flags[9] = true;
    let frame = frame_for(&engine, 120.0, 1.0, 0.016, flags, vec![false; 30]);
    tick_all(&mut engine, &frame, false);
    let notes = &engine.lines[0].notes_above_state;
    assert!(notes[0].score == NoteScore::Perfect);
    assert!(notes[1].score == NoteScore::Perfect);
    assert!(notes[2].score == NoteScore::Unjudged);
    assert!(engine.touches.iter().all(|t| !t.enable || !t.touch_valid));
    assert_eq!(engine.effects.sound.tap_count, 2);
    assert_eq!(engine.statistics.combo, 2);
}

#[test]
fn a_flick_needs_a_length_of_fifty() {
    for (length, arms) in [(49.999, false), (50.0, true), (50.001, true), (f64::NAN, false)] {
        let mut engine = Engine::new();
        let _ = init_line_states(
            &mut engine,
            one_line(120.0, vec![make(NoteType::Flick, 0, 0.0, 120.0)]),
            FormatVersion::V3,
        );
        set_touch_down(&mut engine, 0, 100.0f32.to_bits(), 100.0f32.to_bits());
        set_touch_move(&mut engine, 0, 160.0f32.to_bits(), 100.0f32.to_bits());
        let mut frame = frame_for(&engine, 120.0, 0.0, 0.016, touch(30, 0), vec![false; 30]);
        frame.probes[0].above[0].travelled[0] = fl(length);
        tick_all(&mut engine, &frame, false);
        let armed = engine.lines[0].notes_above_state[0].extra_score == NoteScore::Perfect;
        assert_eq!(armed, arms, "length {}", length);
    }
}

#[test]
fn a_touch_is_in_range_between_the_bounds_along_the_way_the_line_runs() {
    for (degree, x, y, hit) in [
        (0.0, 660.0, 0.0, true),
        (0.0, 1260.0, 0.0, true),
        (0.0, 659.9, 900.0, false),
        (90.0, 0.0, 700.0, false),
        (90.0, 0.0, 1000.0, false),
        (180.0, 900.0, 0.0, false),
        (400.0, 900.0, 0.0, false),
        (f64::NAN, 900.0, 0.0, false),
    ] {
        let mut engine = Engine::new();
        let _ = init_line_states(
            &mut engine,
            one_line(120.0, vec![make(NoteType::Tap, 64, 0.0, 120.0)]),
            FormatVersion::V3,
        );
        set_touch_down(&mut engine, 0, 0, 0);
        let mut frame = frame_for(&engine, 120.0, 1.0, 0.016, touch(30, 0), vec![false; 30]);
        frame.probes[0].above[0].degree = fl(degree);
        frame.probes[0].above[0].reach[0].point_x = fl(x);
        frame.probes[0].above[0].reach[0].point_y = fl(y);
        tick_all(&mut engine, &frame, false);
        let judged = engine.lines[0].notes_above_state[0].score == NoteScore::Perfect;
        assert_eq!(judged, hit, "degree {} point {} {}", degree, x, y);
    }
    let mut engine = Engine::new();
    let _ = init_line_states(
        &mut engine,
        one_line(120.0, vec![make(NoteType::Tap, 64, 0.0, 120.0)]),
        FormatVersion::V3,
    );
    set_touch_down(&mut engine, 0, 0, 0);
    let mut frame = frame_for(&engine, 120.0, 1.0, 0.016, touch(30, 0), vec![false; 30]);
    frame.probes[0].above[0].degree = fl(180.0);
    frame.probes[0].above[0].reach[0].near = fl(1260.0);
    frame.probes[0].above[0].reach[0].far = fl(660.0);
    tick_all(&mut engine, &frame, false);
    assert!(engine.lines[0].notes_above_state[0].score == NoteScore::Perfect);
}

#[test]
fn a_tick_takes_the_speed_from_the_speed_event_and_leaves_disabled_lines() {
    use_speed_events();
}

fn use_speed_events() {
    let mut engine = Engine::new();
    let mut chart = one_line(60.0, vec![]);
    chart.judge_line_list[0].speed_events = vec![phasetida_core::chart::Event1 {
        start_time: fl(0.0),
        end_time: fl(32.0),
        value: fl(2.0),
    }];
    let _ = init_line_states(&mut engine, chart, FormatVersion::V3);
    let frame = frame_for(&engine, 60.0, 0.5, 0.5, vec![false; 30], vec![false; 30]);
    tick_all(&mut engine, &frame, false);
    assert_eq!(engine.lines[0].speed.to_bits(), 2.0f64.to_bits());
    assert_eq!(engine.lines[0].tick_time.to_bits(), 16.0f64.to_bits());
    assert_eq!(engine.lines[0].x.to_bits(), 960.0f64.to_bits());
    assert!(!engine.lines[1].enable);
    assert_eq!(engine.lines[1].speed.to_bits(), 1.0f64.to_bits());
    assert_eq!(engine.lines[1].tick_time.to_bits(), 0);
    assert_eq!(engine.lines[1].x.to_bits(), 0);
    let frame = frame_for(&engine, 60.0, 2.0, 0.5, vec![false; 30], vec![false; 30]);
    tick_all(&mut engine, &frame, false);
    assert_eq!(engine.lines[0].speed.to_bits(), 2.0f64.to_bits());
    let mut bare = Engine::new();
    let _ = init_line_states(&mut bare, one_line(60.0, vec![]), FormatVersion::V3);
    let frame = frame_for(&bare, 60.0, 0.5, 0.5, vec![false; 30], vec![false; 30]);
    tick_all(&mut bare, &frame, false);
    assert_eq!(bare.lines[0].speed.to_bits(), 0);
}
