use phasetida_core::chart::{Chart, FormatVersion, JudgeLine, Note, NoteType};
use phasetida_core::draw::{
    process_hold_note, process_normal_note, process_state_to_drawable, write_click_effects,
    write_line, write_sound_effects, write_splash_effects, BufferWithCursor, ByteBuffer,
    EffectScene, LineScene, NoteScene, Scene,
};
use phasetida_core::engine::Engine;
use phasetida_core::math::{Edges, Point, Shadow};
use phasetida_core::renders::{
    Dense, RendClickEffect, RendLine, RendNote, RendPoint, RendSound, RendSplashEffect,
    RendStatistics,
};
use phasetida_core::scalar::Real;
use phasetida_core::states::{LineState, NoteScore, NoteState};
use phasetida_core::states_effect::{new_click_effect, new_sound_effect, Effect, SoundEffect};
use phasetida_core::states_initializing::init_line_states;
use phasetida_core::states_input::set_touch_down;

fn dbl(x: f64) -> Real {
    Real::from_bits(x.to_bits())
}

fn bits(x: f32) -> u32 {
    x.to_bits()
}

fn le(x: f32) -> Vec<u8> {
    x.to_le_bytes().to_vec()
}

fn a_note(kind: NoteType, time: i32) -> Note {
    Note {
        note_type: kind,
        time,
        position_x: dbl(0.0),
        hold_time: dbl(0.0),
        speed: dbl(1.0),
        floor_position: dbl(0.0),
        start_second: dbl(0.0),
        end_second: dbl(0.0),
        end_rank: 0,
    }
}

fn cast_on(axis: (f64, f64), screen: (f64, f64), body: (f64, f64)) -> Shadow {
    Shadow {
        axis_x: dbl(axis.0),
        axis_y: dbl(axis.1),
        min1: dbl(screen.0),
        max1: dbl(screen.1),
        min2: dbl(body.0),
        max2: dbl(body.1),
    }
}

fn a_scene() -> NoteScene {
    NoteScene {
        floor_limit: dbl(0.001),
        body_position: dbl(1.0),
        body_limit: dbl(-0.5),
        x: dbl(100.0),
        y: dbl(200.0),
        draw_x: bits(100.0),
        draw_y: bits(200.0),
        draw_rotate: bits(45.0),
        hold_ticks: 32,
        shadows: vec![cast_on((1.0, 0.0), (0.0, 1920.0), (100.0, 200.0)); 4],
        end_x: bits(1.0),
        end_y: bits(2.0),
        body_x: bits(3.0),
        body_y: bits(4.0),
        head_x: bits(5.0),
        head_y: bits(6.0),
        hold_rotate: bits(180.0),
        body_height: bits(77.0),
    }
}

fn no_edges() -> Edges {
    Edges {
        first_left: false,
        first_right: false,
        first_top: false,
        first_bottom: false,
        second_left: false,
        second_right: false,
        second_top: false,
        second_bottom: false,
    }
}

fn no_notes(tick: i32) -> LineScene {
    LineScene {
        first: Point { x: dbl(0.0), y: dbl(540.0) },
        second: Point { x: dbl(1920.0), y: dbl(540.0) },
        edges: no_edges(),
        x1: bits(0.0),
        y1: bits(540.0),
        x2: bits(1920.0),
        y2: bits(540.0),
        alpha: bits(1.0),
        tick,
        above: vec![],
        below: vec![],
    }
}

#[test]
fn records_have_their_bytes() {
    let line = RendLine { x1: bits(1.0), y1: bits(2.0), x2: bits(3.0), y2: bits(4.0), alpha: bits(0.5) };
    let mut want = vec![1u8];
    for v in [1.0f32, 2.0, 3.0, 4.0, 0.5] {
        want.extend(le(v));
    }
    assert_eq!(line.to_bytes(), want);
    assert_eq!(want.len(), 21);

    let note = RendNote {
        note_type: 6,
        x: bits(-1.5),
        y: bits(2.5),
        rotate: bits(90.0),
        height: bits(12.0),
        high_light: 1,
    };
    let mut want = vec![2u8, 6u8];
    for v in [-1.5f32, 2.5, 90.0, 12.0] {
        want.extend(le(v));
    }
    want.push(1);
    assert_eq!(note.to_bytes(), want);
    assert_eq!(want.len(), 19);

    let click = RendClickEffect { x: bits(7.0), y: bits(8.0), frame: 29, tint_type: -1 };
    let mut want = vec![3u8];
    want.extend(le(7.0));
    want.extend(le(8.0));
    want.push(29);
    want.push(255);
    assert_eq!(click.to_bytes(), want);

    let point = RendPoint { x: bits(9.0), y: bits(10.0) };
    let mut want = vec![4u8];
    want.extend(le(9.0));
    want.extend(le(10.0));
    assert_eq!(point.to_bytes(), want);

    let statistics = RendStatistics {
        combo: 0x0102_0304,
        max_combo: 0xffff_ffff,
        score: bits(1_000_000.0),
        accurate: bits(1.0),
    };
    let mut want = vec![5u8, 4, 3, 2, 1, 255, 255, 255, 255];
    want.extend(le(1_000_000.0));
    want.extend(le(1.0));
    assert_eq!(statistics.to_bytes(), want);
    assert_eq!(want.len(), 17);

    let splash = RendSplashEffect { x: bits(7.0), y: bits(8.0), frame: 0, tint_type: 1 };
    let mut want = vec![6u8];
    want.extend(le(7.0));
    want.extend(le(8.0));
    want.push(0);
    want.push(1);
    assert_eq!(splash.to_bytes(), want);

    let sound = RendSound { tap_sound: 1, drag_sound: 256, flick_sound: 65536 };
    assert_eq!(sound.to_bytes(), vec![7u8, 1, 0, 0, 0, 0, 1, 0, 0, 0, 0, 1, 0]);
}

#[test]
fn signed_bytes_are_twos_complement() {
    for v in [i8::MIN, -2, -1, 0, 1, 29, i8::MAX] {
        let bytes = (RendClickEffect { x: 0, y: 0, frame: v, tint_type: v }).to_bytes();
        assert_eq!(bytes[9], v as u8);
        assert_eq!(bytes[10], v as u8);
    }
}

#[test]
fn a_buffer_appends_what_is_written() {
    let mut buffer = ByteBuffer::new();
    buffer.write(&[1, 2, 3]);
    buffer.write(&[]);
    buffer.write(&[4]);
    assert_eq!(buffer.bytes, vec![1, 2, 3, 4]);
}

#[test]
fn a_line_without_alpha_or_off_the_screen_is_not_drawn() {
    let mut line = LineState::default();
    let scene = no_notes(0);
    let mut buffer = ByteBuffer::new();
    line.alpha = dbl(0.0);
    write_line(&mut buffer, &line, &scene);
    line.alpha = dbl(-0.5);
    write_line(&mut buffer, &line, &scene);
    assert!(buffer.bytes.is_empty());
    line.alpha = dbl(0.25);
    let mut off = no_notes(0);
    off.first = Point { x: dbl(0.0), y: dbl(-5.0) };
    off.second = Point { x: dbl(1920.0), y: dbl(0.0) };
    off.edges.first_left = true;
    off.edges.second_right = true;
    write_line(&mut buffer, &line, &off);
    assert!(buffer.bytes.is_empty());
    write_line(&mut buffer, &line, &scene);
    let mut want = vec![1u8];
    for v in [0.0f32, 540.0, 1920.0, 540.0, 1.0] {
        want.extend(le(v));
    }
    assert_eq!(buffer.bytes, want);
}

#[test]
fn a_normal_note_is_drawn_while_it_is_ahead_and_in_bounds() {
    let mut state = NoteState::fresh(a_note(NoteType::Flick, 10));
    state.highlight = true;
    let scene = a_scene();
    let mut out = Vec::new();
    process_normal_note(&state, &scene, 9, dbl(0.001), &mut out);
    assert!(
        out == vec![RendNote {
            note_type: 4,
            x: bits(100.0),
            y: bits(200.0),
            rotate: bits(45.0),
            height: 0,
            high_light: 1,
        }]
    );
    let mut out = Vec::new();
    process_normal_note(&state, &scene, 10, dbl(0.001), &mut out);
    process_normal_note(&state, &scene, 9, dbl(0.0010001), &mut out);
    let mut outside = a_scene();
    outside.y = dbl(1280.5);
    process_normal_note(&state, &outside, 9, dbl(0.001), &mut out);
    let mut judged = state;
    judged.score = NoteScore::Perfect;
    process_normal_note(&judged, &scene, 9, dbl(0.001), &mut out);
    let hold = NoteState::fresh(a_note(NoteType::Hold, 10));
    process_normal_note(&hold, &scene, 9, dbl(0.001), &mut out);
    assert!(out.is_empty());
}

#[test]
fn a_hold_is_drawn_as_end_body_and_head() {
    let mut state = NoteState::fresh(a_note(NoteType::Hold, 10));
    state.highlight = true;
    state.score = NoteScore::Perfect;
    let scene = a_scene();
    let end = RendNote {
        note_type: 7,
        x: bits(1.0),
        y: bits(2.0),
        rotate: bits(180.0),
        height: 0,
        high_light: 0,
    };
    let body = RendNote {
        note_type: 6,
        x: bits(3.0),
        y: bits(4.0),
        rotate: bits(180.0),
        height: bits(77.0),
        high_light: 1,
    };
    let head = RendNote {
        note_type: 5,
        x: bits(5.0),
        y: bits(6.0),
        rotate: bits(180.0),
        height: 0,
        high_light: 1,
    };
    let mut out = Vec::new();
    process_hold_note(&state, &scene, 9, &mut out);
    assert!(out == vec![end, body, head]);
    let mut out = Vec::new();
    process_hold_note(&state, &scene, 10, &mut out);
    assert!(out == vec![end, body]);
    let mut out = Vec::new();
    process_hold_note(&state, &scene, 41, &mut out);
    assert!(out == vec![end, body]);
    let mut out = Vec::new();
    process_hold_note(&state, &scene, 42, &mut out);
    let mut behind = a_scene();
    behind.body_position = dbl(-0.5);
    process_hold_note(&state, &behind, 9, &mut out);
    behind.body_position = dbl(-0.75);
    process_hold_note(&state, &behind, 9, &mut out);
    let mut off = a_scene();
    off.shadows[2] = cast_on((0.0, 1.0), (0.0, 1080.0), (1080.5, 1200.0));
    process_hold_note(&state, &off, 9, &mut out);
    assert!(out.is_empty());
    off.shadows[2] = cast_on((0.0, 0.0), (0.0, 1080.0), (1080.5, 1200.0));
    process_hold_note(&state, &off, 9, &mut out);
    assert_eq!(out.len(), 3);
    out.clear();
    off.shadows[2] = cast_on((0.0, 1.0), (0.0, 1080.0), (1080.0, 1200.0));
    process_hold_note(&state, &off, 9, &mut out);
    assert_eq!(out.len(), 3);
    out.clear();
    let tap = NoteState::fresh(a_note(NoteType::Tap, 10));
    process_hold_note(&tap, &scene, 9, &mut out);
    assert!(out.is_empty());
    let far = NoteState::fresh(a_note(NoteType::Hold, i32::MAX));
    let mut long = a_scene();
    long.hold_ticks = i32::MAX;
    let mut out = Vec::new();
    process_hold_note(&far, &long, i32::MAX, &mut out);
    assert_eq!(out.len(), 2);
}

#[test]
fn effects_are_drawn_with_their_frame_kept_in_range() {
    let pool = vec![
        Effect { enable: true, x: dbl(0.0), y: dbl(0.0), progress: dbl(0.0), tint_type: 1 },
        Effect { enable: false, x: dbl(0.0), y: dbl(0.0), progress: dbl(0.0), tint_type: 0 },
        Effect { enable: true, x: dbl(0.0), y: dbl(0.0), progress: dbl(0.0), tint_type: 0 },
        Effect { enable: true, x: dbl(0.0), y: dbl(0.0), progress: dbl(0.0), tint_type: 0 },
        Effect { enable: true, x: dbl(0.0), y: dbl(0.0), progress: dbl(0.0), tint_type: 0 },
    ];
    let scenes = vec![
        EffectScene { x: bits(1.0), y: bits(2.0), frame: 30 },
        EffectScene { x: bits(3.0), y: bits(4.0), frame: 7 },
        EffectScene { x: bits(5.0), y: bits(6.0), frame: -3 },
        EffectScene { x: bits(7.0), y: bits(8.0), frame: 15 },
    ];
    let mut buffer = ByteBuffer::new();
    write_click_effects(&mut buffer, &pool, &scenes);
    let mut want = Vec::new();
    want.extend((RendClickEffect { x: bits(1.0), y: bits(2.0), frame: 29, tint_type: 1 }).to_bytes());
    want.extend((RendClickEffect { x: bits(5.0), y: bits(6.0), frame: 0, tint_type: 0 }).to_bytes());
    want.extend((RendClickEffect { x: bits(7.0), y: bits(8.0), frame: 15, tint_type: 0 }).to_bytes());
    assert_eq!(buffer.bytes, want);
    let mut buffer = ByteBuffer::new();
    write_splash_effects(&mut buffer, &pool, &scenes);
    let mut want = Vec::new();
    want.extend((RendSplashEffect { x: bits(1.0), y: bits(2.0), frame: 29, tint_type: 1 }).to_bytes());
    want.extend((RendSplashEffect { x: bits(5.0), y: bits(6.0), frame: 0, tint_type: 0 }).to_bytes());
    want.extend((RendSplashEffect { x: bits(7.0), y: bits(8.0), frame: 15, tint_type: 0 }).to_bytes());
    assert_eq!(buffer.bytes, want);
}

#[test]
fn sounds_are_drawn_as_three_counts() {
    let mut buffer = ByteBuffer::new();
    write_sound_effects(
        &mut buffer,
        &SoundEffect { tap_count: 3, drag_count: 2, flick_count: 1 },
    );
    assert_eq!(buffer.bytes, vec![7u8, 3, 0, 0, 0, 2, 0, 0, 0, 1, 0, 0, 0]);
}

#[test]
fn an_empty_engine_is_drawn_as_statistics_sounds_and_a_zero() {
    let engine = Engine::new();
    let scene = Scene {
        score: bits(0.0),
        accurate: bits(0.0),
        lines: vec![],
        hit_effects: vec![],
        splash_effects: vec![],
    };
    let mut buffer = ByteBuffer::new();
    buffer.write(&[42]);
    process_state_to_drawable(&mut buffer, &engine, &scene);
    let mut want = vec![42u8];
    want.extend(vec![5u8; 1]);
    want.extend(vec![0u8; 16]);
    want.extend(vec![7u8; 1]);
    want.extend(vec![0u8; 12]);
    want.push(0);
    assert_eq!(buffer.bytes, want);
}

#[test]
fn the_stream_keeps_its_order() {
    let mut engine = Engine::new();
    let chart = Chart {
        offset: dbl(0.0),
        judge_line_list: vec![
            JudgeLine {
                bpm: dbl(120.0),
                tick_scale: 512,
                event_second: dbl(0.0),
                notes_above: vec![a_note(NoteType::Tap, 10), a_note(NoteType::Hold, 20)],
                notes_below: vec![a_note(NoteType::Drag, 30)],
                speed_events: vec![],
                move_events: vec![],
                rotate_events: vec![],
                alpha_events: vec![],
            },
            JudgeLine {
                bpm: dbl(120.0),
                tick_scale: 512,
                event_second: dbl(0.0),
                notes_above: vec![a_note(NoteType::Hold, 5)],
                notes_below: vec![],
                speed_events: vec![],
                move_events: vec![],
                rotate_events: vec![],
                alpha_events: vec![],
            },
        ],
    };
    let _ = init_line_states(&mut engine, chart, FormatVersion::V3);
    engine.lines[0].alpha = dbl(1.0);
    engine.lines[1].alpha = dbl(1.0);
    engine.statistics.combo = 3;
    engine.statistics.max_combo = 9;
    set_touch_down(&mut engine, 4, bits(11.0), bits(12.0));
    set_touch_down(&mut engine, 1, bits(13.0), bits(14.0));
    new_click_effect(&mut engine.effects, dbl(1.0), dbl(1.0), 1);
    new_sound_effect(&mut engine.effects, NoteType::Flick);
    let mut first = no_notes(0);
    first.above = vec![a_scene(), a_scene()];
    first.below = vec![a_scene()];
    let mut second = no_notes(7);
    second.above = vec![a_scene()];
    let scene = Scene {
        score: bits(123.0),
        accurate: bits(0.5),
        lines: vec![first, second],
        hit_effects: vec![EffectScene { x: bits(1.0), y: bits(1.0), frame: 3 }],
        splash_effects: vec![EffectScene { x: bits(2.0), y: bits(2.0), frame: 4 }],
    };
    let mut buffer = ByteBuffer::new();
    process_state_to_drawable(&mut buffer, &engine, &scene);

    let line = RendLine {
        x1: bits(0.0),
        y1: bits(540.0),
        x2: bits(1920.0),
        y2: bits(540.0),
        alpha: bits(1.0),
    };
    let normal = |kind: i8| RendNote {
        note_type: kind,
        x: bits(100.0),
        y: bits(200.0),
        rotate: bits(45.0),
        height: 0,
        high_light: 0,
    };
    let part = |kind: i8, x: f32, y: f32, height: u32| RendNote {
        note_type: kind,
        x: bits(x),
        y: bits(y),
        rotate: bits(180.0),
        height,
        high_light: 0,
    };
    let mut want = Vec::new();
    want.extend(
        (RendStatistics { combo: 3, max_combo: 9, score: bits(123.0), accurate: bits(0.5) })
            .to_bytes(),
    );
    want.extend(line.to_bytes());
    want.extend(line.to_bytes());
    for record in [
        part(7, 1.0, 2.0, 0),
        part(6, 3.0, 4.0, bits(77.0)),
        part(5, 5.0, 6.0, 0),
        part(7, 1.0, 2.0, 0),
        part(6, 3.0, 4.0, bits(77.0)),
        normal(1),
        normal(2),
    ] {
        want.extend(record.to_bytes());
    }
    want.extend((RendClickEffect { x: bits(1.0), y: bits(1.0), frame: 3, tint_type: 1 }).to_bytes());
    want.extend((RendSplashEffect { x: bits(2.0), y: bits(2.0), frame: 4, tint_type: 1 }).to_bytes());
    want.extend((RendSound { tap_sound: 0, drag_sound: 0, flick_sound: 1 }).to_bytes());
    want.extend((RendPoint { x: bits(13.0), y: bits(14.0) }).to_bytes());
    want.extend((RendPoint { x: bits(11.0), y: bits(12.0) }).to_bytes());
    want.push(0);
    assert_eq!(buffer.bytes, want);
}
