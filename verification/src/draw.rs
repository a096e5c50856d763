//! Writing the state of the engine as a stream of draw records.
//!
//! The stream holds the statistics; the lines; the notes, holds before all
//! others; the hit effects; the splashes; the sounds; the touches that are
//! down; and a closing zero byte. Where a record shows a projected point, the
//! host has projected it: the scene holds, slot by slot, what it has computed.

use vstd::prelude::*;
use crate::chart::{note_type_code, NoteType};
use crate::engine::Engine;
use crate::input::TouchInfo;
use crate::math::{
    check_in_bound,
    check_misses_screen,
    check_rectangles_overlap,
    in_bound,
    misses_screen,
    rectangles_overlap,
    Edges,
    Point,
    Shadow,
};
use crate::renders::{
    Dense,
    RendClickEffect,
    RendLine,
    RendNote,
    RendPoint,
    RendSound,
    RendSplashEffect,
    RendStatistics,
};
use crate::scalar::Real;
use crate::states::{LineState, NoteScore, NoteState};
use crate::states_effect::{Effect, SoundEffect};
use crate::states_statistics::ChartStatistics;

verus! {

/// The heights of the images of a hold's head and end, plain and
/// highlighted, as the host has loaded them.
#[derive(Clone, Copy, Debug, PartialEq, Eq, Structural)]
pub struct DrawImageOffset {
    pub hold_head_height: Real,
    pub hold_head_highlight_height: Real,
    pub hold_end_height: Real,
    pub hold_end_highlight_height: Real,
}

impl DrawImageOffset {
    /// All heights zero.
    pub open spec fn default_spec() -> DrawImageOffset {
        DrawImageOffset {
            hold_head_height: Real::zero_spec(),
            hold_head_highlight_height: Real::zero_spec(),
            hold_end_height: Real::zero_spec(),
            hold_end_highlight_height: Real::zero_spec(),
        }
    }
}

impl Default for DrawImageOffset {
    fn default() -> (r: Self)
        ensures
            r == DrawImageOffset::default_spec(),
    {
        DrawImageOffset {
            hold_head_height: Real::zero(),
            hold_head_highlight_height: Real::zero(),
            hold_end_height: Real::zero(),
            hold_end_highlight_height: Real::zero(),
        }
    }
}

/// Stores the heights of the images of a hold's head and end.
pub fn load_image_offset(
    engine: &mut Engine,
    hold_head_height: Real,
    hold_head_highlight_height: Real,
    hold_end_height: Real,
    hold_end_highlight_height: Real,
)
    ensures
        old(engine).wf() ==> final(engine).wf(),
        final(engine).image_offset == (DrawImageOffset {
            hold_head_height,
            hold_head_highlight_height,
            hold_end_height,
            hold_end_highlight_height,
        }),
        final(engine).lines == old(engine).lines,
        final(engine).touches == old(engine).touches,
        final(engine).effects == old(engine).effects,
        final(engine).statistics == old(engine).statistics,
        final(engine).flatten_index == old(engine).flatten_index,
{
    engine.image_offset = DrawImageOffset {
        hold_head_height,
        hold_head_highlight_height,
        hold_end_height,
        hold_end_highlight_height,
    };
}

/// A buffer that takes what is written to it, in order.
pub trait BufferWithCursor {
    /// Everything that was written to the buffer.
    spec fn written(&self) -> Seq<u8>;

    /// Takes `slice` behind what was written before.
    fn write(&mut self, slice: &[u8])
        ensures
            final(self).written() == old(self).written() + slice@,
    ;
}

/// A buffer that keeps what is written to it.
pub struct ByteBuffer {
    pub bytes: Vec<u8>,
}

impl ByteBuffer {
    /// A buffer to which nothing was written.
    pub fn new() -> (buffer: ByteBuffer)
        ensures
            buffer.written() == Seq::<u8>::empty(),
    {
        ByteBuffer { bytes: Vec::new() }
    }
}

impl BufferWithCursor for ByteBuffer {
    open spec fn written(&self) -> Seq<u8> {
        self.bytes@
    }

    fn write(&mut self, slice: &[u8]) {
        let len: usize = slice.len();
        let mut i: usize = 0;
        while i < len
            invariant
                len == slice@.len(),
                i <= len,
                self.bytes@ == old(self).bytes@ + slice@.take(i as int),
            decreases len - i,
        {
            self.bytes.push(slice[i]);
            assert(self.bytes@ =~= old(self).bytes@ + slice@.take(i + 1));
            i = i + 1;
        }
        assert(slice@.take(len as int) =~= slice@);
    }
}

/// What the host has computed of one effect for drawing.
#[derive(Clone, Copy, Debug)]
pub struct EffectScene {
    /// Where the effect plays, as binary32 patterns.
    pub x: u32,
    pub y: u32,
    /// Thirty times the progress of the animation, cut to an integer.
    pub frame: i8,
}

/// What the host has computed of one note for drawing.
pub struct NoteScene {
    /// How far the line may have travelled before a tap, a drag or a flick
    /// lies behind it: the note's floor position and a small allowance.
    pub floor_limit: Real,
    /// Where the body of a hold stands before its line, and the position at
    /// or below which all of it lies behind the line: minus half its height.
    pub body_position: Real,
    pub body_limit: Real,
    /// Where a tap, a drag or a flick is projected to.
    pub x: Real,
    pub y: Real,
    /// The same point and the line's angle, as binary32 patterns.
    pub draw_x: u32,
    pub draw_y: u32,
    pub draw_rotate: u32,
    /// The length of a hold in ticks, cut to an integer.
    pub hold_ticks: i32,
    /// What the screen and the body of a hold cast on the axes of their
    /// sides.
    pub shadows: Vec<Shadow>,
    /// Where the end, the body and the head of a hold are projected to, the
    /// angle of the hold and the height of its body, as binary32 patterns.
    pub end_x: u32,
    pub end_y: u32,
    pub body_x: u32,
    pub body_y: u32,
    pub head_x: u32,
    pub head_y: u32,
    pub hold_rotate: u32,
    pub body_height: u32,
}

/// What the host has computed of one line for drawing.
pub struct LineScene {
    /// Where the line crosses the edges of the screen.
    pub first: Point,
    pub second: Point,
    /// Which edges these are.
    pub edges: Edges,
    /// The same two points, and the line's alpha, as binary32 patterns.
    pub x1: u32,
    pub y1: u32,
    pub x2: u32,
    pub y2: u32,
    pub alpha: u32,
    /// The line's moment in ticks, cut to an integer.
    pub tick: i32,
    /// The scenes of the notes above and below the line, in their order.
    pub above: Vec<NoteScene>,
    pub below: Vec<NoteScene>,
}

/// What the host has computed for drawing.
pub struct Scene {
    /// The score and the accuracy, as binary32 patterns.
    pub score: u32,
    pub accurate: u32,
    /// One scene for each line slot.
    pub lines: Vec<LineScene>,
    /// One scene for each slot of the hit effects.
    pub hit_effects: Vec<EffectScene>,
    /// One scene for each slot of the splash effects.
    pub splash_effects: Vec<EffectScene>,
}

/// The record of the statistics.
pub open spec fn statistics_record(statistics: ChartStatistics, scene: &Scene) -> RendStatistics {
    RendStatistics {
        combo: statistics.combo,
        max_combo: statistics.max_combo,
        score: scene.score,
        accurate: scene.accurate,
    }
}

/// The record of the sounds.
pub open spec fn sound_record(sound: SoundEffect) -> RendSound {
    RendSound {
        tap_sound: sound.tap_count,
        drag_sound: sound.drag_count,
        flick_sound: sound.flick_count,
    }
}

/// The bytes that a line is drawn with: none where its alpha is zero or
/// less, or where it misses the screen.
pub open spec fn line_bytes(line: LineState, scene: LineScene) -> Seq<u8> {
    if line.alpha.le_spec(Real::zero_spec()) || misses_screen(
        scene.first,
        scene.second,
        scene.edges,
    ) {
        Seq::empty()
    } else {
        (RendLine {
            x1: scene.x1,
            y1: scene.y1,
            x2: scene.x2,
            y2: scene.y2,
            alpha: scene.alpha,
        }).bytes_spec()
    }
}

/// The bytes that the first `n` lines are drawn with. A line without a scene
/// is not drawn.
pub open spec fn lines_bytes(lines: Seq<LineState>, scenes: Seq<LineScene>, n: int) -> Seq<u8>
    decreases n,
{
    if n <= 0 {
        Seq::empty()
    } else if n - 1 < lines.len() && n - 1 < scenes.len() {
        lines_bytes(lines, scenes, n - 1) + line_bytes(lines[n - 1], scenes[n - 1])
    } else {
        lines_bytes(lines, scenes, n - 1)
    }
}

/// Draws a line.
pub fn write_line<B: BufferWithCursor>(wrapped_buffer: &mut B, state: &LineState, scene: &LineScene)
    ensures
        final(wrapped_buffer).written() == old(wrapped_buffer).written() + line_bytes(
            *state,
            *scene,
        ),
{
    if state.alpha.le(Real::zero()) || check_misses_screen(&scene.first, &scene.second, &scene.edges) {
        assert(wrapped_buffer.written() + Seq::<u8>::empty() =~= wrapped_buffer.written());
        return ;
    }
    let line = RendLine {
        x1: scene.x1,
        y1: scene.y1,
        x2: scene.x2,
        y2: scene.y2,
        alpha: scene.alpha,
    };
    let bytes = line.to_bytes();
    wrapped_buffer.write(bytes.as_slice());
}

/// The flag that a record bears for a highlight.
pub open spec fn highlight_flag(highlight: bool) -> i8 {
    if highlight {
        1i8
    } else {
        0i8
    }
}

/// Whether a tap, a drag or a flick lies behind its line: the line has
/// travelled farther than the note's limit.
pub open spec fn normal_behind(scene: NoteScene, line_y: Real) -> bool {
    line_y.gt_spec(scene.floor_limit)
}

/// Whether the whole body of a hold lies behind its line.
pub open spec fn hold_behind(scene: NoteScene) -> bool {
    scene.body_position.le_spec(scene.body_limit)
}

/// The records of a tap, a drag or a flick: one record, or none where the
/// note is judged, has crossed its line, lies behind it, or is projected out
/// of bounds.
pub open spec fn normal_records(note: NoteState, scene: NoteScene, tick: i32, line_y: Real) -> Seq<
    RendNote,
> {
    if note.note.note_type == NoteType::Hold || note.score != NoteScore::Unjudged
        || note.note.time <= tick || normal_behind(scene, line_y) || !in_bound(scene.x, scene.y) {
        Seq::empty()
    } else {
        seq![
            RendNote {
                note_type: note_type_code(note.note.note_type),
                x: scene.draw_x,
                y: scene.draw_y,
                rotate: scene.draw_rotate,
                height: 0,
                high_light: highlight_flag(note.highlight),
            },
        ]
    }
}

/// The records of a hold: its end and its body, and its head while the hold
/// has not started; none where the hold is over, lies behind its line
/// altogether, or is parted from the screen by an axis.
pub open spec fn hold_records(note: NoteState, scene: NoteScene, tick: i32) -> Seq<RendNote> {
    let end = RendNote {
        note_type: 7,
        x: scene.end_x,
        y: scene.end_y,
        rotate: scene.hold_rotate,
        height: 0,
        high_light: 0,
    };
    let body = RendNote {
        note_type: 6,
        x: scene.body_x,
        y: scene.body_y,
        rotate: scene.hold_rotate,
        height: scene.body_height,
        high_light: highlight_flag(note.highlight),
    };
    let head = RendNote {
        note_type: 5,
        x: scene.head_x,
        y: scene.head_y,
        rotate: scene.hold_rotate,
        height: 0,
        high_light: highlight_flag(note.highlight),
    };
    if note.note.note_type != NoteType::Hold || note.note.time + scene.hold_ticks <= tick
        || hold_behind(scene) || !rectangles_overlap(scene.shadows@) {
        Seq::empty()
    } else if note.note.time > tick {
        seq![end, body, head]
    } else {
        seq![end, body]
    }
}

/// Collects the record of a tap, a drag or a flick.
pub fn process_normal_note(
    note_state: &NoteState,
    scene: &NoteScene,
    tick: i32,
    line_y: Real,
    out: &mut Vec<RendNote>,
)
    ensures
        final(out)@ == old(out)@ + normal_records(*note_state, *scene, tick, line_y),
{
    let note_type: NoteType = note_state.note.note_type;
    if note_type == NoteType::Hold || note_state.score != NoteScore::Unjudged
        || note_state.note.time <= tick || line_y.gt(scene.floor_limit) || !check_in_bound(
        scene.x,
        scene.y,
    ) {
        assert(out@ + Seq::<RendNote>::empty() =~= out@);
        return ;
    }
    out.push(
        RendNote {
            note_type: note_type.into(),
            x: scene.draw_x,
            y: scene.draw_y,
            rotate: scene.draw_rotate,
            height: 0,
            high_light: if note_state.highlight {
                1
            } else {
                0
            },
        },
    );
    assert(out@ =~= old(out)@ + normal_records(*note_state, *scene, tick, line_y));
}

/// Collects the records of a hold.
pub fn process_hold_note(
    note_state: &NoteState,
    scene: &NoteScene,
    tick: i32,
    out_hold: &mut Vec<RendNote>,
)
    ensures
        final(out_hold)@ == old(out_hold)@ + hold_records(*note_state, *scene, tick),
{
    let should_high_light: i8 = if note_state.highlight {
        1
    } else {
        0
    };
    let hold_end: i64 = note_state.note.time as i64 + scene.hold_ticks as i64;
    if note_state.note.note_type != NoteType::Hold || hold_end <= tick as i64
        || scene.body_position.le(scene.body_limit) || !check_rectangles_overlap(&scene.shadows) {
        assert(out_hold@ + Seq::<RendNote>::empty() =~= out_hold@);
        return ;
    }
    out_hold.push(
        RendNote {
            note_type: 7,
            x: scene.end_x,
            y: scene.end_y,
            rotate: scene.hold_rotate,
            height: 0,
            high_light: 0,
        },
    );
    out_hold.push(
        RendNote {
            note_type: 6,
            x: scene.body_x,
            y: scene.body_y,
            rotate: scene.hold_rotate,
            height: scene.body_height,
            high_light: should_high_light,
        },
    );
    if note_state.note.time > tick {
        out_hold.push(
            RendNote {
                note_type: 5,
                x: scene.head_x,
                y: scene.head_y,
                rotate: scene.hold_rotate,
                height: 0,
                high_light: should_high_light,
            },
        );
    }
    assert(out_hold@ =~= old(out_hold)@ + hold_records(*note_state, *scene, tick));
}

/// The note records that are collected so far: those of holds, and those of
/// all other notes.
pub struct NoteRecords {
    pub normal: Seq<RendNote>,
    pub hold: Seq<RendNote>,
}

/// The records of the first `n` notes of one side of a line, behind the
/// records in `start`. A note without a scene is not drawn.
pub open spec fn side_records(
    start: NoteRecords,
    notes: Seq<NoteState>,
    scenes: Seq<NoteScene>,
    tick: i32,
    line_y: Real,
    n: int,
) -> NoteRecords
    decreases n,
{
    if n <= 0 {
        start
    } else {
        let before = side_records(start, notes, scenes, tick, line_y, n - 1);
        if n - 1 < notes.len() && n - 1 < scenes.len() {
            NoteRecords {
                normal: before.normal + normal_records(notes[n - 1], scenes[n - 1], tick, line_y),
                hold: before.hold + hold_records(notes[n - 1], scenes[n - 1], tick),
            }
        } else {
            before
        }
    }
}

/// Collects the records of the notes of one side of a line.
pub fn process_notes_half(
    notes: &Vec<NoteState>,
    scenes: &Vec<NoteScene>,
    tick: i32,
    line_y: Real,
    out: &mut Vec<RendNote>,
    out_hold: &mut Vec<RendNote>,
)
    ensures
        ({
            let r = side_records(
                NoteRecords { normal: old(out)@, hold: old(out_hold)@ },
                notes@,
                scenes@,
                tick,
                line_y,
                notes@.len() as int,
            );
            &&& final(out)@ == r.normal
            &&& final(out_hold)@ == r.hold
        }),
{
    let len: usize = notes.len();
    let mut i: usize = 0;
    while i < len
        invariant
            len == notes@.len(),
            i <= len,
            ({
                let r = side_records(
                    NoteRecords { normal: old(out)@, hold: old(out_hold)@ },
                    notes@,
                    scenes@,
                    tick,
                    line_y,
                    i as int,
                );
                &&& out@ == r.normal
                &&& out_hold@ == r.hold
            }),
        decreases len - i,
    {
        if i < scenes.len() {
            process_normal_note(&notes[i], &scenes[i], tick, line_y, out);
            process_hold_note(&notes[i], &scenes[i], tick, out_hold);
        }
        i = i + 1;
    }
}

/// The records of the notes of a line, those above it before those below
/// it, behind the records in `start`.
pub open spec fn line_records(start: NoteRecords, line: LineState, scene: LineScene) -> NoteRecords {
    side_records(
        side_records(
            start,
            line.notes_above_state@,
            scene.above@,
            scene.tick,
            line.line_y,
            line.notes_above_state@.len() as int,
        ),
        line.notes_below_state@,
        scene.below@,
        scene.tick,
        line.line_y,
        line.notes_below_state@.len() as int,
    )
}

/// Collects the records of the notes of a line.
pub fn process_notes(
    state: &LineState,
    scene: &LineScene,
    out: &mut Vec<RendNote>,
    out_hold: &mut Vec<RendNote>,
)
    ensures
        ({
            let r = line_records(
                NoteRecords { normal: old(out)@, hold: old(out_hold)@ },
                *state,
                *scene,
            );
            &&& final(out)@ == r.normal
            &&& final(out_hold)@ == r.hold
        }),
{
    process_notes_half(
        &state.notes_above_state,
        &scene.above,
        scene.tick,
        state.line_y,
        out,
        out_hold,
    );
    process_notes_half(
        &state.notes_below_state,
        &scene.below,
        scene.tick,
        state.line_y,
        out,
        out_hold,
    );
}

/// The records of the notes of the first `n` lines. A line without a scene
/// shows no notes.
pub open spec fn all_records(lines: Seq<LineState>, scenes: Seq<LineScene>, n: int) -> NoteRecords
    decreases n,
{
    if n <= 0 {
        NoteRecords { normal: Seq::empty(), hold: Seq::empty() }
    } else if n - 1 < lines.len() && n - 1 < scenes.len() {
        line_records(all_records(lines, scenes, n - 1), lines[n - 1], scenes[n - 1])
    } else {
        all_records(lines, scenes, n - 1)
    }
}

/// The bytes of the first `n` of some note records.
pub open spec fn records_bytes(records: Seq<RendNote>, n: int) -> Seq<u8>
    decreases n,
{
    if n <= 0 || n > records.len() {
        Seq::empty()
    } else {
        records_bytes(records, n - 1) + records[n - 1].bytes_spec()
    }
}

/// The bytes that the notes of all lines are drawn with: the records of the
/// holds, then those of all other notes.
pub open spec fn notes_bytes(lines: Seq<LineState>, scenes: Seq<LineScene>) -> Seq<u8> {
    let records = all_records(lines, scenes, lines.len() as int);
    records_bytes(records.hold, records.hold.len() as int) + records_bytes(
        records.normal,
        records.normal.len() as int,
    )
}

fn write_records<B: BufferWithCursor>(wrapped_buffer: &mut B, records: &Vec<RendNote>)
    ensures
        final(wrapped_buffer).written() == old(wrapped_buffer).written() + records_bytes(
            records@,
            records@.len() as int,
        ),
{
    let len: usize = records.len();
    let mut i: usize = 0;
    assert(wrapped_buffer.written() + Seq::<u8>::empty() =~= wrapped_buffer.written());
    while i < len
        invariant
            len == records@.len(),
            i <= len,
            wrapped_buffer.written() == old(wrapped_buffer).written() + records_bytes(
                records@,
                i as int,
            ),
        decreases len - i,
    {
        let ghost before = wrapped_buffer.written();
        let bytes = records[i].to_bytes();
        wrapped_buffer.write(bytes.as_slice());
        assert(before + bytes@ =~= old(wrapped_buffer).written() + (records_bytes(
            records@,
            i as int,
        ) + bytes@));
        i = i + 1;
    }
}

/// Draws the notes of all lines, holds first.
pub fn write_notes<B: BufferWithCursor>(
    wrapped_buffer: &mut B,
    states: &Vec<LineState>,
    scenes: &Vec<LineScene>,
)
    ensures
        final(wrapped_buffer).written() == old(wrapped_buffer).written() + notes_bytes(
            states@,
            scenes@,
        ),
{
    let mut normal: Vec<RendNote> = Vec::new();
    let mut hold: Vec<RendNote> = Vec::new();
    let len: usize = states.len();
    let mut i: usize = 0;
    while i < len
        invariant
            len == states@.len(),
            i <= len,
            normal@ == all_records(states@, scenes@, i as int).normal,
            hold@ == all_records(states@, scenes@, i as int).hold,
        decreases len - i,
    {
        if i < scenes.len() {
            process_notes(&states[i], &scenes[i], &mut normal, &mut hold);
        }
        i = i + 1;
    }
    let ghost start = wrapped_buffer.written();
    write_records(wrapped_buffer, &hold);
    write_records(wrapped_buffer, &normal);
    assert(wrapped_buffer.written() =~= start + notes_bytes(states@, scenes@));
}

/// The frame of an animation that shows: the host's frame, kept within the
/// thirty frames that there are.
pub open spec fn frame_of(raw: i8) -> i8 {
    if raw < 0 {
        0i8
    } else if raw > 29 {
        29i8
    } else {
        raw
    }
}

fn clamp_frame(raw: i8) -> (frame: i8)
    ensures
        frame == frame_of(raw),
{
    if raw < 0 {
        0
    } else if raw > 29 {
        29
    } else {
        raw
    }
}

/// The bytes that a hit effect is drawn with: none for a free slot.
pub open spec fn click_bytes(effect: Effect, scene: EffectScene) -> Seq<u8> {
    if effect.enable {
        (RendClickEffect {
            x: scene.x,
            y: scene.y,
            frame: frame_of(scene.frame),
            tint_type: effect.tint_type,
        }).bytes_spec()
    } else {
        Seq::empty()
    }
}

/// The bytes that the first `n` slots of the hit effects are drawn with. A
/// slot without a scene is not drawn.
pub open spec fn clicks_bytes(pool: Seq<Effect>, scenes: Seq<EffectScene>, n: int) -> Seq<u8>
    decreases n,
{
    if n <= 0 {
        Seq::empty()
    } else if n - 1 < pool.len() && n - 1 < scenes.len() {
        clicks_bytes(pool, scenes, n - 1) + click_bytes(pool[n - 1], scenes[n - 1])
    } else {
        clicks_bytes(pool, scenes, n - 1)
    }
}

/// Draws the hit effects that play.
pub fn write_click_effects<B: BufferWithCursor>(
    wrapped_buffer: &mut B,
    states: &Vec<Effect>,
    scenes: &Vec<EffectScene>,
)
    ensures
        final(wrapped_buffer).written() == old(wrapped_buffer).written() + clicks_bytes(
            states@,
            scenes@,
            states@.len() as int,
        ),
{
    let len: usize = states.len();
    let mut i: usize = 0;
    assert(wrapped_buffer.written() + Seq::<u8>::empty() =~= wrapped_buffer.written());
    while i < len
        invariant
            len == states@.len(),
            i <= len,
            wrapped_buffer.written() == old(wrapped_buffer).written() + clicks_bytes(
                states@,
                scenes@,
                i as int,
            ),
        decreases len - i,
    {
        if i < scenes.len() && states[i].enable {
            let ghost before = wrapped_buffer.written();
            let record = RendClickEffect {
                x: scenes[i].x,
                y: scenes[i].y,
                frame: clamp_frame(scenes[i].frame),
                tint_type: states[i].tint_type,
            };
            let bytes = record.to_bytes();
            wrapped_buffer.write(bytes.as_slice());
            assert(before + bytes@ =~= old(wrapped_buffer).written() + (clicks_bytes(
                states@,
                scenes@,
                i as int,
            ) + bytes@));
        } else {
            assert(clicks_bytes(states@, scenes@, i as int) + Seq::<u8>::empty() =~= clicks_bytes(
                states@,
                scenes@,
                i as int,
            ));
        }
        i = i + 1;
    }
}

/// The bytes that a splash is drawn with: none for a free slot.
pub open spec fn splash_bytes(effect: Effect, scene: EffectScene) -> Seq<u8> {
    if effect.enable {
        (RendSplashEffect {
            x: scene.x,
            y: scene.y,
            frame: frame_of(scene.frame),
            tint_type: effect.tint_type,
        }).bytes_spec()
    } else {
        Seq::empty()
    }
}

/// The bytes that the first `n` slots of the splashes are drawn with. A slot
/// without a scene is not drawn.
pub open spec fn splashes_bytes(pool: Seq<Effect>, scenes: Seq<EffectScene>, n: int) -> Seq<u8>
    decreases n,
{
    if n <= 0 {
        Seq::empty()
    } else if n - 1 < pool.len() && n - 1 < scenes.len() {
        splashes_bytes(pool, scenes, n - 1) + splash_bytes(pool[n - 1], scenes[n - 1])
    } else {
        splashes_bytes(pool, scenes, n - 1)
    }
}

/// Draws the splashes that play.
pub fn write_splash_effects<B: BufferWithCursor>(
    wrapped_buffer: &mut B,
    states: &Vec<Effect>,
    scenes: &Vec<EffectScene>,
)
    ensures
        final(wrapped_buffer).written() == old(wrapped_buffer).written() + splashes_bytes(
            states@,
            scenes@,
            states@.len() as int,
        ),
{
    let len: usize = states.len();
    let mut i: usize = 0;
    assert(wrapped_buffer.written() + Seq::<u8>::empty() =~= wrapped_buffer.written());
    while i < len
        invariant
            len == states@.len(),
            i <= len,
            wrapped_buffer.written() == old(wrapped_buffer).written() + splashes_bytes(
                states@,
                scenes@,
                i as int,
            ),
        decreases len - i,
    {
        if i < scenes.len() && states[i].enable {
            let ghost before = wrapped_buffer.written();
            let record = RendSplashEffect {
                x: scenes[i].x,
                y: scenes[i].y,
                frame: clamp_frame(scenes[i].frame),
                tint_type: states[i].tint_type,
            };
            let bytes = record.to_bytes();
            wrapped_buffer.write(bytes.as_slice());
            assert(before + bytes@ =~= old(wrapped_buffer).written() + (splashes_bytes(
                states@,
                scenes@,
                i as int,
            ) + bytes@));
        } else {
            assert(splashes_bytes(states@, scenes@, i as int) + Seq::<u8>::empty()
                =~= splashes_bytes(states@, scenes@, i as int));
        }
        i = i + 1;
    }
}

/// Draws the sounds.
pub fn write_sound_effects<B: BufferWithCursor>(wrapped_buffer: &mut B, states: &SoundEffect)
    ensures
        final(wrapped_buffer).written() == old(wrapped_buffer).written() + sound_record(
            *states,
        ).bytes_spec(),
{
    let record = RendSound {
        tap_sound: states.tap_count,
        drag_sound: states.drag_count,
        flick_sound: states.flick_count,
    };
    let bytes = record.to_bytes();
    wrapped_buffer.write(bytes.as_slice());
}

/// The bytes that a touch is drawn with: none for a touch that is up.
pub open spec fn touch_bytes(touch: TouchInfo) -> Seq<u8> {
    if touch.enable {
        (RendPoint { x: touch.x, y: touch.y }).bytes_spec()
    } else {
        Seq::empty()
    }
}

/// The bytes that the first `n` touches are drawn with.
pub open spec fn touches_bytes(touches: Seq<TouchInfo>, n: int) -> Seq<u8>
    decreases n,
{
    if n <= 0 || n > touches.len() {
        Seq::empty()
    } else {
        touches_bytes(touches, n - 1) + touch_bytes(touches[n - 1])
    }
}

fn write_touches<B: BufferWithCursor>(wrapped_buffer: &mut B, touches: &Vec<TouchInfo>)
    ensures
        final(wrapped_buffer).written() == old(wrapped_buffer).written() + touches_bytes(
            touches@,
            touches@.len() as int,
        ),
{
    let len: usize = touches.len();
    let mut i: usize = 0;
    assert(wrapped_buffer.written() + Seq::<u8>::empty() =~= wrapped_buffer.written());
    while i < len
        invariant
            len == touches@.len(),
            i <= len,
            wrapped_buffer.written() == old(wrapped_buffer).written() + touches_bytes(
                touches@,
                i as int,
            ),
        decreases len - i,
    {
        if touches[i].enable {
            let ghost before = wrapped_buffer.written();
            let record = RendPoint { x: touches[i].x, y: touches[i].y };
            let bytes = record.to_bytes();
            wrapped_buffer.write(bytes.as_slice());
            assert(before + bytes@ =~= old(wrapped_buffer).written() + (touches_bytes(
                touches@,
                i as int,
            ) + bytes@));
        } else {
            assert(touches_bytes(touches@, i as int) + Seq::<u8>::empty() =~= touches_bytes(
                touches@,
                i as int,
            ));
        }
        i = i + 1;
    }
}

fn write_lines<B: BufferWithCursor>(
    wrapped_buffer: &mut B,
    states: &Vec<LineState>,
    scenes: &Vec<LineScene>,
)
    ensures
        final(wrapped_buffer).written() == old(wrapped_buffer).written() + lines_bytes(
            states@,
            scenes@,
            states@.len() as int,
        ),
{
    let len: usize = states.len();
    let mut i: usize = 0;
    assert(wrapped_buffer.written() + Seq::<u8>::empty() =~= wrapped_buffer.written());
    while i < len
        invariant
            len == states@.len(),
            i <= len,
            wrapped_buffer.written() == old(wrapped_buffer).written() + lines_bytes(
                states@,
                scenes@,
                i as int,
            ),
        decreases len - i,
    {
        if i < scenes.len() {
            let ghost before = wrapped_buffer.written();
            write_line(wrapped_buffer, &states[i], &scenes[i]);
            assert(before + line_bytes(states@[i as int], scenes@[i as int]) =~= old(
                wrapped_buffer,
            ).written() + (lines_bytes(states@, scenes@, i as int) + line_bytes(
                states@[i as int],
                scenes@[i as int],
            )));
        }
        i = i + 1;
    }
}

/// The whole stream that the engine is drawn with.
pub open spec fn drawable(engine: &Engine, scene: &Scene) -> Seq<u8> {
    statistics_record(engine.statistics, scene).bytes_spec() + lines_bytes(
        engine.lines@,
        scene.lines@,
        engine.lines@.len() as int,
    ) + notes_bytes(engine.lines@, scene.lines@) + clicks_bytes(
        engine.effects.hit_effects@,
        scene.hit_effects@,
        engine.effects.hit_effects@.len() as int,
    ) + splashes_bytes(
        engine.effects.splash_effects@,
        scene.splash_effects@,
        engine.effects.splash_effects@.len() as int,
    ) + sound_record(engine.effects.sound).bytes_spec() + touches_bytes(
        engine.touches@,
        engine.touches@.len() as int,
    ) + seq![0u8]
}

/// Writes the state of the engine to the buffer, as draw records and a
/// closing zero byte.
pub fn process_state_to_drawable<B: BufferWithCursor>(
    wrapped_buffer: &mut B,
    engine: &Engine,
    scene: &Scene,
)
    ensures
        final(wrapped_buffer).written() == old(wrapped_buffer).written() + drawable(engine, scene),
{
    let ghost start = wrapped_buffer.written();
    let statistics = RendStatistics {
        combo: engine.statistics.combo,
        max_combo: engine.statistics.max_combo,
        score: scene.score,
        accurate: scene.accurate,
    };
    let bytes = statistics.to_bytes();
    wrapped_buffer.write(bytes.as_slice());
    write_lines(wrapped_buffer, &engine.lines, &scene.lines);
    write_notes(wrapped_buffer, &engine.lines, &scene.lines);
    write_click_effects(wrapped_buffer, &engine.effects.hit_effects, &scene.hit_effects);
    write_splash_effects(wrapped_buffer, &engine.effects.splash_effects, &scene.splash_effects);
    write_sound_effects(wrapped_buffer, &engine.effects.sound);
    write_touches(wrapped_buffer, &engine.touches);
    let end: [u8; 1] = [0];
    wrapped_buffer.write(end.as_slice());
    assert(end@ =~= seq![0u8]);
    assert(wrapped_buffer.written() =~= start + drawable(engine, scene));
}

} // verus!
