//! The state of notes and judgement lines while a chart plays.

use vstd::prelude::*;
use crate::chart::{Event1, Event2, Event4, Note, WithTimeRange, WithValue};
use crate::engine::Engine;
use crate::scalar::Real;
use crate::states_effect::{
    lemma_no_time_no_advance,
    lemma_pools_keep_running,
    no_progress,
    pool_advanced,
    tick_effect,
    EffectsView,
};
use crate::states_judge::{
    judge_lines,
    judged_from,
    lemma_judge_lines_keep_pools,
    lemma_judge_lines_keep_running,
    lemma_judging_twice_is_judging_once,
    measured_again,
    notes_of,
    nothing_due,
    pools_running,
    spent,
    tick_lines_judge,
    LineProbe,
};
use crate::states_lines::{
    current_event,
    current_value,
    found_in_place,
    lemma_probe_again,
    probed_line,
};
use crate::states_statistics::{
    internal_init_flatten_line_state,
    internal_refresh_chart_statistics,
    flat_indices,
    lemma_hits_keep_combo,
    only_hits_between,
    scores_along,
    statistics_of,
};
use crate::sorting::stably_sorted;

verus! {

/// How a note was judged, if it has been.
#[derive(Clone, Copy, Debug, PartialEq, Eq, Structural)]
pub enum NoteScore {
    Perfect,
    Good,
    Bad,
    Miss,
    /// Not judged yet.
    Unjudged,
}

/// A note with what play has made of it so far.
#[derive(Clone, Copy, Debug)]
pub struct NoteState {
    pub note: Note,
    /// Whether another note of the chart falls on the same instant.
    pub highlight: bool,
    pub score: NoteScore,
    /// Ticks until a held note next shows a splash.
    pub hold_cool_down: Real,
    /// A judgement that is armed but not yet final.
    pub extra_score: NoteScore,
}

impl NoteState {
    /// The state in which a note starts.
    pub open spec fn fresh_spec(note: Note) -> NoteState {
        NoteState {
            note,
            highlight: false,
            score: NoteScore::Unjudged,
            hold_cool_down: Real::zero_spec(),
            extra_score: NoteScore::Unjudged,
        }
    }

    /// The state in which a note starts.
    pub fn fresh(note: Note) -> (r: NoteState)
        ensures
            r == NoteState::fresh_spec(note),
    {
        NoteState {
            note,
            highlight: false,
            score: NoteScore::Unjudged,
            hold_cool_down: Real::zero(),
            extra_score: NoteScore::Unjudged,
        }
    }
}

/// One of the judgement lines while a chart plays.
pub struct LineState {
    pub enable: bool,
    pub x: Real,
    pub y: Real,
    pub rotate: Real,
    pub alpha: Real,
    pub speed: Real,
    pub line_y: Real,
    pub tick_time: Real,
    pub event_speed_index_cache: usize,
    pub event_move_index_cache: usize,
    pub event_rotate_index_cache: usize,
    pub event_alpha_index_cache: usize,
    pub notes_above_state: Vec<NoteState>,
    pub notes_below_state: Vec<NoteState>,
    pub speed_events: Vec<Event1>,
    pub move_events: Vec<Event4>,
    pub rotate_events: Vec<Event2>,
    pub alpha_events: Vec<Event2>,
    pub bpm: Real,
    /// The length of a tick in units of 1/32768 second, cut to an integer.
    pub tick_scale: i32,
    /// The latest start of an event of the line, in seconds.
    pub event_second: Real,
}

impl LineState {
    /// Whether this is a line slot that holds nothing: disabled, at rest,
    /// without notes or events.
    pub open spec fn is_default(&self) -> bool {
        &&& !self.enable
        &&& self.x == Real::zero_spec()
        &&& self.y == Real::zero_spec()
        &&& self.rotate == Real::zero_spec()
        &&& self.alpha == Real::zero_spec()
        &&& self.speed.bits == crate::scalar::ONE_BITS
        &&& self.line_y == Real::zero_spec()
        &&& self.tick_time == Real::zero_spec()
        &&& self.event_speed_index_cache == 0
        &&& self.event_move_index_cache == 0
        &&& self.event_rotate_index_cache == 0
        &&& self.event_alpha_index_cache == 0
        &&& self.notes_above_state@ =~= Seq::empty()
        &&& self.notes_below_state@ =~= Seq::empty()
        &&& self.speed_events@ =~= Seq::empty()
        &&& self.move_events@ =~= Seq::empty()
        &&& self.rotate_events@ =~= Seq::empty()
        &&& self.alpha_events@ =~= Seq::empty()
        &&& self.bpm == Real::zero_spec()
        &&& self.tick_scale == 0
        &&& self.event_second == Real::zero_spec()
    }

    /// Whether `self` differs from `other` in nothing but its notes' states.
    pub open spec fn same_but_notes(&self, other: &LineState) -> bool {
        &&& self.enable == other.enable
        &&& self.x == other.x
        &&& self.y == other.y
        &&& self.rotate == other.rotate
        &&& self.alpha == other.alpha
        &&& self.speed == other.speed
        &&& self.line_y == other.line_y
        &&& self.tick_time == other.tick_time
        &&& self.event_speed_index_cache == other.event_speed_index_cache
        &&& self.event_move_index_cache == other.event_move_index_cache
        &&& self.event_rotate_index_cache == other.event_rotate_index_cache
        &&& self.event_alpha_index_cache == other.event_alpha_index_cache
        &&& self.speed_events == other.speed_events
        &&& self.move_events == other.move_events
        &&& self.rotate_events == other.rotate_events
        &&& self.alpha_events == other.alpha_events
        &&& self.bpm == other.bpm
        &&& self.tick_scale == other.tick_scale
        &&& self.event_second == other.event_second
    }
}

impl Default for LineState {
    fn default() -> (r: Self)
        ensures
            r.is_default(),
    {
        LineState {
            enable: false,
            x: Real::zero(),
            y: Real::zero(),
            rotate: Real::zero(),
            alpha: Real::zero(),
            speed: Real::one(),
            line_y: Real::zero(),
            tick_time: Real::zero(),
            event_speed_index_cache: 0,
            event_move_index_cache: 0,
            event_rotate_index_cache: 0,
            event_alpha_index_cache: 0,
            notes_above_state: Vec::new(),
            notes_below_state: Vec::new(),
            speed_events: Vec::new(),
            move_events: Vec::new(),
            alpha_events: Vec::new(),
            rotate_events: Vec::new(),
            bpm: Real::zero(),
            tick_scale: 0,
            event_second: Real::zero(),
        }
    }
}

/// What a chart says of itself once it is loaded.
#[derive(Clone, Copy, Debug)]
pub struct Metadata {
    /// The estimated length of the chart, in seconds.
    pub length_in_second: Real,
    /// The offset of the chart.
    pub offset: Real,
    /// The format version of the chart.
    pub format_version: i32,
}

/// Where a line stands, as the host has computed it from the events found
/// on the line's tracks.
#[derive(Clone, Copy, Debug)]
pub struct Kinematics {
    pub x: Real,
    pub y: Real,
    pub rotate: Real,
    pub alpha: Real,
    pub line_y: Real,
}

impl LineState {
    /// The line at another place. Its speed stays.
    pub open spec fn with_kinematics(self, kinematics: Kinematics) -> LineState {
        LineState {
            x: kinematics.x,
            y: kinematics.y,
            rotate: kinematics.rotate,
            alpha: kinematics.alpha,
            line_y: kinematics.line_y,
            ..self
        }
    }

    /// Stores where the line stands.
    pub fn set_kinematics(&mut self, kinematics: &Kinematics)
        ensures
            *final(self) == old(self).with_kinematics(*kinematics),
    {
        self.x = kinematics.x;
        self.y = kinematics.y;
        self.rotate = kinematics.rotate;
        self.alpha = kinematics.alpha;
        self.line_y = kinematics.line_y;
    }
}

/// What the host has computed for one tick of the engine.
pub struct TickFrame {
    /// For each line, the moment in the line's ticks.
    pub tick_times: Vec<Real>,
    /// For each line, its place at that moment.
    pub kinematics: Vec<Kinematics>,
    /// For each slot of the hit effects, how far its animation has run.
    pub hit_progress: Vec<Real>,
    /// For each slot of the splash effects, how far its animation has run.
    pub splash_progress: Vec<Real>,
    /// For each line, the probes of its notes.
    pub probes: Vec<LineProbe>,
}

/// A line after the first phase of a tick: an enabled line is probed at its
/// moment and moved to its place; a disabled line, and a line for which the
/// frame holds no moment or no place, stays as it is.
pub open spec fn moved_line(line: LineState, frame: &TickFrame, i: int) -> LineState {
    if line.enable && 0 <= i < frame.tick_times@.len() && i < frame.kinematics@.len() {
        probed_line(line, frame.tick_times@[i]).with_kinematics(frame.kinematics@[i])
    } else {
        line
    }
}

/// The lines after the first phase of a tick.
pub open spec fn moved_lines(lines: Seq<LineState>, frame: &TickFrame) -> Seq<LineState> {
    Seq::new(lines.len(), |i: int| moved_line(lines[i], frame, i))
}

/// The effects after the second phase of a tick: every animation has run
/// on, and the sounds of the tick before are forgotten.
pub open spec fn aged_effects(effects: EffectsView, frame: &TickFrame) -> EffectsView {
    EffectsView {
        hit_effects: pool_advanced(effects.hit_effects, frame.hit_progress@),
        splash_effects: pool_advanced(effects.splash_effects, frame.splash_progress@),
        sound: effects.sound,
    }.without_sound()
}

fn move_lines(lines: &mut Vec<LineState>, frame: &TickFrame)
    ensures
        final(lines)@ == moved_lines(old(lines)@, frame),
{
    let len: usize = lines.len();
    let mut i: usize = 0;
    while i < len
        invariant
            len == lines@.len(),
            len == old(lines)@.len(),
            i <= len,
            forall|k: int| 0 <= k < i ==> #[trigger] lines@[k] == moved_line(old(lines)@[k], frame, k),
            forall|k: int| i <= k < len ==> #[trigger] lines@[k] == old(lines)@[k],
        decreases len - i,
    {
        if lines[i].enable && i < frame.tick_times.len() && i < frame.kinematics.len() {
            let _ = crate::states_lines::tick_line_state(frame.tick_times[i], &mut lines[i]);
            lines[i].set_kinematics(&frame.kinematics[i]);
        }
        i = i + 1;
    }
    assert(lines@ =~= moved_lines(old(lines)@, frame));
}

/// Takes the statistics anew from the judgements of all notes.
pub fn refresh_chart_statistics(engine: &mut Engine)
    ensures
        old(engine).wf() ==> final(engine).wf(),
        final(engine).statistics == statistics_of(
            scores_along(old(engine).lines@, old(engine).flatten_index@),
        ),
        final(engine).lines == old(engine).lines,
        final(engine).touches == old(engine).touches,
        final(engine).effects == old(engine).effects,
        final(engine).flatten_index == old(engine).flatten_index,
        final(engine).image_offset == old(engine).image_offset,
{
    internal_refresh_chart_statistics(
        engine.lines.as_slice(),
        engine.flatten_index.as_slice(),
        &mut engine.statistics,
    );
}

/// Builds the flat index of all notes anew.
pub fn init_flatten_line_state(engine: &mut Engine)
    ensures
        old(engine).wf() ==> final(engine).wf(),
        stably_sorted(
            final(engine).flatten_index@,
            flat_indices(old(engine).lines@, old(engine).lines@.len() as int),
        ),
        final(engine).flatten_index@.len() == flat_indices(
            old(engine).lines@,
            old(engine).lines@.len() as int,
        ).len(),
        final(engine).lines == old(engine).lines,
        final(engine).touches == old(engine).touches,
        final(engine).effects == old(engine).effects,
        final(engine).statistics == old(engine).statistics,
        final(engine).image_offset == old(engine).image_offset,
{
    internal_init_flatten_line_state(engine.lines.as_slice(), &mut engine.flatten_index);
}

/// Whether `after` is the engine `before` one tick on. Every line is probed
/// at its moment and moved to its place; every animation runs on and the
/// sounds of the tick before are forgotten; every note is judged; and if a
/// final judgement was made, the statistics are taken anew.
pub open spec fn ticks_to(before: &Engine, after: &Engine, frame: &TickFrame, auto: bool) -> bool {
    let moved = moved_lines(before.lines@, frame);
    let r = judge_lines(
        moved,
        frame.probes@,
        before.touches@,
        aged_effects(before.effects@, frame),
        auto,
        moved.len() as int,
    );
    &&& after.lines@.len() == before.lines@.len()
    &&& notes_of(after.lines@) == r.notes
    &&& forall|i: int|
        0 <= i < moved.len() ==> (#[trigger] after.lines@[i]).same_but_notes(&moved[i])
    &&& after.touches@ == spent(r.touches)
    &&& after.effects@ == r.effects
    &&& after.statistics == if r.judged {
        statistics_of(scores_along(after.lines@, before.flatten_index@))
    } else {
        before.statistics
    }
    &&& after.flatten_index == before.flatten_index
    &&& after.image_offset == before.image_offset
}

/// One tick of the engine.
pub fn tick_all(engine: &mut Engine, frame: &TickFrame, auto: bool)
    ensures
        ticks_to(old(engine), final(engine), frame, auto),
        old(engine).wf() ==> final(engine).wf(),
{
    move_lines(&mut engine.lines, frame);
    tick_effect(&mut engine.effects, &frame.hit_progress, &frame.splash_progress);
    let judged = tick_lines_judge(
        &mut engine.lines,
        &mut engine.touches,
        &mut engine.effects,
        &frame.probes,
        auto,
    );
    if judged {
        refresh_chart_statistics(engine);
    }
}

/// Whether what a track gives at `tick_time` is where the moment lies.
pub open spec fn track_in_place<T: WithTimeRange>(
    events: Seq<T>,
    tick_time: Real,
    cache_index: usize,
) -> bool {
    match current_event(events, tick_time, cache_index) {
        Some((k, fraction)) => found_in_place(events, tick_time, k, fraction),
        None => true,
    }
}

/// Whether on no track of any enabled line the moment lies in a gap between
/// events.
pub open spec fn tracks_in_place(lines: Seq<LineState>, frame: &TickFrame) -> bool {
    forall|i: int|
        0 <= i < lines.len() && i < frame.tick_times@.len() && i < frame.kinematics@.len()
            && lines[i].enable ==> {
            let line = #[trigger] lines[i];
            let tick_time = frame.tick_times@[i];
            &&& track_in_place(line.speed_events@, tick_time, line.event_speed_index_cache)
            &&& track_in_place(line.alpha_events@, tick_time, line.event_alpha_index_cache)
            &&& track_in_place(line.rotate_events@, tick_time, line.event_rotate_index_cache)
            &&& track_in_place(line.move_events@, tick_time, line.event_move_index_cache)
        }
}

/// Whether `again` is what the host computes for a tick right after the
/// tick of `frame`, at the same moment and with no time passed, `once` being
/// the engine after that tick: the same moments and places, for every
/// animation the progress that it has, and every note measured again.
pub open spec fn no_time_passed(once: &Engine, frame: &TickFrame, again: &TickFrame) -> bool {
    &&& again.tick_times@ == frame.tick_times@
    &&& again.kinematics@ == frame.kinematics@
    &&& no_progress(once.effects@.hit_effects, again.hit_progress@)
    &&& no_progress(once.effects@.splash_effects, again.splash_progress@)
    &&& measured_again(frame.probes@, again.probes@, once.lines@)
}

proof fn lemma_track_settles<T, U: WithValue<T> + WithTimeRange>(
    events: Seq<U>,
    tick_time: Real,
    cache_index: usize,
)
    requires
        events.len() <= usize::MAX,
        track_in_place(events, tick_time, cache_index),
    ensures
        current_value::<T, U>(
            events,
            tick_time,
            current_value::<T, U>(events, tick_time, cache_index).2,
        ) == current_value::<T, U>(events, tick_time, cache_index),
{
    lemma_probe_again(events, tick_time, cache_index);
}

proof fn lemma_moved_line_settles(line: LineState, once: LineState, frame: &TickFrame, again: &TickFrame, i: int)
    requires
        0 <= i,
        again.tick_times@ == frame.tick_times@,
        again.kinematics@ == frame.kinematics@,
        once.same_but_notes(&moved_line(line, frame, i)),
        line.enable && i < frame.tick_times@.len() && i < frame.kinematics@.len() ==> {
            &&& track_in_place(line.speed_events@, frame.tick_times@[i], line.event_speed_index_cache)
            &&& track_in_place(line.alpha_events@, frame.tick_times@[i], line.event_alpha_index_cache)
            &&& track_in_place(
                line.rotate_events@,
                frame.tick_times@[i],
                line.event_rotate_index_cache,
            )
            &&& track_in_place(line.move_events@, frame.tick_times@[i], line.event_move_index_cache)
        },
    ensures
        moved_line(once, again, i) == once,
{
    if line.enable && i < frame.tick_times@.len() && i < frame.kinematics@.len() {
        let tick_time = frame.tick_times@[i];
        vstd::std_specs::vec::axiom_spec_len(&line.speed_events);
        vstd::std_specs::vec::axiom_spec_len(&line.alpha_events);
        vstd::std_specs::vec::axiom_spec_len(&line.rotate_events);
        vstd::std_specs::vec::axiom_spec_len(&line.move_events);
        lemma_track_settles::<Real, Event1>(
            line.speed_events@,
            tick_time,
            line.event_speed_index_cache,
        );
        lemma_track_settles::<Real, Event2>(
            line.alpha_events@,
            tick_time,
            line.event_alpha_index_cache,
        );
        lemma_track_settles::<Real, Event2>(
            line.rotate_events@,
            tick_time,
            line.event_rotate_index_cache,
        );
        lemma_track_settles::<(Real, Real), Event4>(
            line.move_events@,
            tick_time,
            line.event_move_index_cache,
        );
    }
}

/// The combo is monotonic across ticks: a tick in which every judgement
/// that is made is perfect or good lets neither the combo nor the longest
/// combo fall, provided that the stored combos are no greater than those of
/// the notes before the tick, as they are after loading and after every
/// tick.
pub proof fn lemma_tick_keeps_combo(start: &Engine, once: &Engine, frame: &TickFrame, auto: bool)
    requires
        ticks_to(start, once, frame, auto),
        only_hits_between(start.lines@, once.lines@),
        start.statistics.combo <= statistics_of(
            scores_along(start.lines@, start.flatten_index@),
        ).combo,
        start.statistics.max_combo <= statistics_of(
            scores_along(start.lines@, start.flatten_index@),
        ).max_combo,
    ensures
        start.statistics.combo <= once.statistics.combo,
        start.statistics.max_combo <= once.statistics.max_combo,
        once.statistics.combo <= statistics_of(
            scores_along(once.lines@, once.flatten_index@),
        ).combo,
        once.statistics.max_combo <= statistics_of(
            scores_along(once.lines@, once.flatten_index@),
        ).max_combo,
{
    lemma_hits_keep_combo(start.lines@, once.lines@, start.flatten_index@);
}

/// After a tick no running animation has reached its end, if none had
/// before: what a tick runs to its end, it stops.
pub proof fn lemma_tick_keeps_running(start: &Engine, once: &Engine, frame: &TickFrame, auto: bool)
    requires
        ticks_to(start, once, frame, auto),
        pools_running(start.effects@),
    ensures
        pools_running(once.effects@),
{
    let moved = moved_lines(start.lines@, frame);
    let aged = aged_effects(start.effects@, frame);
    let zero = Real::zero_spec();
    lemma_pools_keep_running(start.effects@.hit_effects, frame.hit_progress@, zero, zero, 0);
    lemma_pools_keep_running(start.effects@.splash_effects, frame.splash_progress@, zero, zero, 0);
    lemma_judge_lines_keep_running(
        moved,
        frame.probes@,
        start.touches@,
        aged,
        auto,
        moved.len() as int,
    );
}

/// A tick is idempotent at a moment. When the engine is ticked again right
/// after a tick, at the same moment and with no time passed, then no line,
/// no note, no touch, no effect and no statistic changes; only the sounds
/// of the first tick are forgotten. This holds unless a note is due again,
/// or the moment lies in a gap between the events of a track.
pub proof fn lemma_tick_twice(
    start: &Engine,
    once: &Engine,
    twice: &Engine,
    frame: &TickFrame,
    again: &TickFrame,
    auto: bool,
)
    requires
        ticks_to(start, once, frame, auto),
        ticks_to(once, twice, again, auto),
        no_time_passed(once, frame, again),
        tracks_in_place(start.lines@, frame),
        nothing_due(once.lines@, again.probes@, auto),
        pools_running(once.effects@),
    ensures
        twice.lines@.len() == once.lines@.len(),
        notes_of(twice.lines@) == notes_of(once.lines@),
        forall|i: int|
            0 <= i < once.lines@.len() ==> (#[trigger] twice.lines@[i]).same_but_notes(
                &once.lines@[i],
            ),
        twice.touches@ == once.touches@,
        twice.effects@ == once.effects@.without_sound(),
        twice.statistics == once.statistics,
        twice.flatten_index == once.flatten_index,
        twice.image_offset == once.image_offset,
{
    let moved = moved_lines(start.lines@, frame);
    let aged = aged_effects(start.effects@, frame);
    let first = judge_lines(moved, frame.probes@, start.touches@, aged, auto, moved.len() as int);
    let moved_again = moved_lines(once.lines@, again);
    let aged_again = aged_effects(once.effects@, again);
    assert(moved_again =~= once.lines@) by {
        assert forall|i: int| 0 <= i < once.lines@.len() implies moved_again[i] == once.lines@[i] by {
            assert(once.lines@[i].same_but_notes(&moved[i]));
            lemma_moved_line_settles(start.lines@[i], once.lines@[i], frame, again, i);
        }
    }
    assert(judged_from(moved, once.lines@, frame.probes@, start.touches@, aged, auto)) by {
        assert forall|i: int| 0 <= i < moved.len() implies (#[trigger] once.lines@[i]).enable
            == moved[i].enable by {
            assert(once.lines@[i].same_but_notes(&moved[i]));
        }
    }
    lemma_judging_twice_is_judging_once(
        moved,
        frame.probes@,
        start.touches@,
        aged,
        auto,
        once.lines@,
        again.probes@,
        aged_again,
    );
    lemma_judge_lines_keep_pools(moved, frame.probes@, start.touches@, aged, auto, moved.len() as int);
    assert(spent(spent(first.touches)) =~= spent(first.touches));
    lemma_no_time_no_advance(once.effects@.hit_effects, again.hit_progress@);
    lemma_no_time_no_advance(once.effects@.splash_effects, again.splash_progress@);
    assert(aged_again == once.effects@.without_sound());
}

/// A note as it stands when play resumes at the moment `before`: one that
/// starts at or after it is neither judged nor armed; one that ends at or
/// after it is not judged and keeps what it is armed with; any other note is
/// perfect. The cool-down starts anew.
pub open spec fn reset_note(state: NoteState, before: Real) -> NoteState {
    if state.note.start_second.ge_spec(before) {
        NoteState {
            hold_cool_down: Real::zero_spec(),
            score: NoteScore::Unjudged,
            extra_score: NoteScore::Unjudged,
            ..state
        }
    } else if state.note.end_second.ge_spec(before) {
        NoteState { hold_cool_down: Real::zero_spec(), score: NoteScore::Unjudged, ..state }
    } else {
        NoteState {
            hold_cool_down: Real::zero_spec(),
            score: NoteScore::Perfect,
            extra_score: NoteScore::Perfect,
            ..state
        }
    }
}

/// The notes of one side as they stand when play resumes at `before`.
pub open spec fn reset_notes(notes: Seq<NoteState>, before: Real) -> Seq<NoteState> {
    Seq::new(notes.len(), |j: int| reset_note(notes[j], before))
}

fn reset_side(notes: &mut Vec<NoteState>, before: Real)
    ensures
        final(notes)@ == reset_notes(old(notes)@, before),
{
    let len: usize = notes.len();
    let mut j: usize = 0;
    while j < len
        invariant
            len == notes@.len(),
            len == old(notes)@.len(),
            j <= len,
            forall|k: int| 0 <= k < j ==> #[trigger] notes@[k] == reset_note(old(notes)@[k], before),
            forall|k: int| j <= k < len ==> #[trigger] notes@[k] == old(notes)@[k],
        decreases len - j,
    {
        let mut state: NoteState = notes[j];
        state.hold_cool_down = Real::zero();
        if state.note.start_second.ge(before) {
            state.extra_score = NoteScore::Unjudged;
            state.score = NoteScore::Unjudged;
        } else if state.note.end_second.ge(before) {
            state.score = NoteScore::Unjudged;
        } else {
            state.score = NoteScore::Perfect;
            state.extra_score = NoteScore::Perfect;
        }
        notes[j] = state;
        j = j + 1;
    }
    assert(notes@ =~= reset_notes(old(notes)@, before));
}

fn reset_line(line: &mut LineState, before: Real)
    ensures
        final(line).same_but_notes(old(line)),
        final(line).notes_above_state@ == reset_notes(old(line).notes_above_state@, before),
        final(line).notes_below_state@ == reset_notes(old(line).notes_below_state@, before),
{
    reset_side(&mut line.notes_above_state, before);
    reset_side(&mut line.notes_below_state, before);
}

/// Sets every note to how it stands when play resumes at the moment
/// `before_time_in_second`, and takes the statistics anew.
pub fn reset_note_state(engine: &mut Engine, before_time_in_second: Real)
    ensures
        old(engine).wf() ==> final(engine).wf(),
        final(engine).lines@.len() == old(engine).lines@.len(),
        forall|i: int|
            0 <= i < old(engine).lines@.len() ==> {
                let before = old(engine).lines@[i];
                let after = #[trigger] final(engine).lines@[i];
                &&& after.same_but_notes(&before)
                &&& after.notes_above_state@ == reset_notes(
                    before.notes_above_state@,
                    before_time_in_second,
                )
                &&& after.notes_below_state@ == reset_notes(
                    before.notes_below_state@,
                    before_time_in_second,
                )
            },
        final(engine).statistics == statistics_of(
            scores_along(final(engine).lines@, old(engine).flatten_index@),
        ),
        final(engine).touches == old(engine).touches,
        final(engine).effects == old(engine).effects,
        final(engine).flatten_index == old(engine).flatten_index,
        final(engine).image_offset == old(engine).image_offset,
{
    let len: usize = engine.lines.len();
    let mut i: usize = 0;
    while i < len
        invariant
            len == engine.lines@.len(),
            len == old(engine).lines@.len(),
            i <= len,
            engine.touches == old(engine).touches,
            engine.effects == old(engine).effects,
            engine.flatten_index == old(engine).flatten_index,
            engine.image_offset == old(engine).image_offset,
            forall|k: int|
                0 <= k < i ==> {
                    let before = old(engine).lines@[k];
                    let after = #[trigger] engine.lines@[k];
                    &&& after.same_but_notes(&before)
                    &&& after.notes_above_state@ == reset_notes(
                        before.notes_above_state@,
                        before_time_in_second,
                    )
                    &&& after.notes_below_state@ == reset_notes(
                        before.notes_below_state@,
                        before_time_in_second,
                    )
                },
            forall|k: int| i <= k < len ==> #[trigger] engine.lines@[k] == old(engine).lines@[k],
        decreases len - i,
    {
        reset_line(&mut engine.lines[i], before_time_in_second);
        i = i + 1;
    }
    refresh_chart_statistics(engine);
}

} // verus!
