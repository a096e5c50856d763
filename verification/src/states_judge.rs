//! Judging notes against touches, or by the autoplay rule.
//!
//! A judging tick goes through the enabled lines in order, through the notes
//! above each line and then those below it, and lets each note react to the
//! moment and to the touches. What needs arithmetic or geometry is measured
//! by the host beforehand, one probe per note; the rules here decide from
//! these measurements alone.

use vstd::prelude::*;
use crate::chart::NoteType;
use crate::input::TouchInfo;
use crate::math::{find_gx, gx_of, in_judge_range, is_point_in_judge_range, Gx};
use crate::scalar::{Real, MINUS_SIXTEEN_BITS};
use crate::states::{LineState, NoteScore, NoteState};
use crate::states_effect::{
    all_running,
    clear_sound_effect,
    lemma_pools_keep_running,
    new_click_effect,
    new_sound_effect,
    Effects,
    EffectsView,
};

verus! {

/// Where a touch lies with respect to the judge range of a note: the foot of
/// the touch on the line, and the two bounds of the range along the axis
/// that suits the way the line runs.
#[derive(Clone, Copy, Debug, PartialEq, Eq, Structural)]
pub struct TouchReach {
    pub point_x: Real,
    pub point_y: Real,
    pub near: Real,
    pub far: Real,
}

/// What the host has measured of one note for a judging tick.
pub struct NoteProbe {
    /// The line's moment minus the note's time, in ticks.
    pub time_delta: Real,
    /// The largest distance in ticks that still judges as perfect.
    pub perfect_range: Real,
    /// The largest distance in ticks that still judges as good.
    pub good_range: Real,
    /// The largest distance in ticks that still judges as bad.
    pub bad_range: Real,
    /// The note's anchor on its line, where its splash appears.
    pub root_x: Real,
    pub root_y: Real,
    /// The angle of the line in degrees, brought into the range from zero to
    /// 360.
    pub degree: Real,
    /// For each touch, where it lies and where the note's judge range lies.
    pub reach: Vec<TouchReach>,
    /// For each touch, the length it has travelled since it was last reset.
    pub travelled: Vec<Real>,
    /// The line's moment, in ticks.
    pub current_tick: Real,
    /// The moment at which a hold ends, in ticks.
    pub hold_end: Real,
    /// The note's cool-down less the ticks that have passed.
    pub cool_down_left: Real,
    /// `cool_down_left` plus the sixteen ticks of a refill.
    pub cool_down_refilled: Real,
}

/// The probes of the notes of one line, in the order of its notes.
pub struct LineProbe {
    pub above: Vec<NoteProbe>,
    pub below: Vec<NoteProbe>,
}

/// The judgement that a distance in time earns: perfect, good and bad within
/// their ranges, bounds included, and a miss beyond them.
pub open spec fn judge_result(probe: NoteProbe) -> NoteScore {
    let distance = probe.time_delta.abs_spec();
    if Real::zero_spec().le_spec(distance) && distance.le_spec(probe.perfect_range) {
        NoteScore::Perfect
    } else if probe.perfect_range.lt_spec(distance) && distance.le_spec(probe.good_range) {
        NoteScore::Good
    } else if probe.good_range.lt_spec(distance) && distance.le_spec(probe.bad_range) {
        NoteScore::Bad
    } else {
        NoteScore::Miss
    }
}

/// Judges a distance in time.
pub fn check_judge_result(probe: &NoteProbe) -> (r: NoteScore)
    ensures
        r == judge_result(*probe),
        probe.time_delta.abs_spec().le_spec(probe.perfect_range) ==> r == NoteScore::Perfect,
{
    let distance: Real = probe.time_delta.abs();
    if Real::zero().le(distance) && distance.le(probe.perfect_range) {
        NoteScore::Perfect
    } else if probe.perfect_range.lt(distance) && distance.le(probe.good_range) {
        NoteScore::Good
    } else if probe.good_range.lt(distance) && distance.le(probe.bad_range) {
        NoteScore::Bad
    } else {
        NoteScore::Miss
    }
}

/// Whether the note's time lies behind the line's moment.
pub open spec fn is_late(probe: NoteProbe) -> bool {
    probe.time_delta.gt_spec(Real::zero_spec())
}

/// Whether the note's time lies ahead of the line's moment.
pub open spec fn is_early(probe: NoteProbe) -> bool {
    probe.time_delta.lt_spec(Real::zero_spec())
}

/// Whether the note's time has come.
pub open spec fn is_due(probe: NoteProbe) -> bool {
    probe.time_delta.ge_spec(Real::zero_spec())
}

/// The pattern of fifty: the length that a touch has to travel to flick.
pub const FLICK_LENGTH_BITS: u64 = 0x4049_0000_0000_0000;

/// Whether the touch at place `j` has travelled far enough to flick.
pub open spec fn has_swiped(probe: NoteProbe, j: int) -> bool {
    0 <= j < probe.travelled@.len() && probe.travelled@[j].ge_spec(Real { bits: FLICK_LENGTH_BITS })
}

/// Whether the touch at place `j` lies within the judge range of the note:
/// its foot lies between the bounds of the range. No touch does where the
/// angle of the line does not lie from zero to 360 degrees.
pub open spec fn touch_in_range(probe: NoteProbe, j: int) -> bool {
    0 <= j < probe.reach@.len() && match gx_of(probe.degree) {
        Some(gx) => in_judge_range(
            gx,
            probe.reach@[j].point_x,
            probe.reach@[j].point_y,
            probe.reach@[j].near,
            probe.reach@[j].far,
        ),
        None => false,
    }
}

/// What a note asks of a touch.
#[derive(Clone, Copy, Debug, PartialEq, Eq, Structural)]
pub enum TouchNeed {
    /// Enabled and in range.
    Present,
    /// Enabled, in range, and not yet used for a judgement in this tick.
    Valid,
    /// Enabled, in range, and moved at least fifty units from where it was
    /// last reset.
    Swiped,
}

/// Whether the touch at place `j` gives the note what it asks for. A touch
/// that rests where its length was last reset has not moved.
pub open spec fn touch_matches(touch: TouchInfo, probe: NoteProbe, j: int, need: TouchNeed) -> bool {
    &&& touch.enable
    &&& touch_in_range(probe, j)
    &&& match need {
        TouchNeed::Present => true,
        TouchNeed::Valid => touch.touch_valid,
        TouchNeed::Swiped => has_swiped(probe, j) && !touch.at_rest(),
    }
}

/// The place of the first touch from `from` on that gives the note what it
/// asks for, or the number of touches where none does.
pub open spec fn first_touch(
    touches: Seq<TouchInfo>,
    probe: NoteProbe,
    need: TouchNeed,
    from: int,
) -> int
    decreases touches.len() - from,
{
    if from < 0 || from >= touches.len() {
        touches.len() as int
    } else if touch_matches(touches[from], probe, from, need) {
        from
    } else {
        first_touch(touches, probe, need, from + 1)
    }
}

/// The first matching touch matches, and no touch before it does.
pub proof fn lemma_first_touch(touches: Seq<TouchInfo>, probe: NoteProbe, need: TouchNeed, from: int)
    requires
        0 <= from <= touches.len(),
    ensures
        from <= first_touch(touches, probe, need, from) <= touches.len(),
        first_touch(touches, probe, need, from) < touches.len() ==> touch_matches(
            touches[first_touch(touches, probe, need, from)],
            probe,
            first_touch(touches, probe, need, from),
            need,
        ),
        forall|k: int|
            from <= k < first_touch(touches, probe, need, from) ==> !touch_matches(
                #[trigger] touches[k],
                probe,
                k,
                need,
            ),
    decreases touches.len() - from,
{
    if from < touches.len() && !touch_matches(touches[from], probe, from, need) {
        lemma_first_touch(touches, probe, need, from + 1);
    }
}

/// Finds the first touch that gives the note what it asks for.
pub fn find_touch(touches: &Vec<TouchInfo>, probe: &NoteProbe, need: TouchNeed) -> (found: Option<
    usize,
>)
    ensures
        match found {
            Some(j) => j < touches@.len() && j == first_touch(touches@, *probe, need, 0),
            None => first_touch(touches@, *probe, need, 0) == touches@.len(),
        },
{
    let gx: Option<Gx> = find_gx(probe.degree);
    let len: usize = touches.len();
    let mut j: usize = 0;
    while j < len
        invariant
            len == touches@.len(),
            j <= len,
            gx == gx_of(probe.degree),
            first_touch(touches@, *probe, need, 0) == first_touch(touches@, *probe, need, j as int),
        decreases len - j,
    {
        let touch: TouchInfo = touches[j];
        let in_range: bool = j < probe.reach.len() && match gx {
            Some(way) => is_point_in_judge_range(
                way,
                probe.reach[j].point_x,
                probe.reach[j].point_y,
                probe.reach[j].near,
                probe.reach[j].far,
            ),
            None => false,
        };
        let fits: bool = match need {
            TouchNeed::Present => true,
            TouchNeed::Valid => touch.touch_valid,
            TouchNeed::Swiped => j < probe.travelled.len() && probe.travelled[j].ge(
                Real::from_bits(FLICK_LENGTH_BITS),
            ) && !touch.is_at_rest(),
        };
        if touch.enable && in_range && fits {
            return Some(j);
        }
        j = j + 1;
    }
    None
}

/// A note, the touches and the effects after the note was judged, and
/// whether a final judgement was made.
pub struct Judged {
    pub note: NoteState,
    pub touches: Seq<TouchInfo>,
    pub effects: EffectsView,
    pub judged: bool,
}

/// The effects with the splash that a judgement shows: tint zero for a
/// perfect one, tint one for a good one, none for any other.
pub open spec fn with_splash(effects: EffectsView, x: Real, y: Real, score: NoteScore) -> EffectsView {
    match score {
        NoteScore::Perfect => effects.with_click(x, y, 0),
        NoteScore::Good => effects.with_click(x, y, 1),
        _ => effects,
    }
}

/// Shows the splash of a judgement at a point.
pub fn create_splash(effects: &mut Effects, x: Real, y: Real, note_score: NoteScore)
    ensures
        final(effects)@ == with_splash(old(effects)@, x, y, note_score),
{
    match note_score {
        NoteScore::Perfect => new_click_effect(effects, x, y, 0),
        NoteScore::Good => new_click_effect(effects, x, y, 1),
        _ => {},
    }
}

/// The touches with the one at place `j` used up for this tick.
pub open spec fn with_touch_used(touches: Seq<TouchInfo>, j: int) -> Seq<TouchInfo> {
    touches.update(j, TouchInfo { touch_valid: false, ..touches[j] })
}

/// The touches with the one at place `j` taken as not having moved.
pub open spec fn with_touch_reset(touches: Seq<TouchInfo>, j: int) -> Seq<TouchInfo> {
    touches.update(j, TouchInfo { init_x: touches[j].x, init_y: touches[j].y, ..touches[j] })
}

/// Nothing happens to the note.
pub open spec fn untouched(note: NoteState, touches: Seq<TouchInfo>, effects: EffectsView) -> Judged {
    Judged { note, touches, effects, judged: false }
}

/// The autoplay rule for a tap, a drag or a flick: once its time has come the
/// note is perfect, with its sound and a splash.
pub open spec fn normal_auto_step(
    note: NoteState,
    touches: Seq<TouchInfo>,
    effects: EffectsView,
    probe: NoteProbe,
) -> Judged {
    if note.score != NoteScore::Unjudged {
        untouched(note, touches, effects)
    } else if is_due(probe) {
        Judged {
            note: NoteState { score: NoteScore::Perfect, ..note },
            touches,
            effects: with_splash(
                effects,
                probe.root_x,
                probe.root_y,
                NoteScore::Perfect,
            ).with_sound(note.note.note_type),
            judged: true,
        }
    } else {
        untouched(note, touches, effects)
    }
}

/// The rule for a tap: too late it is a miss; otherwise the first valid touch
/// in range judges it by its distance in time and is used up.
pub open spec fn tap_step(
    note: NoteState,
    touches: Seq<TouchInfo>,
    effects: EffectsView,
    probe: NoteProbe,
) -> Judged {
    let result = judge_result(probe);
    let j = first_touch(touches, probe, TouchNeed::Valid, 0);
    if note.score != NoteScore::Unjudged {
        untouched(note, touches, effects)
    } else if is_early(probe) && result == NoteScore::Miss {
        untouched(note, touches, effects)
    } else if is_late(probe) && result == NoteScore::Miss {
        Judged { note: NoteState { score: NoteScore::Miss, ..note }, touches, effects, judged: true }
    } else if j < touches.len() {
        Judged {
            note: NoteState { score: result, ..note },
            touches: with_touch_used(touches, j),
            effects: with_splash(
                effects.with_sound(NoteType::Tap),
                probe.root_x,
                probe.root_y,
                result,
            ),
            judged: true,
        }
    } else {
        untouched(note, touches, effects)
    }
}

/// The rule for a drag and for a flick. A touch in range arms the note (a
/// flick asks that the touch has moved far enough, and takes it as not having
/// moved from then on); an armed note is perfect once its time has passed; a
/// note that is not armed is a miss once it is too late.
pub open spec fn swipe_step(
    note: NoteState,
    touches: Seq<TouchInfo>,
    effects: EffectsView,
    probe: NoteProbe,
    flick: bool,
) -> Judged {
    let result = judge_result(probe);
    let need = if flick {
        TouchNeed::Swiped
    } else {
        TouchNeed::Present
    };
    let kind = if flick {
        NoteType::Flick
    } else {
        NoteType::Drag
    };
    let j = first_touch(touches, probe, need, 0);
    if note.score != NoteScore::Unjudged {
        untouched(note, touches, effects)
    } else if is_early(probe) && result == NoteScore::Miss {
        untouched(note, touches, effects)
    } else if note.extra_score != NoteScore::Unjudged {
        if is_late(probe) {
            Judged {
                note: NoteState { score: NoteScore::Perfect, ..note },
                touches,
                effects: with_splash(
                    effects,
                    probe.root_x,
                    probe.root_y,
                    NoteScore::Perfect,
                ).with_sound(kind),
                judged: true,
            }
        } else {
            untouched(note, touches, effects)
        }
    } else if is_late(probe) && result == NoteScore::Miss {
        Judged { note: NoteState { score: NoteScore::Miss, ..note }, touches, effects, judged: true }
    } else if j < touches.len() {
        Judged {
            note: NoteState { extra_score: NoteScore::Perfect, ..note },
            touches: if flick {
                with_touch_reset(touches, j)
            } else {
                touches
            },
            effects,
            judged: false,
        }
    } else {
        untouched(note, touches, effects)
    }
}

/// The cool-down after a refill: the refilled value, or zero where the
/// cool-down had fallen more than sixteen ticks behind.
pub open spec fn refilled_cool_down(probe: NoteProbe) -> Real {
    if probe.cool_down_left.lt_spec(Real { bits: MINUS_SIXTEEN_BITS }) {
        Real::zero_spec()
    } else {
        probe.cool_down_refilled
    }
}

/// Whether the hold is being held: always under autoplay, else by any
/// enabled touch in range.
pub open spec fn is_held(touches: Seq<TouchInfo>, probe: NoteProbe, auto: bool) -> bool {
    auto || first_touch(touches, probe, TouchNeed::Present, 0) < touches.len()
}

/// One tick of a hold that is armed. The cool-down runs down; when it has
/// run out, a hold that is held refills it and shows a splash, and one that
/// is not held is a miss. A hold whose end has come takes its armed
/// judgement for good.
pub open spec fn hold_common_step(
    note: NoteState,
    touches: Seq<TouchInfo>,
    effects: EffectsView,
    probe: NoteProbe,
    auto: bool,
) -> Judged {
    let run_out = probe.cool_down_left.le_spec(Real::zero_spec());
    let held = is_held(touches, probe, auto);
    let ended = probe.hold_end.le_spec(probe.current_tick);
    let cool_down = if run_out && held {
        refilled_cool_down(probe)
    } else {
        probe.cool_down_left
    };
    let score = if ended {
        note.extra_score
    } else if run_out && !held {
        NoteScore::Miss
    } else {
        note.score
    };
    Judged {
        note: NoteState { hold_cool_down: cool_down, score, ..note },
        touches,
        effects: if run_out && held {
            with_splash(effects, probe.root_x, probe.root_y, note.extra_score)
        } else {
            effects
        },
        judged: ended || (run_out && !held),
    }
}

/// The rule for a hold. An armed hold ticks on. One that is not armed is a
/// miss once it is too late; before that the first valid touch in range arms
/// it with a perfect or good judgement and is used up.
pub open spec fn hold_step(
    note: NoteState,
    touches: Seq<TouchInfo>,
    effects: EffectsView,
    probe: NoteProbe,
) -> Judged {
    let result = judge_result(probe);
    let j = first_touch(touches, probe, TouchNeed::Valid, 0);
    if note.score != NoteScore::Unjudged {
        untouched(note, touches, effects)
    } else if note.extra_score != NoteScore::Unjudged {
        hold_common_step(note, touches, effects, probe, false)
    } else if is_early(probe) && result == NoteScore::Miss {
        untouched(note, touches, effects)
    } else if is_late(probe) && result == NoteScore::Miss {
        Judged { note: NoteState { score: NoteScore::Miss, ..note }, touches, effects, judged: true }
    } else if j < touches.len() && (result == NoteScore::Perfect || result == NoteScore::Good) {
        Judged {
            note: NoteState { extra_score: result, ..note },
            touches: with_touch_used(touches, j),
            effects: effects.with_sound(NoteType::Hold),
            judged: false,
        }
    } else {
        untouched(note, touches, effects)
    }
}

/// The autoplay rule for a hold: once its time has come it is armed as
/// perfect, with its sound; armed, it ticks on as a hold that is held.
pub open spec fn hold_auto_step(
    note: NoteState,
    touches: Seq<TouchInfo>,
    effects: EffectsView,
    probe: NoteProbe,
) -> Judged {
    let arming = is_due(probe) && note.extra_score != NoteScore::Perfect;
    let armed = if arming {
        NoteState { extra_score: NoteScore::Perfect, ..note }
    } else {
        note
    };
    let sounded = if arming {
        effects.with_sound(NoteType::Hold)
    } else {
        effects
    };
    if note.score != NoteScore::Unjudged {
        untouched(note, touches, effects)
    } else if armed.extra_score != NoteScore::Unjudged {
        hold_common_step(armed, touches, sounded, probe, true)
    } else {
        untouched(note, touches, effects)
    }
}

/// What a judging tick makes of one note.
pub open spec fn judge_note(
    note: NoteState,
    touches: Seq<TouchInfo>,
    effects: EffectsView,
    probe: NoteProbe,
    auto: bool,
) -> Judged {
    if auto {
        match note.note.note_type {
            NoteType::Hold => hold_auto_step(note, touches, effects, probe),
            _ => normal_auto_step(note, touches, effects, probe),
        }
    } else {
        match note.note.note_type {
            NoteType::Tap => tap_step(note, touches, effects, probe),
            NoteType::Drag => swipe_step(note, touches, effects, probe, false),
            NoteType::Hold => hold_step(note, touches, effects, probe),
            NoteType::Flick => swipe_step(note, touches, effects, probe, true),
        }
    }
}

/// Judges a tap, a drag or a flick under autoplay.
pub fn tick_normal_note_auto(note: &mut NoteState, effects: &mut Effects, probe: &NoteProbe) -> (judged:
    bool)
    ensures
        ({
            let r = normal_auto_step(*old(note), Seq::empty(), old(effects)@, *probe);
            &&& *final(note) == r.note
            &&& final(effects)@ == r.effects
            &&& judged == r.judged
        }),
{
    if note.score != NoteScore::Unjudged {
        return false;
    }
    if probe.time_delta.ge(Real::zero()) {
        note.score = NoteScore::Perfect;
        create_splash(effects, probe.root_x, probe.root_y, NoteScore::Perfect);
        new_sound_effect(effects, note.note.note_type);
        return true;
    }
    false
}

/// Judges a tap against the touches.
pub fn tick_tap_note(
    note: &mut NoteState,
    touches: &mut Vec<TouchInfo>,
    effects: &mut Effects,
    probe: &NoteProbe,
) -> (judged: bool)
    ensures
        ({
            let r = tap_step(*old(note), old(touches)@, old(effects)@, *probe);
            &&& *final(note) == r.note
            &&& final(touches)@ == r.touches
            &&& final(effects)@ == r.effects
            &&& judged == r.judged
        }),
{
    if note.score != NoteScore::Unjudged {
        return false;
    }
    let judge_result: NoteScore = check_judge_result(probe);
    let late: bool = probe.time_delta.gt(Real::zero());
    let early: bool = probe.time_delta.lt(Real::zero());
    if early && judge_result == NoteScore::Miss {
        return false;
    }
    if late && judge_result == NoteScore::Miss {
        note.score = NoteScore::Miss;
        return true;
    }
    match find_touch(touches, probe, TouchNeed::Valid) {
        Some(j) => {
            touches[j].touch_valid = false;
            note.score = judge_result;
            new_sound_effect(effects, NoteType::Tap);
            create_splash(effects, probe.root_x, probe.root_y, judge_result);
            true
        },
        None => false,
    }
}

/// Judges a drag (`flick` false) or a flick (`flick` true) against the
/// touches.
fn tick_swipe_note(
    note: &mut NoteState,
    touches: &mut Vec<TouchInfo>,
    effects: &mut Effects,
    probe: &NoteProbe,
    flick: bool,
) -> (judged: bool)
    ensures
        ({
            let r = swipe_step(*old(note), old(touches)@, old(effects)@, *probe, flick);
            &&& *final(note) == r.note
            &&& final(touches)@ == r.touches
            &&& final(effects)@ == r.effects
            &&& judged == r.judged
        }),
{
    if note.score != NoteScore::Unjudged {
        return false;
    }
    let judge_result: NoteScore = check_judge_result(probe);
    let late: bool = probe.time_delta.gt(Real::zero());
    let early: bool = probe.time_delta.lt(Real::zero());
    if early && judge_result == NoteScore::Miss {
        return false;
    }
    if note.extra_score != NoteScore::Unjudged {
        if late {
            note.score = NoteScore::Perfect;
            create_splash(effects, probe.root_x, probe.root_y, NoteScore::Perfect);
            new_sound_effect(
                effects,
                if flick {
                    NoteType::Flick
                } else {
                    NoteType::Drag
                },
            );
            return true;
        }
        return false;
    }
    if late && judge_result == NoteScore::Miss {
        note.score = NoteScore::Miss;
        return true;
    }
    let need: TouchNeed = if flick {
        TouchNeed::Swiped
    } else {
        TouchNeed::Present
    };
    match find_touch(touches, probe, need) {
        Some(j) => {
            note.extra_score = NoteScore::Perfect;
            if flick {
                touches[j].reset_length();
            }
            false
        },
        None => false,
    }
}

/// Judges a drag against the touches.
pub fn tick_drag_note(
    note: &mut NoteState,
    touches: &mut Vec<TouchInfo>,
    effects: &mut Effects,
    probe: &NoteProbe,
) -> (judged: bool)
    ensures
        ({
            let r = swipe_step(*old(note), old(touches)@, old(effects)@, *probe, false);
            &&& *final(note) == r.note
            &&& final(touches)@ == r.touches
            &&& final(effects)@ == r.effects
            &&& judged == r.judged
        }),
{
    tick_swipe_note(note, touches, effects, probe, false)
}

/// Judges a flick against the touches.
pub fn tick_flick_note(
    note: &mut NoteState,
    touches: &mut Vec<TouchInfo>,
    effects: &mut Effects,
    probe: &NoteProbe,
) -> (judged: bool)
    ensures
        ({
            let r = swipe_step(*old(note), old(touches)@, old(effects)@, *probe, true);
            &&& *final(note) == r.note
            &&& final(touches)@ == r.touches
            &&& final(effects)@ == r.effects
            &&& judged == r.judged
        }),
{
    tick_swipe_note(note, touches, effects, probe, true)
}

/// Ticks a hold on, if it is armed. Gives whether it is armed, and whether a
/// final judgement was made.
pub fn tick_hold_note_common(
    note: &mut NoteState,
    touches: &Vec<TouchInfo>,
    effects: &mut Effects,
    probe: &NoteProbe,
    auto: bool,
) -> (r: (bool, bool))
    ensures
        r.0 == (old(note).extra_score != NoteScore::Unjudged),
        r.0 ==> ({
            let step = hold_common_step(*old(note), touches@, old(effects)@, *probe, auto);
            &&& *final(note) == step.note
            &&& final(effects)@ == step.effects
            &&& r.1 == step.judged
        }),
        !r.0 ==> *final(note) == *old(note) && final(effects)@ == old(effects)@ && !r.1,
{
    if note.extra_score != NoteScore::Unjudged {
        let mut judged: bool = false;
        note.hold_cool_down = probe.cool_down_left;
        if note.hold_cool_down.le(Real::zero()) {
            let held: bool = auto || find_touch(touches, probe, TouchNeed::Present).is_some();
            if held {
                note.hold_cool_down = if note.hold_cool_down.lt(Real::minus_sixteen()) {
                    Real::zero()
                } else {
                    probe.cool_down_refilled
                };
                create_splash(effects, probe.root_x, probe.root_y, note.extra_score);
            } else {
                note.score = NoteScore::Miss;
                judged = true;
            }
        }
        if probe.hold_end.le(probe.current_tick) {
            note.score = note.extra_score;
            judged = true;
        }
        return (true, judged);
    }
    (false, false)
}

/// Judges a hold under autoplay.
pub fn tick_hold_note_auto(
    note: &mut NoteState,
    touches: &Vec<TouchInfo>,
    effects: &mut Effects,
    probe: &NoteProbe,
) -> (judged: bool)
    ensures
        ({
            let r = hold_auto_step(*old(note), touches@, old(effects)@, *probe);
            &&& *final(note) == r.note
            &&& final(effects)@ == r.effects
            &&& judged == r.judged
        }),
{
    if note.score != NoteScore::Unjudged {
        return false;
    }
    if probe.time_delta.ge(Real::zero()) && note.extra_score != NoteScore::Perfect {
        note.extra_score = NoteScore::Perfect;
        new_sound_effect(effects, NoteType::Hold);
    }
    tick_hold_note_common(note, touches, effects, probe, true).1
}

/// Judges a hold against the touches.
pub fn tick_hold_note(
    note: &mut NoteState,
    touches: &mut Vec<TouchInfo>,
    effects: &mut Effects,
    probe: &NoteProbe,
) -> (judged: bool)
    ensures
        ({
            let r = hold_step(*old(note), old(touches)@, old(effects)@, *probe);
            &&& *final(note) == r.note
            &&& final(touches)@ == r.touches
            &&& final(effects)@ == r.effects
            &&& judged == r.judged
        }),
{
    if note.score != NoteScore::Unjudged {
        return false;
    }
    let (hold, hold_judged) = tick_hold_note_common(note, touches, effects, probe, false);
    if hold {
        return hold_judged;
    }
    let judge_result: NoteScore = check_judge_result(probe);
    let late: bool = probe.time_delta.gt(Real::zero());
    let early: bool = probe.time_delta.lt(Real::zero());
    if early && judge_result == NoteScore::Miss {
        return false;
    }
    if late && judge_result == NoteScore::Miss {
        note.score = NoteScore::Miss;
        return true;
    }
    if judge_result != NoteScore::Perfect && judge_result != NoteScore::Good {
        return false;
    }
    match find_touch(touches, probe, TouchNeed::Valid) {
        Some(j) => {
            touches[j].touch_valid = false;
            note.extra_score = judge_result;
            new_sound_effect(effects, NoteType::Hold);
            false
        },
        None => false,
    }
}

/// Judges one note by the rule for its kind.
pub fn tick_note(
    note: &mut NoteState,
    touches: &mut Vec<TouchInfo>,
    effects: &mut Effects,
    probe: &NoteProbe,
    auto: bool,
) -> (judged: bool)
    ensures
        ({
            let r = judge_note(*old(note), old(touches)@, old(effects)@, *probe, auto);
            &&& *final(note) == r.note
            &&& final(touches)@ == r.touches
            &&& final(effects)@ == r.effects
            &&& judged == r.judged
        }),
{
    let note_type: NoteType = note.note.note_type;
    if auto {
        match note_type {
            NoteType::Hold => tick_hold_note_auto(note, touches, effects, probe),
            _ => tick_normal_note_auto(note, effects, probe),
        }
    } else {
        match note_type {
            NoteType::Tap => tick_tap_note(note, touches, effects, probe),
            NoteType::Drag => tick_drag_note(note, touches, effects, probe),
            NoteType::Hold => tick_hold_note(note, touches, effects, probe),
            NoteType::Flick => tick_flick_note(note, touches, effects, probe),
        }
    }
}

/// Whether no enabled touch may judge any more, as it is at the end of a
/// judging tick.
pub open spec fn all_spent(touches: Seq<TouchInfo>) -> bool {
    forall|j: int| 0 <= j < touches.len() && (#[trigger] touches[j]).enable ==> !touches[j].touch_valid
}

/// Whether the touches `later` are the touches `earlier` some judging on:
/// as many, as enabled, at the same places, and at rest wherever they were.
pub open spec fn touches_follow(earlier: Seq<TouchInfo>, later: Seq<TouchInfo>) -> bool {
    &&& later.len() == earlier.len()
    &&& forall|j: int|
        0 <= j < earlier.len() ==> {
            &&& (#[trigger] later[j]).enable == earlier[j].enable
            &&& later[j].x == earlier[j].x
            &&& later[j].y == earlier[j].y
            &&& (earlier[j].at_rest() ==> later[j].at_rest())
        }
}

/// Whether `again` is what the host measures of a note when it measures
/// again at the moment of `probe`, no time having passed: the same in
/// everything, but that the cool-down left is the note's own and that no
/// touch has travelled that had not before.
pub open spec fn same_moment(probe: NoteProbe, again: NoteProbe, note: NoteState) -> bool {
    &&& again.time_delta == probe.time_delta
    &&& again.perfect_range == probe.perfect_range
    &&& again.good_range == probe.good_range
    &&& again.bad_range == probe.bad_range
    &&& again.degree == probe.degree
    &&& again.reach@ == probe.reach@
    &&& again.current_tick == probe.current_tick
    &&& again.hold_end == probe.hold_end
    &&& again.cool_down_left == note.hold_cool_down
    &&& forall|j: int| #[trigger] has_swiped(again, j) ==> has_swiped(probe, j)
}

/// Whether a note that was just judged is due to change when it is judged
/// again at the same moment: a drag or a flick that is armed while its time
/// has passed, or a hold that is armed while its cool-down has run out or its
/// end has come.
pub open spec fn due_again(note: NoteState, again: NoteProbe, auto: bool) -> bool {
    &&& note.score == NoteScore::Unjudged
    &&& note.extra_score != NoteScore::Unjudged
    &&& match note.note.note_type {
        NoteType::Tap => false,
        NoteType::Drag | NoteType::Flick => !auto && is_late(again),
        NoteType::Hold => again.cool_down_left.le_spec(Real::zero_spec()) || again.hold_end.le_spec(
            again.current_tick,
        ),
    }
}

proof fn lemma_follow_matches(
    earlier: Seq<TouchInfo>,
    later: Seq<TouchInfo>,
    probe: NoteProbe,
    again: NoteProbe,
    note: NoteState,
    need: TouchNeed,
    from: int,
)
    requires
        touches_follow(earlier, later),
        same_moment(probe, again, note),
        need != TouchNeed::Valid,
        0 <= from <= earlier.len(),
        first_touch(earlier, probe, need, from) == earlier.len(),
    ensures
        first_touch(later, again, need, from) == later.len(),
    decreases earlier.len() - from,
{
    if from < earlier.len() {
        assert(!touch_matches(earlier[from], probe, from, need));
        assert(later[from].enable == earlier[from].enable);
        lemma_follow_matches(earlier, later, probe, again, note, need, from + 1);
    }
}

proof fn lemma_spent_matches(touches: Seq<TouchInfo>, probe: NoteProbe, from: int)
    requires
        all_spent(touches),
        0 <= from <= touches.len(),
    ensures
        first_touch(touches, probe, TouchNeed::Valid, from) == touches.len(),
    decreases touches.len() - from,
{
    if from < touches.len() {
        lemma_spent_matches(touches, probe, from + 1);
    }
}

/// A note that was judged stays as it is when it is judged again at the same
/// moment, unless it is due again. Taps, and all notes but holds under
/// autoplay, are never due again: once the touches are spent, judging them
/// twice is judging them once.
pub proof fn lemma_note_settles(
    note: NoteState,
    touches: Seq<TouchInfo>,
    effects: EffectsView,
    probe: NoteProbe,
    auto: bool,
    later_touches: Seq<TouchInfo>,
    later_effects: EffectsView,
    again: NoteProbe,
)
    requires
        touches_follow(judge_note(note, touches, effects, probe, auto).touches, later_touches),
        all_spent(later_touches),
        same_moment(probe, again, judge_note(note, touches, effects, probe, auto).note),
        !due_again(judge_note(note, touches, effects, probe, auto).note, again, auto),
    ensures
        judge_note(
            judge_note(note, touches, effects, probe, auto).note,
            later_touches,
            later_effects,
            again,
            auto,
        ) == untouched(
            judge_note(note, touches, effects, probe, auto).note,
            later_touches,
            later_effects,
        ),
{
    let first = judge_note(note, touches, effects, probe, auto);
    lemma_first_touch(touches, probe, TouchNeed::Valid, 0);
    lemma_first_touch(touches, probe, TouchNeed::Present, 0);
    lemma_first_touch(touches, probe, TouchNeed::Swiped, 0);
    lemma_spent_matches(later_touches, again, 0);
    assert(judge_result(again) == judge_result(probe));
    assert(is_late(again) == is_late(probe));
    assert(is_early(again) == is_early(probe));
    assert(is_due(again) == is_due(probe));
    if !auto && first.note.score == NoteScore::Unjudged && first.note.extra_score
        == NoteScore::Unjudged {
        if note.note.note_type == NoteType::Drag {
            if first_touch(touches, probe, TouchNeed::Present, 0) == touches.len() {
                assert(first.touches == touches);
                lemma_follow_matches(
                    touches,
                    later_touches,
                    probe,
                    again,
                    first.note,
                    TouchNeed::Present,
                    0,
                );
            }
        }
        if note.note.note_type == NoteType::Flick {
            if first_touch(touches, probe, TouchNeed::Swiped, 0) == touches.len() {
                assert(first.touches == touches);
                lemma_follow_matches(
                    touches,
                    later_touches,
                    probe,
                    again,
                    first.note,
                    TouchNeed::Swiped,
                    0,
                );
            }
        }
    }
}

/// The notes of one side of a line, the touches and the effects after some
/// of the notes were judged, and whether a final judgement was made.
pub struct JudgedNotes {
    pub notes: Seq<NoteState>,
    pub touches: Seq<TouchInfo>,
    pub effects: EffectsView,
    pub judged: bool,
}

/// What a judging tick makes of the first `n` notes of one side of a line,
/// taken in order. A note without a probe stays as it is.
pub open spec fn judge_notes(
    notes: Seq<NoteState>,
    probes: Seq<NoteProbe>,
    touches: Seq<TouchInfo>,
    effects: EffectsView,
    auto: bool,
    n: int,
) -> JudgedNotes
    decreases n,
{
    if n <= 0 {
        JudgedNotes { notes, touches, effects, judged: false }
    } else {
        let before = judge_notes(notes, probes, touches, effects, auto, n - 1);
        if n - 1 < notes.len() && n - 1 < probes.len() {
            let step = judge_note(notes[n - 1], before.touches, before.effects, probes[n - 1], auto);
            JudgedNotes {
                notes: before.notes.update(n - 1, step.note),
                touches: step.touches,
                effects: step.effects,
                judged: before.judged || step.judged,
            }
        } else {
            before
        }
    }
}

/// Judging notes keeps their number and that of the touches, and leaves the
/// notes beyond the first `n` as they are.
pub proof fn lemma_judge_notes_shape(
    notes: Seq<NoteState>,
    probes: Seq<NoteProbe>,
    touches: Seq<TouchInfo>,
    effects: EffectsView,
    auto: bool,
    n: int,
)
    ensures
        judge_notes(notes, probes, touches, effects, auto, n).notes.len() == notes.len(),
        judge_notes(notes, probes, touches, effects, auto, n).touches.len() == touches.len(),
        forall|k: int|
            n <= k < notes.len() && 0 <= k ==> #[trigger] judge_notes(
                notes,
                probes,
                touches,
                effects,
                auto,
                n,
            ).notes[k] == notes[k],
    decreases n,
{
    if n > 0 {
        lemma_judge_notes_shape(notes, probes, touches, effects, auto, n - 1);
        let before = judge_notes(notes, probes, touches, effects, auto, n - 1);
        if n - 1 < notes.len() && n - 1 < probes.len() {
            lemma_judge_note_touches(notes[n - 1], before.touches, before.effects, probes[n - 1], auto);
        }
    }
}

/// Judging a note keeps the number of touches.
pub proof fn lemma_judge_note_touches(
    note: NoteState,
    touches: Seq<TouchInfo>,
    effects: EffectsView,
    probe: NoteProbe,
    auto: bool,
)
    ensures
        judge_note(note, touches, effects, probe, auto).touches.len() == touches.len(),
{
    lemma_first_touch(touches, probe, TouchNeed::Valid, 0);
    lemma_first_touch(touches, probe, TouchNeed::Present, 0);
    lemma_first_touch(touches, probe, TouchNeed::Swiped, 0);
}

/// Judges the notes of one side of a line, in order.
pub fn tick_notes_judge(
    notes: &mut Vec<NoteState>,
    touches: &mut Vec<TouchInfo>,
    effects: &mut Effects,
    probes: &Vec<NoteProbe>,
    auto: bool,
) -> (judged: bool)
    ensures
        ({
            let r = judge_notes(
                old(notes)@,
                probes@,
                old(touches)@,
                old(effects)@,
                auto,
                old(notes)@.len() as int,
            );
            &&& final(notes)@ == r.notes
            &&& final(touches)@ == r.touches
            &&& final(effects)@ == r.effects
            &&& judged == r.judged
        }),
{
    let mut judged: bool = false;
    let len: usize = notes.len();
    let mut i: usize = 0;
    while i < len
        invariant
            len == old(notes)@.len(),
            i <= len,
            ({
                let r = judge_notes(
                    old(notes)@,
                    probes@,
                    old(touches)@,
                    old(effects)@,
                    auto,
                    i as int,
                );
                &&& notes@ == r.notes
                &&& touches@ == r.touches
                &&& effects@ == r.effects
                &&& judged == r.judged
            }),
        decreases len - i,
    {
        proof {
            lemma_judge_notes_shape(
                old(notes)@,
                probes@,
                old(touches)@,
                old(effects)@,
                auto,
                i as int,
            );
        }
        if i < probes.len() {
            let local_judged = tick_note(&mut notes[i], touches, effects, &probes[i], auto);
            judged = judged || local_judged;
        }
        i = i + 1;
    }
    judged
}

/// The notes of a line, the touches and the effects after the line was
/// judged, and whether a final judgement was made.
pub struct JudgedLine {
    pub above: Seq<NoteState>,
    pub below: Seq<NoteState>,
    pub touches: Seq<TouchInfo>,
    pub effects: EffectsView,
    pub judged: bool,
}

/// What a judging tick makes of one line: nothing if the line is disabled;
/// else its notes above are judged, then its notes below.
pub open spec fn judge_line(
    line: LineState,
    probe: LineProbe,
    touches: Seq<TouchInfo>,
    effects: EffectsView,
    auto: bool,
) -> JudgedLine {
    if !line.enable {
        JudgedLine {
            above: line.notes_above_state@,
            below: line.notes_below_state@,
            touches,
            effects,
            judged: false,
        }
    } else {
        let above = judge_notes(
            line.notes_above_state@,
            probe.above@,
            touches,
            effects,
            auto,
            line.notes_above_state@.len() as int,
        );
        let below = judge_notes(
            line.notes_below_state@,
            probe.below@,
            above.touches,
            above.effects,
            auto,
            line.notes_below_state@.len() as int,
        );
        JudgedLine {
            above: above.notes,
            below: below.notes,
            touches: below.touches,
            effects: below.effects,
            judged: above.judged || below.judged,
        }
    }
}

/// Judges the notes of one line.
pub fn tick_one_line_judge(
    line: &mut LineState,
    touches: &mut Vec<TouchInfo>,
    effects: &mut Effects,
    probe: &LineProbe,
    auto: bool,
) -> (judged: bool)
    ensures
        ({
            let r = judge_line(*old(line), *probe, old(touches)@, old(effects)@, auto);
            &&& final(line).notes_above_state@ == r.above
            &&& final(line).notes_below_state@ == r.below
            &&& final(line).same_but_notes(old(line))
            &&& final(touches)@ == r.touches
            &&& final(effects)@ == r.effects
            &&& judged == r.judged
        }),
{
    if !line.enable {
        return false;
    }
    let above = tick_notes_judge(&mut line.notes_above_state, touches, effects, &probe.above, auto);
    let below = tick_notes_judge(&mut line.notes_below_state, touches, effects, &probe.below, auto);
    above || below
}

/// The notes of all lines, the touches and the effects after some of the
/// lines were judged, and whether a final judgement was made.
pub struct JudgedLines {
    /// For each line, its notes above and its notes below.
    pub notes: Seq<(Seq<NoteState>, Seq<NoteState>)>,
    pub touches: Seq<TouchInfo>,
    pub effects: EffectsView,
    pub judged: bool,
}

/// The notes of each line, above and below.
pub open spec fn notes_of(lines: Seq<LineState>) -> Seq<(Seq<NoteState>, Seq<NoteState>)> {
    Seq::new(lines.len(), |i: int| (lines[i].notes_above_state@, lines[i].notes_below_state@))
}

/// What a judging tick makes of the first `n` lines, taken in order. A line
/// without a probe stays as it is.
pub open spec fn judge_lines(
    lines: Seq<LineState>,
    probes: Seq<LineProbe>,
    touches: Seq<TouchInfo>,
    effects: EffectsView,
    auto: bool,
    n: int,
) -> JudgedLines
    decreases n,
{
    if n <= 0 {
        JudgedLines { notes: notes_of(lines), touches, effects, judged: false }
    } else {
        let before = judge_lines(lines, probes, touches, effects, auto, n - 1);
        if n - 1 < lines.len() && n - 1 < probes.len() {
            let step = judge_line(lines[n - 1], probes[n - 1], before.touches, before.effects, auto);
            JudgedLines {
                notes: before.notes.update(n - 1, (step.above, step.below)),
                touches: step.touches,
                effects: step.effects,
                judged: before.judged || step.judged,
            }
        } else {
            before
        }
    }
}

/// Judging lines keeps their number, and leaves the lines beyond the first
/// `n` as they are.
pub proof fn lemma_judge_lines_shape(
    lines: Seq<LineState>,
    probes: Seq<LineProbe>,
    touches: Seq<TouchInfo>,
    effects: EffectsView,
    auto: bool,
    n: int,
)
    ensures
        judge_lines(lines, probes, touches, effects, auto, n).notes.len() == lines.len(),
        forall|k: int|
            n <= k < lines.len() && 0 <= k ==> #[trigger] judge_lines(
                lines,
                probes,
                touches,
                effects,
                auto,
                n,
            ).notes[k] == (lines[k].notes_above_state@, lines[k].notes_below_state@),
    decreases n,
{
    if n > 0 {
        lemma_judge_lines_shape(lines, probes, touches, effects, auto, n - 1);
    }
}

/// The touches at the end of a judging tick: no enabled touch may judge
/// again before it is put down anew.
pub open spec fn spent(touches: Seq<TouchInfo>) -> Seq<TouchInfo> {
    Seq::new(
        touches.len(),
        |j: int|
            if touches[j].enable {
                TouchInfo { touch_valid: false, ..touches[j] }
            } else {
                touches[j]
            },
    )
}

/// Judges the notes of all lines, then takes from every enabled touch its
/// right to judge. Gives whether a final judgement was made.
pub fn tick_line_judge(
    lines: &mut Vec<LineState>,
    touches: &mut Vec<TouchInfo>,
    effects: &mut Effects,
    probes: &Vec<LineProbe>,
    auto: bool,
) -> (judged: bool)
    ensures
        final(lines)@.len() == old(lines)@.len(),
        final(touches)@.len() == old(touches)@.len(),
        pools_kept(old(effects)@, final(effects)@),
        ({
            let r = judge_lines(
                old(lines)@,
                probes@,
                old(touches)@,
                old(effects)@,
                auto,
                old(lines)@.len() as int,
            );
            &&& notes_of(final(lines)@) == r.notes
            &&& final(touches)@ == spent(r.touches)
            &&& final(effects)@ == r.effects
            &&& judged == r.judged
        }),
        forall|i: int|
            0 <= i < old(lines)@.len() ==> (#[trigger] final(lines)@[i]).same_but_notes(
                &old(lines)@[i],
            ),
{
    proof {
        lemma_judge_lines_keep_pools(
            old(lines)@,
            probes@,
            old(touches)@,
            old(effects)@,
            auto,
            old(lines)@.len() as int,
        );
    }
    let mut judged: bool = false;
    let len: usize = lines.len();
    let mut i: usize = 0;
    while i < len
        invariant
            len == old(lines)@.len(),
            lines@.len() == len,
            i <= len,
            ({
                let r = judge_lines(
                    old(lines)@,
                    probes@,
                    old(touches)@,
                    old(effects)@,
                    auto,
                    i as int,
                );
                &&& notes_of(lines@) =~= r.notes
                &&& touches@ == r.touches
                &&& effects@ == r.effects
                &&& judged == r.judged
            }),
            forall|k: int| 0 <= k < len ==> (#[trigger] lines@[k]).same_but_notes(&old(lines)@[k]),
            forall|k: int| i <= k < len ==> #[trigger] lines@[k] == old(lines)@[k],
        decreases len - i,
    {
        proof {
            lemma_judge_lines_shape(
                old(lines)@,
                probes@,
                old(touches)@,
                old(effects)@,
                auto,
                i as int,
            );
        }
        if i < probes.len() {
            let ghost before = lines@;
            let local_judged = tick_one_line_judge(&mut lines[i], touches, effects, &probes[i], auto);
            judged = judged || local_judged;
            assert(notes_of(lines@) =~= notes_of(before).update(
                i as int,
                (lines@[i as int].notes_above_state@, lines@[i as int].notes_below_state@),
            ));
        }
        i = i + 1;
    }
    let count: usize = touches.len();
    let ghost judged_touches = touches@;
    let mut j: usize = 0;
    while j < count
        invariant
            count == touches@.len(),
            count == judged_touches.len(),
            j <= count,
            forall|k: int| 0 <= k < j ==> #[trigger] touches@[k] == spent(judged_touches)[k],
            forall|k: int| j <= k < count ==> #[trigger] touches@[k] == judged_touches[k],
        decreases count - j,
    {
        if touches[j].enable {
            touches[j].touch_valid = false;
        }
        j = j + 1;
    }
    assert(touches@ =~= spent(judged_touches));
    judged
}

/// One judging tick: forgets the sounds of the tick before, then judges all
/// lines.
pub fn tick_lines_judge(
    lines: &mut Vec<LineState>,
    touches: &mut Vec<TouchInfo>,
    effects: &mut Effects,
    probes: &Vec<LineProbe>,
    auto: bool,
) -> (judged: bool)
    ensures
        final(lines)@.len() == old(lines)@.len(),
        final(touches)@.len() == old(touches)@.len(),
        pools_kept(old(effects)@, final(effects)@),
        ({
            let r = judge_lines(
                old(lines)@,
                probes@,
                old(touches)@,
                old(effects)@.without_sound(),
                auto,
                old(lines)@.len() as int,
            );
            &&& notes_of(final(lines)@) == r.notes
            &&& final(touches)@ == spent(r.touches)
            &&& final(effects)@ == r.effects
            &&& judged == r.judged
        }),
        forall|i: int|
            0 <= i < old(lines)@.len() ==> (#[trigger] final(lines)@[i]).same_but_notes(
                &old(lines)@[i],
            ),
{
    clear_sound_effect(effects);
    tick_line_judge(lines, touches, effects, probes, auto)
}

/// Whether the pools of effects are as large after as before.
pub open spec fn pools_kept(before: EffectsView, after: EffectsView) -> bool {
    &&& after.hit_effects.len() == before.hit_effects.len()
    &&& after.splash_effects.len() == before.splash_effects.len()
}

/// Judging a note keeps the sizes of the pools.
pub proof fn lemma_judge_note_keeps_pools(
    note: NoteState,
    touches: Seq<TouchInfo>,
    effects: EffectsView,
    probe: NoteProbe,
    auto: bool,
)
    ensures
        pools_kept(effects, judge_note(note, touches, effects, probe, auto).effects),
{
    crate::states_effect::lemma_first_free(effects.hit_effects, 0);
    crate::states_effect::lemma_first_free(effects.splash_effects, 0);
}

/// Judging the notes of a side keeps the sizes of the pools.
pub proof fn lemma_judge_notes_keep_pools(
    notes: Seq<NoteState>,
    probes: Seq<NoteProbe>,
    touches: Seq<TouchInfo>,
    effects: EffectsView,
    auto: bool,
    n: int,
)
    ensures
        pools_kept(effects, judge_notes(notes, probes, touches, effects, auto, n).effects),
    decreases n,
{
    if n > 0 {
        lemma_judge_notes_keep_pools(notes, probes, touches, effects, auto, n - 1);
        let before = judge_notes(notes, probes, touches, effects, auto, n - 1);
        if n - 1 < notes.len() && n - 1 < probes.len() {
            lemma_judge_note_keeps_pools(
                notes[n - 1],
                before.touches,
                before.effects,
                probes[n - 1],
                auto,
            );
        }
    }
}

/// Judging lines keeps the sizes of the pools and the number of touches.
pub proof fn lemma_judge_lines_keep_pools(
    lines: Seq<LineState>,
    probes: Seq<LineProbe>,
    touches: Seq<TouchInfo>,
    effects: EffectsView,
    auto: bool,
    n: int,
)
    ensures
        pools_kept(effects, judge_lines(lines, probes, touches, effects, auto, n).effects),
        judge_lines(lines, probes, touches, effects, auto, n).touches.len() == touches.len(),
    decreases n,
{
    if n > 0 {
        lemma_judge_lines_keep_pools(lines, probes, touches, effects, auto, n - 1);
        let before = judge_lines(lines, probes, touches, effects, auto, n - 1);
        if n - 1 < lines.len() && n - 1 < probes.len() && lines[n - 1].enable {
            let line = lines[n - 1];
            let above = judge_notes(
                line.notes_above_state@,
                probes[n - 1].above@,
                before.touches,
                before.effects,
                auto,
                line.notes_above_state@.len() as int,
            );
            lemma_judge_notes_keep_pools(
                line.notes_above_state@,
                probes[n - 1].above@,
                before.touches,
                before.effects,
                auto,
                line.notes_above_state@.len() as int,
            );
            lemma_judge_notes_keep_pools(
                line.notes_below_state@,
                probes[n - 1].below@,
                above.touches,
                above.effects,
                auto,
                line.notes_below_state@.len() as int,
            );
            lemma_judge_notes_shape(
                line.notes_above_state@,
                probes[n - 1].above@,
                before.touches,
                before.effects,
                auto,
                line.notes_above_state@.len() as int,
            );
            lemma_judge_notes_shape(
                line.notes_below_state@,
                probes[n - 1].below@,
                above.touches,
                above.effects,
                auto,
                line.notes_below_state@.len() as int,
            );
        }
    }
}

/// Whether no running animation of either pool has reached its end.
pub open spec fn pools_running(effects: EffectsView) -> bool {
    all_running(effects.hit_effects) && all_running(effects.splash_effects)
}

/// Judging a note starts animations at their beginning and leaves the others
/// as they are: no running animation has reached its end afterwards if none
/// had before.
pub proof fn lemma_judge_note_keeps_running(
    note: NoteState,
    touches: Seq<TouchInfo>,
    effects: EffectsView,
    probe: NoteProbe,
    auto: bool,
)
    requires
        pools_running(effects),
    ensures
        pools_running(judge_note(note, touches, effects, probe, auto).effects),
{
    let none: Seq<Real> = Seq::empty();
    lemma_pools_keep_running(effects.hit_effects, none, probe.root_x, probe.root_y, 0);
    lemma_pools_keep_running(effects.hit_effects, none, probe.root_x, probe.root_y, 1);
    lemma_pools_keep_running(effects.splash_effects, none, probe.root_x, probe.root_y, 0);
    lemma_pools_keep_running(effects.splash_effects, none, probe.root_x, probe.root_y, 1);
}

/// Judging the notes of a side keeps the animations running.
pub proof fn lemma_judge_notes_keep_running(
    notes: Seq<NoteState>,
    probes: Seq<NoteProbe>,
    touches: Seq<TouchInfo>,
    effects: EffectsView,
    auto: bool,
    n: int,
)
    requires
        pools_running(effects),
    ensures
        pools_running(judge_notes(notes, probes, touches, effects, auto, n).effects),
    decreases n,
{
    if n > 0 {
        lemma_judge_notes_keep_running(notes, probes, touches, effects, auto, n - 1);
        let before = judge_notes(notes, probes, touches, effects, auto, n - 1);
        if n - 1 < notes.len() && n - 1 < probes.len() {
            lemma_judge_note_keeps_running(
                notes[n - 1],
                before.touches,
                before.effects,
                probes[n - 1],
                auto,
            );
        }
    }
}

/// Judging lines keeps the animations running.
pub proof fn lemma_judge_lines_keep_running(
    lines: Seq<LineState>,
    probes: Seq<LineProbe>,
    touches: Seq<TouchInfo>,
    effects: EffectsView,
    auto: bool,
    n: int,
)
    requires
        pools_running(effects),
    ensures
        pools_running(judge_lines(lines, probes, touches, effects, auto, n).effects),
    decreases n,
{
    if n > 0 {
        lemma_judge_lines_keep_running(lines, probes, touches, effects, auto, n - 1);
        let before = judge_lines(lines, probes, touches, effects, auto, n - 1);
        if n - 1 < lines.len() && n - 1 < probes.len() && lines[n - 1].enable {
            let line = lines[n - 1];
            let above = judge_notes(
                line.notes_above_state@,
                probes[n - 1].above@,
                before.touches,
                before.effects,
                auto,
                line.notes_above_state@.len() as int,
            );
            lemma_judge_notes_keep_running(
                line.notes_above_state@,
                probes[n - 1].above@,
                before.touches,
                before.effects,
                auto,
                line.notes_above_state@.len() as int,
            );
            lemma_judge_notes_keep_running(
                line.notes_below_state@,
                probes[n - 1].below@,
                above.touches,
                above.effects,
                auto,
                line.notes_below_state@.len() as int,
            );
        }
    }
}

/// Touches follow themselves.
pub proof fn lemma_follow_reflexive(touches: Seq<TouchInfo>)
    ensures
        touches_follow(touches, touches),
{
}

/// What follows touches that follow others, follows those.
pub proof fn lemma_follow_transitive(a: Seq<TouchInfo>, b: Seq<TouchInfo>, c: Seq<TouchInfo>)
    requires
        touches_follow(a, b),
        touches_follow(b, c),
    ensures
        touches_follow(a, c),
{
    assert forall|j: int| 0 <= j < a.len() implies {
        &&& (#[trigger] c[j]).enable == a[j].enable
        &&& c[j].x == a[j].x
        &&& c[j].y == a[j].y
        &&& (a[j].at_rest() ==> c[j].at_rest())
    } by {
        assert(b[j].enable == a[j].enable);
        assert(c[j].enable == b[j].enable);
    }
}

/// The touches at the end of a judging tick follow those judged with, and
/// are spent.
pub proof fn lemma_spent_follows(touches: Seq<TouchInfo>)
    ensures
        touches_follow(touches, spent(touches)),
        all_spent(spent(touches)),
{
}

/// The touches after a note was judged follow those before.
pub proof fn lemma_judge_note_follows(
    note: NoteState,
    touches: Seq<TouchInfo>,
    effects: EffectsView,
    probe: NoteProbe,
    auto: bool,
)
    ensures
        touches_follow(touches, judge_note(note, touches, effects, probe, auto).touches),
{
    lemma_first_touch(touches, probe, TouchNeed::Valid, 0);
    lemma_first_touch(touches, probe, TouchNeed::Present, 0);
    lemma_first_touch(touches, probe, TouchNeed::Swiped, 0);
}

/// The touches after more notes of a side were judged follow those after
/// fewer.
pub proof fn lemma_judge_notes_follow(
    notes: Seq<NoteState>,
    probes: Seq<NoteProbe>,
    touches: Seq<TouchInfo>,
    effects: EffectsView,
    auto: bool,
    fewer: int,
    more: int,
)
    requires
        0 <= fewer <= more,
    ensures
        touches_follow(
            judge_notes(notes, probes, touches, effects, auto, fewer).touches,
            judge_notes(notes, probes, touches, effects, auto, more).touches,
        ),
    decreases more - fewer,
{
    let low = judge_notes(notes, probes, touches, effects, auto, fewer).touches;
    if fewer == more {
        lemma_follow_reflexive(low);
    } else {
        lemma_judge_notes_follow(notes, probes, touches, effects, auto, fewer, more - 1);
        let before = judge_notes(notes, probes, touches, effects, auto, more - 1);
        let after = judge_notes(notes, probes, touches, effects, auto, more);
        if more - 1 < notes.len() && more - 1 < probes.len() {
            lemma_judge_note_follows(
                notes[more - 1],
                before.touches,
                before.effects,
                probes[more - 1],
                auto,
            );
        } else {
            lemma_follow_reflexive(before.touches);
        }
        lemma_follow_transitive(low, before.touches, after.touches);
    }
}

/// A note of a side is as judging left it, however many notes were judged
/// after it.
pub proof fn lemma_judge_notes_keep(
    notes: Seq<NoteState>,
    probes: Seq<NoteProbe>,
    touches: Seq<TouchInfo>,
    effects: EffectsView,
    auto: bool,
    j: int,
    more: int,
)
    requires
        0 <= j < more,
        j < notes.len(),
    ensures
        judge_notes(notes, probes, touches, effects, auto, more).notes[j] == judge_notes(
            notes,
            probes,
            touches,
            effects,
            auto,
            j + 1,
        ).notes[j],
    decreases more - j,
{
    if more > j + 1 {
        lemma_judge_notes_keep(notes, probes, touches, effects, auto, j, more - 1);
        lemma_judge_notes_shape(notes, probes, touches, effects, auto, more - 1);
    }
}

/// Whether judging leaves every note of a side as it is, whatever the
/// effects.
pub open spec fn side_settled(
    notes: Seq<NoteState>,
    probes: Seq<NoteProbe>,
    touches: Seq<TouchInfo>,
    auto: bool,
) -> bool {
    forall|j: int, effects: EffectsView|
        0 <= j < notes.len() && j < probes.len() ==> #[trigger] judge_note(
            notes[j],
            touches,
            effects,
            probes[j],
            auto,
        ) == untouched(notes[j], touches, effects)
}

/// Judging a settled side changes nothing.
pub proof fn lemma_settled_side_stays(
    notes: Seq<NoteState>,
    probes: Seq<NoteProbe>,
    touches: Seq<TouchInfo>,
    effects: EffectsView,
    auto: bool,
    n: int,
)
    requires
        side_settled(notes, probes, touches, auto),
    ensures
        judge_notes(notes, probes, touches, effects, auto, n) == (JudgedNotes {
            notes,
            touches,
            effects,
            judged: false,
        }),
    decreases n,
{
    if n > 0 {
        lemma_settled_side_stays(notes, probes, touches, effects, auto, n - 1);
        if n - 1 < notes.len() && n - 1 < probes.len() {
            assert(judge_note(notes[n - 1], touches, effects, probes[n - 1], auto) == untouched(
                notes[n - 1],
                touches,
                effects,
            ));
            assert(notes.update(n - 1, notes[n - 1]) =~= notes);
        }
    }
}

/// Whether `again` measures the notes of a side again at the moment of
/// `probes`, no time having passed.
pub open spec fn side_measured_again(
    probes: Seq<NoteProbe>,
    again: Seq<NoteProbe>,
    notes: Seq<NoteState>,
) -> bool {
    &&& again.len() == probes.len()
    &&& forall|j: int|
        0 <= j < notes.len() && j < probes.len() ==> same_moment(
            probes[j],
            #[trigger] again[j],
            notes[j],
        )
}

/// Whether no note of a side is due again.
pub open spec fn side_at_rest(notes: Seq<NoteState>, again: Seq<NoteProbe>, auto: bool) -> bool {
    forall|j: int|
        0 <= j < notes.len() && j < again.len() ==> !due_again(notes[j], #[trigger] again[j], auto)
}

/// A side that was judged is settled when it is judged again at the same
/// moment with touches that are spent, unless one of its notes is due again.
pub proof fn lemma_side_settles(
    notes: Seq<NoteState>,
    probes: Seq<NoteProbe>,
    touches: Seq<TouchInfo>,
    effects: EffectsView,
    auto: bool,
    later_touches: Seq<TouchInfo>,
    again: Seq<NoteProbe>,
)
    requires
        touches_follow(
            judge_notes(notes, probes, touches, effects, auto, notes.len() as int).touches,
            later_touches,
        ),
        all_spent(later_touches),
        side_measured_again(
            probes,
            again,
            judge_notes(notes, probes, touches, effects, auto, notes.len() as int).notes,
        ),
        side_at_rest(
            judge_notes(notes, probes, touches, effects, auto, notes.len() as int).notes,
            again,
            auto,
        ),
    ensures
        side_settled(
            judge_notes(notes, probes, touches, effects, auto, notes.len() as int).notes,
            again,
            later_touches,
            auto,
        ),
{
    let len = notes.len() as int;
    let done = judge_notes(notes, probes, touches, effects, auto, len);
    lemma_judge_notes_shape(notes, probes, touches, effects, auto, len);
    assert forall|j: int, later_effects: EffectsView|
        0 <= j < done.notes.len() && j < again.len() implies #[trigger] judge_note(
        done.notes[j],
        later_touches,
        later_effects,
        again[j],
        auto,
    ) == untouched(done.notes[j], later_touches, later_effects) by {
        let before = judge_notes(notes, probes, touches, effects, auto, j);
        let step = judge_note(notes[j], before.touches, before.effects, probes[j], auto);
        lemma_judge_notes_keep(notes, probes, touches, effects, auto, j, len);
        lemma_judge_notes_shape(notes, probes, touches, effects, auto, j);
        assert(judge_notes(notes, probes, touches, effects, auto, j + 1).notes[j] == step.note);
        assert(done.notes[j] == step.note);
        assert(judge_notes(notes, probes, touches, effects, auto, j + 1).touches == step.touches);
        lemma_judge_notes_follow(notes, probes, touches, effects, auto, j + 1, len);
        lemma_follow_transitive(step.touches, done.touches, later_touches);
        assert(same_moment(probes[j], again[j], done.notes[j]));
        assert(!due_again(done.notes[j], again[j], auto));
        lemma_note_settles(
            notes[j],
            before.touches,
            before.effects,
            probes[j],
            auto,
            later_touches,
            later_effects,
            again[j],
        );
    }
}

/// Whether judging leaves every note of every enabled line as it is.
pub open spec fn lines_settled(
    lines: Seq<LineState>,
    probes: Seq<LineProbe>,
    touches: Seq<TouchInfo>,
    auto: bool,
) -> bool {
    forall|i: int|
        0 <= i < lines.len() && i < probes.len() && (#[trigger] lines[i]).enable ==> {
            &&& side_settled(lines[i].notes_above_state@, probes[i].above@, touches, auto)
            &&& side_settled(lines[i].notes_below_state@, probes[i].below@, touches, auto)
        }
}

/// Judging settled lines changes nothing.
pub proof fn lemma_settled_lines_stay(
    lines: Seq<LineState>,
    probes: Seq<LineProbe>,
    touches: Seq<TouchInfo>,
    effects: EffectsView,
    auto: bool,
    n: int,
)
    requires
        lines_settled(lines, probes, touches, auto),
    ensures
        judge_lines(lines, probes, touches, effects, auto, n) == (JudgedLines {
            notes: notes_of(lines),
            touches,
            effects,
            judged: false,
        }),
    decreases n,
{
    if n > 0 {
        lemma_settled_lines_stay(lines, probes, touches, effects, auto, n - 1);
        if n - 1 < lines.len() && n - 1 < probes.len() {
            let line = lines[n - 1];
            if line.enable {
                lemma_settled_side_stays(
                    line.notes_above_state@,
                    probes[n - 1].above@,
                    touches,
                    effects,
                    auto,
                    line.notes_above_state@.len() as int,
                );
                lemma_settled_side_stays(
                    line.notes_below_state@,
                    probes[n - 1].below@,
                    touches,
                    effects,
                    auto,
                    line.notes_below_state@.len() as int,
                );
            }
            assert(notes_of(lines).update(
                n - 1,
                (line.notes_above_state@, line.notes_below_state@),
            ) =~= notes_of(lines));
        }
    }
}

/// The touches after more lines were judged follow those after fewer.
pub proof fn lemma_judge_lines_follow(
    lines: Seq<LineState>,
    probes: Seq<LineProbe>,
    touches: Seq<TouchInfo>,
    effects: EffectsView,
    auto: bool,
    fewer: int,
    more: int,
)
    requires
        0 <= fewer <= more,
    ensures
        touches_follow(
            judge_lines(lines, probes, touches, effects, auto, fewer).touches,
            judge_lines(lines, probes, touches, effects, auto, more).touches,
        ),
    decreases more - fewer,
{
    let low = judge_lines(lines, probes, touches, effects, auto, fewer).touches;
    if fewer == more {
        lemma_follow_reflexive(low);
    } else {
        lemma_judge_lines_follow(lines, probes, touches, effects, auto, fewer, more - 1);
        let before = judge_lines(lines, probes, touches, effects, auto, more - 1);
        let after = judge_lines(lines, probes, touches, effects, auto, more);
        if more - 1 < lines.len() && more - 1 < probes.len() && lines[more - 1].enable {
            let line = lines[more - 1];
            let above = judge_notes(
                line.notes_above_state@,
                probes[more - 1].above@,
                before.touches,
                before.effects,
                auto,
                line.notes_above_state@.len() as int,
            );
            lemma_judge_notes_follow(
                line.notes_above_state@,
                probes[more - 1].above@,
                before.touches,
                before.effects,
                auto,
                0,
                line.notes_above_state@.len() as int,
            );
            lemma_judge_notes_follow(
                line.notes_below_state@,
                probes[more - 1].below@,
                above.touches,
                above.effects,
                auto,
                0,
                line.notes_below_state@.len() as int,
            );
            lemma_follow_transitive(before.touches, above.touches, after.touches);
        } else {
            lemma_follow_reflexive(before.touches);
        }
        lemma_follow_transitive(low, before.touches, after.touches);
    }
}

/// A line is as judging left it, however many lines were judged after it.
pub proof fn lemma_judge_lines_keep(
    lines: Seq<LineState>,
    probes: Seq<LineProbe>,
    touches: Seq<TouchInfo>,
    effects: EffectsView,
    auto: bool,
    i: int,
    more: int,
)
    requires
        0 <= i < more,
        i < lines.len(),
    ensures
        judge_lines(lines, probes, touches, effects, auto, more).notes[i] == judge_lines(
            lines,
            probes,
            touches,
            effects,
            auto,
            i + 1,
        ).notes[i],
    decreases more - i,
{
    if more > i + 1 {
        lemma_judge_lines_keep(lines, probes, touches, effects, auto, i, more - 1);
        lemma_judge_lines_shape(lines, probes, touches, effects, auto, more - 1);
    }
}

/// Whether `again` measures all notes again at the moment of `probes`, no
/// time having passed, `lines` being the lines as judging left them.
pub open spec fn measured_again(
    probes: Seq<LineProbe>,
    again: Seq<LineProbe>,
    lines: Seq<LineState>,
) -> bool {
    &&& again.len() == probes.len()
    &&& forall|i: int|
        0 <= i < lines.len() && i < probes.len() ==> {
            &&& side_measured_again(
                probes[i].above@,
                (#[trigger] again[i]).above@,
                lines[i].notes_above_state@,
            )
            &&& side_measured_again(probes[i].below@, again[i].below@, lines[i].notes_below_state@)
        }
}

/// Whether no note of any line is due again.
pub open spec fn nothing_due(lines: Seq<LineState>, again: Seq<LineProbe>, auto: bool) -> bool {
    forall|i: int|
        0 <= i < lines.len() && i < again.len() ==> {
            &&& side_at_rest(lines[i].notes_above_state@, (#[trigger] again[i]).above@, auto)
            &&& side_at_rest(lines[i].notes_below_state@, again[i].below@, auto)
        }
}

/// Whether `after` are the lines `before` as a judging tick with `probes`
/// leaves them.
pub open spec fn judged_from(
    before: Seq<LineState>,
    after: Seq<LineState>,
    probes: Seq<LineProbe>,
    touches: Seq<TouchInfo>,
    effects: EffectsView,
    auto: bool,
) -> bool {
    &&& after.len() == before.len()
    &&& notes_of(after) == judge_lines(
        before,
        probes,
        touches,
        effects,
        auto,
        before.len() as int,
    ).notes
    &&& forall|i: int| 0 <= i < before.len() ==> (#[trigger] after[i]).enable == before[i].enable
}

/// Judging is idempotent at a moment: when the lines are judged again right
/// after a judging tick, with the touches as that tick left them and with
/// the notes measured again at the same moment, no note, no touch and no
/// effect changes and no judgement is made, unless a note is due again. The
/// touches are spent by the first tick, so no tap is judged by the second.
pub proof fn lemma_judging_twice_is_judging_once(
    lines: Seq<LineState>,
    probes: Seq<LineProbe>,
    touches: Seq<TouchInfo>,
    effects: EffectsView,
    auto: bool,
    judged: Seq<LineState>,
    again: Seq<LineProbe>,
    later_effects: EffectsView,
)
    requires
        judged_from(lines, judged, probes, touches, effects, auto),
        measured_again(probes, again, judged),
        nothing_due(judged, again, auto),
    ensures
        judge_lines(
            judged,
            again,
            spent(
                judge_lines(lines, probes, touches, effects, auto, lines.len() as int).touches,
            ),
            later_effects,
            auto,
            judged.len() as int,
        ) == (JudgedLines {
            notes: notes_of(judged),
            touches: spent(
                judge_lines(lines, probes, touches, effects, auto, lines.len() as int).touches,
            ),
            effects: later_effects,
            judged: false,
        }),
{
    let len = lines.len() as int;
    let first = judge_lines(lines, probes, touches, effects, auto, len);
    let later = spent(first.touches);
    lemma_spent_follows(first.touches);
    assert forall|i: int|
        0 <= i < judged.len() && i < again.len() && (#[trigger] judged[i]).enable implies {
        &&& side_settled(judged[i].notes_above_state@, again[i].above@, later, auto)
        &&& side_settled(judged[i].notes_below_state@, again[i].below@, later, auto)
    } by {
        let line = lines[i];
        let before = judge_lines(lines, probes, touches, effects, auto, i);
        let above = judge_notes(
            line.notes_above_state@,
            probes[i].above@,
            before.touches,
            before.effects,
            auto,
            line.notes_above_state@.len() as int,
        );
        let below = judge_notes(
            line.notes_below_state@,
            probes[i].below@,
            above.touches,
            above.effects,
            auto,
            line.notes_below_state@.len() as int,
        );
        lemma_judge_lines_keep(lines, probes, touches, effects, auto, i, len);
        lemma_judge_lines_shape(lines, probes, touches, effects, auto, i);
        assert(line.enable);
        assert(judge_lines(lines, probes, touches, effects, auto, i + 1).notes[i] == (
            above.notes,
            below.notes,
        ));
        assert(notes_of(judged)[i] == (above.notes, below.notes));
        assert(judged[i].notes_above_state@ == above.notes);
        assert(judged[i].notes_below_state@ == below.notes);
        assert(judge_lines(lines, probes, touches, effects, auto, i + 1).touches == below.touches);
        lemma_judge_lines_follow(lines, probes, touches, effects, auto, i + 1, len);
        lemma_follow_transitive(below.touches, first.touches, later);
        lemma_judge_notes_follow(
            line.notes_below_state@,
            probes[i].below@,
            above.touches,
            above.effects,
            auto,
            0,
            line.notes_below_state@.len() as int,
        );
        lemma_follow_transitive(above.touches, below.touches, later);
        lemma_side_settles(
            line.notes_above_state@,
            probes[i].above@,
            before.touches,
            before.effects,
            auto,
            later,
            again[i].above@,
        );
        lemma_side_settles(
            line.notes_below_state@,
            probes[i].below@,
            above.touches,
            above.effects,
            auto,
            later,
            again[i].below@,
        );
    }
    lemma_settled_lines_stay(judged, again, later, later_effects, auto, judged.len() as int);
}

} // verus!
