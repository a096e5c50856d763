//! The chart model: judgement lines, their notes and their keyframed events.
//!
//! Times are in ticks, thirty-two to a beat. Whatever a chart value needs
//! multiplied or divided is stored next to it, computed once by the host:
//! a line carries its tick length as a fixed-point integer, a note carries
//! its start and end in seconds.

use vstd::prelude::*;
use vstd::std_specs::convert::{FromSpecImpl, TryFromSpecImpl};
use crate::scalar::Real;
use crate::sorting::Ranked;

verus! {

/// The four kinds of note.
#[derive(Clone, Copy, Debug, PartialEq, Eq, Structural)]
pub enum NoteType {
    Tap,
    Drag,
    Hold,
    Flick,
}

/// The note kind that a chart's number stands for, if it stands for one.
pub open spec fn note_type_of(value: i32) -> Result<NoteType, ()> {
    if value == 1 {
        Ok(NoteType::Tap)
    } else if value == 2 {
        Ok(NoteType::Drag)
    } else if value == 3 {
        Ok(NoteType::Hold)
    } else if value == 4 {
        Ok(NoteType::Flick)
    } else {
        Err(())
    }
}

/// The number that a note kind is written as, in charts and in draw records.
pub open spec fn note_type_code(value: NoteType) -> i8 {
    match value {
        NoteType::Tap => 1i8,
        NoteType::Drag => 2i8,
        NoteType::Hold => 3i8,
        NoteType::Flick => 4i8,
    }
}

impl TryFrom<i32> for NoteType {
    type Error = ();

    fn try_from(value: i32) -> (r: Result<Self, ()>) {
        match value {
            1 => Ok(NoteType::Tap),
            2 => Ok(NoteType::Drag),
            3 => Ok(NoteType::Hold),
            4 => Ok(NoteType::Flick),
            _ => Err(()),
        }
    }
}

impl TryFromSpecImpl<i32> for NoteType {
    open spec fn obeys_try_from_spec() -> bool {
        true
    }

    open spec fn try_from_spec(v: i32) -> Result<Self, ()> {
        note_type_of(v)
    }
}

impl From<NoteType> for i8 {
    fn from(value: NoteType) -> (r: i8) {
        match value {
            NoteType::Tap => 1,
            NoteType::Drag => 2,
            NoteType::Hold => 3,
            NoteType::Flick => 4,
        }
    }
}

impl FromSpecImpl<NoteType> for i8 {
    open spec fn obeys_from_spec() -> bool {
        true
    }

    open spec fn from_spec(v: NoteType) -> i8 {
        note_type_code(v)
    }
}

/// One note of a judgement line.
#[derive(Clone, Copy, Debug)]
pub struct Note {
    pub note_type: NoteType,
    /// When the note crosses its line, in ticks.
    pub time: i32,
    pub position_x: Real,
    /// How long a hold lasts, in ticks.
    pub hold_time: Real,
    pub speed: Real,
    pub floor_position: Real,
    /// `time` times the line's tick length, in seconds.
    pub start_second: Real,
    /// `time + hold_time` times the line's tick length, in seconds.
    pub end_second: Real,
    /// `end_second` in units of ten microseconds, cut to an integer.
    pub end_rank: i32,
}

impl Ranked for Note {
    open spec fn rank_spec(&self) -> i32 {
        self.time
    }

    fn rank(&self) -> (r: i32) {
        self.time
    }
}

/// A speed event: one value over a span of ticks.
#[derive(Clone, Copy, Debug)]
pub struct Event1 {
    pub start_time: Real,
    pub end_time: Real,
    pub value: Real,
}

/// A rotate or alpha event: a value that runs from `start` to `end`.
#[derive(Clone, Copy, Debug)]
pub struct Event2 {
    pub start_time: Real,
    pub end_time: Real,
    pub start: Real,
    pub end: Real,
}

/// A move event: a point that runs from `(start, start2)` to `(end, end2)`.
#[derive(Clone, Copy, Debug)]
pub struct Event4 {
    pub start_time: Real,
    pub end_time: Real,
    pub start: Real,
    pub end: Real,
    pub start2: Real,
    pub end2: Real,
}

/// An event's values at its start and at its end.
pub trait WithValue<T> {
    spec fn value_spec(&self) -> (T, T);

    spec fn zero_spec() -> (T, T);

    /// The values at the start and at the end of the event.
    fn get_value(&self) -> (r: (T, T))
        ensures
            r == self.value_spec(),
    ;

    /// The values that stand in where no event applies.
    fn zero() -> (r: (T, T))
        ensures
            r == Self::zero_spec(),
    ;
}

impl WithValue<Real> for Event1 {
    open spec fn value_spec(&self) -> (Real, Real) {
        (self.value, self.value)
    }

    open spec fn zero_spec() -> (Real, Real) {
        (Real::zero_spec(), Real::zero_spec())
    }

    fn get_value(&self) -> (r: (Real, Real)) {
        (self.value, self.value)
    }

    fn zero() -> (r: (Real, Real)) {
        (Real::zero(), Real::zero())
    }
}

impl WithValue<Real> for Event2 {
    open spec fn value_spec(&self) -> (Real, Real) {
        (self.start, self.end)
    }

    open spec fn zero_spec() -> (Real, Real) {
        (Real::zero_spec(), Real::zero_spec())
    }

    fn get_value(&self) -> (r: (Real, Real)) {
        (self.start, self.end)
    }

    fn zero() -> (r: (Real, Real)) {
        (Real::zero(), Real::zero())
    }
}

impl WithValue<(Real, Real)> for Event4 {
    open spec fn value_spec(&self) -> ((Real, Real), (Real, Real)) {
        ((self.start, self.end), (self.start2, self.end2))
    }

    open spec fn zero_spec() -> ((Real, Real), (Real, Real)) {
        ((Real::zero_spec(), Real::zero_spec()), (Real::zero_spec(), Real::zero_spec()))
    }

    fn get_value(&self) -> (r: ((Real, Real), (Real, Real))) {
        ((self.start, self.end), (self.start2, self.end2))
    }

    fn zero() -> (r: ((Real, Real), (Real, Real))) {
        ((Real::zero(), Real::zero()), (Real::zero(), Real::zero()))
    }
}

/// Where a moment lies with respect to a span of time.
#[derive(Clone, Copy, Debug, PartialEq, Eq, Structural)]
pub enum TimeState {
    /// Before the span starts.
    Early,
    /// Neither before its start nor after its end.
    During,
    /// After the span ends.
    Late,
}

/// Where `time` lies with respect to the span from `start` to `end`.
pub open spec fn time_state(time: Real, start: Real, end: Real) -> TimeState {
    if time.lt_spec(start) {
        TimeState::Early
    } else if time.gt_spec(end) {
        TimeState::Late
    } else {
        TimeState::During
    }
}

/// An event's span of ticks.
pub trait WithTimeRange {
    spec fn start_spec(&self) -> Real;

    spec fn end_spec(&self) -> Real;

    fn time_start(&self) -> (r: Real)
        ensures
            r == self.start_spec(),
    ;

    fn time_end(&self) -> (r: Real)
        ensures
            r == self.end_spec(),
    ;

    /// Where `time` lies with respect to the event.
    fn check_time(&self, time: Real) -> (r: TimeState)
        ensures
            r == time_state(time, self.start_spec(), self.end_spec()),
    {
        if time.lt(self.time_start()) {
            TimeState::Early
        } else if time.gt(self.time_end()) {
            TimeState::Late
        } else {
            TimeState::During
        }
    }
}

impl WithTimeRange for Event1 {
    open spec fn start_spec(&self) -> Real {
        self.start_time
    }

    open spec fn end_spec(&self) -> Real {
        self.end_time
    }

    fn time_start(&self) -> (r: Real) {
        self.start_time
    }

    fn time_end(&self) -> (r: Real) {
        self.end_time
    }
}

impl WithTimeRange for Event2 {
    open spec fn start_spec(&self) -> Real {
        self.start_time
    }

    open spec fn end_spec(&self) -> Real {
        self.end_time
    }

    fn time_start(&self) -> (r: Real) {
        self.start_time
    }

    fn time_end(&self) -> (r: Real) {
        self.end_time
    }
}

impl WithTimeRange for Event4 {
    open spec fn start_spec(&self) -> Real {
        self.start_time
    }

    open spec fn end_spec(&self) -> Real {
        self.end_time
    }

    fn time_start(&self) -> (r: Real) {
        self.start_time
    }

    fn time_end(&self) -> (r: Real) {
        self.end_time
    }
}

/// One judgement line of a chart.
pub struct JudgeLine {
    pub bpm: Real,
    /// The length of a tick in units of 1/32768 second, cut to an integer.
    pub tick_scale: i32,
    /// The latest start of an event of the line, in seconds; zero where the
    /// line has no events.
    pub event_second: Real,
    pub notes_above: Vec<Note>,
    pub notes_below: Vec<Note>,
    pub speed_events: Vec<Event1>,
    pub move_events: Vec<Event4>,
    pub rotate_events: Vec<Event2>,
    pub alpha_events: Vec<Event2>,
}

/// The formats that a chart can be written in.
#[derive(Clone, Copy, Debug, PartialEq, Eq, Structural)]
pub enum FormatVersion {
    /// The first format, in which a move event packs a point into one number.
    V1,
    /// The current format.
    V3,
}

impl FormatVersion {
    /// The number that a chart names the format by.
    pub open spec fn number_spec(self) -> i32 {
        match self {
            FormatVersion::V1 => 1i32,
            FormatVersion::V3 => 3i32,
        }
    }

    /// The number that a chart names the format by.
    pub fn number(self) -> (r: i32)
        ensures
            r == self.number_spec(),
    {
        match self {
            FormatVersion::V1 => 1,
            FormatVersion::V3 => 3,
        }
    }
}

/// A chart in its current format.
pub struct Chart {
    pub offset: Real,
    pub judge_line_list: Vec<JudgeLine>,
}

} // verus!
