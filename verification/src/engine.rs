//! The engine: every pool and every count, owned in one place.

use vstd::prelude::*;
use crate::draw::DrawImageOffset;
use crate::input::TouchInfo;
use crate::states::LineState;
use crate::states_effect::Effects;
use crate::states_statistics::{ChartStatistics, NoteIndex};

verus! {

/// The number of judgement lines.
pub const LINE_SLOTS: usize = 50;

/// The number of touch points.
pub const TOUCH_SLOTS: usize = 30;

/// The whole state of a chart in play.
pub struct Engine {
    pub lines: Vec<LineState>,
    pub touches: Vec<TouchInfo>,
    pub effects: Effects,
    pub statistics: ChartStatistics,
    pub flatten_index: Vec<NoteIndex>,
    pub image_offset: DrawImageOffset,
}

/// Line slots that hold nothing.
pub fn empty_lines() -> (lines: Vec<LineState>)
    ensures
        lines@.len() == LINE_SLOTS,
        forall|i: int| 0 <= i < LINE_SLOTS ==> (#[trigger] lines@[i]).is_default(),
{
    let mut lines: Vec<LineState> = Vec::new();
    let mut i: usize = 0;
    while i < LINE_SLOTS
        invariant
            i <= LINE_SLOTS,
            lines@.len() == i,
            forall|k: int| 0 <= k < i ==> (#[trigger] lines@[k]).is_default(),
        decreases LINE_SLOTS - i,
    {
        lines.push(LineState::default());
        i = i + 1;
    }
    lines
}

/// Touch points that are all up.
pub fn empty_touches() -> (touches: Vec<TouchInfo>)
    ensures
        touches@.len() == TOUCH_SLOTS,
        forall|i: int| 0 <= i < TOUCH_SLOTS ==> #[trigger] touches@[i] == TouchInfo::default_spec(),
{
    let mut touches: Vec<TouchInfo> = Vec::new();
    let mut i: usize = 0;
    while i < TOUCH_SLOTS
        invariant
            i <= TOUCH_SLOTS,
            touches@.len() == i,
            forall|k: int| 0 <= k < i ==> #[trigger] touches@[k] == TouchInfo::default_spec(),
        decreases TOUCH_SLOTS - i,
    {
        touches.push(TouchInfo::default());
        i = i + 1;
    }
    touches
}

impl Engine {
    /// Whether every pool has its fixed size.
    pub open spec fn wf(&self) -> bool {
        &&& self.lines@.len() == LINE_SLOTS
        &&& self.touches@.len() == TOUCH_SLOTS
        &&& self.effects.wf()
    }

    /// Whether the engine holds no chart and no trace of play: every line
    /// slot holds nothing, every touch is up, nothing plays or sounds, the
    /// statistics are zero and the flat index is empty.
    pub open spec fn is_cleared(&self) -> bool {
        &&& self.wf()
        &&& forall|i: int| 0 <= i < self.lines@.len() ==> (#[trigger] self.lines@[i]).is_default()
        &&& forall|i: int|
            0 <= i < self.touches@.len() ==> #[trigger] self.touches@[i]
                == TouchInfo::default_spec()
        &&& self.effects.is_default()
        &&& self.statistics == ChartStatistics::default_spec()
        &&& self.flatten_index@ =~= Seq::empty()
    }

    /// An engine that holds no chart, with all image heights zero.
    pub fn new() -> (engine: Engine)
        ensures
            engine.is_cleared(),
            engine.image_offset == DrawImageOffset::default_spec(),
    {
        Engine {
            lines: empty_lines(),
            touches: empty_touches(),
            effects: Effects::new(),
            statistics: ChartStatistics::default(),
            flatten_index: Vec::new(),
            image_offset: DrawImageOffset::default(),
        }
    }
}

} // verus!
