//! Touch input. A touch is named by the number of its slot; a number that
//! names no slot is ignored.

use vstd::prelude::*;
use crate::engine::Engine;
use crate::input::TouchInfo;

verus! {

/// Whether `after` is `before` with nothing but the touches changed.
pub open spec fn same_but_touches(after: &Engine, before: &Engine) -> bool {
    &&& after.lines == before.lines
    &&& after.effects == before.effects
    &&& after.statistics == before.statistics
    &&& after.flatten_index == before.flatten_index
    &&& after.image_offset == before.image_offset
}

/// The touches with the one in slot `id` put down at a point. It may judge,
/// and its length is measured from that point.
pub open spec fn touches_down(touches: Seq<TouchInfo>, id: usize, x: u32, y: u32) -> Seq<TouchInfo> {
    if id < touches.len() {
        touches.update(
            id as int,
            TouchInfo { enable: true, x, y, touch_valid: true, init_x: x, init_y: y },
        )
    } else {
        touches
    }
}

/// The touches with the one in slot `id` moved to a point.
pub open spec fn touches_moved(touches: Seq<TouchInfo>, id: usize, x: u32, y: u32) -> Seq<TouchInfo> {
    if id < touches.len() {
        touches.update(id as int, TouchInfo { x, y, ..touches[id as int] })
    } else {
        touches
    }
}

/// The touches with the one in slot `id` lifted.
pub open spec fn touches_up(touches: Seq<TouchInfo>, id: usize) -> Seq<TouchInfo> {
    if id < touches.len() {
        touches.update(id as int, TouchInfo { enable: false, ..touches[id as int] })
    } else {
        touches
    }
}

/// The touches all lifted.
pub open spec fn touches_cleared(touches: Seq<TouchInfo>) -> Seq<TouchInfo> {
    Seq::new(touches.len(), |i: int| TouchInfo { enable: false, ..touches[i] })
}

/// Puts a touch down. The coordinates are the bit patterns of binary32
/// numbers.
pub fn set_touch_down(engine: &mut Engine, id: usize, x: u32, y: u32)
    ensures
        old(engine).wf() ==> final(engine).wf(),
        final(engine).touches@ == touches_down(old(engine).touches@, id, x, y),
        same_but_touches(final(engine), old(engine)),
        id >= old(engine).touches@.len() ==> *final(engine) == *old(engine),
{
    if id < engine.touches.len() {
        engine.touches[id].touch_down(x, y);
    }
}

/// Moves a touch.
pub fn set_touch_move(engine: &mut Engine, id: usize, x: u32, y: u32)
    ensures
        old(engine).wf() ==> final(engine).wf(),
        final(engine).touches@ == touches_moved(old(engine).touches@, id, x, y),
        same_but_touches(final(engine), old(engine)),
        id >= old(engine).touches@.len() ==> *final(engine) == *old(engine),
{
    if id < engine.touches.len() {
        engine.touches[id].touch_move(x, y);
    }
}

/// Lifts a touch.
pub fn set_touch_up(engine: &mut Engine, id: usize)
    ensures
        old(engine).wf() ==> final(engine).wf(),
        final(engine).touches@ == touches_up(old(engine).touches@, id),
        same_but_touches(final(engine), old(engine)),
        id >= old(engine).touches@.len() ==> *final(engine) == *old(engine),
{
    if id < engine.touches.len() {
        engine.touches[id].touch_up();
    }
}

/// Lifts every touch.
pub fn clear_touch(engine: &mut Engine)
    ensures
        old(engine).wf() ==> final(engine).wf(),
        final(engine).touches@ == touches_cleared(old(engine).touches@),
        same_but_touches(final(engine), old(engine)),
{
    let len: usize = engine.touches.len();
    let mut i: usize = 0;
    while i < len
        invariant
            len == engine.touches@.len(),
            len == old(engine).touches@.len(),
            i <= len,
            same_but_touches(engine, old(engine)),
            forall|k: int|
                0 <= k < i ==> #[trigger] engine.touches@[k] == touches_cleared(
                    old(engine).touches@,
                )[k],
            forall|k: int| i <= k < len ==> #[trigger] engine.touches@[k] == old(engine).touches@[k],
        decreases len - i,
    {
        engine.touches[i].enable = false;
        i = i + 1;
    }
    assert(engine.touches@ =~= touches_cleared(old(engine).touches@));
}

} // verus!
