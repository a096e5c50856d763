//! Finding the event that applies at a moment, for each track of a line.

use vstd::prelude::*;
use crate::chart::{time_state, Event1, Event2, Event4, TimeState, WithTimeRange, WithValue};
use crate::scalar::Real;
use crate::states::LineState;

verus! {

/// How far into the found event the moment lies.
#[derive(Clone, Copy, Debug, PartialEq, Eq, Structural)]
pub enum Fraction {
    /// At its start: no event applies, and the zero values stand in.
    Zero,
    /// The elapsed share of the event's span, for the host to compute.
    Ratio,
    /// At its end.
    One,
}

/// Where `tick_time` lies with respect to the event at place `i`.
pub open spec fn event_state<T: WithTimeRange>(events: Seq<T>, tick_time: Real, i: int) -> TimeState {
    time_state(tick_time, events[i].start_spec(), events[i].end_spec())
}

/// The result of probing downward from place `i`: the nearest event at or
/// below `i` that is not still to come, taken at its end if it is over.
pub open spec fn probe_down<T: WithTimeRange>(events: Seq<T>, tick_time: Real, i: int) -> Option<
    (int, Fraction),
>
    decreases i + 1,
{
    if i < 0 || i >= events.len() {
        None
    } else {
        match event_state(events, tick_time, i) {
            TimeState::Early => probe_down(events, tick_time, i - 1),
            TimeState::Late => Some((i, Fraction::One)),
            TimeState::During => Some((i, Fraction::Ratio)),
        }
    }
}

/// The result of probing upward from place `i`: the nearest event at or
/// above `i` that is not over, taken at its end if it is still to come; the
/// last event at its end if all are over.
pub open spec fn probe_up<T: WithTimeRange>(events: Seq<T>, tick_time: Real, i: int) -> Option<
    (int, Fraction),
>
    decreases events.len() - i,
{
    if i < 0 {
        None
    } else if i >= events.len() {
        if events.len() == 0 {
            None
        } else {
            Some((events.len() - 1, Fraction::One))
        }
    } else {
        match event_state(events, tick_time, i) {
            TimeState::Late => probe_up(events, tick_time, i + 1),
            TimeState::Early => Some((i, Fraction::One)),
            TimeState::During => Some((i, Fraction::Ratio)),
        }
    }
}

/// The event that applies at `tick_time`, found by probing from the cached
/// place: its place and how far into it the moment lies, or `None` where the
/// moment lies before every event from the cached place down.
pub open spec fn current_event<T: WithTimeRange>(
    events: Seq<T>,
    tick_time: Real,
    cache_index: usize,
) -> Option<(int, Fraction)> {
    if cache_index >= events.len() {
        probe_up(events, tick_time, events.len() as int)
    } else {
        match event_state(events, tick_time, cache_index as int) {
            TimeState::Early => probe_down(events, tick_time, cache_index - 1),
            TimeState::Late => probe_up(events, tick_time, cache_index + 1),
            TimeState::During => Some((cache_index as int, Fraction::Ratio)),
        }
    }
}

/// Whatever place is cached, probing finds the one event that the moment
/// lies in, provided that every event before it is over and every event
/// after it is still to come. So what a track gives at a moment does not
/// depend on the moments it was probed at before.
pub proof fn lemma_probe_ignores_cache<T: WithTimeRange>(
    events: Seq<T>,
    tick_time: Real,
    k: int,
    cache_index: usize,
)
    requires
        0 <= k < events.len(),
        cache_index < events.len(),
        event_state(events, tick_time, k) == TimeState::During,
        forall|i: int| 0 <= i < k ==> event_state(events, tick_time, i) == TimeState::Late,
        forall|i: int|
            k < i < events.len() ==> event_state(events, tick_time, i) == TimeState::Early,
    ensures
        current_event(events, tick_time, cache_index) == Some((k, Fraction::Ratio)),
{
    if cache_index < k {
        lemma_probe_up_finds(events, tick_time, k, cache_index + 1);
    }
    if cache_index > k {
        lemma_probe_down_finds(events, tick_time, k, cache_index - 1);
    }
}

proof fn lemma_probe_up_finds<T: WithTimeRange>(events: Seq<T>, tick_time: Real, k: int, from: int)
    requires
        0 <= k < events.len(),
        0 <= from <= k,
        event_state(events, tick_time, k) == TimeState::During,
        forall|i: int| 0 <= i < k ==> event_state(events, tick_time, i) == TimeState::Late,
    ensures
        probe_up(events, tick_time, from) == Some((k, Fraction::Ratio)),
    decreases k - from,
{
    if from < k {
        lemma_probe_up_finds(events, tick_time, k, from + 1);
    }
}

proof fn lemma_probe_down_finds<T: WithTimeRange>(events: Seq<T>, tick_time: Real, k: int, from: int)
    requires
        0 <= k < events.len(),
        k <= from < events.len(),
        event_state(events, tick_time, k) == TimeState::During,
        forall|i: int|
            k < i < events.len() ==> event_state(events, tick_time, i) == TimeState::Early,
    ensures
        probe_down(events, tick_time, from) == Some((k, Fraction::Ratio)),
    decreases from - k,
{
    if from > k {
        lemma_probe_down_finds(events, tick_time, k, from - 1);
    }
}

/// Whether the events follow one another: none ends before it starts, and
/// none starts before the one before it has ended.
pub open spec fn in_order<T: WithTimeRange>(events: Seq<T>) -> bool {
    &&& forall|i: int|
        0 <= i < events.len() ==> (#[trigger] events[i]).start_spec().le_spec(events[i].end_spec())
    &&& forall|i: int|
        0 <= i < events.len() - 1 ==> (#[trigger] events[i]).end_spec().le_spec(
            events[i + 1].start_spec(),
        )
}

proof fn lemma_order_chain<T: WithTimeRange>(events: Seq<T>, i: int, j: int)
    requires
        in_order(events),
        0 <= i < j < events.len(),
    ensures
        events[i].end_spec().le_spec(events[j].start_spec()),
    decreases j - i,
{
    assert(events[i].end_spec().le_spec(events[i + 1].start_spec()));
    if i + 1 < j {
        lemma_order_chain(events, i + 1, j);
        assert(events[i + 1].start_spec().le_spec(events[i + 1].end_spec()));
    }
}

/// On a track whose events follow one another, a moment that lies strictly
/// inside an event finds that event from whatever place is cached: what the
/// track gives depends on the moment and the chart alone.
pub proof fn lemma_ordered_track_ignores_cache<T: WithTimeRange>(
    events: Seq<T>,
    tick_time: Real,
    k: int,
    cache_index: usize,
)
    requires
        in_order(events),
        0 <= k < events.len(),
        cache_index < events.len(),
        events[k].start_spec().lt_spec(tick_time),
        tick_time.lt_spec(events[k].end_spec()),
    ensures
        current_event(events, tick_time, cache_index) == Some((k, Fraction::Ratio)),
{
    assert forall|i: int| 0 <= i < k implies event_state(events, tick_time, i)
        == TimeState::Late by {
        lemma_order_chain(events, i, k);
        assert(events[i].start_spec().le_spec(events[i].end_spec()));
    }
    assert forall|i: int| k < i < events.len() implies event_state(events, tick_time, i)
        == TimeState::Early by {
        lemma_order_chain(events, k, i);
    }
    lemma_probe_ignores_cache(events, tick_time, k, cache_index);
}

/// Whatever place is cached, a moment behind all events finds the last event
/// at its end.
pub proof fn lemma_probe_past_the_end<T: WithTimeRange>(
    events: Seq<T>,
    tick_time: Real,
    cache_index: usize,
)
    requires
        events.len() > 0,
        forall|i: int|
            0 <= i < events.len() ==> event_state(events, tick_time, i) == TimeState::Late,
    ensures
        current_event(events, tick_time, cache_index) == Some(
            (events.len() - 1, Fraction::One),
        ),
{
    if cache_index < events.len() {
        lemma_probe_up_all_late(events, tick_time, cache_index + 1);
    }
}

proof fn lemma_probe_up_all_late<T: WithTimeRange>(events: Seq<T>, tick_time: Real, from: int)
    requires
        events.len() > 0,
        0 <= from <= events.len(),
        forall|i: int|
            0 <= i < events.len() ==> event_state(events, tick_time, i) == TimeState::Late,
    ensures
        probe_up(events, tick_time, from) == Some((events.len() - 1, Fraction::One)),
    decreases events.len() - from,
{
    if from < events.len() {
        lemma_probe_up_all_late(events, tick_time, from + 1);
    }
}

/// Whatever place among the events is cached, a moment ahead of all events
/// finds nothing.
pub proof fn lemma_probe_before_the_start<T: WithTimeRange>(
    events: Seq<T>,
    tick_time: Real,
    cache_index: usize,
)
    requires
        cache_index < events.len(),
        forall|i: int|
            0 <= i < events.len() ==> event_state(events, tick_time, i) == TimeState::Early,
    ensures
        current_event(events, tick_time, cache_index).is_none(),
{
    lemma_probe_down_all_early(events, tick_time, cache_index - 1);
}

proof fn lemma_probe_down_all_early<T: WithTimeRange>(events: Seq<T>, tick_time: Real, from: int)
    requires
        -1 <= from < events.len(),
        forall|i: int|
            0 <= i < events.len() ==> event_state(events, tick_time, i) == TimeState::Early,
    ensures
        probe_down(events, tick_time, from).is_none(),
    decreases from + 1,
{
    if from >= 0 {
        lemma_probe_down_all_early(events, tick_time, from - 1);
    }
}

/// Whether what was found is where the moment lies: in the event, or
/// behind the last event.
pub open spec fn found_in_place<T: WithTimeRange>(
    events: Seq<T>,
    tick_time: Real,
    k: int,
    fraction: Fraction,
) -> bool {
    ||| fraction == Fraction::Ratio
    ||| fraction == Fraction::One && k == events.len() - 1 && event_state(events, tick_time, k)
        == TimeState::Late
}

proof fn lemma_probe_down_none<T: WithTimeRange>(events: Seq<T>, tick_time: Real, from: int)
    requires
        -1 <= from < events.len(),
        probe_down(events, tick_time, from).is_none(),
    ensures
        forall|i: int| 0 <= i <= from ==> event_state(events, tick_time, i) == TimeState::Early,
    decreases from + 1,
{
    if from >= 0 {
        lemma_probe_down_none(events, tick_time, from - 1);
    }
}

proof fn lemma_probe_up_found<T: WithTimeRange>(events: Seq<T>, tick_time: Real, from: int)
    requires
        0 <= from,
    ensures
        match probe_up(events, tick_time, from) {
            Some((k, fraction)) => {
                &&& 0 <= k < events.len()
                &&& fraction == Fraction::Ratio ==> event_state(events, tick_time, k)
                    == TimeState::During
            },
            None => events.len() == 0,
        },
    decreases events.len() - from,
{
    if from < events.len() {
        lemma_probe_up_found(events, tick_time, from + 1);
    }
}

proof fn lemma_probe_down_found<T: WithTimeRange>(events: Seq<T>, tick_time: Real, from: int)
    requires
        from < events.len(),
    ensures
        match probe_down(events, tick_time, from) {
            Some((k, fraction)) => {
                &&& 0 <= k < events.len()
                &&& fraction == Fraction::Ratio ==> event_state(events, tick_time, k)
                    == TimeState::During
            },
            None => true,
        },
    decreases from + 1,
{
    if from >= 0 {
        lemma_probe_down_found(events, tick_time, from - 1);
    }
}

/// Probing again at the same moment, from the place that was cached, finds
/// what was found before, provided that what was found is where the moment
/// lies. In a gap between two events it is not: there the probe stops at
/// the event on the far side of the gap, and the next probe comes back.
pub proof fn lemma_probe_again<T: WithTimeRange>(
    events: Seq<T>,
    tick_time: Real,
    cache_index: usize,
)
    requires
        events.len() <= usize::MAX,
        match current_event(events, tick_time, cache_index) {
            Some((k, fraction)) => found_in_place(events, tick_time, k, fraction),
            None => true,
        },
    ensures
        match current_event(events, tick_time, cache_index) {
            Some((k, fraction)) => current_event(events, tick_time, k as usize) == Some(
                (k, fraction),
            ),
            None => current_event(events, tick_time, 0).is_none(),
        },
{
    let len = events.len() as int;
    lemma_probe_up_found(events, tick_time, len);
    if cache_index < len {
        lemma_probe_up_found(events, tick_time, cache_index + 1);
        lemma_probe_down_found(events, tick_time, cache_index - 1);
    }
    match current_event(events, tick_time, cache_index) {
        Some((k, fraction)) => {
            if fraction == Fraction::One {
                lemma_probe_up_found(events, tick_time, k + 1);
            }
        },
        None => {
            if 0 < len && cache_index < len {
                lemma_probe_down_none(events, tick_time, cache_index - 1);
            }
        },
    }
}

/// Finds the event that applies at `tick_time`, starting from a cached place
/// and stepping toward the side on which the moment lies.
pub fn find_current_event<T: WithTimeRange>(
    tick_time: Real,
    events: &[T],
    cache_index: usize,
) -> (r: Option<(&T, usize, Fraction)>)
    ensures
        match r {
            Some((event, index, fraction)) => {
                &&& current_event(events@, tick_time, cache_index) == Some((index as int, fraction))
                &&& index < events@.len()
                &&& *event == events@[index as int]
            },
            None => current_event(events@, tick_time, cache_index).is_none(),
        },
{
    let len: usize = events.len();
    if len == 0 {
        return None;
    }
    if cache_index >= len {
        return Some((&events[len - 1], len - 1, Fraction::One));
    }
    let mut i: usize = cache_index;
    let first: TimeState = events[i].check_time(tick_time);
    match first {
        TimeState::During => Some((&events[i], i, Fraction::Ratio)),
        TimeState::Early => {
            // The moment lies before this event: step down.
            loop
                invariant
                    len == events@.len(),
                    i < len,
                    current_event(events@, tick_time, cache_index) == probe_down(
                        events@,
                        tick_time,
                        i - 1,
                    ),
                decreases i,
            {
                if i == 0 {
                    return None;
                }
                i = i - 1;
                match events[i].check_time(tick_time) {
                    TimeState::Early => {},
                    TimeState::Late => {
                        return Some((&events[i], i, Fraction::One));
                    },
                    TimeState::During => {
                        return Some((&events[i], i, Fraction::Ratio));
                    },
                }
            }
        },
        TimeState::Late => {
            // The moment lies after this event: step up.
            loop
                invariant
                    len == events@.len(),
                    i < len,
                    current_event(events@, tick_time, cache_index) == probe_up(
                        events@,
                        tick_time,
                        i + 1,
                    ),
                decreases len - i,
            {
                i = i + 1;
                if i >= len {
                    return Some((&events[len - 1], len - 1, Fraction::One));
                }
                match events[i].check_time(tick_time) {
                    TimeState::Late => {},
                    TimeState::Early => {
                        return Some((&events[i], i, Fraction::One));
                    },
                    TimeState::During => {
                        return Some((&events[i], i, Fraction::Ratio));
                    },
                }
            }
        },
    }
}

/// What a track of events gives at a moment.
pub struct TrackSample<T> {
    /// The values at the start and at the end of the found event.
    pub value: (T, T),
    /// How far between the two the moment lies.
    pub fraction: Fraction,
    /// The place of the found event, to be cached for the next probe.
    pub index: usize,
}

/// What a track gives at `tick_time`: the found event's values, or the zero
/// values at place zero where no event is found.
pub open spec fn current_value<T, U: WithValue<T> + WithTimeRange>(
    events: Seq<U>,
    tick_time: Real,
    cache_index: usize,
) -> ((T, T), Fraction, usize) {
    match current_event(events, tick_time, cache_index) {
        Some((index, fraction)) => (events[index].value_spec(), fraction, index as usize),
        None => (U::zero_spec(), Fraction::Zero, 0usize),
    }
}

/// Evaluates a track at `tick_time`, probing from the cached place.
pub fn get_current_value_for_event<T, U: WithValue<T> + WithTimeRange>(
    tick_time: Real,
    events: &[U],
    cache_index: usize,
) -> (r: ((T, T), Fraction, usize))
    ensures
        r == current_value::<T, U>(events@, tick_time, cache_index),
        events@.len() > 0 ==> r.2 < events@.len(),
{
    if events.len() == 0 {
        return (U::zero(), Fraction::Zero, 0);
    }
    match find_current_event(tick_time, events, cache_index) {
        Some((event, index, fraction)) => (event.get_value(), fraction, index),
        None => (U::zero(), Fraction::Zero, 0),
    }
}

/// One summand of a line's travelled distance: a speed event, and whether
/// its whole span counts or only the part up to the moment.
#[derive(Clone, Copy, Debug, PartialEq, Eq, Structural)]
pub struct TravelTerm {
    pub index: usize,
    pub whole: bool,
}

/// The speed events that make up the distance travelled at `tick_time`, from
/// place `from` on, in order. An event that starts after the moment ends the
/// list. An event that has ended by the moment counts whole, and the list
/// goes on. Any other event has started and not ended: it counts in part, up
/// to the moment, and ends the list.
pub open spec fn travel_terms(events: Seq<Event1>, tick_time: Real, from: int) -> Seq<TravelTerm>
    decreases events.len() - from,
{
    if from < 0 || from >= events.len() {
        Seq::empty()
    } else {
        let event = events[from];
        if event.start_time.gt_spec(tick_time) {
            Seq::empty()
        } else if event.end_time.le_spec(tick_time) {
            seq![TravelTerm { index: from as usize, whole: true }] + travel_terms(
                events,
                tick_time,
                from + 1,
            )
        } else {
            seq![TravelTerm { index: from as usize, whole: false }]
        }
    }
}

/// The summands name the speed events from `from` on, one after the other,
/// and all but the last count whole.
pub proof fn lemma_travel_terms_shape(events: Seq<Event1>, tick_time: Real, from: int)
    requires
        0 <= from,
        events.len() <= usize::MAX,
    ensures
        forall|k: int|
            0 <= k < travel_terms(events, tick_time, from).len() ==> (#[trigger] travel_terms(
                events,
                tick_time,
                from,
            )[k]).index == from + k,
        forall|k: int|
            0 <= k < travel_terms(events, tick_time, from).len() - 1 ==> (#[trigger] travel_terms(
                events,
                tick_time,
                from,
            )[k]).whole,
        from + travel_terms(events, tick_time, from).len() <= events.len() || from
            >= events.len(),
    decreases events.len() - from,
{
    if from < events.len() {
        lemma_travel_terms_shape(events, tick_time, from + 1);
        let terms = travel_terms(events, tick_time, from);
        let rest = travel_terms(events, tick_time, from + 1);
        let event = events[from];
        if event.start_time.gt_spec(tick_time) {
        } else if event.end_time.le_spec(tick_time) {
            assert forall|k: int| 0 <= k < terms.len() implies (#[trigger] terms[k]).index == from
                + k && (k < terms.len() - 1 ==> terms[k].whole) by {
                if k > 0 {
                    assert(terms[k] == rest[k - 1]);
                }
            }
        }
    }
}

/// A summand counts whole exactly if its event has ended by the moment, and
/// no event that is counted starts after the moment.
pub proof fn lemma_travel_terms_meaning(events: Seq<Event1>, tick_time: Real, from: int)
    requires
        0 <= from,
        events.len() <= usize::MAX,
    ensures
        forall|k: int|
            0 <= k < travel_terms(events, tick_time, from).len() ==> {
                let term = #[trigger] travel_terms(events, tick_time, from)[k];
                &&& from <= term.index < events.len()
                &&& !events[term.index as int].start_time.gt_spec(tick_time)
                &&& term.whole == events[term.index as int].end_time.le_spec(tick_time)
            },
    decreases events.len() - from,
{
    if from < events.len() {
        lemma_travel_terms_meaning(events, tick_time, from + 1);
        let terms = travel_terms(events, tick_time, from);
        let rest = travel_terms(events, tick_time, from + 1);
        let event = events[from];
        if event.start_time.gt_spec(tick_time) {
        } else if event.end_time.le_spec(tick_time) {
            assert forall|k: int| 0 <= k < terms.len() implies {
                let term = #[trigger] terms[k];
                &&& from <= term.index < events.len()
                &&& !events[term.index as int].start_time.gt_spec(tick_time)
                &&& term.whole == events[term.index as int].end_time.le_spec(tick_time)
            } by {
                if k > 0 {
                    assert(terms[k] == rest[k - 1]);
                }
            }
        }
    }
}

/// Lists the speed events whose spans make up the line's travelled distance
/// at `tick_time`: every event that has ended, whole, and the event that has
/// started and not ended, in part. The host multiplies each span by its speed
/// and adds up.
pub fn get_line_y(tick_time: Real, line: &LineState) -> (terms: Vec<TravelTerm>)
    ensures
        terms@ == travel_terms(line.speed_events@, tick_time, 0),
        forall|k: int|
            0 <= k < terms@.len() ==> {
                let term = #[trigger] terms@[k];
                &&& term.index == k
                &&& term.index < line.speed_events@.len()
                &&& !line.speed_events@[k].start_time.gt_spec(tick_time)
                &&& term.whole == line.speed_events@[k].end_time.le_spec(tick_time)
            },
{
    let mut terms: Vec<TravelTerm> = Vec::new();
    let len: usize = line.speed_events.len();
    let mut i: usize = 0;
    proof {
        lemma_travel_terms_shape(line.speed_events@, tick_time, 0);
        lemma_travel_terms_meaning(line.speed_events@, tick_time, 0);
    }
    while i < len
        invariant
            len == line.speed_events@.len(),
            i <= len,
            terms@ + travel_terms(line.speed_events@, tick_time, i as int) == travel_terms(
                line.speed_events@,
                tick_time,
                0,
            ),
            forall|k: int|
                0 <= k < travel_terms(line.speed_events@, tick_time, 0).len() ==> {
                    let term = #[trigger] travel_terms(line.speed_events@, tick_time, 0)[k];
                    &&& term.index == k
                    &&& term.index < len
                    &&& !line.speed_events@[term.index as int].start_time.gt_spec(tick_time)
                    &&& term.whole == line.speed_events@[term.index as int].end_time.le_spec(
                        tick_time,
                    )
                },
        decreases len - i,
    {
        let event: Event1 = line.speed_events[i];
        if event.start_time.gt(tick_time) {
            assert(terms@ + Seq::<TravelTerm>::empty() =~= terms@);
            return terms;
        }
        if event.end_time.le(tick_time) {
            let ghost before = terms@;
            terms.push(TravelTerm { index: i, whole: true });
            assert(before + (seq![TravelTerm { index: i, whole: true }] + travel_terms(
                line.speed_events@,
                tick_time,
                i + 1,
            )) =~= terms@ + travel_terms(line.speed_events@, tick_time, i + 1));
        } else {
            let ghost before = terms@;
            terms.push(TravelTerm { index: i, whole: false });
            assert(terms@ =~= before + seq![TravelTerm { index: i, whole: false }]);
            return terms;
        }
        i = i + 1;
    }
    assert(terms@ + Seq::<TravelTerm>::empty() =~= terms@);
    terms
}

/// What the four tracks of a line give at a moment.
pub struct LineSample {
    pub speed: TrackSample<Real>,
    pub alpha: TrackSample<Real>,
    pub rotate: TrackSample<Real>,
    pub movement: TrackSample<(Real, Real)>,
    /// The summands of the travelled distance.
    pub travel: Vec<TravelTerm>,
}

/// The line after its tracks were probed at `tick_time`: each cached place is
/// that of the event found on its track, the speed is the value of the speed
/// event found (zero where none is found), and the moment is stored.
pub open spec fn probed_line(line: LineState, tick_time: Real) -> LineState {
    LineState {
        speed: current_value::<Real, Event1>(
            line.speed_events@,
            tick_time,
            line.event_speed_index_cache,
        ).0.0,
        event_speed_index_cache: current_value::<Real, Event1>(
            line.speed_events@,
            tick_time,
            line.event_speed_index_cache,
        ).2,
        event_alpha_index_cache: current_value::<Real, Event2>(
            line.alpha_events@,
            tick_time,
            line.event_alpha_index_cache,
        ).2,
        event_rotate_index_cache: current_value::<Real, Event2>(
            line.rotate_events@,
            tick_time,
            line.event_rotate_index_cache,
        ).2,
        event_move_index_cache: current_value::<(Real, Real), Event4>(
            line.move_events@,
            tick_time,
            line.event_move_index_cache,
        ).2,
        tick_time: tick_time,
        ..line
    }
}

/// Whether `sample` is what the tracks of `line` give at `tick_time`.
pub open spec fn samples_line(sample: &LineSample, line: LineState, tick_time: Real) -> bool {
    &&& (sample.speed.value, sample.speed.fraction, sample.speed.index) == current_value::<
        Real,
        Event1,
    >(line.speed_events@, tick_time, line.event_speed_index_cache)
    &&& (sample.alpha.value, sample.alpha.fraction, sample.alpha.index) == current_value::<
        Real,
        Event2,
    >(line.alpha_events@, tick_time, line.event_alpha_index_cache)
    &&& (sample.rotate.value, sample.rotate.fraction, sample.rotate.index) == current_value::<
        Real,
        Event2,
    >(line.rotate_events@, tick_time, line.event_rotate_index_cache)
    &&& (sample.movement.value, sample.movement.fraction, sample.movement.index)
        == current_value::<(Real, Real), Event4>(
        line.move_events@,
        tick_time,
        line.event_move_index_cache,
    )
    &&& sample.travel@ == travel_terms(line.speed_events@, tick_time, 0)
}

/// Probes the four tracks of a line at `tick_time` and leaves the line as
/// it is.
pub fn sample_line_state(tick_time: Real, state: &LineState) -> (sample: LineSample)
    ensures
        samples_line(&sample, *state, tick_time),
{
    let (speed_value, speed_fraction, speed_index) = get_current_value_for_event::<Real, Event1>(
        tick_time,
        state.speed_events.as_slice(),
        state.event_speed_index_cache,
    );
    let (alpha_value, alpha_fraction, alpha_index) = get_current_value_for_event::<Real, Event2>(
        tick_time,
        state.alpha_events.as_slice(),
        state.event_alpha_index_cache,
    );
    let (rotate_value, rotate_fraction, rotate_index) = get_current_value_for_event::<
        Real,
        Event2,
    >(tick_time, state.rotate_events.as_slice(), state.event_rotate_index_cache);
    let (move_value, move_fraction, move_index) = get_current_value_for_event::<
        (Real, Real),
        Event4,
    >(tick_time, state.move_events.as_slice(), state.event_move_index_cache);
    let travel = get_line_y(tick_time, state);
    LineSample {
        speed: TrackSample { value: speed_value, fraction: speed_fraction, index: speed_index },
        alpha: TrackSample { value: alpha_value, fraction: alpha_fraction, index: alpha_index },
        rotate: TrackSample {
            value: rotate_value,
            fraction: rotate_fraction,
            index: rotate_index,
        },
        movement: TrackSample { value: move_value, fraction: move_fraction, index: move_index },
        travel,
    }
}

/// Probes the four tracks of a line at `tick_time`, caches where each event
/// was found, takes the speed of the speed event found, and stores the
/// moment. Nothing else of the line changes.
pub fn tick_line_state(tick_time: Real, state: &mut LineState) -> (sample: LineSample)
    ensures
        samples_line(&sample, *old(state), tick_time),
        *final(state) == probed_line(*old(state), tick_time),
{
    let sample = sample_line_state(tick_time, state);
    state.speed = sample.speed.value.0;
    state.event_speed_index_cache = sample.speed.index;
    state.event_alpha_index_cache = sample.alpha.index;
    state.event_rotate_index_cache = sample.rotate.index;
    state.event_move_index_cache = sample.movement.index;
    state.tick_time = tick_time;
    sample
}

/// A line after a tick of the lines: probed at the moment if it is enabled,
/// as it was if it is not.
pub open spec fn ticked_line(line: LineState, tick_time: Real) -> LineState {
    if line.enable {
        probed_line(line, tick_time)
    } else {
        line
    }
}

/// Probes every enabled line at its own moment, in order, and gives for each
/// line what its tracks give at that moment. A disabled line is left as it
/// is. A line without a moment in `tick_times` is left as it is and gives no
/// sample.
pub fn tick_lines(lines: &mut Vec<LineState>, tick_times: &Vec<Real>) -> (samples: Vec<LineSample>)
    ensures
        final(lines)@.len() == old(lines)@.len(),
        samples@.len() == if tick_times@.len() < old(lines)@.len() {
            tick_times@.len()
        } else {
            old(lines)@.len()
        },
        forall|i: int|
            0 <= i < samples@.len() ==> samples_line(
                &#[trigger] samples@[i],
                old(lines)@[i],
                tick_times@[i],
            ),
        forall|i: int|
            0 <= i < samples@.len() ==> #[trigger] final(lines)@[i] == ticked_line(
                old(lines)@[i],
                tick_times@[i],
            ),
        forall|i: int|
            samples@.len() <= i < old(lines)@.len() ==> #[trigger] final(lines)@[i] == old(
                lines,
            )@[i],
{
    let mut samples: Vec<LineSample> = Vec::new();
    let count: usize = if tick_times.len() < lines.len() {
        tick_times.len()
    } else {
        lines.len()
    };
    let mut i: usize = 0;
    while i < count
        invariant
            lines@.len() == old(lines)@.len(),
            count <= lines@.len(),
            count <= tick_times@.len(),
            i <= count,
            samples@.len() == i,
            forall|k: int|
                0 <= k < i ==> samples_line(&#[trigger] samples@[k], old(lines)@[k], tick_times@[k]),
            forall|k: int|
                0 <= k < i ==> #[trigger] lines@[k] == ticked_line(old(lines)@[k], tick_times@[k]),
            forall|k: int| i <= k < lines@.len() ==> #[trigger] lines@[k] == old(lines)@[k],
        decreases count - i,
    {
        let sample = if lines[i].enable {
            tick_line_state(tick_times[i], &mut lines[i])
        } else {
            sample_line_state(tick_times[i], &lines[i])
        };
        samples.push(sample);
        i = i + 1;
    }
    samples
}

} // verus!
