//! Loading a chart into the engine, and clearing the engine.

use std::collections::HashSet;
use vstd::prelude::*;
use crate::chart::{Chart, FormatVersion, JudgeLine, Note};
use crate::engine::{empty_lines, empty_touches, Engine, LINE_SLOTS};
use crate::scalar::{Real, ONE_BITS};
use crate::sorting::{sorted_by_rank, stable_sort, stably_sorted};
use crate::states::{LineState, Metadata, NoteScore, NoteState};
use crate::states_effect::Effects;
use crate::states_statistics::{
    flat_indices,
    internal_init_flatten_line_state,
    ChartStatistics,
};

verus! {

/// The instant of a note as an integer: its time in ticks times the length
/// of a tick in units of 1/32768 second.
pub open spec fn highlight_key(tick_scale: i32, time: i32) -> i64 {
    (tick_scale as int * time as int) as i64
}

/// Computes the instant of a note as an integer.
pub fn note_key(tick_scale: i32, time: i32) -> (key: i64)
    ensures
        key == highlight_key(tick_scale, time),
        key == tick_scale as int * time as int,
{
    assert(-0x4000_0000_0000_0000 <= tick_scale as int * time as int <= 0x4000_0000_0000_0000)
        by (nonlinear_arith)
        requires
            -0x8000_0000 <= tick_scale as int <= 0x7fff_ffff,
            -0x8000_0000 <= time as int <= 0x7fff_ffff,
    ;
    (tick_scale as i64) * (time as i64)
}

/// The instants of the notes of one side of a line, in order.
pub open spec fn side_keys(tick_scale: i32, notes: Seq<NoteState>) -> Seq<i64> {
    Seq::new(notes.len(), |j: int| highlight_key(tick_scale, notes[j].note.time))
}

/// The instants of the notes of a line, those above it before those below
/// it. A disabled line has none.
pub open spec fn line_keys(line: LineState) -> Seq<i64> {
    if line.enable {
        side_keys(line.tick_scale, line.notes_above_state@) + side_keys(
            line.tick_scale,
            line.notes_below_state@,
        )
    } else {
        Seq::empty()
    }
}

/// The instants of the notes of the first `n` lines, line by line.
pub open spec fn all_keys(lines: Seq<LineState>, n: int) -> Seq<i64>
    decreases n,
{
    if n <= 0 {
        Seq::empty()
    } else {
        all_keys(lines, n - 1) + line_keys(lines[n - 1])
    }
}

/// Whether some note falls on instant `k`.
pub open spec fn seen(keys: Seq<i64>, k: i64) -> bool {
    exists|a: int| 0 <= a < keys.len() && keys[a] == k
}

/// Whether two notes fall on instant `k`.
pub open spec fn paired(keys: Seq<i64>, k: i64) -> bool {
    exists|a: int, b: int| 0 <= a < b < keys.len() && keys[a] == k && keys[b] == k
}

proof fn lemma_seen_push(keys: Seq<i64>, x: i64, k: i64)
    ensures
        seen(keys.push(x), k) <==> seen(keys, k) || k == x,
        paired(keys.push(x), k) <==> paired(keys, k) || (k == x && seen(keys, x)),
{
    let grown = keys.push(x);
    if seen(keys, k) {
        let a = choose|a: int| 0 <= a < keys.len() && keys[a] == k;
        assert(grown[a] == k);
    }
    if k == x {
        assert(grown[keys.len() as int] == k);
    }
    if seen(grown, k) {
        let a = choose|a: int| 0 <= a < grown.len() && grown[a] == k;
        if a < keys.len() {
            assert(keys[a] == k);
        }
    }
    if paired(keys, k) {
        let (a, b) = choose|a: int, b: int|
            0 <= a < b < keys.len() && keys[a] == k && keys[b] == k;
        assert(grown[a] == k && grown[b] == k);
    }
    if k == x && seen(keys, x) {
        let a = choose|a: int| 0 <= a < keys.len() && keys[a] == k;
        assert(grown[a] == k && grown[keys.len() as int] == k);
    }
    if paired(grown, k) {
        let (a, b) = choose|a: int, b: int|
            0 <= a < b < grown.len() && grown[a] == k && grown[b] == k;
        if b < keys.len() {
            assert(keys[a] == k && keys[b] == k);
        } else {
            assert(keys[a] == k);
        }
    }
}

fn push_side_keys(keys: &mut Vec<i64>, tick_scale: i32, notes: &Vec<NoteState>)
    ensures
        final(keys)@ == old(keys)@ + side_keys(tick_scale, notes@),
{
    let len: usize = notes.len();
    let mut j: usize = 0;
    while j < len
        invariant
            len == notes@.len(),
            j <= len,
            keys@ == old(keys)@ + side_keys(tick_scale, notes@).take(j as int),
        decreases len - j,
    {
        keys.push(note_key(tick_scale, notes[j].note.time));
        assert(keys@ =~= old(keys)@ + side_keys(tick_scale, notes@).take(j + 1));
        j = j + 1;
    }
    assert(side_keys(tick_scale, notes@).take(len as int) =~= side_keys(tick_scale, notes@));
}

fn collect_keys(lines: &Vec<LineState>) -> (keys: Vec<i64>)
    ensures
        keys@ == all_keys(lines@, lines@.len() as int),
{
    let mut keys: Vec<i64> = Vec::new();
    let len: usize = lines.len();
    let mut i: usize = 0;
    while i < len
        invariant
            len == lines@.len(),
            i <= len,
            keys@ == all_keys(lines@, i as int),
        decreases len - i,
    {
        if lines[i].enable {
            let ghost before = keys@;
            push_side_keys(&mut keys, lines[i].tick_scale, &lines[i].notes_above_state);
            push_side_keys(&mut keys, lines[i].tick_scale, &lines[i].notes_below_state);
            assert(keys@ =~= before + line_keys(lines@[i as int]));
        } else {
            assert(keys@ + Seq::<i64>::empty() =~= keys@);
        }
        i = i + 1;
    }
    keys
}

fn paired_keys(keys: &Vec<i64>) -> (pairs: HashSet<i64>)
    ensures
        forall|k: i64| pairs@.contains(k) <==> paired(keys@, k),
{
    broadcast use vstd::std_specs::hash::group_hash_axioms;

    let mut once: HashSet<i64> = HashSet::new();
    let mut twice: HashSet<i64> = HashSet::new();
    let len: usize = keys.len();
    let mut i: usize = 0;
    while i < len
        invariant
            len == keys@.len(),
            i <= len,
            forall|k: i64| once@.contains(k) <==> seen(keys@.take(i as int), k),
            forall|k: i64| twice@.contains(k) <==> paired(keys@.take(i as int), k),
        decreases len - i,
    {
        let key: i64 = keys[i];
        proof {
            assert(keys@.take(i + 1) =~= keys@.take(i as int).push(key));
            assert forall|k: i64|
                (seen(keys@.take(i + 1), k) <==> seen(keys@.take(i as int), k) || k == key) && (
                paired(keys@.take(i + 1), k) <==> paired(keys@.take(i as int), k) || (k == key
                    && seen(keys@.take(i as int), key))) by {
                lemma_seen_push(keys@.take(i as int), key, k);
            }
        }
        if once.contains(&key) {
            twice.insert(key);
        } else {
            once.insert(key);
        }
        i = i + 1;
    }
    proof {
        assert(keys@.take(len as int) =~= keys@);
    }
    twice
}

/// The notes of one side with every note marked that shares its instant
/// with another note of the chart. A mark that is set stays.
pub open spec fn highlighted(
    notes: Seq<NoteState>,
    enable: bool,
    tick_scale: i32,
    keys: Seq<i64>,
) -> Seq<NoteState> {
    Seq::new(
        notes.len(),
        |j: int|
            if enable && paired(keys, highlight_key(tick_scale, notes[j].note.time)) {
                NoteState { highlight: true, ..notes[j] }
            } else {
                notes[j]
            },
    )
}

fn highlight_side(notes: &mut Vec<NoteState>, tick_scale: i32, pairs: &HashSet<i64>, Ghost(keys): Ghost<
    Seq<i64>,
>)
    requires
        forall|k: i64| pairs@.contains(k) <==> paired(keys, k),
    ensures
        final(notes)@ == highlighted(old(notes)@, true, tick_scale, keys),
{
    broadcast use vstd::std_specs::hash::group_hash_axioms;

    let len: usize = notes.len();
    let mut j: usize = 0;
    while j < len
        invariant
            len == notes@.len(),
            len == old(notes)@.len(),
            j <= len,
            forall|k: i64| pairs@.contains(k) <==> paired(keys, k),
            forall|k: int|
                0 <= k < j ==> #[trigger] notes@[k] == highlighted(
                    old(notes)@,
                    true,
                    tick_scale,
                    keys,
                )[k],
            forall|k: int| j <= k < len ==> #[trigger] notes@[k] == old(notes)@[k],
        decreases len - j,
    {
        let key: i64 = note_key(tick_scale, notes[j].note.time);
        if pairs.contains(&key) {
            notes[j].highlight = true;
        }
        j = j + 1;
    }
    assert(notes@ =~= highlighted(old(notes)@, true, tick_scale, keys));
}

fn highlight_line(line: &mut LineState, pairs: &HashSet<i64>, Ghost(keys): Ghost<Seq<i64>>)
    requires
        forall|k: i64| pairs@.contains(k) <==> paired(keys, k),
    ensures
        final(line).same_but_notes(old(line)),
        final(line).notes_above_state@ == highlighted(
            old(line).notes_above_state@,
            old(line).enable,
            old(line).tick_scale,
            keys,
        ),
        final(line).notes_below_state@ == highlighted(
            old(line).notes_below_state@,
            old(line).enable,
            old(line).tick_scale,
            keys,
        ),
{
    if line.enable {
        let tick_scale: i32 = line.tick_scale;
        highlight_side(&mut line.notes_above_state, tick_scale, pairs, Ghost(keys));
        highlight_side(&mut line.notes_below_state, tick_scale, pairs, Ghost(keys));
    } else {
        assert(line.notes_above_state@ =~= highlighted(
            line.notes_above_state@,
            false,
            line.tick_scale,
            keys,
        ));
        assert(line.notes_below_state@ =~= highlighted(
            line.notes_below_state@,
            false,
            line.tick_scale,
            keys,
        ));
    }
}

/// Marks every note of an enabled line that shares its instant with another
/// note of an enabled line, on whatever line and side that one stands.
pub fn process_highlight(judge_line_states: &mut Vec<LineState>)
    ensures
        final(judge_line_states)@.len() == old(judge_line_states)@.len(),
        forall|i: int|
            0 <= i < old(judge_line_states)@.len() ==> {
                let before = old(judge_line_states)@[i];
                let after = #[trigger] final(judge_line_states)@[i];
                let keys = all_keys(
                    old(judge_line_states)@,
                    old(judge_line_states)@.len() as int,
                );
                &&& after.same_but_notes(&before)
                &&& after.notes_above_state@ == highlighted(
                    before.notes_above_state@,
                    before.enable,
                    before.tick_scale,
                    keys,
                )
                &&& after.notes_below_state@ == highlighted(
                    before.notes_below_state@,
                    before.enable,
                    before.tick_scale,
                    keys,
                )
            },
{
    let keys = collect_keys(judge_line_states);
    let pairs = paired_keys(&keys);
    let len: usize = judge_line_states.len();
    let mut i: usize = 0;
    while i < len
        invariant
            len == old(judge_line_states)@.len(),
            judge_line_states@.len() == len,
            i <= len,
            keys@ == all_keys(old(judge_line_states)@, len as int),
            forall|k: i64| pairs@.contains(k) <==> paired(keys@, k),
            forall|k: int|
                0 <= k < i ==> {
                    let before = old(judge_line_states)@[k];
                    let after = #[trigger] judge_line_states@[k];
                    &&& after.same_but_notes(&before)
                    &&& after.notes_above_state@ == highlighted(
                        before.notes_above_state@,
                        before.enable,
                        before.tick_scale,
                        keys@,
                    )
                    &&& after.notes_below_state@ == highlighted(
                        before.notes_below_state@,
                        before.enable,
                        before.tick_scale,
                        keys@,
                    )
                },
            forall|k: int|
                i <= k < len ==> #[trigger] judge_line_states@[k] == old(judge_line_states)@[k],
        decreases len - i,
    {
        highlight_line(&mut judge_line_states[i], &pairs, Ghost(keys@));
        i = i + 1;
    }
}

fn copy_of<T: Copy>(items: &Vec<T>) -> (copy: Vec<T>)
    ensures
        copy@ == items@,
{
    let mut copy: Vec<T> = Vec::new();
    let len: usize = items.len();
    let mut i: usize = 0;
    while i < len
        invariant
            len == items@.len(),
            i <= len,
            copy@ == items@.take(i as int),
        decreases len - i,
    {
        copy.push(items[i]);
        assert(copy@ =~= items@.take(i + 1));
        i = i + 1;
    }
    assert(items@.take(len as int) =~= items@);
    copy
}

/// The notes that the states are states of.
pub open spec fn notes_of_states(states: Seq<NoteState>) -> Seq<Note> {
    Seq::new(states.len(), |j: int| states[j].note)
}

/// Whether no note has been judged, armed or held yet.
pub open spec fn plays_fresh(states: Seq<NoteState>) -> bool {
    forall|j: int|
        0 <= j < states.len() ==> {
            &&& (#[trigger] states[j]).score == NoteScore::Unjudged
            &&& states[j].extra_score == NoteScore::Unjudged
            &&& states[j].hold_cool_down == Real::zero_spec()
        }
}

fn sorted_states(notes: &Vec<Note>) -> (states: Vec<NoteState>)
    ensures
        stably_sorted(notes_of_states(states@), notes@),
        states@.len() == notes@.len(),
        forall|j: int|
            0 <= j < states@.len() ==> #[trigger] states@[j] == NoteState::fresh_spec(
                states@[j].note,
            ),
{
    let mut sorted = copy_of(notes);
    stable_sort(&mut sorted);
    let mut states: Vec<NoteState> = Vec::new();
    let len: usize = sorted.len();
    let mut j: usize = 0;
    while j < len
        invariant
            len == sorted@.len(),
            j <= len,
            states@.len() == j,
            forall|k: int| 0 <= k < j ==> #[trigger] states@[k] == NoteState::fresh_spec(sorted@[k]),
        decreases len - j,
    {
        states.push(NoteState::fresh(sorted[j]));
        j = j + 1;
    }
    assert(notes_of_states(states@) =~= sorted@);
    states
}

/// Whether `state` is the chart's `line` as it stands at the start of play:
/// enabled and at rest, with the line's events, and with the line's notes,
/// as many on each side, in the order of their times, notes of one time in
/// the order of the chart.
/// Of the notes' states only the highlight is left open.
pub open spec fn loads(line: &JudgeLine, state: &LineState) -> bool {
    &&& state.enable
    &&& state.x == Real::zero_spec()
    &&& state.y == Real::zero_spec()
    &&& state.rotate == Real::zero_spec()
    &&& state.alpha == Real::zero_spec()
    &&& state.speed.bits == ONE_BITS
    &&& state.line_y == Real::zero_spec()
    &&& state.tick_time == Real::zero_spec()
    &&& state.event_speed_index_cache == 0
    &&& state.event_move_index_cache == 0
    &&& state.event_rotate_index_cache == 0
    &&& state.event_alpha_index_cache == 0
    &&& state.bpm == line.bpm
    &&& state.tick_scale == line.tick_scale
    &&& state.event_second == line.event_second
    &&& state.speed_events@ == line.speed_events@
    &&& state.move_events@ == line.move_events@
    &&& state.rotate_events@ == line.rotate_events@
    &&& state.alpha_events@ == line.alpha_events@
    &&& state.notes_above_state@.len() == line.notes_above@.len()
    &&& state.notes_below_state@.len() == line.notes_below@.len()
    &&& stably_sorted(notes_of_states(state.notes_above_state@), line.notes_above@)
    &&& stably_sorted(notes_of_states(state.notes_below_state@), line.notes_below@)
    &&& plays_fresh(state.notes_above_state@)
    &&& plays_fresh(state.notes_below_state@)
}

/// Whether no note of the line bears a highlight.
pub open spec fn no_highlight(state: &LineState) -> bool {
    &&& forall|j: int|
        0 <= j < state.notes_above_state@.len() ==> !(#[trigger] state.notes_above_state@[j]).highlight
    &&& forall|j: int|
        0 <= j < state.notes_below_state@.len() ==> !(#[trigger] state.notes_below_state@[j]).highlight
}

fn load_line(line: &JudgeLine) -> (state: LineState)
    ensures
        loads(line, &state),
        no_highlight(&state),
{
    LineState {
        enable: true,
        x: Real::zero(),
        y: Real::zero(),
        rotate: Real::zero(),
        alpha: Real::zero(),
        speed: Real::one(),
        line_y: Real::zero(),
        tick_time: Real::zero(),
        event_speed_index_cache: 0,
        event_move_index_cache: 0,
        event_rotate_index_cache: 0,
        event_alpha_index_cache: 0,
        notes_above_state: sorted_states(&line.notes_above),
        notes_below_state: sorted_states(&line.notes_below),
        speed_events: copy_of(&line.speed_events),
        move_events: copy_of(&line.move_events),
        rotate_events: copy_of(&line.rotate_events),
        alpha_events: copy_of(&line.alpha_events),
        bpm: line.bpm,
        tick_scale: line.tick_scale,
        event_second: line.event_second,
    }
}

/// The end of the last note of one side, in seconds; zero on an empty side.
pub open spec fn last_end(states: Seq<NoteState>) -> Real {
    if states.len() == 0 {
        Real::zero_spec()
    } else {
        states.last().note.end_second
    }
}

/// The latest end of a last note among the first `n` lines, in seconds.
/// Disabled lines do not count.
pub open spec fn note_length(lines: Seq<LineState>, n: int) -> Real
    decreases n,
{
    if n <= 0 {
        Real::zero_spec()
    } else {
        let so_far = note_length(lines, n - 1);
        let line = lines[n - 1];
        if line.enable {
            last_end(line.notes_below_state@).max_spec(
                last_end(line.notes_above_state@).max_spec(so_far),
            )
        } else {
            so_far
        }
    }
}

/// The latest start of an event among the first `n` lines, in seconds.
/// Disabled lines do not count.
pub open spec fn event_length(lines: Seq<LineState>, n: int) -> Real
    decreases n,
{
    if n <= 0 {
        Real::zero_spec()
    } else {
        let so_far = event_length(lines, n - 1);
        let line = lines[n - 1];
        if line.enable {
            line.event_second.max_spec(so_far)
        } else {
            so_far
        }
    }
}

/// The estimated length of a chart, in seconds: the later of the latest end
/// of a last note and the latest start of an event.
pub open spec fn estimated_length(lines: Seq<LineState>) -> Real {
    note_length(lines, lines.len() as int).max_spec(event_length(lines, lines.len() as int))
}

fn last_end_of(states: &Vec<NoteState>) -> (r: Real)
    ensures
        r == last_end(states@),
{
    if states.len() == 0 {
        Real::zero()
    } else {
        states[states.len() - 1].note.end_second
    }
}

/// Estimates the length of the loaded chart.
pub fn get_estimated_length(state: &[LineState]) -> (length: Real)
    ensures
        length == estimated_length(state@),
{
    let mut note_max: Real = Real::zero();
    let mut event_max: Real = Real::zero();
    let len: usize = state.len();
    let mut i: usize = 0;
    while i < len
        invariant
            len == state@.len(),
            i <= len,
            note_max == note_length(state@, i as int),
            event_max == event_length(state@, i as int),
        decreases len - i,
    {
        if state[i].enable {
            let above: Real = last_end_of(&state[i].notes_above_state);
            let below: Real = last_end_of(&state[i].notes_below_state);
            note_max = below.max(above.max(note_max));
            event_max = state[i].event_second.max(event_max);
        }
        i = i + 1;
    }
    note_max.max(event_max)
}

/// Whether every note of the line bears a highlight exactly if another note
/// of an enabled line falls on its instant.
pub open spec fn highlights_set(lines: Seq<LineState>, i: int) -> bool {
    let keys = all_keys(lines, lines.len() as int);
    let line = lines[i];
    &&& forall|j: int|
        0 <= j < line.notes_above_state@.len() ==> (#[trigger] line.notes_above_state@[j]).highlight
            == paired(keys, highlight_key(line.tick_scale, line.notes_above_state@[j].note.time))
    &&& forall|j: int|
        0 <= j < line.notes_below_state@.len() ==> (#[trigger] line.notes_below_state@[j]).highlight
            == paired(keys, highlight_key(line.tick_scale, line.notes_below_state@[j].note.time))
}

/// The notes of one side of a line.
pub open spec fn side_of(line: LineState, above: bool) -> Seq<NoteState> {
    if above {
        line.notes_above_state@
    } else {
        line.notes_below_state@
    }
}

/// Where the instant of a note stands among the instants of all notes.
pub open spec fn key_place(lines: Seq<LineState>, i: int, above: bool, j: int) -> int {
    all_keys(lines, i).len() + if above {
        j
    } else {
        lines[i].notes_above_state@.len() + j
    }
}

proof fn lemma_keys_grow(lines: Seq<LineState>, i: int, n: int)
    requires
        0 <= i <= n,
    ensures
        all_keys(lines, i).len() <= all_keys(lines, n).len(),
        forall|a: int|
            0 <= a < all_keys(lines, i).len() ==> all_keys(lines, n)[a] == all_keys(lines, i)[a],
    decreases n - i,
{
    if i < n {
        lemma_keys_grow(lines, i, n - 1);
    }
}

proof fn lemma_key_at(lines: Seq<LineState>, i: int, above: bool, j: int)
    requires
        0 <= i < lines.len(),
        lines[i].enable,
        0 <= j < side_of(lines[i], above).len(),
    ensures
        all_keys(lines, i).len() <= key_place(lines, i, above, j) < all_keys(lines, i + 1).len(),
        key_place(lines, i, above, j) < all_keys(lines, lines.len() as int).len(),
        all_keys(lines, lines.len() as int)[key_place(lines, i, above, j)] == highlight_key(
            lines[i].tick_scale,
            side_of(lines[i], above)[j].note.time,
        ),
{
    let line = lines[i];
    let upper = side_keys(line.tick_scale, line.notes_above_state@);
    let lower = side_keys(line.tick_scale, line.notes_below_state@);
    assert(all_keys(lines, i + 1) == all_keys(lines, i) + (upper + lower));
    let place = key_place(lines, i, above, j);
    if above {
        assert((upper + lower)[j] == upper[j]);
    } else {
        assert((upper + lower)[upper.len() + j] == lower[j]);
    }
    assert(all_keys(lines, i + 1)[place] == (upper + lower)[place - all_keys(lines, i).len()]);
    lemma_keys_grow(lines, i + 1, lines.len() as int);
}

/// Two notes of enabled lines that fall on the same instant are paired,
/// whatever lines and sides they stand on.
pub proof fn lemma_same_instant_is_paired(
    lines: Seq<LineState>,
    i1: int,
    above1: bool,
    j1: int,
    i2: int,
    above2: bool,
    j2: int,
)
    requires
        0 <= i1 < lines.len(),
        0 <= i2 < lines.len(),
        lines[i1].enable,
        lines[i2].enable,
        0 <= j1 < side_of(lines[i1], above1).len(),
        0 <= j2 < side_of(lines[i2], above2).len(),
        i1 != i2 || above1 != above2 || j1 != j2,
        highlight_key(lines[i1].tick_scale, side_of(lines[i1], above1)[j1].note.time)
            == highlight_key(lines[i2].tick_scale, side_of(lines[i2], above2)[j2].note.time),
    ensures
        paired(
            all_keys(lines, lines.len() as int),
            highlight_key(lines[i1].tick_scale, side_of(lines[i1], above1)[j1].note.time),
        ),
{
    let keys = all_keys(lines, lines.len() as int);
    let key = highlight_key(lines[i1].tick_scale, side_of(lines[i1], above1)[j1].note.time);
    let place1 = key_place(lines, i1, above1, j1);
    let place2 = key_place(lines, i2, above2, j2);
    lemma_key_at(lines, i1, above1, j1);
    lemma_key_at(lines, i2, above2, j2);
    if i1 < i2 {
        lemma_keys_grow(lines, i1 + 1, i2);
    }
    if i2 < i1 {
        lemma_keys_grow(lines, i2 + 1, i1);
    }
    assert(place1 != place2);
    if place1 < place2 {
        assert(0 <= place1 < place2 < keys.len() && keys[place1] == key && keys[place2] == key);
    } else {
        assert(0 <= place2 < place1 < keys.len() && keys[place2] == key && keys[place1] == key);
    }
}

/// Highlights are symmetric: where the highlights of a chart are set, two
/// notes of enabled lines that fall on the same instant both bear one,
/// whatever lines and sides they stand on.
pub proof fn lemma_highlight_symmetry(
    lines: Seq<LineState>,
    i1: int,
    above1: bool,
    j1: int,
    i2: int,
    above2: bool,
    j2: int,
)
    requires
        0 <= i1 < lines.len(),
        0 <= i2 < lines.len(),
        lines[i1].enable,
        lines[i2].enable,
        0 <= j1 < side_of(lines[i1], above1).len(),
        0 <= j2 < side_of(lines[i2], above2).len(),
        i1 != i2 || above1 != above2 || j1 != j2,
        highlight_key(lines[i1].tick_scale, side_of(lines[i1], above1)[j1].note.time)
            == highlight_key(lines[i2].tick_scale, side_of(lines[i2], above2)[j2].note.time),
        highlights_set(lines, i1),
        highlights_set(lines, i2),
    ensures
        side_of(lines[i1], above1)[j1].highlight,
        side_of(lines[i2], above2)[j2].highlight,
{
    lemma_same_instant_is_paired(lines, i1, above1, j1, i2, above2, j2);
}

proof fn lemma_same_keys(before: Seq<LineState>, after: Seq<LineState>, n: int)
    requires
        before.len() == after.len(),
        n <= before.len(),
        forall|i: int|
            0 <= i < before.len() ==> {
                &&& (#[trigger] after[i]).enable == before[i].enable
                &&& after[i].tick_scale == before[i].tick_scale
                &&& notes_of_states(after[i].notes_above_state@) == notes_of_states(
                    before[i].notes_above_state@,
                )
                &&& notes_of_states(after[i].notes_below_state@) == notes_of_states(
                    before[i].notes_below_state@,
                )
            },
    ensures
        all_keys(after, n) == all_keys(before, n),
    decreases n,
{
    if n > 0 {
        lemma_same_keys(before, after, n - 1);
        let a = after[n - 1];
        let b = before[n - 1];
        assert(side_keys(a.tick_scale, a.notes_above_state@) =~= side_keys(
            b.tick_scale,
            b.notes_above_state@,
        )) by {
            let notes_a = notes_of_states(a.notes_above_state@);
            let notes_b = notes_of_states(b.notes_above_state@);
            assert(notes_a.len() == a.notes_above_state@.len());
            assert(notes_b.len() == b.notes_above_state@.len());
            assert forall|j: int| 0 <= j < a.notes_above_state@.len() implies a.notes_above_state@[j].note
                == b.notes_above_state@[j].note by {
                assert(notes_a[j] == a.notes_above_state@[j].note);
                assert(notes_b[j] == b.notes_above_state@[j].note);
            }
        }
        assert(side_keys(a.tick_scale, a.notes_below_state@) =~= side_keys(
            b.tick_scale,
            b.notes_below_state@,
        )) by {
            let notes_a = notes_of_states(a.notes_below_state@);
            let notes_b = notes_of_states(b.notes_below_state@);
            assert(notes_a.len() == a.notes_below_state@.len());
            assert(notes_b.len() == b.notes_below_state@.len());
            assert forall|j: int| 0 <= j < a.notes_below_state@.len() implies a.notes_below_state@[j].note
                == b.notes_below_state@[j].note by {
                assert(notes_a[j] == a.notes_below_state@[j].note);
                assert(notes_b[j] == b.notes_below_state@[j].note);
            }
        }
    }
}

/// Loads a chart. The first fifty lines of the chart fill the line slots in
/// order, each with its notes sorted by time; the slots that are left hold
/// nothing, and a line beyond the fiftieth is dropped. Notes that share
/// their instant with another note are highlighted, and the flat index of
/// all notes is built. Touches, effects, statistics and image heights stay
/// as they are.
pub fn init_line_states(engine: &mut Engine, chart: Chart, format_version: FormatVersion) -> (metadata:
    Metadata)
    ensures
        old(engine).wf() ==> final(engine).wf(),
        final(engine).lines@.len() == LINE_SLOTS,
        forall|i: int|
            0 <= i < LINE_SLOTS && i < chart.judge_line_list@.len() ==> {
                let state = #[trigger] final(engine).lines@[i];
                &&& loads(&chart.judge_line_list@[i], &state)
                &&& highlights_set(final(engine).lines@, i)
                &&& sorted_by_rank(notes_of_states(state.notes_above_state@))
                &&& sorted_by_rank(notes_of_states(state.notes_below_state@))
            },
        forall|i: int|
            chart.judge_line_list@.len() <= i < LINE_SLOTS ==> (#[trigger] final(engine).lines@[i])
                .is_default(),
        stably_sorted(
            final(engine).flatten_index@,
            flat_indices(final(engine).lines@, LINE_SLOTS as int),
        ),
        final(engine).flatten_index@.len() == flat_indices(
            final(engine).lines@,
            LINE_SLOTS as int,
        ).len(),
        metadata == (Metadata {
            length_in_second: estimated_length(final(engine).lines@),
            offset: chart.offset,
            format_version: format_version.number_spec(),
        }),
        final(engine).touches == old(engine).touches,
        final(engine).effects == old(engine).effects,
        final(engine).statistics == old(engine).statistics,
        final(engine).image_offset == old(engine).image_offset,
{
    let mut lines = empty_lines();
    let count: usize = if chart.judge_line_list.len() < LINE_SLOTS {
        chart.judge_line_list.len()
    } else {
        LINE_SLOTS
    };
    let mut i: usize = 0;
    while i < count
        invariant
            lines@.len() == LINE_SLOTS,
            count <= LINE_SLOTS,
            count <= chart.judge_line_list@.len(),
            i <= count,
            forall|k: int|
                0 <= k < i ==> loads(&chart.judge_line_list@[k], &#[trigger] lines@[k])
                    && no_highlight(&lines@[k]),
            forall|k: int| i <= k < LINE_SLOTS ==> (#[trigger] lines@[k]).is_default(),
        decreases count - i,
    {
        lines[i] = load_line(&chart.judge_line_list[i]);
        i = i + 1;
    }
    let ghost loaded = lines@;
    process_highlight(&mut lines);
    proof {
        let keys = all_keys(loaded, loaded.len() as int);
        assert forall|k: int| 0 <= k < loaded.len() implies {
            &&& (#[trigger] lines@[k]).enable == loaded[k].enable
            &&& lines@[k].tick_scale == loaded[k].tick_scale
            &&& notes_of_states(lines@[k].notes_above_state@) == notes_of_states(
                loaded[k].notes_above_state@,
            )
            &&& notes_of_states(lines@[k].notes_below_state@) == notes_of_states(
                loaded[k].notes_below_state@,
            )
        } by {
            assert(lines@[k].same_but_notes(&loaded[k]));
            assert(notes_of_states(lines@[k].notes_above_state@) =~= notes_of_states(
                loaded[k].notes_above_state@,
            ));
            assert(notes_of_states(lines@[k].notes_below_state@) =~= notes_of_states(
                loaded[k].notes_below_state@,
            ));
        }
        lemma_same_keys(loaded, lines@, loaded.len() as int);
        assert forall|k: int| 0 <= k < LINE_SLOTS && k < chart.judge_line_list@.len() implies {
            &&& loads(&chart.judge_line_list@[k], &#[trigger] lines@[k])
            &&& highlights_set(lines@, k)
        } by {
            assert(lines@[k].same_but_notes(&loaded[k]));
            assert(loads(&chart.judge_line_list@[k], &loaded[k]));
            assert(no_highlight(&loaded[k]));
            assert(notes_of_states(lines@[k].notes_above_state@) == notes_of_states(
                loaded[k].notes_above_state@,
            ));
            assert(notes_of_states(lines@[k].notes_below_state@) == notes_of_states(
                loaded[k].notes_below_state@,
            ));
            assert(all_keys(lines@, lines@.len() as int) == keys);
            assert(plays_fresh(lines@[k].notes_above_state@));
            assert(plays_fresh(lines@[k].notes_below_state@));
            assert(loads(&chart.judge_line_list@[k], &lines@[k]));
            assert(highlights_set(lines@, k));
        }
        assert forall|k: int| chart.judge_line_list@.len() <= k < LINE_SLOTS implies (
        #[trigger] lines@[k]).is_default() by {
            assert(lines@[k].same_but_notes(&loaded[k]));
            assert(loaded[k].is_default());
        }
    }
    let length: Real = get_estimated_length(lines.as_slice());
    engine.lines = lines;
    internal_init_flatten_line_state(engine.lines.as_slice(), &mut engine.flatten_index);
    Metadata {
        length_in_second: length,
        offset: chart.offset,
        format_version: format_version.number(),
    }
}

/// Clears the engine: no chart, no touch, no effect, no sound, no
/// statistics. The image heights stay as they are.
pub fn clear_states(engine: &mut Engine)
    ensures
        final(engine).is_cleared(),
        final(engine).image_offset == old(engine).image_offset,
{
    engine.flatten_index = Vec::new();
    engine.lines = empty_lines();
    engine.touches = empty_touches();
    engine.effects = Effects::new();
    engine.statistics = ChartStatistics::default();
}

} // verus!
