//! The flat index of all notes in the order of their ends, and the combo
//! and judgement counts taken along it.

use vstd::prelude::*;
use crate::scalar::Real;
use crate::sorting::{stable_sort, stably_sorted, Ranked};
use crate::states::{LineState, NoteScore, NoteState};

verus! {

/// Where a note stands: its line, its side and its place on that side, with
/// the moment at which it ends.
#[derive(Clone, Copy, Debug)]
pub struct NoteIndex {
    pub index_in_line: usize,
    pub above: bool,
    pub index_in_notes: usize,
    pub time_in_second: Real,
    /// `time_in_second` in units of ten microseconds, cut to an integer: what
    /// the flat index is ordered by.
    pub rank: i32,
}

impl Ranked for NoteIndex {
    open spec fn rank_spec(&self) -> i32 {
        self.rank
    }

    fn rank(&self) -> (r: i32) {
        self.rank
    }
}

impl NoteIndex {
    /// The note that the index points at, if there is one.
    pub open spec fn index_spec(&self, line_states: Seq<LineState>) -> Option<NoteState> {
        if self.index_in_line < line_states.len() {
            let notes = if self.above {
                line_states[self.index_in_line as int].notes_above_state@
            } else {
                line_states[self.index_in_line as int].notes_below_state@
            };
            if self.index_in_notes < notes.len() {
                Some(notes[self.index_in_notes as int])
            } else {
                None
            }
        } else {
            None
        }
    }

    /// Looks up the note that the index points at.
    pub fn index<'a>(&self, line_states: &'a [LineState]) -> (r: Option<&'a NoteState>)
        ensures
            match r {
                Some(state) => self.index_spec(line_states@) == Some(*state),
                None => self.index_spec(line_states@).is_none(),
            },
    {
        if self.index_in_line < line_states.len() {
            let line = &line_states[self.index_in_line];
            let notes = if self.above {
                &line.notes_above_state
            } else {
                &line.notes_below_state
            };
            if self.index_in_notes < notes.len() {
                Some(&notes[self.index_in_notes])
            } else {
                None
            }
        } else {
            None
        }
    }
}

/// The indices of the notes of one side of line `i`, in order.
pub open spec fn side_indices(notes: Seq<NoteState>, i: usize, above: bool) -> Seq<NoteIndex> {
    Seq::new(
        notes.len(),
        |j: int|
            NoteIndex {
                index_in_line: i,
                above,
                index_in_notes: j as usize,
                time_in_second: notes[j].note.end_second,
                rank: notes[j].note.end_rank,
            },
    )
}

/// The indices of the notes of the first `n` lines: line by line, the notes
/// above a line before those below it.
pub open spec fn flat_indices(lines: Seq<LineState>, n: int) -> Seq<NoteIndex>
    decreases n,
{
    if n <= 0 {
        Seq::empty()
    } else {
        flat_indices(lines, n - 1) + side_indices(
            lines[n - 1].notes_above_state@,
            (n - 1) as usize,
            true,
        ) + side_indices(lines[n - 1].notes_below_state@, (n - 1) as usize, false)
    }
}

fn push_side(out: &mut Vec<NoteIndex>, notes: &Vec<NoteState>, i: usize, above: bool)
    ensures
        final(out)@ == old(out)@ + side_indices(notes@, i, above),
{
    let len: usize = notes.len();
    let mut j: usize = 0;
    while j < len
        invariant
            len == notes@.len(),
            j <= len,
            out@ == old(out)@ + side_indices(notes@, i, above).take(j as int),
        decreases len - j,
    {
        out.push(
            NoteIndex {
                index_in_line: i,
                above,
                index_in_notes: j,
                time_in_second: notes[j].note.end_second,
                rank: notes[j].note.end_rank,
            },
        );
        assert(out@ =~= old(out)@ + side_indices(notes@, i, above).take(j + 1));
        j = j + 1;
    }
    assert(side_indices(notes@, i, above).take(len as int) =~= side_indices(notes@, i, above));
}

/// Builds the flat index of all notes: every note of every line, ordered by
/// the rank of its end; notes of one rank stand line by line, above before
/// below, in the order of their side.
pub fn internal_init_flatten_line_state(line_state: &[LineState], flatten_index: &mut Vec<NoteIndex>)
    ensures
        stably_sorted(final(flatten_index)@, flat_indices(line_state@, line_state@.len() as int)),
        final(flatten_index)@.len() == flat_indices(line_state@, line_state@.len() as int).len(),
{
    let mut out: Vec<NoteIndex> = Vec::new();
    let len: usize = line_state.len();
    let mut i: usize = 0;
    while i < len
        invariant
            len == line_state@.len(),
            i <= len,
            out@ == flat_indices(line_state@, i as int),
        decreases len - i,
    {
        push_side(&mut out, &line_state[i].notes_above_state, i, true);
        push_side(&mut out, &line_state[i].notes_below_state, i, false);
        i = i + 1;
    }
    stable_sort(&mut out);
    *flatten_index = out;
}

/// The combo and the judgement counts of a chart in play.
#[derive(Clone, Copy, Debug, PartialEq, Eq, Structural)]
pub struct ChartStatistics {
    /// The notes judged perfect or good since the last bad or missed one.
    pub combo: u32,
    /// The longest such run.
    pub max_combo: u32,
    /// The notes judged perfect.
    pub perfects: u32,
    /// The notes judged good.
    pub goods: u32,
    /// The notes of the chart.
    pub total_notes: usize,
}

impl ChartStatistics {
    /// The statistics of a chart without notes.
    pub open spec fn default_spec() -> ChartStatistics {
        ChartStatistics { combo: 0, max_combo: 0, perfects: 0, goods: 0, total_notes: 0 }
    }
}

impl Default for ChartStatistics {
    fn default() -> (r: Self)
        ensures
            r == ChartStatistics::default_spec(),
    {
        ChartStatistics { combo: 0, max_combo: 0, perfects: 0, goods: 0, total_notes: 0 }
    }
}

/// The judgements of the notes along the flat index. An index that points at
/// no note counts as not judged.
pub open spec fn scores_along(lines: Seq<LineState>, flatten_index: Seq<NoteIndex>) -> Seq<NoteScore> {
    Seq::new(
        flatten_index.len(),
        |k: int|
            match flatten_index[k].index_spec(lines) {
                Some(state) => state.score,
                None => NoteScore::Unjudged,
            },
    )
}

/// Whether a judgement adds to a combo.
pub open spec fn is_hit(score: NoteScore) -> bool {
    score == NoteScore::Perfect || score == NoteScore::Good
}

/// Whether a judgement breaks a combo.
pub open spec fn is_break(score: NoteScore) -> bool {
    score == NoteScore::Bad || score == NoteScore::Miss
}

/// The combo at the end of the judgements: the hits since the last break.
/// A note that is not judged neither adds to it nor breaks it.
pub open spec fn combo_of(scores: Seq<NoteScore>) -> nat
    decreases scores.len(),
{
    if scores.len() == 0 {
        0
    } else if is_hit(scores.last()) {
        combo_of(scores.drop_last()) + 1
    } else if is_break(scores.last()) {
        0
    } else {
        combo_of(scores.drop_last())
    }
}

/// The longest combo that the judgements hold.
pub open spec fn max_combo_of(scores: Seq<NoteScore>) -> nat
    decreases scores.len(),
{
    if scores.len() == 0 {
        0
    } else if max_combo_of(scores.drop_last()) >= combo_of(scores) {
        max_combo_of(scores.drop_last())
    } else {
        combo_of(scores)
    }
}

/// How many of the judgements are `which`.
pub open spec fn count_of(scores: Seq<NoteScore>, which: NoteScore) -> nat
    decreases scores.len(),
{
    if scores.len() == 0 {
        0
    } else if scores.last() == which {
        count_of(scores.drop_last(), which) + 1
    } else {
        count_of(scores.drop_last(), which)
    }
}

/// A count as it is stored: cut off at the largest stored value.
pub open spec fn clip(n: nat) -> u32 {
    if n > u32::MAX {
        u32::MAX
    } else {
        n as u32
    }
}

/// The statistics that a sequence of judgements gives.
pub open spec fn statistics_of(scores: Seq<NoteScore>) -> ChartStatistics {
    ChartStatistics {
        combo: clip(combo_of(scores)),
        max_combo: clip(max_combo_of(scores)),
        perfects: clip(count_of(scores, NoteScore::Perfect)),
        goods: clip(count_of(scores, NoteScore::Good)),
        total_notes: scores.len() as usize,
    }
}

/// No count is larger than the number of judgements.
pub proof fn lemma_counts_bounded(scores: Seq<NoteScore>)
    ensures
        combo_of(scores) <= max_combo_of(scores) <= scores.len(),
        count_of(scores, NoteScore::Perfect) + count_of(scores, NoteScore::Good) <= scores.len(),
    decreases scores.len(),
{
    if scores.len() > 0 {
        lemma_counts_bounded(scores.drop_last());
    }
}

/// Where every judgement either stays as it is or becomes perfect or good,
/// neither the combo nor the longest combo falls.
pub proof fn lemma_combo_monotone(before: Seq<NoteScore>, after: Seq<NoteScore>)
    requires
        before.len() == after.len(),
        forall|k: int| 0 <= k < before.len() ==> #[trigger] after[k] == before[k] || is_hit(after[k]),
    ensures
        combo_of(before) <= combo_of(after),
        max_combo_of(before) <= max_combo_of(after),
        statistics_of(before).combo <= statistics_of(after).combo,
        statistics_of(before).max_combo <= statistics_of(after).max_combo,
    decreases before.len(),
{
    if before.len() > 0 {
        assert(after[before.len() - 1] == before[before.len() - 1] || is_hit(
            after[before.len() - 1],
        ));
        assert forall|k: int| 0 <= k < before.drop_last().len() implies #[trigger] after.drop_last()[k]
            == before.drop_last()[k] || is_hit(after.drop_last()[k]) by {
            assert(after[k] == before[k] || is_hit(after[k]));
        }
        lemma_combo_monotone(before.drop_last(), after.drop_last());
    }
}

/// Whether the lines hold as many notes on each side after as before, and
/// every note either keeps its judgement or is perfect or good.
pub open spec fn only_hits_between(before: Seq<LineState>, after: Seq<LineState>) -> bool {
    &&& before.len() == after.len()
    &&& forall|i: int|
        0 <= i < before.len() ==> {
            &&& (#[trigger] after[i]).notes_above_state@.len() == before[i].notes_above_state@.len()
            &&& after[i].notes_below_state@.len() == before[i].notes_below_state@.len()
        }
    &&& forall|i: int, j: int|
        0 <= i < before.len() && 0 <= j < before[i].notes_above_state@.len() ==> {
            let was = before[i].notes_above_state@[j].score;
            let is = (#[trigger] after[i].notes_above_state@[j]).score;
            is == was || is_hit(is)
        }
    &&& forall|i: int, j: int|
        0 <= i < before.len() && 0 <= j < before[i].notes_below_state@.len() ==> {
            let was = before[i].notes_below_state@[j].score;
            let is = (#[trigger] after[i].notes_below_state@[j]).score;
            is == was || is_hit(is)
        }
}

/// The combo is monotonic: across play in which every judgement that is made
/// is perfect or good, neither the combo nor the longest combo falls.
pub proof fn lemma_hits_keep_combo(
    before: Seq<LineState>,
    after: Seq<LineState>,
    flatten_index: Seq<NoteIndex>,
)
    requires
        only_hits_between(before, after),
    ensures
        statistics_of(scores_along(before, flatten_index)).combo <= statistics_of(
            scores_along(after, flatten_index),
        ).combo,
        statistics_of(scores_along(before, flatten_index)).max_combo <= statistics_of(
            scores_along(after, flatten_index),
        ).max_combo,
{
    let was = scores_along(before, flatten_index);
    let is = scores_along(after, flatten_index);
    assert forall|k: int| 0 <= k < was.len() implies #[trigger] is[k] == was[k] || is_hit(is[k]) by {
        let at = flatten_index[k];
        if at.index_in_line < before.len() {
            let i = at.index_in_line as int;
            let j = at.index_in_notes as int;
            assert(after[i].notes_above_state@.len() == before[i].notes_above_state@.len());
            if at.above {
                if j < before[i].notes_above_state@.len() {
                    assert(after[i].notes_above_state@[j].score == before[i].notes_above_state@[j].score
                        || is_hit(after[i].notes_above_state@[j].score));
                }
            } else {
                if j < before[i].notes_below_state@.len() {
                    assert(after[i].notes_below_state@[j].score == before[i].notes_below_state@[j].score
                        || is_hit(after[i].notes_below_state@[j].score));
                }
            }
        }
    }
    lemma_combo_monotone(was, is);
}

fn clip_count(n: usize) -> (r: u32)
    ensures
        r == clip(n as nat),
{
    if n > 0xffff_ffff {
        0xffff_ffff
    } else {
        n as u32
    }
}

/// Takes the statistics anew from the judgements along the flat index.
pub fn internal_refresh_chart_statistics(
    line_states: &[LineState],
    flatten_index: &[NoteIndex],
    chart_statistics: &mut ChartStatistics,
)
    ensures
        *final(chart_statistics) == statistics_of(scores_along(line_states@, flatten_index@)),
{
    let ghost scores = scores_along(line_states@, flatten_index@);
    let len: usize = flatten_index.len();
    let mut combo: usize = 0;
    let mut max_combo: usize = 0;
    let mut perfects: usize = 0;
    let mut goods: usize = 0;
    let mut i: usize = 0;
    while i < len
        invariant
            len == flatten_index@.len(),
            scores == scores_along(line_states@, flatten_index@),
            i <= len,
            combo == combo_of(scores.take(i as int)),
            max_combo == max_combo_of(scores.take(i as int)),
            perfects == count_of(scores.take(i as int), NoteScore::Perfect),
            goods == count_of(scores.take(i as int), NoteScore::Good),
        decreases len - i,
    {
        proof {
            lemma_counts_bounded(scores.take(i as int));
            assert(scores.take(i + 1).drop_last() =~= scores.take(i as int));
            assert(scores.take(i + 1).last() == scores[i as int]);
        }
        match flatten_index[i].index(line_states) {
            None => {},
            Some(state) => match state.score {
                NoteScore::Perfect => {
                    combo = combo + 1;
                    perfects = perfects + 1;
                },
                NoteScore::Good => {
                    combo = combo + 1;
                    goods = goods + 1;
                },
                NoteScore::Bad | NoteScore::Miss => {
                    combo = 0;
                },
                NoteScore::Unjudged => {},
            },
        }
        if combo > max_combo {
            max_combo = combo;
        }
        i = i + 1;
    }
    proof {
        assert(scores.take(len as int) =~= scores);
    }
    *chart_statistics = ChartStatistics {
        combo: clip_count(combo),
        max_combo: clip_count(max_combo),
        perfects: clip_count(perfects),
        goods: clip_count(goods),
        total_notes: len,
    };
}

} // verus!
