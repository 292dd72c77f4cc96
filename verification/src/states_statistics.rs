//! Scoring aggregation: the flattened note index ordered by resolution
//! time, and the wholesale recomputation of combo, accuracy and score.
//!
//! Statistics are a pure function of the note states reached so far — they
//! are recomputed from scratch, never incrementally, so repeating the
//! computation without a note change repeats the result exactly (see
//! [`lemma_statistics_depend_only_on_scores`]).

use vstd::prelude::*;

use crate::chart::{ticks_to_us, Note};
use crate::states::{el_mut, lines_wf, LineState, NoteScore, NoteState};

verus! {

/// Largest accepted flattened index, so that every count fits `u32`.
pub const FLATTEN_COUNT_MAX: usize = 0x8000_0000;

/// A cross-reference to one note: line slot, side, position in its list,
/// and its resolution time `(time + hold_time)` in microseconds.
#[derive(Clone, Copy, PartialEq, Eq, Structural, Debug)]
pub struct NoteIndex {
    pub line_index: usize,
    pub above: bool,
    pub note_index: usize,
    pub time_us: i64,
}

/// Aggregate results. `accurate` is in micro (1_000_000 is 100%); `score`
/// is in milli-points (1_000_000_000 is the full million).
#[derive(Clone, Copy, PartialEq, Eq, Structural, Debug)]
pub struct ChartStatistics {
    pub combo: u32,
    pub max_combo: u32,
    pub score: i64,
    pub accurate: i64,
}

impl Default for ChartStatistics {
    fn default() -> (r: ChartStatistics)
        ensures
            r == (ChartStatistics { combo: 0u32, max_combo: 0u32, score: 0i64, accurate: 0i64 }),
    {
        ChartStatistics { combo: 0, max_combo: 0, score: 0, accurate: 0 }
    }
}

/// The note state an index entry points at, if it is in range.
pub open spec fn spec_note_at(lines: Seq<LineState>, ni: NoteIndex) -> Option<NoteState> {
    if ni.line_index < lines.len() {
        let list = if ni.above {
            lines[ni.line_index as int].notes_above_state@
        } else {
            lines[ni.line_index as int].notes_below_state@
        };
        if ni.note_index < list.len() {
            Some(list[ni.note_index as int])
        } else {
            None
        }
    } else {
        None
    }
}

impl NoteIndex {
    /// Resolves this entry against the line states.
    pub fn index<'a>(&self, line_states: &'a Vec<LineState>) -> (r: Option<&'a NoteState>)
        ensures
            (match r {
                Some(st) => spec_note_at(line_states@, *self) == Some(*st),
                None => spec_note_at(line_states@, *self) is None,
            }),
    {
        if self.line_index < line_states.len() {
            let line = &line_states[self.line_index];
            let list = if self.above {
                &line.notes_above_state
            } else {
                &line.notes_below_state
            };
            if self.note_index < list.len() {
                Some(&list[self.note_index])
            } else {
                None
            }
        } else {
            None
        }
    }
}

/// Combo walk over the first `i` index entries, in order: Perfect and Good
/// extend the current run, Bad and Miss reset it, a pending or dangling
/// entry leaves it alone; the maximum ever reached is tracked alongside.
pub open spec fn spec_combo_state(lines: Seq<LineState>, idx: Seq<NoteIndex>, i: int) -> (
    int,
    int,
)
    decreases i,
{
    if i <= 0 {
        (0, 0)
    } else {
        let prev = spec_combo_state(lines, idx, i - 1);
        match spec_note_at(lines, idx[i - 1]) {
            Some(st) => {
                if st.score == NoteScore::Perfect || st.score == NoteScore::Good {
                    let c = prev.0 + 1;
                    (
                        c,
                        if c > prev.1 {
                            c
                        } else {
                            prev.1
                        },
                    )
                } else if st.score == NoteScore::Bad || st.score == NoteScore::Miss {
                    (0, prev.1)
                } else {
                    prev
                }
            },
            None => prev,
        }
    }
}

/// Perfect and Good counts over the first `i` index entries.
pub open spec fn spec_judge_counts(lines: Seq<LineState>, idx: Seq<NoteIndex>, i: int) -> (
    int,
    int,
)
    decreases i,
{
    if i <= 0 {
        (0, 0)
    } else {
        let prev = spec_judge_counts(lines, idx, i - 1);
        match spec_note_at(lines, idx[i - 1]) {
            Some(st) => {
                if st.score == NoteScore::Perfect {
                    (prev.0 + 1, prev.1)
                } else if st.score == NoteScore::Good {
                    (prev.0, prev.1 + 1)
                } else {
                    prev
                }
            },
            None => prev,
        }
    }
}

/// Accuracy in micro: `(perfect + 0.65 * good) / total`, zero with no
/// notes.
pub open spec fn spec_accuracy_micro(lines: Seq<LineState>, idx: Seq<NoteIndex>) -> int {
    let counts = spec_judge_counts(lines, idx, idx.len() as int);
    if idx.len() == 0 {
        0
    } else {
        (counts.0 * 1_000_000 + counts.1 * 650_000) / (idx.len() as int)
    }
}

/// Score in milli-points: a completion term `max_combo / total * 100000`
/// plus an accuracy term `accuracy * 900000`, zero with no notes.
pub open spec fn spec_score_milli(lines: Seq<LineState>, idx: Seq<NoteIndex>) -> int {
    let cm = spec_combo_state(lines, idx, idx.len() as int);
    if idx.len() == 0 {
        0
    } else {
        (cm.1 * 100_000_000) / (idx.len() as int) + spec_accuracy_micro(lines, idx) * 900
    }
}

/// Recomputes combo, maximum combo, accuracy and score from scratch by
/// walking the flattened index in resolution-time order.
#[verifier::loop_isolation(false)]
pub fn refresh_chart_statistics(
    line_states: &Vec<LineState>,
    flatten_index: &Vec<NoteIndex>,
    chart_statistics: &mut ChartStatistics,
)
    requires
        flatten_index@.len() <= FLATTEN_COUNT_MAX,
    ensures
        final(chart_statistics).combo == spec_combo_state(
            line_states@,
            flatten_index@,
            flatten_index@.len() as int,
        ).0,
        final(chart_statistics).max_combo == spec_combo_state(
            line_states@,
            flatten_index@,
            flatten_index@.len() as int,
        ).1,
        final(chart_statistics).accurate == spec_accuracy_micro(line_states@, flatten_index@),
        final(chart_statistics).score == spec_score_milli(line_states@, flatten_index@),
{
    let n = flatten_index.len();
    let mut current: u32 = 0;
    let mut max_combo: u32 = 0;
    let mut perfect: u32 = 0;
    let mut good: u32 = 0;
    let mut i: usize = 0;
    while i < n
        invariant
            i <= n,
            (current as int, max_combo as int) == spec_combo_state(
                line_states@,
                flatten_index@,
                i as int,
            ),
            (perfect as int, good as int) == spec_judge_counts(
                line_states@,
                flatten_index@,
                i as int,
            ),
            current <= i,
            max_combo <= i,
            perfect + good <= i,
        decreases n - i,
    {
        let entry = flatten_index[i];
        match entry.index(line_states) {
            Some(state) => {
                if state.score == NoteScore::Perfect || state.score == NoteScore::Good {
                    current = current + 1;
                    if current > max_combo {
                        max_combo = current;
                    }
                } else if state.score == NoteScore::Bad || state.score == NoteScore::Miss {
                    current = 0;
                }
                if state.score == NoteScore::Perfect {
                    perfect = perfect + 1;
                } else if state.score == NoteScore::Good {
                    good = good + 1;
                }
            },
            None => {},
        }
        i = i + 1;
    }
    if n == 0 {
        *chart_statistics = ChartStatistics { combo: 0, max_combo: 0, score: 0, accurate: 0 };
        return ;
    }
    let total: i64 = n as i64;
    let acc_num: i64 = (perfect as i64) * 1_000_000 + (good as i64) * 650_000;
    proof {
        vstd::arithmetic::div_mod::lemma_div_pos_is_pos(acc_num as int, total as int);
        vstd::arithmetic::div_mod::lemma_div_is_ordered(
            acc_num as int,
            total as int * 1_000_000,
            total as int,
        );
        vstd::arithmetic::div_mod::lemma_div_multiples_vanish(1_000_000, total as int);
        vstd::arithmetic::div_mod::lemma_div_pos_is_pos(
            max_combo as int * 100_000_000,
            total as int,
        );
        vstd::arithmetic::div_mod::lemma_div_is_ordered(
            max_combo as int * 100_000_000,
            total as int * 100_000_000,
            total as int,
        );
        vstd::arithmetic::div_mod::lemma_div_multiples_vanish(100_000_000, total as int);
        assert(max_combo as int * 100_000_000 <= total as int * 100_000_000) by (nonlinear_arith)
            requires
                0 <= max_combo as int <= total as int,
        ;
    }
    let accurate: i64 = acc_num / total;
    let completion: i64 = (max_combo as i64) * 100_000_000 / total;
    let score: i64 = completion + accurate * 900;
    *chart_statistics = ChartStatistics { combo: current, max_combo, score, accurate };
}

/// The score an index entry sees, disregarding everything else about the
/// note.
pub open spec fn spec_entry_score(lines: Seq<LineState>, ni: NoteIndex) -> Option<NoteScore> {
    match spec_note_at(lines, ni) {
        Some(st) => Some(st.score),
        None => None,
    }
}

proof fn lemma_combo_only_scores(
    l1: Seq<LineState>,
    l2: Seq<LineState>,
    idx: Seq<NoteIndex>,
    i: int,
)
    requires
        forall|k: int|
            0 <= k < idx.len() ==> spec_entry_score(l1, #[trigger] idx[k]) == spec_entry_score(
                l2,
                idx[k],
            ),
        i <= idx.len(),
    ensures
        spec_combo_state(l1, idx, i) == spec_combo_state(l2, idx, i),
        spec_judge_counts(l1, idx, i) == spec_judge_counts(l2, idx, i),
    decreases i,
{
    if i > 0 {
        lemma_combo_only_scores(l1, l2, idx, i - 1);
    }
}

/// The aggregator is a pure function of the scores the index sees: two
/// line-state arrays whose indexed notes carry the same scores yield
/// identical statistics. In particular, recomputing with no intervening
/// note change repeats the previous result exactly.
pub proof fn lemma_statistics_depend_only_on_scores(
    l1: Seq<LineState>,
    l2: Seq<LineState>,
    idx: Seq<NoteIndex>,
)
    requires
        forall|k: int|
            0 <= k < idx.len() ==> spec_entry_score(l1, #[trigger] idx[k]) == spec_entry_score(
                l2,
                idx[k],
            ),
    ensures
        spec_combo_state(l1, idx, idx.len() as int) == spec_combo_state(
            l2,
            idx,
            idx.len() as int,
        ),
        spec_accuracy_micro(l1, idx) == spec_accuracy_micro(l2, idx),
        spec_score_milli(l1, idx) == spec_score_milli(l2, idx),
{
    lemma_combo_only_scores(l1, l2, idx, idx.len() as int);
}

/// The index entry for one note: its place and its resolution time
/// `(time + hold_time)` converted to microseconds at the line's tempo.
pub open spec fn spec_entry(li: int, above: bool, j: int, n: Note, bpm: i64) -> NoteIndex {
    NoteIndex {
        line_index: li as usize,
        above,
        note_index: j as usize,
        time_us: crate::chart::spec_ticks_to_us(
            (n.time + n.hold_time) as i64,
            crate::chart::spec_seconds_per_tick(bpm) as i64,
        ) as i64,
    }
}

/// All entries of one line, above notes first; a disabled slot has none.
pub open spec fn spec_line_flatten(l: LineState, li: int) -> Seq<NoteIndex> {
    if !l.enable {
        Seq::empty()
    } else {
        Seq::new(
            l.notes_above_state@.len(),
            |j: int| spec_entry(li, true, j, l.notes_above_state@[j].note, l.bpm),
        ) + Seq::new(
            l.notes_below_state@.len(),
            |j: int| spec_entry(li, false, j, l.notes_below_state@[j].note, l.bpm),
        )
    }
}

/// All entries of the first `i` lines, in line order.
pub open spec fn spec_flatten_upto(lines: Seq<LineState>, i: int) -> Seq<NoteIndex>
    decreases i,
{
    if i <= 0 {
        Seq::empty()
    } else {
        spec_flatten_upto(lines, i - 1) + spec_line_flatten(lines[i - 1], i - 1)
    }
}

/// Every note of every enabled line, cross-referenced.
pub open spec fn spec_flatten(lines: Seq<LineState>) -> Seq<NoteIndex> {
    spec_flatten_upto(lines, lines.len() as int)
}

pub open spec fn flatten_sorted(s: Seq<NoteIndex>) -> bool {
    forall|a: int, b: int|
        0 <= a < b < s.len() ==> #[trigger] s[a].time_us <= #[trigger] s[b].time_us
}

/// Swapping two adjacent elements leaves the multiset of elements alone.
proof fn lemma_swap_adjacent_multiset(s: Seq<NoteIndex>, j: int)
    requires
        1 <= j < s.len(),
    ensures
        s.update(j - 1, s[j]).update(j, s[j - 1]).to_multiset() == s.to_multiset(),
{
    broadcast use vstd::seq_lib::to_multiset_update;
    broadcast use vstd::multiset::group_multiset_axioms;
    broadcast use vstd::multiset::group_multiset_properties;
    broadcast use vstd::seq_lib::to_multiset_contains;

    let s1 = s.update(j - 1, s[j]);
    assert(s1[j] == s[j]);
    assert(s.to_multiset().contains(s[j - 1]));
    assert(s1.to_multiset() == s.to_multiset().insert(s[j]).remove(s[j - 1]));
    assert(s1.to_multiset().contains(s1[j]));
    assert(s1.update(j, s[j - 1]).to_multiset() == s1.to_multiset().insert(s[j - 1]).remove(
        s1[j],
    ));
    assert(s1.update(j, s[j - 1]).to_multiset() =~= s.to_multiset());
}

/// Stable insertion sort of the flattened index by resolution time.
#[verifier::loop_isolation(false)]
fn sort_flatten_by_time(v: &mut Vec<NoteIndex>)
    ensures
        final(v)@.len() == old(v)@.len(),
        final(v)@.to_multiset() == old(v)@.to_multiset(),
        flatten_sorted(final(v)@),
{
    let n = v.len();
    let mut i: usize = 1;
    while i < n
        invariant
            1 <= i,
            n == v@.len(),
            v@.len() == old(v)@.len(),
            v@.to_multiset() == old(v)@.to_multiset(),
            forall|a: int, b: int|
                0 <= a < b < i ==> #[trigger] v@[a].time_us <= #[trigger] v@[b].time_us,
        decreases n - i,
    {
        let mut j: usize = i;
        while j > 0 && v[j - 1].time_us > v[j].time_us
            invariant
                0 <= j <= i < n,
                n == v@.len(),
                v@.len() == old(v)@.len(),
                v@.to_multiset() == old(v)@.to_multiset(),
                forall|a: int, b: int|
                    0 <= a < b <= i && b != j ==> #[trigger] v@[a].time_us
                        <= #[trigger] v@[b].time_us,
                forall|b: int|
                    j < b <= i ==> v@[j as int].time_us <= #[trigger] v@[b].time_us,
            decreases j,
        {
            let prev = v[j - 1];
            let cur = v[j];
            let ghost before = v@;
            let p1 = el_mut(v, j - 1);
            *p1 = cur;
            let p2 = el_mut(v, j);
            *p2 = prev;
            proof {
                lemma_swap_adjacent_multiset(before, j as int);
                assert(v@ =~= before.update(j - 1, before[j as int]).update(
                    j as int,
                    before[j - 1],
                ));
            }
            j = j - 1;
        }
        i = i + 1;
    }
}

/// Rebuilds the flattened note index for a freshly loaded chart: one entry
/// per note of every enabled line, sorted non-decreasing by resolution
/// time `(time + hold_time)` in microseconds.
#[verifier::loop_isolation(false)]
pub fn init_flatten_line_state(line_states: &Vec<LineState>, flatten_index: &mut Vec<NoteIndex>)
    requires
        lines_wf(line_states@),
    ensures
        final(flatten_index)@.to_multiset() == spec_flatten(line_states@).to_multiset(),
        final(flatten_index)@.len() == spec_flatten(line_states@).len(),
        flatten_sorted(final(flatten_index)@),
{
    let mut out: Vec<NoteIndex> = Vec::new();
    let n = line_states.len();
    let mut li: usize = 0;
    while li < n
        invariant
            li <= n,
            n == line_states@.len(),
            out@ == spec_flatten_upto(line_states@, li as int),
        decreases n - li,
    {
        let line = &line_states[li];
        if line.enable {
            let spt = crate::states::get_seconds_per_tick(line.bpm);
            let ghost above_entries = Seq::new(
                line.notes_above_state@.len(),
                |j: int| spec_entry(li as int, true, j, line.notes_above_state@[j].note, line.bpm),
            );
            let ghost below_entries = Seq::new(
                line.notes_below_state@.len(),
                |j: int| spec_entry(li as int, false, j, line.notes_below_state@[j].note, line.bpm),
            );
            let ghost base = out@;
            let m = line.notes_above_state.len();
            let mut j: usize = 0;
            while j < m
                invariant
                    j <= m,
                    m == line.notes_above_state@.len(),
                    out@ == base + above_entries.subrange(0, j as int),
                decreases m - j,
            {
                let note = line.notes_above_state[j].note;
                let t = ticks_to_us(note.time + note.hold_time, spt);
                out.push(
                    NoteIndex { line_index: li, above: true, note_index: j, time_us: t },
                );
                proof {
                    assert(out@ =~= base + above_entries.subrange(0, j as int + 1));
                }
                j = j + 1;
            }
            let ghost base2 = out@;
            let mb = line.notes_below_state.len();
            let mut jb: usize = 0;
            while jb < mb
                invariant
                    jb <= mb,
                    mb == line.notes_below_state@.len(),
                    out@ == base2 + below_entries.subrange(0, jb as int),
                decreases mb - jb,
            {
                let note = line.notes_below_state[jb].note;
                let t = ticks_to_us(note.time + note.hold_time, spt);
                out.push(
                    NoteIndex { line_index: li, above: false, note_index: jb, time_us: t },
                );
                proof {
                    assert(out@ =~= base2 + below_entries.subrange(0, jb as int + 1));
                }
                jb = jb + 1;
            }
            proof {
                assert(above_entries.subrange(0, m as int) =~= above_entries);
                assert(below_entries.subrange(0, mb as int) =~= below_entries);
                assert(out@ =~= spec_flatten_upto(line_states@, li as int + 1));
            }
        } else {
            proof {
                assert(out@ =~= spec_flatten_upto(line_states@, li as int + 1));
            }
        }
        li = li + 1;
    }
    sort_flatten_by_time(&mut out);
    proof {
        assert(spec_flatten_upto(line_states@, n as int).to_multiset().len() == spec_flatten_upto(
            line_states@,
            n as int,
        ).len()) by {
            broadcast use vstd::seq_lib::to_multiset_len;

        }
        assert(out@.to_multiset().len() == out@.len()) by {
            broadcast use vstd::seq_lib::to_multiset_len;

        }
    }
    *flatten_index = out;
}

} // verus!
