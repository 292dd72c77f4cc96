//! Mutable simulation state: one `LineState` per judge line, one `NoteState`
//! per note, and the well-formedness bounds that chart loading establishes
//! and every frame preserves.

use vstd::prelude::*;

use crate::chart::{
    ticks_to_us, Chart, Event1, Event2, Event4, JudgeLine, Note, NoteType, WithTimeRange,
    BPM_MILLI_MAX, BPM_MILLI_MIN, MILLI_TICK_MAX, MOVE_VALUE_MAX, POSITION_MAX, SPT_US_MAX,
    TIME_US_MAX, VALUE_MAX,
};

verus! {

/// Largest event boundary after conversion to microseconds.
pub const EVENT_US_MAX: i64 = 4_026_531_838_125_000;
/// Largest number of events in one list.
pub const EVENT_COUNT_MAX: usize = 0x100_0000;
/// Largest number of notes in one list.
pub const NOTE_COUNT_MAX: usize = 0x100_0000;
/// Number of judge-line slots; slots beyond the loaded chart are disabled.
pub const LINE_SLOT_COUNT: usize = 50;
/// Upper bound of a hold note's sustain cooldown, in microseconds
/// (16 ticks at the slowest tempo).
pub const COOL_DOWN_MAX: i64 = 30_000_000_000;

/// Judgement of one note. `Pending` is the initial, not-yet-resolved state;
/// the four others are terminal.
#[derive(Clone, Copy, PartialEq, Eq, Structural, Debug)]
pub enum NoteScore {
    Perfect,
    Good,
    Bad,
    Miss,
    Pending,
}

/// Whether a score is one of the four terminal judgements.
pub open spec fn is_terminal(score: NoteScore) -> bool {
    score != NoteScore::Pending
}

/// Per-note mutable state. `hold_cool_down` is in microseconds.
#[derive(Clone, Copy, PartialEq, Eq, Structural, Debug)]
pub struct NoteState {
    pub note: Note,
    pub highlight: bool,
    pub score: NoteScore,
    pub hold_cool_down: i64,
    pub extra_score: NoteScore,
}

/// Per-line mutable state. Event lists hold times already converted to
/// microseconds; `x`, `y` are in milli-units, `rotate` in milli-degrees,
/// `alpha`, `speed` in milli-units, `tick_time` in microseconds, and
/// `line_y` in microsecond-milli-units (divide by 10^9 for second-units).
#[derive(Clone)]
pub struct LineState {
    pub enable: bool,
    pub x: i64,
    pub y: i64,
    pub rotate: i64,
    pub alpha: i64,
    pub speed: i64,
    pub line_y: i128,
    pub tick_time: i64,
    pub event_speed_index_cache: usize,
    pub event_move_index_cache: usize,
    pub event_rotate_index_cache: usize,
    pub event_alpha_index_cache: usize,
    pub notes_above_state: Vec<NoteState>,
    pub notes_below_state: Vec<NoteState>,
    pub speed_events: Vec<Event1>,
    pub move_events: Vec<Event4>,
    pub rotate_events: Vec<Event2>,
    pub alpha_events: Vec<Event2>,
    pub bpm: i64,
}

impl Default for NoteState {
    /// A placeholder note state, as used for unloaded slots.
    fn default() -> (r: NoteState)
        ensures
            r == (NoteState {
                highlight: false,
                score: NoteScore::Pending,
                hold_cool_down: 0i64,
                extra_score: NoteScore::Pending,
                note: (Note {
                    note_type: NoteType::Tap,
                    time: 0i64,
                    position_x: 0i64,
                    hold_time: 250i64,
                    speed: 0i64,
                    floor_position: 0i64,
                }),
            }),
    {
        NoteState {
            highlight: false,
            score: NoteScore::Pending,
            hold_cool_down: 0,
            extra_score: NoteScore::Pending,
            note: Note {
                note_type: NoteType::Tap,
                time: 0,
                position_x: 0,
                hold_time: 250,
                speed: 0,
                floor_position: 0,
            },
        }
    }
}

impl Default for LineState {
    /// A disabled line slot.
    fn default() -> (r: LineState)
        ensures
            !r.enable,
            r.notes_above_state@ =~= Seq::<NoteState>::empty(),
            r.notes_below_state@ =~= Seq::<NoteState>::empty(),
            r.speed_events@ =~= Seq::<Event1>::empty(),
            r.move_events@ =~= Seq::<Event4>::empty(),
            r.rotate_events@ =~= Seq::<Event2>::empty(),
            r.alpha_events@ =~= Seq::<Event2>::empty(),
            r.x == 0 && r.y == 0 && r.rotate == 0 && r.alpha == 0,
            r.speed == 1000 && r.line_y == 0 && r.tick_time == 0,
            r.event_speed_index_cache == 0 && r.event_move_index_cache == 0,
            r.event_rotate_index_cache == 0 && r.event_alpha_index_cache == 0,
            r.bpm == 0,
    {
        LineState {
            enable: false,
            x: 0,
            y: 0,
            rotate: 0,
            alpha: 0,
            speed: 1000,
            line_y: 0,
            tick_time: 0,
            event_speed_index_cache: 0,
            event_move_index_cache: 0,
            event_rotate_index_cache: 0,
            event_alpha_index_cache: 0,
            notes_above_state: Vec::new(),
            notes_below_state: Vec::new(),
            speed_events: Vec::new(),
            move_events: Vec::new(),
            rotate_events: Vec::new(),
            alpha_events: Vec::new(),
            bpm: 0,
        }
    }
}

/// Shared bounds of every event list after conversion to microseconds:
/// nonnegative, nonempty ranges in ascending, non-overlapping order.
pub open spec fn events_time_wf<T: WithTimeRange>(s: Seq<T>) -> bool {
    &&& s.len() <= EVENT_COUNT_MAX
    &&& forall|i: int| 0 <= i < s.len() ==> 0 <= #[trigger] s[i].spec_time_start()
    &&& forall|i: int| 0 <= i < s.len() ==> #[trigger] s[i].spec_time_end() <= EVENT_US_MAX
    &&& forall|i: int|
        0 <= i < s.len() ==> #[trigger] s[i].spec_time_start() < s[i].spec_time_end()
    &&& forall|i: int, j: int|
        0 <= i < j < s.len() ==> #[trigger] s[i].spec_time_end()
            <= #[trigger] s[j].spec_time_start()
}

pub open spec fn event1_values_wf(s: Seq<Event1>) -> bool {
    forall|i: int|
        0 <= i < s.len() ==> -VALUE_MAX <= #[trigger] s[i].value && s[i].value <= VALUE_MAX
}

pub open spec fn event2_values_wf(s: Seq<Event2>) -> bool {
    forall|i: int|
        0 <= i < s.len() ==> {
            &&& -VALUE_MAX <= #[trigger] s[i].start <= VALUE_MAX
            &&& -VALUE_MAX <= s[i].end <= VALUE_MAX
        }
}

pub open spec fn event4_values_wf(s: Seq<Event4>) -> bool {
    forall|i: int|
        0 <= i < s.len() ==> {
            &&& -MOVE_VALUE_MAX <= #[trigger] s[i].start <= MOVE_VALUE_MAX
            &&& -MOVE_VALUE_MAX <= s[i].end <= MOVE_VALUE_MAX
            &&& -MOVE_VALUE_MAX <= s[i].start2 <= MOVE_VALUE_MAX
            &&& -MOVE_VALUE_MAX <= s[i].end2 <= MOVE_VALUE_MAX
        }
}

/// Bounds of one note's chart data.
pub open spec fn note_wf(n: Note) -> bool {
    &&& 0 <= n.time
    &&& 0 <= n.hold_time
    &&& n.time + n.hold_time <= MILLI_TICK_MAX
    &&& -POSITION_MAX <= n.position_x <= POSITION_MAX
}

/// Bounds and ordering of one note-state list: chart bounds per note, the
/// list ascending by note time, and the sustain cooldown within its range.
pub open spec fn notes_wf(s: Seq<NoteState>) -> bool {
    &&& s.len() <= NOTE_COUNT_MAX
    &&& forall|i: int| 0 <= i < s.len() ==> note_wf(#[trigger] s[i].note)
    &&& forall|i: int, j: int|
        0 <= i < j < s.len() ==> #[trigger] s[i].note.time <= #[trigger] s[j].note.time
    &&& forall|i: int|
        0 <= i < s.len() ==> -TIME_US_MAX <= #[trigger] s[i].hold_cool_down <= COOL_DOWN_MAX
}

/// Well-formedness of one line slot; trivial for disabled slots.
pub open spec fn line_wf(l: LineState) -> bool {
    l.enable ==> {
        &&& 1 <= l.bpm <= BPM_MILLI_MAX
        &&& -crate::math::COORD_MAX <= l.x <= crate::math::COORD_MAX
        &&& -crate::math::COORD_MAX <= l.y <= crate::math::COORD_MAX
        &&& -TIME_US_MAX <= l.tick_time <= TIME_US_MAX
        &&& events_time_wf(l.speed_events@)
        &&& events_time_wf(l.move_events@)
        &&& events_time_wf(l.rotate_events@)
        &&& events_time_wf(l.alpha_events@)
        &&& event1_values_wf(l.speed_events@)
        &&& event4_values_wf(l.move_events@)
        &&& event2_values_wf(l.rotate_events@)
        &&& event2_values_wf(l.alpha_events@)
        &&& notes_wf(l.notes_above_state@)
        &&& notes_wf(l.notes_below_state@)
    }
}

pub open spec fn lines_wf(s: Seq<LineState>) -> bool {
    forall|i: int| 0 <= i < s.len() ==> line_wf(#[trigger] s[i])
}

/// Microseconds per tick of a line's tempo.
pub fn get_seconds_per_tick(bpm: i64) -> (r: i64)
    requires
        1 <= bpm,
    ensures
        r == crate::chart::spec_seconds_per_tick(bpm),
        0 <= r <= SPT_US_MAX,
        bpm <= BPM_MILLI_MAX ==> 1 <= r,
{
    proof {
        vstd::arithmetic::div_mod::lemma_div_pos_is_pos(1_875_000_000int, bpm as int);
        vstd::arithmetic::div_mod::lemma_div_is_ordered_by_denominator(1_875_000_000int, 1, bpm as int);
        if bpm <= BPM_MILLI_MAX {
            vstd::arithmetic::div_mod::lemma_div_is_ordered_by_denominator(
                1_875_000_000int,
                bpm as int,
                1_875_000_000int,
            );
            vstd::arithmetic::div_mod::lemma_div_by_self(1_875_000_000int);
        }
    }
    1_875_000_000i64 / bpm
}

/// Mutable access to one vector element, exposing the update to callers.
pub fn el_mut<T>(v: &mut Vec<T>, i: usize) -> (element: &mut T)
    requires
        i < old(v).len(),
    ensures
        *element == old(v)@[i as int],
        final(v)@ == old(v)@.update(i as int, *final(element)),
{
    &mut v[i]
}

/// Why a chart was rejected at load.
#[derive(Clone, Copy, PartialEq, Eq, Structural, Debug)]
pub enum ChartError {
    TooManyLines,
    InvalidLine,
}

/// Bounds and ordering of one raw event list, in milli-ticks, including
/// that every range stays nonempty after conversion to microseconds.
pub open spec fn spec_mt_events_ok<T: WithTimeRange>(s: Seq<T>, spt: i64) -> bool {
    &&& s.len() <= EVENT_COUNT_MAX
    &&& forall|i: int|
        0 <= i < s.len() ==> {
            &&& 0 <= #[trigger] s[i].spec_time_start()
            &&& s[i].spec_time_start() <= s[i].spec_time_end()
            &&& s[i].spec_time_end() <= MILLI_TICK_MAX
        }
    &&& forall|i: int|
        0 <= i < s.len() - 1 ==> #[trigger] s[i].spec_time_end() <= s[i + 1].spec_time_start()
    &&& forall|i: int|
        0 <= i < s.len() ==> crate::chart::spec_ticks_to_us(#[trigger] s[i].spec_time_start(), spt)
            < crate::chart::spec_ticks_to_us(s[i].spec_time_end(), spt)
}

/// Validity of one raw judge line: tempo in range, all four event lists
/// ordered and bounded, and all notes bounded. Note order is not demanded;
/// loading sorts.
pub open spec fn spec_judge_line_ok(l: JudgeLine) -> bool {
    let spt = crate::chart::spec_seconds_per_tick(l.bpm) as i64;
    &&& BPM_MILLI_MIN <= l.bpm <= BPM_MILLI_MAX
    &&& spec_mt_events_ok(l.speed_events@, spt)
    &&& spec_mt_events_ok(l.move_events@, spt)
    &&& spec_mt_events_ok(l.rotate_events@, spt)
    &&& spec_mt_events_ok(l.alpha_events@, spt)
    &&& event1_values_wf(l.speed_events@)
    &&& event4_values_wf(l.move_events@)
    &&& event2_values_wf(l.rotate_events@)
    &&& event2_values_wf(l.alpha_events@)
    &&& l.notes_above@.len() <= NOTE_COUNT_MAX
    &&& l.notes_below@.len() <= NOTE_COUNT_MAX
    &&& forall|i: int| 0 <= i < l.notes_above@.len() ==> note_wf(#[trigger] l.notes_above@[i])
    &&& forall|i: int| 0 <= i < l.notes_below@.len() ==> note_wf(#[trigger] l.notes_below@[i])
}

/// Validity of a whole chart: at most the slot count of lines, each valid.
pub open spec fn spec_chart_ok(c: Chart) -> bool {
    &&& c.judge_line_list@.len() <= LINE_SLOT_COUNT
    &&& forall|i: int|
        0 <= i < c.judge_line_list@.len() ==> spec_judge_line_ok(#[trigger] c.judge_line_list@[i])
}

/// Checks one raw event list against [`spec_mt_events_ok`].
#[verifier::loop_isolation(false)]
fn check_events_time<T: WithTimeRange>(events: &Vec<T>, spt: i64) -> (r: bool)
    requires
        0 <= spt <= SPT_US_MAX,
    ensures
        r == spec_mt_events_ok(events@, spt),
{
    if events.len() > EVENT_COUNT_MAX {
        return false;
    }
    let n = events.len();
    let mut k: usize = 0;
    while k < n
        invariant
            k <= n,
            forall|i: int|
                0 <= i < k ==> {
                    &&& 0 <= #[trigger] events@[i].spec_time_start()
                    &&& events@[i].spec_time_start() <= events@[i].spec_time_end()
                    &&& events@[i].spec_time_end() <= MILLI_TICK_MAX
                },
            forall|i: int|
                0 <= i < k - 1 ==> #[trigger] events@[i].spec_time_end() <= events@[i
                    + 1].spec_time_start(),
            forall|i: int|
                0 <= i < k ==> crate::chart::spec_ticks_to_us(
                    #[trigger] events@[i].spec_time_start(),
                    spt,
                ) < crate::chart::spec_ticks_to_us(events@[i].spec_time_end(), spt),
        decreases n - k,
    {
        let e = &events[k];
        let s = e.time_start();
        let en = e.time_end();
        if !(0 <= s && s <= en && en <= MILLI_TICK_MAX) {
            return false;
        }
        if k > 0 {
            let prev_end = events[k - 1].time_end();
            if prev_end > s {
                return false;
            }
        }
        if ticks_to_us(s, spt) >= ticks_to_us(en, spt) {
            return false;
        }
        k = k + 1;
    }
    true
}

/// Checks the value bounds of a speed list.
#[verifier::loop_isolation(false)]
fn check_event1_values(events: &Vec<Event1>) -> (r: bool)
    ensures
        r == event1_values_wf(events@),
{
    let n = events.len();
    let mut k: usize = 0;
    while k < n
        invariant
            k <= n,
            forall|i: int|
                0 <= i < k ==> -VALUE_MAX <= #[trigger] events@[i].value && events@[i].value
                    <= VALUE_MAX,
        decreases n - k,
    {
        let e = events[k];
        if !(-VALUE_MAX <= e.value && e.value <= VALUE_MAX) {
            return false;
        }
        k = k + 1;
    }
    true
}

/// Checks the value bounds of a one-channel list.
#[verifier::loop_isolation(false)]
fn check_event2_values(events: &Vec<Event2>) -> (r: bool)
    ensures
        r == event2_values_wf(events@),
{
    let n = events.len();
    let mut k: usize = 0;
    while k < n
        invariant
            k <= n,
            forall|i: int|
                0 <= i < k ==> {
                    &&& -VALUE_MAX <= #[trigger] events@[i].start <= VALUE_MAX
                    &&& -VALUE_MAX <= events@[i].end <= VALUE_MAX
                },
        decreases n - k,
    {
        let e = events[k];
        if !(-VALUE_MAX <= e.start && e.start <= VALUE_MAX && -VALUE_MAX <= e.end && e.end
            <= VALUE_MAX) {
            return false;
        }
        k = k + 1;
    }
    true
}

/// Checks the value bounds of a move list.
#[verifier::loop_isolation(false)]
fn check_event4_values(events: &Vec<Event4>) -> (r: bool)
    ensures
        r == event4_values_wf(events@),
{
    let n = events.len();
    let mut k: usize = 0;
    while k < n
        invariant
            k <= n,
            forall|i: int|
                0 <= i < k ==> {
                    &&& -MOVE_VALUE_MAX <= #[trigger] events@[i].start <= MOVE_VALUE_MAX
                    &&& -MOVE_VALUE_MAX <= events@[i].end <= MOVE_VALUE_MAX
                    &&& -MOVE_VALUE_MAX <= events@[i].start2 <= MOVE_VALUE_MAX
                    &&& -MOVE_VALUE_MAX <= events@[i].end2 <= MOVE_VALUE_MAX
                },
        decreases n - k,
    {
        let e = events[k];
        if !(-MOVE_VALUE_MAX <= e.start && e.start <= MOVE_VALUE_MAX && -MOVE_VALUE_MAX <= e.end
            && e.end <= MOVE_VALUE_MAX && -MOVE_VALUE_MAX <= e.start2 && e.start2 <= MOVE_VALUE_MAX
            && -MOVE_VALUE_MAX <= e.end2 && e.end2 <= MOVE_VALUE_MAX) {
            return false;
        }
        k = k + 1;
    }
    true
}

/// Checks the bounds of a raw note list.
#[verifier::loop_isolation(false)]
fn check_notes(notes: &Vec<Note>) -> (r: bool)
    ensures
        r == (notes@.len() <= NOTE_COUNT_MAX && (forall|i: int|
            0 <= i < notes@.len() ==> note_wf(#[trigger] notes@[i]))),
{
    if notes.len() > NOTE_COUNT_MAX {
        return false;
    }
    let n = notes.len();
    let mut k: usize = 0;
    while k < n
        invariant
            k <= n,
            forall|i: int| 0 <= i < k ==> note_wf(#[trigger] notes@[i]),
        decreases n - k,
    {
        let e = notes[k];
        if !(0 <= e.time && 0 <= e.hold_time && e.time <= MILLI_TICK_MAX - e.hold_time
            && -POSITION_MAX <= e.position_x && e.position_x <= POSITION_MAX) {
            return false;
        }
        k = k + 1;
    }
    true
}

/// Checks one raw judge line against [`spec_judge_line_ok`].
fn check_judge_line(l: &JudgeLine) -> (r: bool)
    ensures
        r == spec_judge_line_ok(*l),
{
    if !(BPM_MILLI_MIN <= l.bpm && l.bpm <= BPM_MILLI_MAX) {
        return false;
    }
    let spt = get_seconds_per_tick(l.bpm);
    check_events_time(&l.speed_events, spt) && check_events_time(&l.move_events, spt)
        && check_events_time(&l.rotate_events, spt) && check_events_time(&l.alpha_events, spt)
        && check_event1_values(&l.speed_events) && check_event4_values(&l.move_events)
        && check_event2_values(&l.rotate_events) && check_event2_values(&l.alpha_events)
        && check_notes(&l.notes_above) && check_notes(&l.notes_below)
}

/// Stable insertion sort of raw notes by their chart time.
#[verifier::loop_isolation(false)]
fn sort_notes_by_time(v: &mut Vec<Note>)
    ensures
        final(v)@.len() == old(v)@.len(),
        final(v)@.to_multiset() == old(v)@.to_multiset(),
        forall|a: int, b: int|
            0 <= a < b < final(v)@.len() ==> #[trigger] final(v)@[a].time
                <= #[trigger] final(v)@[b].time,
        forall|x: Note| final(v)@.contains(x) ==> old(v)@.contains(x),
{
    let n = v.len();
    let mut i: usize = 1;
    while i < n
        invariant
            1 <= i,
            n == v@.len(),
            v@.len() == old(v)@.len(),
            v@.to_multiset() == old(v)@.to_multiset(),
            forall|a: int, b: int|
                0 <= a < b < i ==> #[trigger] v@[a].time <= #[trigger] v@[b].time,
        decreases n - i,
    {
        let mut j: usize = i;
        while j > 0 && v[j - 1].time > v[j].time
            invariant
                0 <= j <= i < n,
                n == v@.len(),
                v@.len() == old(v)@.len(),
                v@.to_multiset() == old(v)@.to_multiset(),
                forall|a: int, b: int|
                    0 <= a < b <= i && b != j ==> #[trigger] v@[a].time <= #[trigger] v@[b].time,
                forall|b: int| j < b <= i ==> v@[j as int].time <= #[trigger] v@[b].time,
            decreases j,
        {
            let prev = v[j - 1];
            let cur = v[j];
            let ghost before = v@;
            let p1 = el_mut(v, j - 1);
            *p1 = cur;
            let p2 = el_mut(v, j);
            *p2 = prev;
            proof {
                lemma_swap_adjacent_note_multiset(before, j as int);
                assert(v@ =~= before.update(j - 1, before[j as int]).update(
                    j as int,
                    before[j - 1],
                ));
            }
            j = j - 1;
        }
        i = i + 1;
    }
    proof {
        broadcast use vstd::seq_lib::to_multiset_contains;

        assert forall|x: Note| v@.contains(x) implies old(v)@.contains(x) by {
            assert(v@.to_multiset().count(x) > 0);
        }
    }
}

/// Swapping two adjacent notes leaves the multiset of notes alone.
proof fn lemma_swap_adjacent_note_multiset(s: Seq<Note>, j: int)
    requires
        1 <= j < s.len(),
    ensures
        s.update(j - 1, s[j]).update(j, s[j - 1]).to_multiset() == s.to_multiset(),
{
    broadcast use vstd::seq_lib::to_multiset_update;
    broadcast use vstd::multiset::group_multiset_axioms;
    broadcast use vstd::multiset::group_multiset_properties;
    broadcast use vstd::seq_lib::to_multiset_contains;

    let s1 = s.update(j - 1, s[j]);
    assert(s1[j] == s[j]);
    assert(s.to_multiset().contains(s[j - 1]));
    assert(s1.to_multiset() == s.to_multiset().insert(s[j]).remove(s[j - 1]));
    assert(s1.to_multiset().contains(s1[j]));
    assert(s1.update(j, s[j - 1]).to_multiset() == s1.to_multiset().insert(s[j - 1]).remove(
        s1[j],
    ));
    assert(s1.update(j, s[j - 1]).to_multiset() =~= s.to_multiset());
}

/// An event converted to microseconds at the line's tempo.
pub open spec fn spec_event1_us(e: Event1, spt: i64) -> Event1 {
    Event1 {
        start_time: crate::chart::spec_ticks_to_us(e.start_time, spt) as i64,
        end_time: crate::chart::spec_ticks_to_us(e.end_time, spt) as i64,
        value: e.value,
    }
}

pub open spec fn spec_event2_us(e: Event2, spt: i64) -> Event2 {
    Event2 {
        start_time: crate::chart::spec_ticks_to_us(e.start_time, spt) as i64,
        end_time: crate::chart::spec_ticks_to_us(e.end_time, spt) as i64,
        start: e.start,
        end: e.end,
    }
}

pub open spec fn spec_event4_us(e: Event4, spt: i64) -> Event4 {
    Event4 {
        start_time: crate::chart::spec_ticks_to_us(e.start_time, spt) as i64,
        end_time: crate::chart::spec_ticks_to_us(e.end_time, spt) as i64,
        start: e.start,
        end: e.end,
        start2: e.start2,
        end2: e.end2,
    }
}

/// Conversion to microseconds preserves time order.
proof fn lemma_ticks_to_us_monotone(a: i64, b: i64, spt: i64)
    requires
        0 <= a <= b,
        0 <= spt,
    ensures
        crate::chart::spec_ticks_to_us(a, spt) <= crate::chart::spec_ticks_to_us(b, spt),
{
    vstd::arithmetic::mul::lemma_mul_inequality(a as int, b as int, spt as int);
    vstd::arithmetic::div_mod::lemma_div_is_ordered(
        a as int * spt as int,
        b as int * spt as int,
        1000,
    );
    assert(a as int * spt as int == spt as int * a as int) by (nonlinear_arith);
    assert(b as int * spt as int == spt as int * b as int) by (nonlinear_arith);
}

/// In an ordered list the end of any earlier event precedes the start of
/// any later one.
proof fn lemma_events_pairwise_from<T: WithTimeRange>(s: Seq<T>, i: int, j: int)
    requires
        forall|k: int|
            0 <= k < s.len() ==> #[trigger] s[k].spec_time_start() <= s[k].spec_time_end(),
        forall|k: int|
            0 <= k < s.len() - 1 ==> #[trigger] s[k].spec_time_end() <= s[k
                + 1].spec_time_start(),
        0 <= i < j < s.len(),
    ensures
        s[i].spec_time_end() <= s[j].spec_time_start(),
    decreases j - i,
{
    if j > i + 1 {
        lemma_events_pairwise_from(s, i, j - 1);
    }
}

/// Converts a speed list to microseconds.
#[verifier::loop_isolation(false)]
fn convert_event1(events: &Vec<Event1>, spt: i64) -> (out: Vec<Event1>)
    requires
        spec_mt_events_ok(events@, spt),
        event1_values_wf(events@),
        1 <= spt <= SPT_US_MAX,
    ensures
        out@ == events@.map_values(|e: Event1| spec_event1_us(e, spt)),
        events_time_wf(out@),
        event1_values_wf(out@),
{
    let mut out: Vec<Event1> = Vec::new();
    let n = events.len();
    let mut k: usize = 0;
    while k < n
        invariant
            k <= n,
            out@.len() == k as int,
            forall|i: int| 0 <= i < k ==> #[trigger] out@[i] == spec_event1_us(events@[i], spt),
            forall|i: int|
                0 <= i < k ==> 0 <= #[trigger] out@[i].start_time && out@[i].start_time
                    < out@[i].end_time,
            forall|i: int| 0 <= i < k ==> #[trigger] out@[i].end_time <= EVENT_US_MAX as int,
            forall|i: int|
                0 <= i < k ==> #[trigger] out@[i].start_time as int
                    == crate::chart::spec_ticks_to_us(events@[i].spec_time_start(), spt),
            forall|i: int|
                0 <= i < k ==> #[trigger] out@[i].end_time as int
                    == crate::chart::spec_ticks_to_us(events@[i].spec_time_end(), spt),
        decreases n - k,
    {
        let e = events[k];
        proof {
            assert(events@[k as int].spec_time_start() == e.start_time);
            assert(events@[k as int].spec_time_end() == e.end_time);
        }
        let s = ticks_to_us(e.start_time, spt);
        let en = ticks_to_us(e.end_time, spt);
        out.push(Event1 { start_time: s, end_time: en, value: e.value });
        k = k + 1;
    }
    proof {
        assert(out@ =~= events@.map_values(|e: Event1| spec_event1_us(e, spt)));
        lemma_converted_events_sorted(events@, out@, spt);
    }
    out
}

/// Converts a one-channel list to microseconds.
#[verifier::loop_isolation(false)]
fn convert_event2(events: &Vec<Event2>, spt: i64) -> (out: Vec<Event2>)
    requires
        spec_mt_events_ok(events@, spt),
        event2_values_wf(events@),
        1 <= spt <= SPT_US_MAX,
    ensures
        out@ == events@.map_values(|e: Event2| spec_event2_us(e, spt)),
        events_time_wf(out@),
        event2_values_wf(out@),
{
    let mut out: Vec<Event2> = Vec::new();
    let n = events.len();
    let mut k: usize = 0;
    while k < n
        invariant
            k <= n,
            out@.len() == k as int,
            forall|i: int| 0 <= i < k ==> #[trigger] out@[i] == spec_event2_us(events@[i], spt),
            forall|i: int|
                0 <= i < k ==> 0 <= #[trigger] out@[i].start_time && out@[i].start_time
                    < out@[i].end_time,
            forall|i: int| 0 <= i < k ==> #[trigger] out@[i].end_time <= EVENT_US_MAX as int,
            forall|i: int|
                0 <= i < k ==> #[trigger] out@[i].start_time as int
                    == crate::chart::spec_ticks_to_us(events@[i].spec_time_start(), spt),
            forall|i: int|
                0 <= i < k ==> #[trigger] out@[i].end_time as int
                    == crate::chart::spec_ticks_to_us(events@[i].spec_time_end(), spt),
        decreases n - k,
    {
        let e = events[k];
        proof {
            assert(events@[k as int].spec_time_start() == e.start_time);
            assert(events@[k as int].spec_time_end() == e.end_time);
        }
        let s = ticks_to_us(e.start_time, spt);
        let en = ticks_to_us(e.end_time, spt);
        out.push(Event2 { start_time: s, end_time: en, start: e.start, end: e.end });
        k = k + 1;
    }
    proof {
        assert(out@ =~= events@.map_values(|e: Event2| spec_event2_us(e, spt)));
        lemma_converted_events_sorted(events@, out@, spt);
    }
    out
}

/// Converts a move list to microseconds.
#[verifier::loop_isolation(false)]
fn convert_event4(events: &Vec<Event4>, spt: i64) -> (out: Vec<Event4>)
    requires
        spec_mt_events_ok(events@, spt),
        event4_values_wf(events@),
        1 <= spt <= SPT_US_MAX,
    ensures
        out@ == events@.map_values(|e: Event4| spec_event4_us(e, spt)),
        events_time_wf(out@),
        event4_values_wf(out@),
{
    let mut out: Vec<Event4> = Vec::new();
    let n = events.len();
    let mut k: usize = 0;
    while k < n
        invariant
            k <= n,
            out@.len() == k as int,
            forall|i: int| 0 <= i < k ==> #[trigger] out@[i] == spec_event4_us(events@[i], spt),
            forall|i: int|
                0 <= i < k ==> 0 <= #[trigger] out@[i].start_time && out@[i].start_time
                    < out@[i].end_time,
            forall|i: int| 0 <= i < k ==> #[trigger] out@[i].end_time <= EVENT_US_MAX as int,
            forall|i: int|
                0 <= i < k ==> #[trigger] out@[i].start_time as int
                    == crate::chart::spec_ticks_to_us(events@[i].spec_time_start(), spt),
            forall|i: int|
                0 <= i < k ==> #[trigger] out@[i].end_time as int
                    == crate::chart::spec_ticks_to_us(events@[i].spec_time_end(), spt),
        decreases n - k,
    {
        let e = events[k];
        proof {
            assert(events@[k as int].spec_time_start() == e.start_time);
            assert(events@[k as int].spec_time_end() == e.end_time);
        }
        let s = ticks_to_us(e.start_time, spt);
        let en = ticks_to_us(e.end_time, spt);
        out.push(
            Event4 {
                start_time: s,
                end_time: en,
                start: e.start,
                end: e.end,
                start2: e.start2,
                end2: e.end2,
            },
        );
        k = k + 1;
    }
    proof {
        assert(out@ =~= events@.map_values(|e: Event4| spec_event4_us(e, spt)));
        lemma_converted_events_sorted(events@, out@, spt);
    }
    out
}

/// A converted list keeps its order, so it satisfies the microsecond
/// well-formedness the frame loop relies on.
proof fn lemma_converted_events_sorted<S: WithTimeRange, T: WithTimeRange>(
    src: Seq<S>,
    out: Seq<T>,
    spt: i64,
)
    requires
        spec_mt_events_ok(src, spt),
        0 <= spt,
        out.len() == src.len(),
        forall|i: int|
            0 <= i < out.len() ==> #[trigger] out[i].spec_time_start()
                == crate::chart::spec_ticks_to_us(src[i].spec_time_start(), spt),
        forall|i: int|
            0 <= i < out.len() ==> #[trigger] out[i].spec_time_end()
                == crate::chart::spec_ticks_to_us(src[i].spec_time_end(), spt),
        forall|i: int|
            0 <= i < out.len() ==> 0 <= #[trigger] out[i].spec_time_start() && out[
                i
            ].spec_time_start() < out[i].spec_time_end(),
        forall|i: int|
            0 <= i < out.len() ==> #[trigger] out[i].spec_time_end() <= EVENT_US_MAX as int,
    ensures
        events_time_wf(out),
{
    assert forall|i: int| 0 <= i < out.len() - 1 implies #[trigger] out[i].spec_time_end()
        <= out[i + 1].spec_time_start() by {
        assert(0 <= src[i].spec_time_start());
        assert(src[i].spec_time_start() <= src[i].spec_time_end());
        assert(src[i].spec_time_end() <= src[i + 1].spec_time_start());
        lemma_ticks_to_us_monotone(src[i].spec_time_end(), src[i + 1].spec_time_start(), spt);
    }
    assert forall|i: int, j: int| 0 <= i < j < out.len() implies #[trigger] out[
        i
    ].spec_time_end() <= #[trigger] out[j].spec_time_start() by {
        lemma_events_pairwise_from(out, i, j);
    }
}

/// A loading key for the highlight pass: the tick length quantized to
/// 1/32768 s, times the note's chart time; two notes share a key exactly
/// when they sound together (up to that quantization).
pub open spec fn spec_note_key(bpm: i64, time: i64) -> int {
    ((crate::chart::spec_seconds_per_tick(bpm) * 32768) / 1_000_000) * time
}

/// Occurrences of a value in a key list.
pub open spec fn count_eq(s: Seq<i64>, v: i64) -> int
    decreases s.len(),
{
    if s.len() == 0 {
        0
    } else {
        count_eq(s.drop_last(), v) + if s.last() == v {
            1int
        } else {
            0int
        }
    }
}

/// The highlight keys of one line's notes, above first.
pub open spec fn spec_line_keys(l: LineState) -> Seq<i64> {
    Seq::new(
        l.notes_above_state@.len(),
        |j: int| spec_note_key(l.bpm, l.notes_above_state@[j].note.time) as i64,
    ) + Seq::new(
        l.notes_below_state@.len(),
        |j: int| spec_note_key(l.bpm, l.notes_below_state@[j].note.time) as i64,
    )
}

/// The highlight keys of the first `i` lines' notes; disabled slots
/// contribute none.
pub open spec fn spec_all_keys_upto(s: Seq<LineState>, i: int) -> Seq<i64>
    decreases i,
{
    if i <= 0 {
        Seq::empty()
    } else {
        spec_all_keys_upto(s, i - 1) + (if s[i - 1].enable {
            spec_line_keys(s[i - 1])
        } else {
            Seq::empty()
        })
    }
}

pub open spec fn spec_all_keys(s: Seq<LineState>) -> Seq<i64> {
    spec_all_keys_upto(s, s.len() as int)
}

/// The fields the highlight keys are computed from.
pub open spec fn key_fields_eq(x: LineState, y: LineState) -> bool {
    &&& x.enable == y.enable
    &&& x.bpm == y.bpm
    &&& x.notes_above_state@.len() == y.notes_above_state@.len()
    &&& x.notes_below_state@.len() == y.notes_below_state@.len()
    &&& forall|j: int|
        0 <= j < x.notes_above_state@.len() ==> #[trigger] x.notes_above_state@[j].note.time
            == y.notes_above_state@[j].note.time
    &&& forall|j: int|
        0 <= j < x.notes_below_state@.len() ==> #[trigger] x.notes_below_state@[j].note.time
            == y.notes_below_state@[j].note.time
}

/// Highlight keys ignore everything but tempo, note times and slot use.
proof fn lemma_keys_same_upto(a: Seq<LineState>, b: Seq<LineState>, i: int)
    requires
        a.len() == b.len(),
        forall|k: int| 0 <= k < a.len() ==> key_fields_eq(#[trigger] a[k], b[k]),
        i <= a.len(),
    ensures
        spec_all_keys_upto(a, i) == spec_all_keys_upto(b, i),
    decreases i,
{
    if i > 0 {
        lemma_keys_same_upto(a, b, i - 1);
        if a[i - 1].enable {
            assert(spec_line_keys(a[i - 1]) =~= spec_line_keys(b[i - 1]));
        }
    }
}

/// Counts how often `key` occurs in the key list.
#[verifier::loop_isolation(false)]
fn count_occurrences(keys: &Vec<i64>, key: i64) -> (c: usize)
    ensures
        c == count_eq(keys@, key),
        c <= keys@.len(),
{
    let n = keys.len();
    let mut c: usize = 0;
    let mut q: usize = 0;
    while q < n
        invariant
            q <= n,
            c as int == count_eq(keys@.take(q as int), key),
            c <= q,
        decreases n - q,
    {
        proof {
            assert(keys@.take(q as int + 1).drop_last() =~= keys@.take(q as int));
        }
        if keys[q] == key {
            c = c + 1;
        }
        q = q + 1;
    }
    proof {
        assert(keys@.take(n as int) =~= keys@);
    }
    c
}

/// The quantized highlight key of one note.
fn note_key(bpm: i64, time: i64) -> (r: i64)
    requires
        BPM_MILLI_MIN <= bpm <= BPM_MILLI_MAX,
        0 <= time <= MILLI_TICK_MAX,
    ensures
        r == spec_note_key(bpm, time),
{
    let spt = get_seconds_per_tick(bpm);
    let factor: i64 = spt * 32768 / 1_000_000;
    proof {
        vstd::arithmetic::mul::lemma_mul_upper_bound(spt as int, SPT_US_MAX as int, 32768, 32768);
        vstd::arithmetic::mul::lemma_mul_nonnegative(spt as int, 32768);
        assert(1_875_000_000int * 32768 == 61_440_000_000_000int) by (nonlinear_arith);
        vstd::arithmetic::div_mod::lemma_div_pos_is_pos(spt as int * 32768, 1_000_000int);
        vstd::arithmetic::div_mod::lemma_div_is_ordered(
            spt as int * 32768,
            61_440_000_000_000int,
            1_000_000int,
        );
        vstd::arithmetic::div_mod::lemma_div_by_multiple(61_440_000int, 1_000_000int);
        assert(61_440_000int * 1_000_000 == 61_440_000_000_000int) by (nonlinear_arith);
        vstd::arithmetic::mul::lemma_mul_upper_bound(
            (spt as int * 32768) / 1_000_000,
            61_440_000int,
            time as int,
            MILLI_TICK_MAX as int,
        );
        vstd::arithmetic::mul::lemma_mul_nonnegative((spt as int * 32768) / 1_000_000, time as int);
        assert(61_440_000int * 2_147_483_647int == 131_941_395_271_680_000int)
            by (nonlinear_arith);
    }
    factor * time
}

/// A freshly loaded note state: unjudged, unstaged, cooldown clear.
pub open spec fn spec_fresh_note(n: Note) -> NoteState {
    NoteState {
        note: n,
        highlight: false,
        score: NoteScore::Pending,
        hold_cool_down: 0i64,
        extra_score: NoteScore::Pending,
    }
}

/// A note list as loading builds it: the chart's notes, sorted ascending
/// by time, each wrapped fresh.
pub open spec fn spec_built_notes(ns: Seq<NoteState>, raw: Seq<Note>) -> bool {
    &&& ns.len() == raw.len()
    &&& ns.map_values(|x: NoteState| x.note).to_multiset() == raw.to_multiset()
    &&& forall|i: int, j: int|
        0 <= i < j < ns.len() ==> #[trigger] ns[i].note.time <= #[trigger] ns[j].note.time
    &&& forall|i: int| 0 <= i < ns.len() ==> #[trigger] ns[i] == spec_fresh_note(ns[i].note)
}

/// A line slot as loading builds it, before the highlight pass: derived
/// fields at their defaults, events converted to microseconds, notes fresh
/// and sorted.
pub open spec fn spec_built_line(st: LineState, jl: JudgeLine) -> bool {
    let spt = crate::chart::spec_seconds_per_tick(jl.bpm) as i64;
    &&& st.enable == true
    &&& st.bpm == jl.bpm
    &&& st.x == 0 && st.y == 0 && st.rotate == 0 && st.alpha == 0 && st.speed == 1000
    &&& st.line_y == 0 && st.tick_time == 0
    &&& st.event_speed_index_cache == 0 && st.event_move_index_cache == 0
    &&& st.event_rotate_index_cache == 0 && st.event_alpha_index_cache == 0
    &&& st.speed_events@ == jl.speed_events@.map_values(|e: Event1| spec_event1_us(e, spt))
    &&& st.move_events@ == jl.move_events@.map_values(|e: Event4| spec_event4_us(e, spt))
    &&& st.rotate_events@ == jl.rotate_events@.map_values(|e: Event2| spec_event2_us(e, spt))
    &&& st.alpha_events@ == jl.alpha_events@.map_values(|e: Event2| spec_event2_us(e, spt))
    &&& spec_built_notes(st.notes_above_state@, jl.notes_above@)
    &&& spec_built_notes(st.notes_below_state@, jl.notes_below@)
}

/// A note with its highlight flag resolved against the key list: flagged
/// exactly when its key occurs at least twice across the whole chart.
pub open spec fn spec_highlighted_note(x: NoteState, bpm: i64, keys: Seq<i64>) -> NoteState {
    NoteState { highlight: count_eq(keys, spec_note_key(bpm, x.note.time) as i64) >= 2, ..x }
}

/// A line after the highlight pass: only the notes' highlight flags moved.
pub open spec fn spec_highlighted_line(o: LineState, n: LineState, keys: Seq<i64>) -> bool {
    &&& n == (LineState {
        notes_above_state: n.notes_above_state,
        notes_below_state: n.notes_below_state,
        ..o
    })
    &&& n.notes_above_state@ == o.notes_above_state@.map_values(
        |x: NoteState| spec_highlighted_note(x, o.bpm, keys),
    )
    &&& n.notes_below_state@ == o.notes_below_state@.map_values(
        |x: NoteState| spec_highlighted_note(x, o.bpm, keys),
    )
}

/// Resolves the highlight flags of one note list against the key list.
#[verifier::loop_isolation(false)]
fn highlight_notes_list(notes: &mut Vec<NoteState>, bpm: i64, keys: &Vec<i64>)
    requires
        BPM_MILLI_MIN <= bpm <= BPM_MILLI_MAX,
        notes_wf(old(notes)@),
    ensures
        final(notes)@ == old(notes)@.map_values(
            |x: NoteState| spec_highlighted_note(x, bpm, keys@),
        ),
        notes_wf(final(notes)@),
{
    let n = notes.len();
    let mut j: usize = 0;
    while j < n
        invariant
            j <= n,
            n == notes@.len(),
            notes@.len() == old(notes)@.len(),
            forall|i: int| j <= i < n ==> notes@[i] == old(notes)@[i],
            forall|i: int|
                0 <= i < j ==> notes@[i] == spec_highlighted_note(old(notes)@[i], bpm, keys@),
            notes_wf(notes@),
        decreases n - j,
    {
        let t = notes[j].note.time;
        let key = note_key(bpm, t);
        let c = count_occurrences(keys, key);
        let nm = el_mut(notes, j);
        nm.highlight = c >= 2;
        j = j + 1;
    }
    proof {
        assert(notes@ =~= old(notes)@.map_values(
            |x: NoteState| spec_highlighted_note(x, bpm, keys@),
        ));
    }
}

/// Marks every note that shares its (quantized) sounding time with another
/// note anywhere in the chart. Purely visual: nothing else is touched.
#[verifier::loop_isolation(false)]
pub fn process_highlight(judge_line_states: &mut Vec<LineState>)
    requires
        lines_wf(old(judge_line_states)@),
    ensures
        final(judge_line_states)@.len() == old(judge_line_states)@.len(),
        lines_wf(final(judge_line_states)@),
        forall|i: int|
            0 <= i < old(judge_line_states)@.len() ==> (if old(judge_line_states)@[i].enable {
                spec_highlighted_line(
                    old(judge_line_states)@[i],
                    #[trigger] final(judge_line_states)@[i],
                    spec_all_keys(old(judge_line_states)@),
                )
            } else {
                final(judge_line_states)@[i] == old(judge_line_states)@[i]
            }),
        spec_all_keys(final(judge_line_states)@) == spec_all_keys(old(judge_line_states)@),
{
    let n = judge_line_states.len();
    let mut keys: Vec<i64> = Vec::new();
    let mut i: usize = 0;
    while i < n
        invariant
            i <= n,
            n == judge_line_states@.len(),
            judge_line_states@ == old(judge_line_states)@,
            keys@ == spec_all_keys_upto(judge_line_states@, i as int),
        decreases n - i,
    {
        let line = &judge_line_states[i];
        if line.enable {
            let bpm = line.bpm;
            let ghost above_keys = Seq::new(
                line.notes_above_state@.len(),
                |j: int| spec_note_key(bpm, line.notes_above_state@[j].note.time) as i64,
            );
            let ghost below_keys = Seq::new(
                line.notes_below_state@.len(),
                |j: int| spec_note_key(bpm, line.notes_below_state@[j].note.time) as i64,
            );
            let ghost base = keys@;
            let m = line.notes_above_state.len();
            let mut j: usize = 0;
            while j < m
                invariant
                    j <= m,
                    m == line.notes_above_state@.len(),
                    keys@ == base + above_keys.subrange(0, j as int),
                decreases m - j,
            {
                let k = note_key(bpm, line.notes_above_state[j].note.time);
                keys.push(k);
                proof {
                    assert(keys@ =~= base + above_keys.subrange(0, j as int + 1));
                }
                j = j + 1;
            }
            let ghost base2 = keys@;
            let mb = line.notes_below_state.len();
            let mut jb: usize = 0;
            while jb < mb
                invariant
                    jb <= mb,
                    mb == line.notes_below_state@.len(),
                    keys@ == base2 + below_keys.subrange(0, jb as int),
                decreases mb - jb,
            {
                let k = note_key(bpm, line.notes_below_state[jb].note.time);
                keys.push(k);
                proof {
                    assert(keys@ =~= base2 + below_keys.subrange(0, jb as int + 1));
                }
                jb = jb + 1;
            }
            proof {
                assert(above_keys.subrange(0, m as int) =~= above_keys);
                assert(below_keys.subrange(0, mb as int) =~= below_keys);
                assert(keys@ =~= spec_all_keys_upto(judge_line_states@, i as int + 1));
            }
        } else {
            proof {
                assert(keys@ =~= spec_all_keys_upto(judge_line_states@, i as int + 1));
            }
        }
        i = i + 1;
    }
    let ghost keys0 = keys@;
    proof {
        assert(keys0 == spec_all_keys(old(judge_line_states)@));
    }
    let mut li: usize = 0;
    while li < n
        invariant
            li <= n,
            n == judge_line_states@.len(),
            judge_line_states@.len() == old(judge_line_states)@.len(),
            keys@ == keys0,
            forall|i2: int| li <= i2 < n ==> judge_line_states@[i2] == old(judge_line_states)@[i2],
            forall|i2: int|
                0 <= i2 < li ==> (if old(judge_line_states)@[i2].enable {
                    spec_highlighted_line(
                        old(judge_line_states)@[i2],
                        #[trigger] judge_line_states@[i2],
                        keys0,
                    )
                } else {
                    judge_line_states@[i2] == old(judge_line_states)@[i2]
                }),
            lines_wf(judge_line_states@),
        decreases n - li,
    {
        let enabled = judge_line_states[li].enable;
        if enabled {
            let line = el_mut(judge_line_states, li);
            let bpm = line.bpm;
            highlight_notes_list(&mut line.notes_above_state, bpm, &keys);
            highlight_notes_list(&mut line.notes_below_state, bpm, &keys);
        }
        li = li + 1;
    }
    proof {
        assert forall|k: int| 0 <= k < judge_line_states@.len() implies key_fields_eq(
            #[trigger] old(judge_line_states)@[k],
            judge_line_states@[k],
        ) by {
            if old(judge_line_states)@[k].enable {
                assert(spec_highlighted_line(
                    old(judge_line_states)@[k],
                    judge_line_states@[k],
                    keys0,
                ));
            }
        }
        lemma_keys_same_upto(
            old(judge_line_states)@,
            judge_line_states@,
            judge_line_states@.len() as int,
        );
    }
}

/// Copies a raw note list so it can be sorted without touching the chart.
#[verifier::loop_isolation(false)]
fn copy_notes(src: &Vec<Note>) -> (out: Vec<Note>)
    ensures
        out@ == src@,
{
    let mut out: Vec<Note> = Vec::new();
    let n = src.len();
    let mut k: usize = 0;
    while k < n
        invariant
            k <= n,
            out@ == src@.take(k as int),
        decreases n - k,
    {
        out.push(src[k]);
        proof {
            assert(out@ =~= src@.take(k as int + 1));
        }
        k = k + 1;
    }
    proof {
        assert(src@.take(n as int) =~= src@);
    }
    out
}

/// Wraps a sorted raw note list into fresh note states.
#[verifier::loop_isolation(false)]
fn build_note_states(raw: &Vec<Note>) -> (out: Vec<NoteState>)
    ensures
        out@.len() == raw@.len(),
        forall|i: int| 0 <= i < raw@.len() ==> #[trigger] out@[i] == spec_fresh_note(raw@[i]),
{
    let mut out: Vec<NoteState> = Vec::new();
    let n = raw.len();
    let mut k: usize = 0;
    while k < n
        invariant
            k <= n,
            out@.len() == k as int,
            forall|i: int| 0 <= i < k ==> #[trigger] out@[i] == spec_fresh_note(raw@[i]),
        decreases n - k,
    {
        out.push(
            NoteState {
                note: raw[k],
                highlight: false,
                score: NoteScore::Pending,
                hold_cool_down: 0,
                extra_score: NoteScore::Pending,
            },
        );
        k = k + 1;
    }
    out
}

/// Builds one line slot from a valid raw judge line: converts its events
/// to microseconds and wraps its notes, sorted ascending by time.
fn build_line_state(l: &JudgeLine) -> (st: LineState)
    requires
        spec_judge_line_ok(*l),
    ensures
        spec_built_line(st, *l),
        line_wf(st),
{
    let spt = get_seconds_per_tick(l.bpm);
    let speed_events = convert_event1(&l.speed_events, spt);
    let move_events = convert_event4(&l.move_events, spt);
    let rotate_events = convert_event2(&l.rotate_events, spt);
    let alpha_events = convert_event2(&l.alpha_events, spt);
    let mut raw_above = copy_notes(&l.notes_above);
    sort_notes_by_time(&mut raw_above);
    let notes_above_state = build_note_states(&raw_above);
    let mut raw_below = copy_notes(&l.notes_below);
    sort_notes_by_time(&mut raw_below);
    let notes_below_state = build_note_states(&raw_below);
    proof {
        lemma_built_notes(notes_above_state@, raw_above@, l.notes_above@);
        lemma_built_notes(notes_below_state@, raw_below@, l.notes_below@);
    }
    LineState {
        enable: true,
        x: 0,
        y: 0,
        rotate: 0,
        alpha: 0,
        speed: 1000,
        line_y: 0,
        tick_time: 0,
        event_speed_index_cache: 0,
        event_move_index_cache: 0,
        event_rotate_index_cache: 0,
        event_alpha_index_cache: 0,
        notes_above_state,
        notes_below_state,
        speed_events,
        move_events,
        rotate_events,
        alpha_events,
        bpm: l.bpm,
    }
}

/// Fresh wrappers of a sorted copy make a built note list.
proof fn lemma_built_notes(ns: Seq<NoteState>, sorted_raw: Seq<Note>, raw: Seq<Note>)
    requires
        ns.len() == sorted_raw.len(),
        forall|i: int| 0 <= i < ns.len() ==> #[trigger] ns[i] == spec_fresh_note(sorted_raw[i]),
        sorted_raw.len() == raw.len(),
        sorted_raw.to_multiset() == raw.to_multiset(),
        forall|a: int, b: int|
            0 <= a < b < sorted_raw.len() ==> #[trigger] sorted_raw[a].time
                <= #[trigger] sorted_raw[b].time,
        forall|x: Note| sorted_raw.contains(x) ==> raw.contains(x),
        raw.len() <= NOTE_COUNT_MAX,
        forall|i: int| 0 <= i < raw.len() ==> note_wf(#[trigger] raw[i]),
    ensures
        spec_built_notes(ns, raw),
        notes_wf(ns),
{
    assert(ns.map_values(|x: NoteState| x.note) =~= sorted_raw);
    assert forall|i: int| 0 <= i < ns.len() implies note_wf(#[trigger] ns[i].note) by {
        assert(sorted_raw[i] == ns[i].note);
        assert(sorted_raw.contains(sorted_raw[i]));
        let w = choose|w: int| 0 <= w < raw.len() && raw[w] == sorted_raw[i];
        assert(note_wf(raw[w]));
    }
}

/// A disabled, empty line slot as loading leaves the unused slots.
pub open spec fn spec_disabled_line(l: LineState) -> bool {
    &&& !l.enable
    &&& l.notes_above_state@ =~= Seq::<NoteState>::empty()
    &&& l.notes_below_state@ =~= Seq::<NoteState>::empty()
    &&& l.speed_events@ =~= Seq::<Event1>::empty()
    &&& l.move_events@ =~= Seq::<Event4>::empty()
    &&& l.rotate_events@ =~= Seq::<Event2>::empty()
    &&& l.alpha_events@ =~= Seq::<Event2>::empty()
}

/// A line slot as loading leaves it: built from its raw line, with the
/// highlight flags resolved against the whole chart's key list.
pub open spec fn spec_loaded_line(st: LineState, jl: JudgeLine, keys: Seq<i64>) -> bool {
    exists|mid: LineState|
        spec_built_line(mid, jl) && #[trigger] spec_highlighted_line(mid, st, keys)
}

/// Loads a validated chart into the fixed line slots, wholesale: on any
/// validation error the previous state is left untouched; on success every
/// slot is overwritten, the chart's lines first, disabled empty slots
/// after them.
#[verifier::loop_isolation(false)]
pub fn init_line_states(chart: &Chart, states: &mut Vec<LineState>) -> (r: Result<
    (),
    ChartError,
>)
    ensures
        r is Ok <==> spec_chart_ok(*chart),
        chart.judge_line_list@.len() > LINE_SLOT_COUNT ==> r == Err::<(), ChartError>(
            ChartError::TooManyLines,
        ),
        (chart.judge_line_list@.len() <= LINE_SLOT_COUNT && !spec_chart_ok(*chart)) ==> r
            == Err::<(), ChartError>(ChartError::InvalidLine),
        r is Err ==> final(states)@ == old(states)@,
        r is Ok ==> {
            &&& final(states)@.len() == LINE_SLOT_COUNT
            &&& lines_wf(final(states)@)
            &&& forall|i: int|
                0 <= i < chart.judge_line_list@.len() ==> spec_loaded_line(
                    #[trigger] final(states)@[i],
                    chart.judge_line_list@[i],
                    spec_all_keys(final(states)@),
                )
            &&& forall|i: int|
                chart.judge_line_list@.len() <= i < LINE_SLOT_COUNT ==> spec_disabled_line(
                    #[trigger] final(states)@[i],
                )
        },
{
    let n = chart.judge_line_list.len();
    if n > LINE_SLOT_COUNT {
        return Err(ChartError::TooManyLines);
    }
    let mut i: usize = 0;
    while i < n
        invariant
            i <= n,
            n == chart.judge_line_list@.len(),
            forall|k: int|
                0 <= k < i ==> spec_judge_line_ok(#[trigger] chart.judge_line_list@[k]),
        decreases n - i,
    {
        if !check_judge_line(&chart.judge_line_list[i]) {
            return Err(ChartError::InvalidLine);
        }
        i = i + 1;
    }
    let mut new_states: Vec<LineState> = Vec::new();
    let mut b: usize = 0;
    while b < n
        invariant
            b <= n,
            n == chart.judge_line_list@.len(),
            new_states@.len() == b as int,
            forall|k: int|
                0 <= k < n ==> spec_judge_line_ok(#[trigger] chart.judge_line_list@[k]),
            forall|k: int|
                0 <= k < b ==> spec_built_line(
                    #[trigger] new_states@[k],
                    chart.judge_line_list@[k],
                ),
            lines_wf(new_states@),
        decreases n - b,
    {
        let line = build_line_state(&chart.judge_line_list[b]);
        new_states.push(line);
        b = b + 1;
    }
    while new_states.len() < LINE_SLOT_COUNT
        invariant
            n == chart.judge_line_list@.len(),
            n as int <= new_states@.len() <= LINE_SLOT_COUNT as int,
            forall|k: int|
                0 <= k < n ==> spec_built_line(
                    #[trigger] new_states@[k],
                    chart.judge_line_list@[k],
                ),
            forall|k: int|
                n <= k < new_states@.len() ==> spec_disabled_line(#[trigger] new_states@[k]),
            lines_wf(new_states@),
        decreases LINE_SLOT_COUNT as int - new_states@.len(),
    {
        let d: LineState = Default::default();
        new_states.push(d);
    }
    let ghost built = new_states@;
    process_highlight(&mut new_states);
    proof {
        assert forall|k: int| 0 <= k < n implies spec_loaded_line(
            #[trigger] new_states@[k],
            chart.judge_line_list@[k],
            spec_all_keys(new_states@),
        ) by {
            assert(spec_highlighted_line(built[k], new_states@[k], spec_all_keys(built)));
        }
        assert forall|k: int| n <= k < LINE_SLOT_COUNT implies spec_disabled_line(
            #[trigger] new_states@[k],
        ) by {
            assert(new_states@[k] == built[k]);
        }
    }
    *states = new_states;
    Ok(())
}

/// The largest event start time of one list, zero when empty, over the
/// first `i` events.
pub open spec fn spec_events_max_start<T: WithTimeRange>(s: Seq<T>, i: int) -> int
    decreases i,
{
    if i <= 0 {
        0
    } else {
        let rest = spec_events_max_start(s, i - 1);
        let v = s[i - 1].spec_time_start() as int;
        if v > rest {
            v
        } else {
            rest
        }
    }
}

/// The resolution time of a list's last note, zero when empty.
pub open spec fn spec_notes_last_resolve(ns: Seq<NoteState>, spt: i64) -> int {
    if ns.len() == 0 {
        0
    } else {
        crate::chart::spec_ticks_to_us(
            (ns.last().note.time + ns.last().note.hold_time) as i64,
            spt,
        )
    }
}

/// How long a line plays: the later of its last notes' resolution and its
/// latest event start; zero for a disabled slot.
pub open spec fn spec_line_length_us(l: LineState) -> int {
    if !l.enable {
        0
    } else {
        let spt = crate::chart::spec_seconds_per_tick(l.bpm) as i64;
        let a = spec_notes_last_resolve(l.notes_above_state@, spt);
        let b = spec_notes_last_resolve(l.notes_below_state@, spt);
        let e1 = spec_events_max_start(l.speed_events@, l.speed_events@.len() as int);
        let e2 = spec_events_max_start(l.move_events@, l.move_events@.len() as int);
        let e3 = spec_events_max_start(l.rotate_events@, l.rotate_events@.len() as int);
        let e4 = spec_events_max_start(l.alpha_events@, l.alpha_events@.len() as int);
        let m1 = if a > b { a } else { b };
        let m2 = if e1 > e2 { e1 } else { e2 };
        let m3 = if e3 > e4 { e3 } else { e4 };
        let m4 = if m2 > m3 { m2 } else { m3 };
        if m1 > m4 { m1 } else { m4 }
    }
}

/// The chart's playing length over the first `i` lines.
pub open spec fn spec_metadata_upto(s: Seq<LineState>, i: int) -> int
    decreases i,
{
    if i <= 0 {
        0
    } else {
        let rest = spec_metadata_upto(s, i - 1);
        let v = spec_line_length_us(s[i - 1]);
        if v > rest {
            v
        } else {
            rest
        }
    }
}

/// The chart's playing length in microseconds.
pub open spec fn spec_metadata_us(s: Seq<LineState>) -> int {
    spec_metadata_upto(s, s.len() as int)
}

/// The largest event start time of one list (the events are already in
/// microseconds).
#[verifier::loop_isolation(false)]
fn events_max_start<T: WithTimeRange>(events: &Vec<T>) -> (r: i64)
    requires
        events_time_wf(events@),
    ensures
        r == spec_events_max_start(events@, events@.len() as int),
        0 <= r <= EVENT_US_MAX,
{
    let n = events.len();
    let mut r: i64 = 0;
    let mut k: usize = 0;
    while k < n
        invariant
            k <= n,
            r == spec_events_max_start(events@, k as int),
            0 <= r <= EVENT_US_MAX,
        decreases n - k,
    {
        let v = events[k].time_start();
        proof {
            assert(0 <= events@[k as int].spec_time_start());
            assert(events@[k as int].spec_time_start() < events@[k as int].spec_time_end());
            assert(events@[k as int].spec_time_end() <= EVENT_US_MAX);
        }
        if v > r {
            r = v;
        }
        k = k + 1;
    }
    r
}

/// How long the loaded chart plays, in microseconds: the latest note
/// resolution or event start anywhere in it.
#[verifier::loop_isolation(false)]
pub fn get_metadata(state: &Vec<LineState>) -> (r: i64)
    requires
        lines_wf(state@),
    ensures
        r == spec_metadata_us(state@),
        0 <= r,
{
    let n = state.len();
    let mut r: i64 = 0;
    let mut i: usize = 0;
    while i < n
        invariant
            i <= n,
            n == state@.len(),
            r == spec_metadata_upto(state@, i as int),
            0 <= r <= EVENT_US_MAX,
        decreases n - i,
    {
        let line = &state[i];
        if line.enable {
            let spt = get_seconds_per_tick(line.bpm);
            let mut v: i64 = 0;
            let la = line.notes_above_state.len();
            if la > 0 {
                let note = line.notes_above_state[la - 1].note;
                let t = ticks_to_us(note.time + note.hold_time, spt);
                if t > v {
                    v = t;
                }
            }
            let lb = line.notes_below_state.len();
            if lb > 0 {
                let note = line.notes_below_state[lb - 1].note;
                let t = ticks_to_us(note.time + note.hold_time, spt);
                if t > v {
                    v = t;
                }
            }
            let e1 = events_max_start(&line.speed_events);
            if e1 > v {
                v = e1;
            }
            let e2 = events_max_start(&line.move_events);
            if e2 > v {
                v = e2;
            }
            let e3 = events_max_start(&line.rotate_events);
            if e3 > v {
                v = e3;
            }
            let e4 = events_max_start(&line.alpha_events);
            if e4 > v {
                v = e4;
            }
            if v > r {
                r = v;
            }
        }
        i = i + 1;
    }
    r
}

/// A note's state wound back for a seek to `before_us`: the cooldown is
/// cleared everywhere; a note whose nominal time lies at or past the seek
/// point loses both its judgement and its staging; a hold already begun
/// but still sustaining at the seek point loses only its judgement and
/// keeps its staging; an earlier note keeps its judgement.
pub open spec fn spec_reset_note(ns: NoteState, before_us: i64, spt: i64) -> NoteState {
    let nt = crate::chart::spec_ticks_to_us(ns.note.time, spt);
    let rt = crate::chart::spec_ticks_to_us((ns.note.time + ns.note.hold_time) as i64, spt);
    if nt >= before_us {
        NoteState {
            hold_cool_down: 0i64,
            score: NoteScore::Pending,
            extra_score: NoteScore::Pending,
            ..ns
        }
    } else if rt >= before_us {
        NoteState { hold_cool_down: 0i64, score: NoteScore::Pending, ..ns }
    } else {
        NoteState { hold_cool_down: 0i64, ..ns }
    }
}

/// Winds one note list back for a seek.
#[verifier::loop_isolation(false)]
fn reset_notes_list(notes: &mut Vec<NoteState>, before_us: i64, spt: i64)
    requires
        notes_wf(old(notes)@),
        1 <= spt <= SPT_US_MAX,
    ensures
        final(notes)@ == old(notes)@.map_values(
            |x: NoteState| spec_reset_note(x, before_us, spt),
        ),
        notes_wf(final(notes)@),
{
    let n = notes.len();
    let mut j: usize = 0;
    while j < n
        invariant
            j <= n,
            n == notes@.len(),
            notes@.len() == old(notes)@.len(),
            forall|i: int| j <= i < n ==> notes@[i] == old(notes)@[i],
            forall|i: int|
                0 <= i < j ==> notes@[i] == spec_reset_note(old(notes)@[i], before_us, spt),
            notes_wf(notes@),
        decreases n - j,
    {
        let note = notes[j].note;
        let nt = ticks_to_us(note.time, spt);
        let rt = ticks_to_us(note.time + note.hold_time, spt);
        let nm = el_mut(notes, j);
        nm.hold_cool_down = 0;
        if nt >= before_us {
            nm.extra_score = NoteScore::Pending;
            nm.score = NoteScore::Pending;
        } else if rt >= before_us {
            nm.score = NoteScore::Pending;
        }
        j = j + 1;
    }
    proof {
        assert(notes@ =~= old(notes)@.map_values(
            |x: NoteState| spec_reset_note(x, before_us, spt),
        ));
    }
}

/// Winds the judging state back for a seek or retry: every enabled line's
/// notes are reset around `before_us`; the timeline-derived fields and
/// caches are left for the next frame to recompute.
#[verifier::loop_isolation(false)]
pub fn reset_note_state(before_us: i64, lines: &mut Vec<LineState>)
    requires
        lines_wf(old(lines)@),
    ensures
        final(lines)@.len() == old(lines)@.len(),
        lines_wf(final(lines)@),
        forall|i: int|
            0 <= i < old(lines)@.len() ==> (if old(lines)@[i].enable {
                {
                    let o = old(lines)@[i];
                    let nl = #[trigger] final(lines)@[i];
                    let spt = crate::chart::spec_seconds_per_tick(o.bpm) as i64;
                    &&& nl == (LineState {
                        notes_above_state: nl.notes_above_state,
                        notes_below_state: nl.notes_below_state,
                        ..o
                    })
                    &&& nl.notes_above_state@ == o.notes_above_state@.map_values(
                        |x: NoteState| spec_reset_note(x, before_us, spt),
                    )
                    &&& nl.notes_below_state@ == o.notes_below_state@.map_values(
                        |x: NoteState| spec_reset_note(x, before_us, spt),
                    )
                }
            } else {
                final(lines)@[i] == old(lines)@[i]
            }),
{
    let n = lines.len();
    let mut i: usize = 0;
    while i < n
        invariant
            i <= n,
            n == lines@.len(),
            lines@.len() == old(lines)@.len(),
            forall|k: int| i <= k < n ==> lines@[k] == old(lines)@[k],
            forall|k: int|
                0 <= k < i ==> (if old(lines)@[k].enable {
                    {
                        let o = old(lines)@[k];
                        let nl = #[trigger] lines@[k];
                        let spt = crate::chart::spec_seconds_per_tick(o.bpm) as i64;
                        &&& nl == (LineState {
                            notes_above_state: nl.notes_above_state,
                            notes_below_state: nl.notes_below_state,
                            ..o
                        })
                        &&& nl.notes_above_state@ == o.notes_above_state@.map_values(
                            |x: NoteState| spec_reset_note(x, before_us, spt),
                        )
                        &&& nl.notes_below_state@ == o.notes_below_state@.map_values(
                            |x: NoteState| spec_reset_note(x, before_us, spt),
                        )
                    }
                } else {
                    lines@[k] == old(lines)@[k]
                }),
            lines_wf(lines@),
        decreases n - i,
    {
        let enabled = lines[i].enable;
        if enabled {
            let line = el_mut(lines, i);
            let spt = get_seconds_per_tick(line.bpm);
            reset_notes_list(&mut line.notes_above_state, before_us, spt);
            reset_notes_list(&mut line.notes_below_state, before_us, spt);
        }
        i = i + 1;
    }
}

} // verus!
