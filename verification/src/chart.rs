//! Immutable chart model: notes, animation events, and the bounds a chart
//! must respect so that every downstream computation stays inside `i64`.

use vstd::prelude::*;

verus! {

/// Largest chart time, in milli-ticks.
pub const MILLI_TICK_MAX: i64 = 0x7fff_ffff;
/// Largest magnitude of an event value, in milli-units.
pub const VALUE_MAX: i64 = 1_000_000_000;
/// Largest magnitude of a move-event channel value, in milli-units of the
/// normalized 0..1 screen extent (1000 is one full extent).
pub const MOVE_VALUE_MAX: i64 = 100_000;
/// Largest magnitude of a note's lane offset, in milli-lane-units.
pub const POSITION_MAX: i64 = 1_000_000;
/// bpm bounds, in milli-bpm. The upper bound keeps one tick at least one
/// microsecond long.
pub const BPM_MILLI_MIN: i64 = 1;
pub const BPM_MILLI_MAX: i64 = 1_875_000_000;
/// Largest wall-clock query time accepted per frame, in microseconds.
pub const TIME_US_MAX: i64 = 0x100_0000_0000;
/// Largest seconds-per-tick value, in microseconds per tick.
pub const SPT_US_MAX: i64 = 1_875_000_000;

/// The four note archetypes.
#[derive(Clone, Copy, PartialEq, Eq, Structural, Debug)]
pub enum NoteType {
    Tap,
    Drag,
    Hold,
    Flick,
}

impl NoteType {
    /// Decodes the chart's numeric note-type tag.
    pub fn from_code(value: i32) -> (r: Option<NoteType>)
        ensures
            r == (if value == 1 {
                Some(NoteType::Tap)
            } else if value == 2 {
                Some(NoteType::Drag)
            } else if value == 3 {
                Some(NoteType::Hold)
            } else if value == 4 {
                Some(NoteType::Flick)
            } else {
                None::<NoteType>
            }),
    {
        match value {
            1 => Some(NoteType::Tap),
            2 => Some(NoteType::Drag),
            3 => Some(NoteType::Hold),
            4 => Some(NoteType::Flick),
            _ => None,
        }
    }

    /// The numeric tag used in the serialized snapshot.
    pub fn code(self) -> (r: i8)
        ensures
            r == (match self {
                NoteType::Tap => 1i8,
                NoteType::Drag => 2i8,
                NoteType::Hold => 3i8,
                NoteType::Flick => 4i8,
            }),
    {
        match self {
            NoteType::Tap => 1,
            NoteType::Drag => 2,
            NoteType::Hold => 3,
            NoteType::Flick => 4,
        }
    }
}

/// One note. `time` and `hold_time` are in milli-ticks; `position_x` is in
/// milli-lane-units (one lane unit is 1920/18 world units); `speed` is a
/// milli scroll multiplier; `floor_position` is the precomputed scroll
/// distance in micro scroll units (consumed by the renderer only).
#[derive(Clone, Copy, PartialEq, Eq, Structural, Debug)]
pub struct Note {
    pub note_type: NoteType,
    pub time: i64,
    pub position_x: i64,
    pub hold_time: i64,
    pub speed: i64,
    pub floor_position: i64,
}

/// A speed event: constant `value` over `[start_time, end_time)`.
#[derive(Clone, Copy, PartialEq, Eq, Structural, Debug)]
pub struct Event1 {
    pub start_time: i64,
    pub end_time: i64,
    pub value: i64,
}

/// A one-channel interpolating event (rotation, alpha).
#[derive(Clone, Copy, PartialEq, Eq, Structural, Debug)]
pub struct Event2 {
    pub start_time: i64,
    pub end_time: i64,
    pub start: i64,
    pub end: i64,
}

/// A two-channel interpolating event (line centre x and y).
#[derive(Clone, Copy, PartialEq, Eq, Structural, Debug)]
pub struct Event4 {
    pub start_time: i64,
    pub end_time: i64,
    pub start: i64,
    pub end: i64,
    pub start2: i64,
    pub end2: i64,
}

/// Events expose their interpolation endpoints as a pair; `T` is `i64` for
/// one-channel events and `(i64, i64)` for two-channel events.
pub trait WithValue<T>: Sized {
    spec fn spec_value(&self) -> (T, T);

    spec fn spec_zero_value() -> (T, T);

    fn get_value(&self) -> (r: (T, T))
        ensures
            r == self.spec_value(),
    ;

    fn zero() -> (r: (T, T))
        ensures
            r == Self::spec_zero_value(),
    ;
}

impl WithValue<i64> for Event1 {
    open spec fn spec_value(&self) -> (i64, i64) {
        (self.value, self.value)
    }

    open spec fn spec_zero_value() -> (i64, i64) {
        (0i64, 0i64)
    }

    fn get_value(&self) -> (r: (i64, i64)) {
        (self.value, self.value)
    }

    fn zero() -> (r: (i64, i64)) {
        (0, 0)
    }
}

impl WithValue<i64> for Event2 {
    open spec fn spec_value(&self) -> (i64, i64) {
        (self.start, self.end)
    }

    open spec fn spec_zero_value() -> (i64, i64) {
        (0i64, 0i64)
    }

    fn get_value(&self) -> (r: (i64, i64)) {
        (self.start, self.end)
    }

    fn zero() -> (r: (i64, i64)) {
        (0, 0)
    }
}

impl WithValue<(i64, i64)> for Event4 {
    open spec fn spec_value(&self) -> ((i64, i64), (i64, i64)) {
        ((self.start, self.end), (self.start2, self.end2))
    }

    open spec fn spec_zero_value() -> ((i64, i64), (i64, i64)) {
        ((0i64, 0i64), (0i64, 0i64))
    }

    fn get_value(&self) -> (r: ((i64, i64), (i64, i64))) {
        ((self.start, self.end), (self.start2, self.end2))
    }

    fn zero() -> (r: ((i64, i64), (i64, i64))) {
        ((0, 0), (0, 0))
    }
}

/// Classification of a query time against an event's time range: strictly
/// before it, inside it (with the elapsed and total range lengths), or
/// strictly after it.
pub enum TimeState {
    Early,
    During(i64, i64),
    Late,
}

/// Events carry a half-open time range.
pub trait WithTimeRange: Sized {
    spec fn spec_time_start(&self) -> i64;

    spec fn spec_time_end(&self) -> i64;

    fn time_start(&self) -> (r: i64)
        ensures
            r == self.spec_time_start(),
    ;

    fn time_end(&self) -> (r: i64)
        ensures
            r == self.spec_time_end(),
    ;
}

impl WithTimeRange for Event1 {
    open spec fn spec_time_start(&self) -> i64 {
        self.start_time
    }

    open spec fn spec_time_end(&self) -> i64 {
        self.end_time
    }

    fn time_start(&self) -> (r: i64) {
        self.start_time
    }

    fn time_end(&self) -> (r: i64) {
        self.end_time
    }
}

impl WithTimeRange for Event2 {
    open spec fn spec_time_start(&self) -> i64 {
        self.start_time
    }

    open spec fn spec_time_end(&self) -> i64 {
        self.end_time
    }

    fn time_start(&self) -> (r: i64) {
        self.start_time
    }

    fn time_end(&self) -> (r: i64) {
        self.end_time
    }
}

impl WithTimeRange for Event4 {
    open spec fn spec_time_start(&self) -> i64 {
        self.start_time
    }

    open spec fn spec_time_end(&self) -> i64 {
        self.end_time
    }

    fn time_start(&self) -> (r: i64) {
        self.start_time
    }

    fn time_end(&self) -> (r: i64) {
        self.end_time
    }
}

/// One judge line as loaded from a chart. All event and note times are in
/// milli-ticks here; loading converts them to microseconds.
#[derive(Clone)]
pub struct JudgeLine {
    pub bpm: i64,
    pub notes_above: Vec<Note>,
    pub notes_below: Vec<Note>,
    pub speed_events: Vec<Event1>,
    pub move_events: Vec<Event4>,
    pub rotate_events: Vec<Event2>,
    pub alpha_events: Vec<Event2>,
}

/// A parsed chart: an ordered list of judge lines.
#[derive(Clone)]
pub struct Chart {
    pub judge_line_list: Vec<JudgeLine>,
}

/// Microseconds per tick for a line's tempo: `60 / bpm / 32` seconds,
/// rounded down to whole microseconds.
pub open spec fn spec_seconds_per_tick(bpm: i64) -> int {
    1_875_000_000int / (bpm as int)
}

/// A chart time in milli-ticks converted to microseconds, rounded down.
pub open spec fn spec_ticks_to_us(mt: i64, spt: i64) -> int {
    (mt * spt) / 1000
}

/// Executable form of [`spec_ticks_to_us`].
pub fn ticks_to_us(mt: i64, spt: i64) -> (r: i64)
    requires
        0 <= mt <= MILLI_TICK_MAX,
        0 <= spt <= SPT_US_MAX,
    ensures
        r == spec_ticks_to_us(mt, spt),
        0 <= r <= 4_026_531_838_125_000,
{
    proof {
        vstd::arithmetic::mul::lemma_mul_upper_bound(
            mt as int,
            MILLI_TICK_MAX as int,
            spt as int,
            SPT_US_MAX as int,
        );
        vstd::arithmetic::mul::lemma_mul_nonnegative(mt as int, spt as int);
        assert(2_147_483_647int * 1_875_000_000int == 4_026_531_838_125_000_000int)
            by (nonlinear_arith);
    }
    let p: i64 = mt * spt;
    proof {
        vstd::arithmetic::div_mod::lemma_div_pos_is_pos(p as int, 1000int);
        vstd::arithmetic::div_mod::lemma_div_is_ordered(
            p as int,
            4_026_531_838_125_000_000int,
            1000int,
        );
        vstd::arithmetic::div_mod::lemma_div_by_multiple(4_026_531_838_125_000int, 1000int);
        assert(4_026_531_838_125_000int * 1000 == 4_026_531_838_125_000_000int)
            by (nonlinear_arith);
    }
    p / 1000
}

} // verus!
