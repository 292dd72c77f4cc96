//! Note judging: per line and per frame, maps the query time and the live
//! touch pool onto each note's discrete judgement.
//!
//! States move `Pending -> {Perfect, Good, Bad, Miss}` and a terminal score
//! is never revisited; hold, drag and flick notes pass through an internal
//! staging in `extra_score` before they commit. The host supplies each
//! line's current direction as a (sine, cosine) pair in micro-units.

use vstd::prelude::*;

use crate::chart::{spec_ticks_to_us, ticks_to_us, Note, NoteType, SPT_US_MAX, TIME_US_MAX};
use crate::effect::{create_splash, spec_splash, SplashCue};
use crate::input::{spec_length_sq, touches_wf, TouchInfo};
use crate::math::{
    get_pos_out_of_line, is_point_in_judge_range, lane_offset, spec_band_offset, spec_lane_offset,
    spec_point_at_offset, COORD_MAX, DISTANCE_MAX, JUDGE_WIDTH_MILLI, SCALE_MICRO,
};
use crate::states::{
    el_mut, note_wf, notes_wf, LineState, NoteScore, NoteState, COOL_DOWN_MAX,
};

verus! {

/// Timing windows around a note's nominal time, in microseconds.
pub const PERFECT_WINDOW_US: i64 = 80_000;
pub const GOOD_WINDOW_US: i64 = 160_000;
pub const BAD_WINDOW_US: i64 = 180_000;
/// Squared flick trigger length: 50 world units, in squared milli-units.
pub const FLICK_LENGTH_SQ: i128 = 2_500_000_000;
/// A hold's sustain cooldown, in ticks.
pub const HOLD_COOL_DOWN_TICKS: i64 = 16;

/// A line's judging frame: its centre and its direction's sine and cosine
/// in micro-units, as the host computed them from the line's rotation.
#[derive(Clone, Copy, PartialEq, Eq, Structural, Debug)]
pub struct JudgeGeometry {
    pub line_x: i64,
    pub line_y: i64,
    pub sin_micro: i64,
    pub cos_micro: i64,
}

pub open spec fn geom_wf(g: JudgeGeometry) -> bool {
    &&& -COORD_MAX <= g.line_x <= COORD_MAX
    &&& -COORD_MAX <= g.line_y <= COORD_MAX
    &&& -SCALE_MICRO <= g.sin_micro <= SCALE_MICRO
    &&& -SCALE_MICRO <= g.cos_micro <= SCALE_MICRO
}

/// A note's nominal time in microseconds.
pub open spec fn spec_note_time_us(n: Note, spt: i64) -> int {
    spec_ticks_to_us(n.time, spt)
}

/// The time a hold note's sustain ends (equal to the nominal time for the
/// other types), in microseconds.
pub open spec fn spec_resolve_time_us(n: Note, spt: i64) -> int {
    spec_ticks_to_us((n.time + n.hold_time) as i64, spt)
}

/// The judgement a timing offset earns: Perfect within 0.08 s of nominal,
/// Good within 0.16 s, Bad within 0.18 s, Miss beyond.
pub open spec fn spec_judge_window(delta: int) -> NoteScore {
    let a = if delta >= 0 {
        delta
    } else {
        -delta
    };
    if a <= PERFECT_WINDOW_US {
        NoteScore::Perfect
    } else if a <= GOOD_WINDOW_US {
        NoteScore::Good
    } else if a <= BAD_WINDOW_US {
        NoteScore::Bad
    } else {
        NoteScore::Miss
    }
}

/// Signed timing offset and the judgement it earns.
pub fn check_judge_result(current_us: i64, note: &NoteState, spt_us: i64) -> (r: (i64, NoteScore))
    requires
        -TIME_US_MAX <= current_us <= TIME_US_MAX,
        1 <= spt_us <= SPT_US_MAX,
        note_wf(note.note),
    ensures
        r.0 == current_us - spec_note_time_us(note.note, spt_us),
        r.1 == spec_judge_window(r.0 as int),
{
    let nominal = ticks_to_us(note.note.time, spt_us);
    let delta: i64 = current_us - nominal;
    let a: i64 = if delta >= 0 {
        delta
    } else {
        -delta
    };
    let score = if a <= PERFECT_WINDOW_US {
        NoteScore::Perfect
    } else if a <= GOOD_WINDOW_US {
        NoteScore::Good
    } else if a <= BAD_WINDOW_US {
        NoteScore::Bad
    } else {
        NoteScore::Miss
    };
    (delta, score)
}

/// A note's root point on its line.
pub open spec fn spec_note_root(g: JudgeGeometry, position_x: i64) -> (int, int) {
    spec_point_at_offset(
        g.line_x,
        g.line_y,
        g.sin_micro,
        g.cos_micro,
        spec_lane_offset(position_x) as i64,
    )
}

/// Whether a touch point lies within the judge band around a note's root,
/// measured along the line's direction.
pub open spec fn spec_in_judge_range(
    g: JudgeGeometry,
    position_x: i64,
    touch_x: i64,
    touch_y: i64,
) -> bool {
    let root = spec_note_root(g, position_x);
    let dot = spec_band_offset(
        root.0,
        root.1,
        g.sin_micro as int,
        g.cos_micro as int,
        touch_x as int,
        touch_y as int,
    );
    -(JUDGE_WIDTH_MILLI * SCALE_MICRO) <= dot <= JUDGE_WIDTH_MILLI * SCALE_MICRO
}

/// Computes a note's root on the line and whether a touch lies within the
/// judge band around it.
pub fn check_point_in_judge_range(
    g: JudgeGeometry,
    note_position_x: i64,
    touch_x: i64,
    touch_y: i64,
) -> (r: (bool, (i64, i64)))
    requires
        geom_wf(g),
        -crate::chart::POSITION_MAX <= note_position_x <= crate::chart::POSITION_MAX,
        -COORD_MAX <= touch_x <= COORD_MAX,
        -COORD_MAX <= touch_y <= COORD_MAX,
    ensures
        r.0 == spec_in_judge_range(g, note_position_x, touch_x, touch_y),
        (r.1.0 as int, r.1.1 as int) == spec_note_root(g, note_position_x),
        -COORD_MAX - DISTANCE_MAX <= r.1.0 <= COORD_MAX + DISTANCE_MAX,
        -COORD_MAX - DISTANCE_MAX <= r.1.1 <= COORD_MAX + DISTANCE_MAX,
{
    let off = lane_offset(note_position_x);
    let root = get_pos_out_of_line(g.line_x, g.line_y, g.sin_micro, g.cos_micro, off);
    let in_range = is_point_in_judge_range(
        root.x,
        root.y,
        g.sin_micro,
        g.cos_micro,
        touch_x,
        touch_y,
        JUDGE_WIDTH_MILLI,
    );
    (in_range, (root.x, root.y))
}

/// The first index at or after `k` whose touch satisfies `pred`, or the
/// pool's length if none does.
pub open spec fn first_match_from(
    ts: Seq<TouchInfo>,
    pred: spec_fn(TouchInfo) -> bool,
    k: int,
) -> int
    decreases ts.len() - k,
{
    if k < 0 || k >= ts.len() {
        ts.len() as int
    } else if pred(ts[k]) {
        k
    } else {
        first_match_from(ts, pred, k + 1)
    }
}

pub open spec fn first_match(ts: Seq<TouchInfo>, pred: spec_fn(TouchInfo) -> bool) -> int {
    first_match_from(ts, pred, 0)
}

/// Searching from the start finds the same index as searching past a
/// prefix with no match.
proof fn lemma_first_match_prefix(ts: Seq<TouchInfo>, pred: spec_fn(TouchInfo) -> bool, k: int)
    requires
        0 <= k <= ts.len(),
        forall|j: int| 0 <= j < k ==> !pred(#[trigger] ts[j]),
    ensures
        first_match(ts, pred) == first_match_from(ts, pred, k),
    decreases k,
{
    if k > 0 {
        lemma_first_match_prefix(ts, pred, k - 1);
    }
}

/// The first match lies in range and satisfies the predicate; everything
/// before it does not.
proof fn lemma_first_match_props(ts: Seq<TouchInfo>, pred: spec_fn(TouchInfo) -> bool, k: int)
    requires
        0 <= k <= ts.len(),
    ensures
        k <= first_match_from(ts, pred, k) <= ts.len(),
        first_match_from(ts, pred, k) < ts.len() ==> pred(ts[first_match_from(ts, pred, k)]),
        forall|j: int| k <= j < first_match_from(ts, pred, k) ==> !pred(#[trigger] ts[j]),
    decreases ts.len() - k,
{
    if k < ts.len() && !pred(ts[k]) {
        lemma_first_match_props(ts, pred, k + 1);
    }
}

/// What a tap (or an unstaged hold) consumes: an enabled, still-valid
/// touch inside the judge band.
pub open spec fn tap_pred(g: JudgeGeometry, position_x: i64) -> spec_fn(TouchInfo) -> bool {
    |t: TouchInfo| t.enable && t.touch_valid && spec_in_judge_range(g, position_x, t.x, t.y)
}

/// What stages a drag: any enabled touch inside the judge band.
pub open spec fn drag_pred(g: JudgeGeometry, position_x: i64) -> spec_fn(TouchInfo) -> bool {
    |t: TouchInfo| t.enable && spec_in_judge_range(g, position_x, t.x, t.y)
}

/// What stages a flick: an enabled touch inside the judge band whose swipe
/// since its last baseline reset is at least 50 world units long.
pub open spec fn flick_pred(g: JudgeGeometry, position_x: i64) -> spec_fn(TouchInfo) -> bool {
    |t: TouchInfo|
        t.enable && spec_in_judge_range(g, position_x, t.x, t.y) && spec_length_sq(t)
            >= FLICK_LENGTH_SQ as int
}

/// Whether any enabled touch is inside the judge band (a hold's sustain
/// presence check; validity is irrelevant here).
pub open spec fn spec_any_presence(ts: Seq<TouchInfo>, g: JudgeGeometry, position_x: i64) -> bool {
    exists|k: int|
        0 <= k < ts.len() && (#[trigger] ts[k]).enable && spec_in_judge_range(
            g,
            position_x,
            ts[k].x,
            ts[k].y,
        )
}

/// One frame of a tap note: before its window nothing happens; past its
/// window it misses; inside its window the first enabled, valid touch in
/// the judge band is consumed and commits the window's judgement, with a
/// splash for Perfect and Good.
pub open spec fn tap_step(
    o: NoteState,
    n: NoteState,
    ts0: Seq<TouchInfo>,
    ts1: Seq<TouchInfo>,
    cs0: Seq<SplashCue>,
    cs1: Seq<SplashCue>,
    t: i64,
    spt: i64,
    g: JudgeGeometry,
    judged: bool,
) -> bool {
    let delta = t - spec_note_time_us(o.note, spt);
    let res = spec_judge_window(delta);
    if o.score != NoteScore::Pending {
        n == o && ts1 == ts0 && cs1 == cs0 && judged == false
    } else if delta < 0 && res == NoteScore::Miss {
        n == o && ts1 == ts0 && cs1 == cs0 && judged == false
    } else if delta > 0 && res == NoteScore::Miss {
        n == (NoteState { score: NoteScore::Miss, ..o }) && ts1 == ts0 && cs1 == cs0 && judged
            == true
    } else {
        let k = first_match(ts0, tap_pred(g, o.note.position_x));
        if k == ts0.len() {
            n == o && ts1 == ts0 && cs1 == cs0 && judged == false
        } else {
            let root = spec_note_root(g, o.note.position_x);
            &&& n == (NoteState { score: res, ..o })
            &&& ts1 == ts0.update(k, (TouchInfo { touch_valid: false, ..ts0[k] }))
            &&& cs1 == spec_splash(cs0, t, root.0 as i64, root.1 as i64, res)
            &&& judged == true
        }
    }
}

pub fn tick_tap_note(
    current_us: i64,
    spt_us: i64,
    note: &mut NoteState,
    touches: &mut Vec<TouchInfo>,
    geom: JudgeGeometry,
    cues: &mut Vec<SplashCue>,
) -> (judged: bool)
    requires
        -TIME_US_MAX <= current_us <= TIME_US_MAX,
        1 <= spt_us <= SPT_US_MAX,
        note_wf(old(note).note),
        touches_wf(old(touches)@),
        geom_wf(geom),
    ensures
        tap_step(
            *old(note),
            *final(note),
            old(touches)@,
            final(touches)@,
            old(cues)@,
            final(cues)@,
            current_us,
            spt_us,
            geom,
            judged,
        ),
        judged == (final(note).score != old(note).score),
        touches_wf(final(touches)@),
        final(note).note == old(note).note,
        final(note).hold_cool_down == old(note).hold_cool_down,
{
    if note.score != NoteScore::Pending {
        return false;
    }
    let (delta, res) = check_judge_result(current_us, note, spt_us);
    if delta < 0 && res == NoteScore::Miss {
        return false;
    }
    if delta > 0 && res == NoteScore::Miss {
        note.score = NoteScore::Miss;
        return true;
    }
    let n = touches.len();
    let mut k: usize = 0;
    #[verifier::loop_isolation(false)]
    while k < n
        invariant
            k <= n,
            *note == *old(note),
            touches@ == old(touches)@,
            cues@ == old(cues)@,
            forall|j: int| 0 <= j < k ==> !(tap_pred(geom, old(note).note.position_x)(
                #[trigger] touches@[j],
            )),
        decreases n - k,
    {
        let tch = touches[k];
        if tch.enable {
            let (in_range, root) = check_point_in_judge_range(
                geom,
                note.note.position_x,
                tch.x,
                tch.y,
            );
            if in_range && tch.touch_valid {
                proof {
                    lemma_first_match_prefix(
                        touches@,
                        tap_pred(geom, old(note).note.position_x),
                        k as int,
                    );
                    assert(first_match(touches@, tap_pred(geom, old(note).note.position_x))
                        == k as int);
                }
                let tm = el_mut(touches, k);
                tm.touch_valid = false;
                note.score = res;
                create_splash(current_us, root.0, root.1, res, cues);
                return true;
            }
        }
        k = k + 1;
    }
    proof {
        lemma_first_match_prefix(touches@, tap_pred(geom, old(note).note.position_x), n as int);
    }
    false
}

/// One frame of a drag note: before its window nothing happens; any
/// enabled touch in the band stages Perfect without consuming the touch;
/// once staged it commits Perfect as soon as the query time passes nominal,
/// whatever the staging's own timing was; unstaged past the window it
/// misses.
pub open spec fn drag_step(
    o: NoteState,
    n: NoteState,
    ts0: Seq<TouchInfo>,
    ts1: Seq<TouchInfo>,
    cs0: Seq<SplashCue>,
    cs1: Seq<SplashCue>,
    t: i64,
    spt: i64,
    g: JudgeGeometry,
    judged: bool,
) -> bool {
    let delta = t - spec_note_time_us(o.note, spt);
    let res = spec_judge_window(delta);
    let root = spec_note_root(g, o.note.position_x);
    if o.score != NoteScore::Pending {
        n == o && ts1 == ts0 && cs1 == cs0 && judged == false
    } else if delta < 0 && res == NoteScore::Miss {
        n == o && ts1 == ts0 && cs1 == cs0 && judged == false
    } else if o.extra_score != NoteScore::Pending {
        if delta > 0 {
            &&& n == (NoteState { score: NoteScore::Perfect, ..o })
            &&& ts1 == ts0
            &&& cs1 == spec_splash(cs0, t, root.0 as i64, root.1 as i64, NoteScore::Perfect)
            &&& judged == true
        } else {
            n == o && ts1 == ts0 && cs1 == cs0 && judged == false
        }
    } else if delta > 0 && res == NoteScore::Miss {
        n == (NoteState { score: NoteScore::Miss, ..o }) && ts1 == ts0 && cs1 == cs0 && judged
            == true
    } else {
        let k = first_match(ts0, drag_pred(g, o.note.position_x));
        if k == ts0.len() {
            n == o && ts1 == ts0 && cs1 == cs0 && judged == false
        } else {
            &&& n == (NoteState { extra_score: NoteScore::Perfect, ..o })
            &&& ts1 == ts0
            &&& cs1 == cs0
            &&& judged == false
        }
    }
}

pub fn tick_drag_note(
    current_us: i64,
    spt_us: i64,
    note: &mut NoteState,
    touches: &mut Vec<TouchInfo>,
    geom: JudgeGeometry,
    cues: &mut Vec<SplashCue>,
) -> (judged: bool)
    requires
        -TIME_US_MAX <= current_us <= TIME_US_MAX,
        1 <= spt_us <= SPT_US_MAX,
        note_wf(old(note).note),
        touches_wf(old(touches)@),
        geom_wf(geom),
    ensures
        drag_step(
            *old(note),
            *final(note),
            old(touches)@,
            final(touches)@,
            old(cues)@,
            final(cues)@,
            current_us,
            spt_us,
            geom,
            judged,
        ),
        judged == (final(note).score != old(note).score),
        touches_wf(final(touches)@),
        final(note).note == old(note).note,
        final(note).hold_cool_down == old(note).hold_cool_down,
{
    if note.score != NoteScore::Pending {
        return false;
    }
    let (delta, res) = check_judge_result(current_us, note, spt_us);
    if delta < 0 && res == NoteScore::Miss {
        return false;
    }
    if note.extra_score != NoteScore::Pending {
        if delta > 0 {
            let off = lane_offset(note.note.position_x);
            let root = get_pos_out_of_line(
                geom.line_x,
                geom.line_y,
                geom.sin_micro,
                geom.cos_micro,
                off,
            );
            note.score = NoteScore::Perfect;
            create_splash(current_us, root.x, root.y, NoteScore::Perfect, cues);
            return true;
        }
        return false;
    }
    if delta > 0 && res == NoteScore::Miss {
        note.score = NoteScore::Miss;
        return true;
    }
    let n = touches.len();
    let mut k: usize = 0;
    #[verifier::loop_isolation(false)]
    while k < n
        invariant
            k <= n,
            *note == *old(note),
            touches@ == old(touches)@,
            cues@ == old(cues)@,
            forall|j: int| 0 <= j < k ==> !(drag_pred(geom, old(note).note.position_x)(
                #[trigger] touches@[j],
            )),
        decreases n - k,
    {
        let tch = touches[k];
        if tch.enable {
            let (in_range, _root) = check_point_in_judge_range(
                geom,
                note.note.position_x,
                tch.x,
                tch.y,
            );
            if in_range {
                proof {
                    lemma_first_match_prefix(
                        touches@,
                        drag_pred(geom, old(note).note.position_x),
                        k as int,
                    );
                }
                note.extra_score = NoteScore::Perfect;
                return false;
            }
        }
        k = k + 1;
    }
    proof {
        lemma_first_match_prefix(touches@, drag_pred(geom, old(note).note.position_x), n as int);
    }
    false
}

/// One frame of a flick note: an enabled touch in the band whose swipe has
/// grown past the trigger length stages Perfect and moves that touch's
/// swipe baseline; once staged it commits Perfect as soon as the query time
/// passes nominal; unstaged past the window it misses.
pub open spec fn flick_step(
    o: NoteState,
    n: NoteState,
    ts0: Seq<TouchInfo>,
    ts1: Seq<TouchInfo>,
    cs0: Seq<SplashCue>,
    cs1: Seq<SplashCue>,
    t: i64,
    spt: i64,
    g: JudgeGeometry,
    judged: bool,
) -> bool {
    let delta = t - spec_note_time_us(o.note, spt);
    let res = spec_judge_window(delta);
    let root = spec_note_root(g, o.note.position_x);
    if o.score != NoteScore::Pending {
        n == o && ts1 == ts0 && cs1 == cs0 && judged == false
    } else if delta < 0 && res == NoteScore::Miss {
        n == o && ts1 == ts0 && cs1 == cs0 && judged == false
    } else if o.extra_score != NoteScore::Pending {
        if delta > 0 {
            &&& n == (NoteState { score: NoteScore::Perfect, ..o })
            &&& ts1 == ts0
            &&& cs1 == spec_splash(cs0, t, root.0 as i64, root.1 as i64, NoteScore::Perfect)
            &&& judged == true
        } else {
            n == o && ts1 == ts0 && cs1 == cs0 && judged == false
        }
    } else if delta > 0 && res == NoteScore::Miss {
        n == (NoteState { score: NoteScore::Miss, ..o }) && ts1 == ts0 && cs1 == cs0 && judged
            == true
    } else {
        let k = first_match(ts0, flick_pred(g, o.note.position_x));
        if k == ts0.len() {
            n == o && ts1 == ts0 && cs1 == cs0 && judged == false
        } else {
            &&& n == (NoteState { extra_score: NoteScore::Perfect, ..o })
            &&& ts1 == ts0.update(
                k,
                (TouchInfo { init_x: ts0[k].x, init_y: ts0[k].y, ..ts0[k] }),
            )
            &&& cs1 == cs0
            &&& judged == false
        }
    }
}

pub fn tick_flick_note(
    current_us: i64,
    spt_us: i64,
    note: &mut NoteState,
    touches: &mut Vec<TouchInfo>,
    geom: JudgeGeometry,
    cues: &mut Vec<SplashCue>,
) -> (judged: bool)
    requires
        -TIME_US_MAX <= current_us <= TIME_US_MAX,
        1 <= spt_us <= SPT_US_MAX,
        note_wf(old(note).note),
        touches_wf(old(touches)@),
        geom_wf(geom),
    ensures
        flick_step(
            *old(note),
            *final(note),
            old(touches)@,
            final(touches)@,
            old(cues)@,
            final(cues)@,
            current_us,
            spt_us,
            geom,
            judged,
        ),
        judged == (final(note).score != old(note).score),
        touches_wf(final(touches)@),
        final(note).note == old(note).note,
        final(note).hold_cool_down == old(note).hold_cool_down,
{
    if note.score != NoteScore::Pending {
        return false;
    }
    let (delta, res) = check_judge_result(current_us, note, spt_us);
    if delta < 0 && res == NoteScore::Miss {
        return false;
    }
    if note.extra_score != NoteScore::Pending {
        if delta > 0 {
            let off = lane_offset(note.note.position_x);
            let root = get_pos_out_of_line(
                geom.line_x,
                geom.line_y,
                geom.sin_micro,
                geom.cos_micro,
                off,
            );
            note.score = NoteScore::Perfect;
            create_splash(current_us, root.x, root.y, NoteScore::Perfect, cues);
            return true;
        }
        return false;
    }
    if delta > 0 && res == NoteScore::Miss {
        note.score = NoteScore::Miss;
        return true;
    }
    let n = touches.len();
    let mut k: usize = 0;
    #[verifier::loop_isolation(false)]
    while k < n
        invariant
            k <= n,
            *note == *old(note),
            touches@ == old(touches)@,
            cues@ == old(cues)@,
            forall|j: int| 0 <= j < k ==> !(flick_pred(geom, old(note).note.position_x)(
                #[trigger] touches@[j],
            )),
        decreases n - k,
    {
        let tch = touches[k];
        if tch.enable {
            let (in_range, _root) = check_point_in_judge_range(
                geom,
                note.note.position_x,
                tch.x,
                tch.y,
            );
            if in_range && tch.length_sq() >= FLICK_LENGTH_SQ {
                proof {
                    lemma_first_match_prefix(
                        touches@,
                        flick_pred(geom, old(note).note.position_x),
                        k as int,
                    );
                }
                note.extra_score = NoteScore::Perfect;
                let tm = el_mut(touches, k);
                tm.reset_length();
                return false;
            }
        }
        k = k + 1;
    }
    proof {
        lemma_first_match_prefix(touches@, flick_pred(geom, old(note).note.position_x), n as int);
    }
    false
}

/// A hold's sustain cooldown after one frame: it drops by the frame delta
/// and saturates at both ends of its accepted range (far from zero the
/// exact figure no longer matters, only the sign does).
pub open spec fn spec_cool_down_step(cd: i64, delta_us: i64) -> int {
    let v = cd - delta_us;
    if v < -TIME_US_MAX {
        -TIME_US_MAX as int
    } else if v > COOL_DOWN_MAX {
        COOL_DOWN_MAX as int
    } else {
        v
    }
}

/// One frame of a staged hold note. The cooldown drops by the frame delta;
/// on crossing zero the sustain demands presence — any enabled touch in
/// the band, or auto-play — and either re-arms the cooldown or misses.
/// The re-arm tops the crossed-zero value up by sixteen ticks, so the
/// overshoot carries over and the periodic splashes stay evenly spaced;
/// this phase-preserving reading of the sixteen-tick reset is deliberate.
/// Independently, once the query time passes the sustain's end the staged
/// judgement commits, overriding a miss of the same frame. For an
/// unstaged note nothing happens and `held` is false.
pub open spec fn hold_common_step(
    o: NoteState,
    n: NoteState,
    ts0: Seq<TouchInfo>,
    ts1: Seq<TouchInfo>,
    cs0: Seq<SplashCue>,
    cs1: Seq<SplashCue>,
    delta_us: i64,
    t: i64,
    spt: i64,
    g: JudgeGeometry,
    auto: bool,
    held: bool,
    judged: bool,
) -> bool {
    if o.extra_score == NoteScore::Pending {
        n == o && ts1 == ts0 && cs1 == cs0 && held == false && judged == false
    } else {
        let cd1 = spec_cool_down_step(o.hold_cool_down, delta_us);
        let presence = auto || spec_any_presence(ts0, g, o.note.position_x);
        let root = spec_note_root(g, o.note.position_x);
        let expiry = spec_resolve_time_us(o.note, spt) <= t;
        &&& held == true
        &&& ts1 == ts0
        &&& n.extra_score == o.extra_score
        &&& n.note == o.note
        &&& n.highlight == o.highlight
        &&& (if cd1 <= 0 {
            if presence {
                &&& n.hold_cool_down == cd1 + HOLD_COOL_DOWN_TICKS * spt
                &&& cs1 == spec_splash(cs0, t, root.0 as i64, root.1 as i64, o.extra_score)
                &&& n.score == (if expiry {
                    o.extra_score
                } else {
                    o.score
                })
                &&& judged == expiry
            } else {
                &&& n.hold_cool_down == cd1
                &&& cs1 == cs0
                &&& n.score == (if expiry {
                    o.extra_score
                } else {
                    NoteScore::Miss
                })
                &&& judged == true
            }
        } else {
            &&& n.hold_cool_down == cd1
            &&& cs1 == cs0
            &&& n.score == (if expiry {
                o.extra_score
            } else {
                o.score
            })
            &&& judged == expiry
        })
    }
}

pub fn tick_hold_note_common(
    delta_us: i64,
    current_us: i64,
    spt_us: i64,
    note: &mut NoteState,
    touches: &mut Vec<TouchInfo>,
    geom: JudgeGeometry,
    auto: bool,
    cues: &mut Vec<SplashCue>,
) -> (r: (bool, bool))
    requires
        -TIME_US_MAX <= current_us <= TIME_US_MAX,
        -TIME_US_MAX <= delta_us <= TIME_US_MAX,
        1 <= spt_us <= SPT_US_MAX,
        note_wf(old(note).note),
        -TIME_US_MAX <= old(note).hold_cool_down <= COOL_DOWN_MAX,
        touches_wf(old(touches)@),
        geom_wf(geom),
    ensures
        hold_common_step(
            *old(note),
            *final(note),
            old(touches)@,
            final(touches)@,
            old(cues)@,
            final(cues)@,
            delta_us,
            current_us,
            spt_us,
            geom,
            auto,
            r.0,
            r.1,
        ),
        -TIME_US_MAX <= final(note).hold_cool_down <= COOL_DOWN_MAX,
        final(note).note == old(note).note,
        touches_wf(final(touches)@),
{
    if note.extra_score == NoteScore::Pending {
        return (false, false);
    }
    let mut judged = false;
    let mut cd1: i64 = note.hold_cool_down - delta_us;
    if cd1 < -TIME_US_MAX {
        cd1 = -TIME_US_MAX;
    }
    if cd1 > COOL_DOWN_MAX {
        cd1 = COOL_DOWN_MAX;
    }
    note.hold_cool_down = cd1;
    if cd1 <= 0 {
        let mut present = auto;
        if !auto {
            let n = touches.len();
            let mut q: usize = 0;
            #[verifier::loop_isolation(false)]
            while q < n
                invariant
                    q <= n,
                    present == (exists|j: int|
                        0 <= j < q && (#[trigger] touches@[j]).enable && spec_in_judge_range(
                            geom,
                            old(note).note.position_x,
                            touches@[j].x,
                            touches@[j].y,
                        )),
                decreases n - q,
            {
                let tch = touches[q];
                let (in_range, _root) = check_point_in_judge_range(
                    geom,
                    note.note.position_x,
                    tch.x,
                    tch.y,
                );
                if in_range && tch.enable {
                    present = true;
                }
                q = q + 1;
            }
        }
        if present {
            note.hold_cool_down = cd1 + HOLD_COOL_DOWN_TICKS * spt_us;
            let off = lane_offset(note.note.position_x);
            let root = get_pos_out_of_line(
                geom.line_x,
                geom.line_y,
                geom.sin_micro,
                geom.cos_micro,
                off,
            );
            create_splash(current_us, root.x, root.y, note.extra_score, cues);
        } else {
            note.score = NoteScore::Miss;
            judged = true;
        }
    }
    let resolve = ticks_to_us(note.note.time + note.note.hold_time, spt_us);
    if resolve <= current_us {
        note.score = note.extra_score;
        judged = true;
    }
    (true, judged)
}

/// One frame of a hold note in manual play: while unstaged it behaves like
/// a tap whose Bad window is rejected (only Perfect and Good stage, and
/// stage rather than commit); once staged the sustain logic of
/// [`hold_common_step`] runs.
pub open spec fn hold_step(
    o: NoteState,
    n: NoteState,
    ts0: Seq<TouchInfo>,
    ts1: Seq<TouchInfo>,
    cs0: Seq<SplashCue>,
    cs1: Seq<SplashCue>,
    delta_us: i64,
    t: i64,
    spt: i64,
    g: JudgeGeometry,
    judged: bool,
) -> bool {
    let delta = t - spec_note_time_us(o.note, spt);
    let res = spec_judge_window(delta);
    if o.score != NoteScore::Pending {
        n == o && ts1 == ts0 && cs1 == cs0 && judged == false
    } else if o.extra_score != NoteScore::Pending {
        hold_common_step(o, n, ts0, ts1, cs0, cs1, delta_us, t, spt, g, false, true, judged)
    } else if delta < 0 && res == NoteScore::Miss {
        n == o && ts1 == ts0 && cs1 == cs0 && judged == false
    } else if delta > 0 && res == NoteScore::Miss {
        n == (NoteState { score: NoteScore::Miss, ..o }) && ts1 == ts0 && cs1 == cs0 && judged
            == true
    } else if res != NoteScore::Perfect && res != NoteScore::Good {
        n == o && ts1 == ts0 && cs1 == cs0 && judged == false
    } else {
        let k = first_match(ts0, tap_pred(g, o.note.position_x));
        if k == ts0.len() {
            n == o && ts1 == ts0 && cs1 == cs0 && judged == false
        } else {
            &&& n == (NoteState { extra_score: res, ..o })
            &&& ts1 == ts0.update(k, (TouchInfo { touch_valid: false, ..ts0[k] }))
            &&& cs1 == cs0
            &&& judged == false
        }
    }
}

pub fn tick_hold_note(
    delta_us: i64,
    current_us: i64,
    spt_us: i64,
    note: &mut NoteState,
    touches: &mut Vec<TouchInfo>,
    geom: JudgeGeometry,
    cues: &mut Vec<SplashCue>,
) -> (judged: bool)
    requires
        -TIME_US_MAX <= current_us <= TIME_US_MAX,
        -TIME_US_MAX <= delta_us <= TIME_US_MAX,
        1 <= spt_us <= SPT_US_MAX,
        note_wf(old(note).note),
        -TIME_US_MAX <= old(note).hold_cool_down <= COOL_DOWN_MAX,
        touches_wf(old(touches)@),
        geom_wf(geom),
    ensures
        hold_step(
            *old(note),
            *final(note),
            old(touches)@,
            final(touches)@,
            old(cues)@,
            final(cues)@,
            delta_us,
            current_us,
            spt_us,
            geom,
            judged,
        ),
        judged == (final(note).score != old(note).score),
        -TIME_US_MAX <= final(note).hold_cool_down <= COOL_DOWN_MAX,
        final(note).note == old(note).note,
        touches_wf(final(touches)@),
{
    if note.score != NoteScore::Pending {
        return false;
    }
    let (held, hold_judged) = tick_hold_note_common(
        delta_us,
        current_us,
        spt_us,
        note,
        touches,
        geom,
        false,
        cues,
    );
    if held {
        return hold_judged;
    }
    let (delta, res) = check_judge_result(current_us, note, spt_us);
    if delta < 0 && res == NoteScore::Miss {
        return false;
    }
    if delta > 0 && res == NoteScore::Miss {
        note.score = NoteScore::Miss;
        return true;
    }
    if res != NoteScore::Perfect && res != NoteScore::Good {
        return false;
    }
    let n = touches.len();
    let mut k: usize = 0;
    #[verifier::loop_isolation(false)]
    while k < n
        invariant
            k <= n,
            *note == *old(note),
            touches@ == old(touches)@,
            cues@ == old(cues)@,
            forall|j: int| 0 <= j < k ==> !(tap_pred(geom, old(note).note.position_x)(
                #[trigger] touches@[j],
            )),
        decreases n - k,
    {
        let tch = touches[k];
        if tch.enable {
            let (in_range, _root) = check_point_in_judge_range(
                geom,
                note.note.position_x,
                tch.x,
                tch.y,
            );
            if in_range && tch.touch_valid {
                proof {
                    lemma_first_match_prefix(
                        touches@,
                        tap_pred(geom, old(note).note.position_x),
                        k as int,
                    );
                }
                let tm = el_mut(touches, k);
                tm.touch_valid = false;
                note.extra_score = res;
                return false;
            }
        }
        k = k + 1;
    }
    proof {
        lemma_first_match_prefix(touches@, tap_pred(geom, old(note).note.position_x), n as int);
    }
    false
}

/// One frame of a non-hold note in auto-play: it commits Perfect the
/// moment its nominal time is reached, with a splash.
pub open spec fn normal_auto_step(
    o: NoteState,
    n: NoteState,
    cs0: Seq<SplashCue>,
    cs1: Seq<SplashCue>,
    t: i64,
    spt: i64,
    g: JudgeGeometry,
    judged: bool,
) -> bool {
    let delta = t - spec_note_time_us(o.note, spt);
    let root = spec_note_root(g, o.note.position_x);
    if o.score != NoteScore::Pending {
        n == o && cs1 == cs0 && judged == false
    } else if delta >= 0 {
        &&& n == (NoteState { score: NoteScore::Perfect, ..o })
        &&& cs1 == spec_splash(cs0, t, root.0 as i64, root.1 as i64, NoteScore::Perfect)
        &&& judged == true
    } else {
        n == o && cs1 == cs0 && judged == false
    }
}

pub fn tick_normal_note_auto(
    current_us: i64,
    spt_us: i64,
    note: &mut NoteState,
    geom: JudgeGeometry,
    cues: &mut Vec<SplashCue>,
) -> (judged: bool)
    requires
        -TIME_US_MAX <= current_us <= TIME_US_MAX,
        1 <= spt_us <= SPT_US_MAX,
        note_wf(old(note).note),
        geom_wf(geom),
    ensures
        normal_auto_step(
            *old(note),
            *final(note),
            old(cues)@,
            final(cues)@,
            current_us,
            spt_us,
            geom,
            judged,
        ),
        judged == (final(note).score != old(note).score),
        final(note).note == old(note).note,
        final(note).hold_cool_down == old(note).hold_cool_down,
{
    if note.score != NoteScore::Pending {
        return false;
    }
    let (delta, _res) = check_judge_result(current_us, note, spt_us);
    if delta >= 0 {
        let off = lane_offset(note.note.position_x);
        let root = get_pos_out_of_line(
            geom.line_x,
            geom.line_y,
            geom.sin_micro,
            geom.cos_micro,
            off,
        );
        note.score = NoteScore::Perfect;
        create_splash(current_us, root.x, root.y, NoteScore::Perfect, cues);
        return true;
    }
    false
}

/// The staging auto-play applies to a hold before its sustain logic runs:
/// Perfect the moment nominal time is reached.
pub open spec fn spec_auto_staged(o: NoteState, delta: int) -> NoteState {
    if delta >= 0 {
        NoteState { extra_score: NoteScore::Perfect, ..o }
    } else {
        o
    }
}

/// One frame of a hold note in auto-play: stages Perfect at nominal time,
/// then runs the sustain logic with presence always granted.
pub open spec fn hold_auto_step(
    o: NoteState,
    n: NoteState,
    ts0: Seq<TouchInfo>,
    ts1: Seq<TouchInfo>,
    cs0: Seq<SplashCue>,
    cs1: Seq<SplashCue>,
    delta_us: i64,
    t: i64,
    spt: i64,
    g: JudgeGeometry,
    judged: bool,
) -> bool {
    if o.score != NoteScore::Pending {
        n == o && ts1 == ts0 && cs1 == cs0 && judged == false
    } else {
        let delta = t - spec_note_time_us(o.note, spt);
        let st = spec_auto_staged(o, delta);
        hold_common_step(
            st,
            n,
            ts0,
            ts1,
            cs0,
            cs1,
            delta_us,
            t,
            spt,
            g,
            true,
            (st.extra_score != NoteScore::Pending),
            judged,
        )
    }
}

pub fn tick_hold_note_auto(
    delta_us: i64,
    current_us: i64,
    spt_us: i64,
    note: &mut NoteState,
    touches: &mut Vec<TouchInfo>,
    geom: JudgeGeometry,
    cues: &mut Vec<SplashCue>,
) -> (judged: bool)
    requires
        -TIME_US_MAX <= current_us <= TIME_US_MAX,
        -TIME_US_MAX <= delta_us <= TIME_US_MAX,
        1 <= spt_us <= SPT_US_MAX,
        note_wf(old(note).note),
        -TIME_US_MAX <= old(note).hold_cool_down <= COOL_DOWN_MAX,
        touches_wf(old(touches)@),
        geom_wf(geom),
    ensures
        hold_auto_step(
            *old(note),
            *final(note),
            old(touches)@,
            final(touches)@,
            old(cues)@,
            final(cues)@,
            delta_us,
            current_us,
            spt_us,
            geom,
            judged,
        ),
        judged == (final(note).score != old(note).score),
        -TIME_US_MAX <= final(note).hold_cool_down <= COOL_DOWN_MAX,
        final(note).note == old(note).note,
        touches_wf(final(touches)@),
{
    if note.score != NoteScore::Pending {
        return false;
    }
    let (delta, _res) = check_judge_result(current_us, note, spt_us);
    if delta >= 0 {
        note.extra_score = NoteScore::Perfect;
    }
    let (_held, judged) = tick_hold_note_common(
        delta_us,
        current_us,
        spt_us,
        note,
        touches,
        geom,
        true,
        cues,
    );
    judged
}

/// The exact state a note reaches in one auto-play frame: non-hold notes
/// commit Perfect at nominal time; a hold stages Perfect at nominal time
/// and then sustains with presence always granted until its end commits
/// the staging.
pub open spec fn spec_auto_note_step(o: NoteState, t: i64, delta_us: i64, spt: i64) -> NoteState {
    let delta = t - spec_note_time_us(o.note, spt);
    if o.score != NoteScore::Pending {
        o
    } else if o.note.note_type != NoteType::Hold {
        if delta >= 0 {
            NoteState { score: NoteScore::Perfect, ..o }
        } else {
            o
        }
    } else {
        let st = spec_auto_staged(o, delta);
        if st.extra_score == NoteScore::Pending {
            st
        } else {
            let cd1 = spec_cool_down_step(st.hold_cool_down, delta_us);
            let cd2 = if cd1 <= 0 {
                cd1 + HOLD_COOL_DOWN_TICKS * spt
            } else {
                cd1
            };
            let expiry = spec_resolve_time_us(st.note, spt) <= t;
            NoteState {
                hold_cool_down: cd2 as i64,
                score: if expiry {
                    st.extra_score
                } else {
                    st.score
                },
                ..st
            }
        }
    }
}

/// What every frame guarantees of every note, whatever the touches were:
/// the chart data is untouched, a terminal score is never revisited, and a
/// staged note never loses its staging.
pub open spec fn note_judged_frame(o: NoteState, n: NoteState) -> bool {
    &&& n.note == o.note
    &&& n.highlight == o.highlight
    &&& (crate::states::is_terminal(o.score) ==> n == o)
    &&& (crate::states::is_terminal(o.extra_score) ==> crate::states::is_terminal(n.extra_score))
}

/// What judging may do to the touch pool: it never adds, enables, disables
/// or moves a touch; it can only consume validity or move a swipe
/// baseline, and it never looks at disabled slots.
pub open spec fn touches_judged_frame(ts0: Seq<TouchInfo>, ts1: Seq<TouchInfo>) -> bool {
    &&& ts1.len() == ts0.len()
    &&& forall|k: int|
        0 <= k < ts0.len() ==> {
            &&& (#[trigger] ts1[k]).enable == ts0[k].enable
            &&& ts1[k].x == ts0[k].x
            &&& ts1[k].y == ts0[k].y
            &&& (ts1[k].touch_valid ==> ts0[k].touch_valid)
            &&& (!ts0[k].enable ==> ts1[k] == ts0[k])
        }
}

proof fn lemma_touch_frame_trans(a: Seq<TouchInfo>, b: Seq<TouchInfo>, c: Seq<TouchInfo>)
    requires
        touches_judged_frame(a, b),
        touches_judged_frame(b, c),
    ensures
        touches_judged_frame(a, c),
{
}

proof fn lemma_prefix_trans(a: Seq<SplashCue>, b: Seq<SplashCue>, c: Seq<SplashCue>)
    requires
        a.is_prefix_of(b),
        b.is_prefix_of(c),
    ensures
        a.is_prefix_of(c),
{
    assert(a =~= c.subrange(0, a.len() as int));
}

proof fn lemma_prefix_grow(b: Seq<SplashCue>, c: Seq<SplashCue>)
    requires
        c == b || (exists|x: SplashCue| c == b.push(x)),
    ensures
        b.is_prefix_of(c),
{
    if c != b {
        let x = choose|x: SplashCue| c == b.push(x);
        assert(b =~= b.push(x).subrange(0, b.len() as int));
    }
}

/// One note's frame step, dispatched on its type and the play mode: the
/// exact per-type relations over the touch pool and cue list.
pub open spec fn note_step(
    o: NoteState,
    n: NoteState,
    ts0: Seq<TouchInfo>,
    ts1: Seq<TouchInfo>,
    cs0: Seq<SplashCue>,
    cs1: Seq<SplashCue>,
    delta_us: i64,
    t: i64,
    spt: i64,
    g: JudgeGeometry,
    auto: bool,
    judged: bool,
) -> bool {
    if auto {
        match o.note.note_type {
            NoteType::Hold => hold_auto_step(o, n, ts0, ts1, cs0, cs1, delta_us, t, spt, g, judged),
            _ => normal_auto_step(o, n, cs0, cs1, t, spt, g, judged) && ts1 == ts0,
        }
    } else {
        match o.note.note_type {
            NoteType::Tap => tap_step(o, n, ts0, ts1, cs0, cs1, t, spt, g, judged),
            NoteType::Drag => drag_step(o, n, ts0, ts1, cs0, cs1, t, spt, g, judged),
            NoteType::Hold => hold_step(o, n, ts0, ts1, cs0, cs1, delta_us, t, spt, g, judged),
            NoteType::Flick => flick_step(o, n, ts0, ts1, cs0, cs1, t, spt, g, judged),
        }
    }
}

/// A note list's frame: the notes stepped one after another in list
/// order, each reading and consuming the touch pool and extending the cue
/// list the previous step left; `judged` collects whether any step moved
/// a score. The intermediate pools are existential: only the ends are
/// visible to a caller.
pub open spec fn judge_list_step(
    ns0: Seq<NoteState>,
    ns1: Seq<NoteState>,
    ts0: Seq<TouchInfo>,
    ts1: Seq<TouchInfo>,
    cs0: Seq<SplashCue>,
    cs1: Seq<SplashCue>,
    delta_us: i64,
    t: i64,
    spt: i64,
    g: JudgeGeometry,
    auto: bool,
    judged: bool,
) -> bool
    decreases ns0.len(),
{
    if ns0.len() == 0 {
        ns1.len() == 0 && ts1 == ts0 && cs1 == cs0 && judged == false
    } else {
        exists|w: (NoteState, Seq<TouchInfo>, Seq<SplashCue>, bool, bool)|
            {
                &&& #[trigger] note_step(
                    ns0.first(),
                    w.0,
                    ts0,
                    w.1,
                    cs0,
                    w.2,
                    delta_us,
                    t,
                    spt,
                    g,
                    auto,
                    w.3,
                )
                &&& ns1.len() == ns0.len()
                &&& ns1.first() == w.0
                &&& judge_list_step(
                    ns0.drop_first(),
                    ns1.drop_first(),
                    w.1,
                    ts1,
                    w.2,
                    cs1,
                    delta_us,
                    t,
                    spt,
                    g,
                    auto,
                    w.4,
                )
                &&& judged == (w.3 || w.4)
            }
    }
}

/// Appending one stepped note to a stepped list steps the longer list.
proof fn lemma_judge_list_snoc(
    ns0: Seq<NoteState>,
    ns1: Seq<NoteState>,
    o: NoteState,
    n: NoteState,
    ts0: Seq<TouchInfo>,
    ts_mid: Seq<TouchInfo>,
    ts1: Seq<TouchInfo>,
    cs0: Seq<SplashCue>,
    cs_mid: Seq<SplashCue>,
    cs1: Seq<SplashCue>,
    delta_us: i64,
    t: i64,
    spt: i64,
    g: JudgeGeometry,
    auto: bool,
    j1: bool,
    j2: bool,
)
    requires
        judge_list_step(ns0, ns1, ts0, ts_mid, cs0, cs_mid, delta_us, t, spt, g, auto, j1),
        note_step(o, n, ts_mid, ts1, cs_mid, cs1, delta_us, t, spt, g, auto, j2),
    ensures
        judge_list_step(
            ns0.push(o),
            ns1.push(n),
            ts0,
            ts1,
            cs0,
            cs1,
            delta_us,
            t,
            spt,
            g,
            auto,
            j1 || j2,
        ),
    decreases ns0.len(),
{
    if ns0.len() == 0 {
        assert(ns0.push(o).first() == o);
        assert(ns1.push(n).first() == n);
        assert(ns0.push(o).drop_first() =~= ns0);
        assert(ns1.push(n).drop_first() =~= ns1);
        let w = (n, ts1, cs1, j2, false);
        assert(note_step(
            ns0.push(o).first(),
            w.0,
            ts0,
            w.1,
            cs0,
            w.2,
            delta_us,
            t,
            spt,
            g,
            auto,
            w.3,
        ));
        assert(judge_list_step(
            ns0.push(o).drop_first(),
            ns1.push(n).drop_first(),
            w.1,
            ts1,
            w.2,
            cs1,
            delta_us,
            t,
            spt,
            g,
            auto,
            false,
        ));
        assert(judge_list_step(
            ns0.push(o),
            ns1.push(n),
            ts0,
            ts1,
            cs0,
            cs1,
            delta_us,
            t,
            spt,
            g,
            auto,
            j2 || false,
        ));
    } else {
        let w = choose|w: (NoteState, Seq<TouchInfo>, Seq<SplashCue>, bool, bool)|
            {
                &&& #[trigger] note_step(
                    ns0.first(),
                    w.0,
                    ts0,
                    w.1,
                    cs0,
                    w.2,
                    delta_us,
                    t,
                    spt,
                    g,
                    auto,
                    w.3,
                )
                &&& ns1.len() == ns0.len()
                &&& ns1.first() == w.0
                &&& judge_list_step(
                    ns0.drop_first(),
                    ns1.drop_first(),
                    w.1,
                    ts_mid,
                    w.2,
                    cs_mid,
                    delta_us,
                    t,
                    spt,
                    g,
                    auto,
                    w.4,
                )
                &&& j1 == (w.3 || w.4)
            };
        lemma_judge_list_snoc(
            ns0.drop_first(),
            ns1.drop_first(),
            o,
            n,
            w.1,
            ts_mid,
            ts1,
            w.2,
            cs_mid,
            cs1,
            delta_us,
            t,
            spt,
            g,
            auto,
            w.4,
            j2,
        );
        assert(ns0.push(o).drop_first() =~= ns0.drop_first().push(o));
        assert(ns1.push(n).drop_first() =~= ns1.drop_first().push(n));
        assert(ns0.push(o).first() == ns0.first());
        assert(ns1.push(n).first() == w.0);
        assert(judge_list_step(
            ns0.push(o).drop_first(),
            ns1.push(n).drop_first(),
            w.1,
            ts1,
            w.2,
            cs1,
            delta_us,
            t,
            spt,
            g,
            auto,
            w.4 || j2,
        ));
        let w2 = (w.0, w.1, w.2, w.3, w.4 || j2);
        assert(note_step(
            ns0.push(o).first(),
            w2.0,
            ts0,
            w2.1,
            cs0,
            w2.2,
            delta_us,
            t,
            spt,
            g,
            auto,
            w2.3,
        ));
        assert(judge_list_step(
            ns0.push(o),
            ns1.push(n),
            ts0,
            ts1,
            cs0,
            cs1,
            delta_us,
            t,
            spt,
            g,
            auto,
            w2.3 || w2.4,
        ));
        assert((j1 || j2) == (w2.3 || w2.4));
    }
}

/// One more note stepped in place extends a stepped prefix by one.
proof fn lemma_judge_list_extend(
    ns_old: Seq<NoteState>,
    ns_pre: Seq<NoteState>,
    ns_now: Seq<NoteState>,
    j: int,
    ts0: Seq<TouchInfo>,
    ts_pre: Seq<TouchInfo>,
    ts_now: Seq<TouchInfo>,
    cs0: Seq<SplashCue>,
    cs_pre: Seq<SplashCue>,
    cs_now: Seq<SplashCue>,
    delta_us: i64,
    t: i64,
    spt: i64,
    g: JudgeGeometry,
    auto: bool,
    judged_pre: bool,
    local: bool,
)
    requires
        0 <= j < ns_old.len(),
        ns_pre.len() == ns_old.len(),
        ns_now.len() == ns_old.len(),
        ns_pre[j] == ns_old[j],
        forall|i: int| 0 <= i < ns_old.len() && i != j ==> #[trigger] ns_now[i] == ns_pre[i],
        judge_list_step(
            ns_old.take(j),
            ns_pre.take(j),
            ts0,
            ts_pre,
            cs0,
            cs_pre,
            delta_us,
            t,
            spt,
            g,
            auto,
            judged_pre,
        ),
        note_step(
            ns_old[j],
            ns_now[j],
            ts_pre,
            ts_now,
            cs_pre,
            cs_now,
            delta_us,
            t,
            spt,
            g,
            auto,
            local,
        ),
    ensures
        judge_list_step(
            ns_old.take(j + 1),
            ns_now.take(j + 1),
            ts0,
            ts_now,
            cs0,
            cs_now,
            delta_us,
            t,
            spt,
            g,
            auto,
            judged_pre || local,
        ),
{
    assert(ns_pre.take(j) =~= ns_now.take(j));
    lemma_judge_list_snoc(
        ns_old.take(j),
        ns_now.take(j),
        ns_old[j],
        ns_now[j],
        ts0,
        ts_pre,
        ts_now,
        cs0,
        cs_pre,
        cs_now,
        delta_us,
        t,
        spt,
        g,
        auto,
        judged_pre,
        local,
    );
    assert(ns_old.take(j + 1) =~= ns_old.take(j).push(ns_old[j]));
    assert(ns_now.take(j + 1) =~= ns_now.take(j).push(ns_now[j]));
}

/// Dispatches one note to its per-type frame step.
#[verifier::rlimit(60)]
fn judge_one_note(
    delta_us: i64,
    current_us: i64,
    spt_us: i64,
    note: &mut NoteState,
    touches: &mut Vec<TouchInfo>,
    geom: JudgeGeometry,
    auto: bool,
    cues: &mut Vec<SplashCue>,
) -> (judged: bool)
    requires
        -TIME_US_MAX <= current_us <= TIME_US_MAX,
        -TIME_US_MAX <= delta_us <= TIME_US_MAX,
        1 <= spt_us <= SPT_US_MAX,
        note_wf(old(note).note),
        -TIME_US_MAX <= old(note).hold_cool_down <= COOL_DOWN_MAX,
        touches_wf(old(touches)@),
        geom_wf(geom),
    ensures
        note_step(
            *old(note),
            *final(note),
            old(touches)@,
            final(touches)@,
            old(cues)@,
            final(cues)@,
            delta_us,
            current_us,
            spt_us,
            geom,
            auto,
            judged,
        ),
        judged == (final(note).score != old(note).score),
        note_judged_frame(*old(note), *final(note)),
        auto ==> *final(note) == spec_auto_note_step(*old(note), current_us, delta_us, spt_us),
        touches_judged_frame(old(touches)@, final(touches)@),
        touches_wf(final(touches)@),
        -TIME_US_MAX <= final(note).hold_cool_down <= COOL_DOWN_MAX,
        final(note).note == old(note).note,
        old(cues)@.is_prefix_of(final(cues)@),
{
    let ghost touches_pre = touches@;
    let ghost cues_pre = cues@;
    let ghost note_pre = *note;
    let nt = note.note.note_type;
    let local: bool = if auto {
        match nt {
            NoteType::Hold => tick_hold_note_auto(
                delta_us,
                current_us,
                spt_us,
                note,
                touches,
                geom,
                cues,
            ),
            _ => tick_normal_note_auto(current_us, spt_us, note, geom, cues),
        }
    } else {
        match nt {
            NoteType::Tap => tick_tap_note(current_us, spt_us, note, touches, geom, cues),
            NoteType::Drag => tick_drag_note(current_us, spt_us, note, touches, geom, cues),
            NoteType::Hold => tick_hold_note(
                delta_us,
                current_us,
                spt_us,
                note,
                touches,
                geom,
                cues,
            ),
            NoteType::Flick => tick_flick_note(current_us, spt_us, note, touches, geom, cues),
        }
    };
    proof {
        lemma_first_match_props(touches_pre, tap_pred(geom, note_pre.note.position_x), 0);
        lemma_first_match_props(touches_pre, drag_pred(geom, note_pre.note.position_x), 0);
        lemma_first_match_props(touches_pre, flick_pred(geom, note_pre.note.position_x), 0);
        assert(note_judged_frame(note_pre, *note));
        if auto {
            assert(*note == spec_auto_note_step(note_pre, current_us, delta_us, spt_us));
        }
        assert(touches_judged_frame(touches_pre, touches@));
        lemma_prefix_grow(cues_pre, cues@);
    }
    local
}

/// Judges every note of one list in order against the shared touch pool.
#[verifier::loop_isolation(false)]
#[verifier::rlimit(100)]
fn judge_notes_list(
    delta_us: i64,
    current_us: i64,
    spt_us: i64,
    notes: &mut Vec<NoteState>,
    touches: &mut Vec<TouchInfo>,
    geom: JudgeGeometry,
    auto: bool,
    cues: &mut Vec<SplashCue>,
) -> (judged: bool)
    requires
        -TIME_US_MAX <= current_us <= TIME_US_MAX,
        -TIME_US_MAX <= delta_us <= TIME_US_MAX,
        1 <= spt_us <= SPT_US_MAX,
        notes_wf(old(notes)@),
        touches_wf(old(touches)@),
        geom_wf(geom),
    ensures
        final(notes)@.len() == old(notes)@.len(),
        notes_wf(final(notes)@),
        touches_wf(final(touches)@),
        touches_judged_frame(old(touches)@, final(touches)@),
        forall|i: int|
            0 <= i < old(notes)@.len() ==> note_judged_frame(
                old(notes)@[i],
                #[trigger] final(notes)@[i],
            ),
        judged == (exists|i: int|
            0 <= i < old(notes)@.len() && (#[trigger] final(notes)@[i]).score
                != old(notes)@[i].score),
        auto ==> forall|i: int|
            0 <= i < old(notes)@.len() ==> #[trigger] final(notes)@[i] == spec_auto_note_step(
                old(notes)@[i],
                current_us,
                delta_us,
                spt_us,
            ),
        judge_list_step(
            old(notes)@,
            final(notes)@,
            old(touches)@,
            final(touches)@,
            old(cues)@,
            final(cues)@,
            delta_us,
            current_us,
            spt_us,
            geom,
            auto,
            judged,
        ),
        old(cues)@.is_prefix_of(final(cues)@),
{
    let n = notes.len();
    let mut judged = false;
    let mut j: usize = 0;
    while j < n
        invariant
            j <= n,
            n == notes@.len(),
            notes@.len() == old(notes)@.len(),
            notes_wf(notes@),
            touches_wf(touches@),
            touches_judged_frame(old(touches)@, touches@),
            forall|i: int| j <= i < n ==> notes@[i] == old(notes)@[i],
            forall|i: int|
                0 <= i < j ==> note_judged_frame(old(notes)@[i], #[trigger] notes@[i]),
            judged == (exists|i: int|
                0 <= i < j && (#[trigger] notes@[i]).score != old(notes)@[i].score),
            auto ==> forall|i: int|
                0 <= i < j ==> #[trigger] notes@[i] == spec_auto_note_step(
                    old(notes)@[i],
                    current_us,
                    delta_us,
                    spt_us,
                ),
            judge_list_step(
                old(notes)@.take(j as int),
                notes@.take(j as int),
                old(touches)@,
                touches@,
                old(cues)@,
                cues@,
                delta_us,
                current_us,
                spt_us,
                geom,
                auto,
                judged,
            ),
            old(cues)@.is_prefix_of(cues@),
        decreases n - j,
    {
        let ghost touches_pre = touches@;
        let ghost cues_pre = cues@;
        let ghost notes_pre = notes@;
        let ghost note_pre = notes@[j as int];
        let ghost judged_pre = judged;
        let note = el_mut(notes, j);
        let local: bool = judge_one_note(
            delta_us,
            current_us,
            spt_us,
            note,
            touches,
            geom,
            auto,
            cues,
        );
        proof {
            lemma_touch_frame_trans(old(touches)@, touches_pre, touches@);
            lemma_prefix_trans(old(cues)@, cues_pre, cues@);
            assert(note_pre == old(notes)@[j as int]);
            lemma_judge_list_extend(
                old(notes)@,
                notes_pre,
                notes@,
                j as int,
                old(touches)@,
                touches_pre,
                touches@,
                old(cues)@,
                cues_pre,
                cues@,
                delta_us,
                current_us,
                spt_us,
                geom,
                auto,
                judged_pre,
                local,
            );
            assert forall|a: int, b: int|
                0 <= a < b < notes@.len() implies #[trigger] notes@[a].note.time
                <= #[trigger] notes@[b].note.time by {
                assert(notes@[a].note == notes_pre[a].note);
                assert(notes@[b].note == notes_pre[b].note);
            }
            if !(judged || local) {
                assert forall|i: int| 0 <= i < j + 1 implies (#[trigger] notes@[i]).score == old(
                    notes,
                )@[i].score by {
                    if i < j {
                        assert(notes@[i] == notes_pre[i]);
                        assert(!(notes_pre[i].score != old(notes)@[i].score));
                    }
                }
            } else if judged {
                let w = choose|i: int|
                    0 <= i < j && (#[trigger] notes_pre[i]).score != old(notes)@[i].score;
                assert(notes@[w] == notes_pre[w]);
                assert(notes@[w].score != old(notes)@[w].score);
            } else {
                assert(notes@[j as int].score != old(notes)@[j as int].score);
            }
        }
        judged = judged || local;
        j = j + 1;
    }
    proof {
        assert(old(notes)@.take(n as int) =~= old(notes)@);
        assert(notes@.take(n as int) =~= notes@);
    }
    judged
}

/// A line's per-frame judging envelope: everything but its note states is
/// untouched, and every note obeys [`note_judged_frame`].
pub open spec fn line_judged_frame(o: LineState, n: LineState) -> bool {
    &&& (!o.enable ==> n == o)
    &&& n.enable == o.enable
    &&& n.bpm == o.bpm
    &&& n.x == o.x
    &&& n.y == o.y
    &&& n.rotate == o.rotate
    &&& n.alpha == o.alpha
    &&& n.speed == o.speed
    &&& n.line_y == o.line_y
    &&& n.tick_time == o.tick_time
    &&& n.event_speed_index_cache == o.event_speed_index_cache
    &&& n.event_move_index_cache == o.event_move_index_cache
    &&& n.event_rotate_index_cache == o.event_rotate_index_cache
    &&& n.event_alpha_index_cache == o.event_alpha_index_cache
    &&& n.speed_events@ == o.speed_events@
    &&& n.move_events@ == o.move_events@
    &&& n.rotate_events@ == o.rotate_events@
    &&& n.alpha_events@ == o.alpha_events@
    &&& n.notes_above_state@.len() == o.notes_above_state@.len()
    &&& n.notes_below_state@.len() == o.notes_below_state@.len()
    &&& forall|j: int|
        0 <= j < o.notes_above_state@.len() ==> note_judged_frame(
            o.notes_above_state@[j],
            #[trigger] n.notes_above_state@[j],
        )
    &&& forall|j: int|
        0 <= j < o.notes_below_state@.len() ==> note_judged_frame(
            o.notes_below_state@[j],
            #[trigger] n.notes_below_state@[j],
        )
}

/// In auto-play a whole line steps deterministically: every note follows
/// [`spec_auto_note_step`] at the line's query time and tempo.
pub open spec fn line_auto_stepped(o: LineState, n: LineState, delta_us: i64) -> bool {
    let spt = crate::chart::spec_seconds_per_tick(o.bpm) as i64;
    &&& n.notes_above_state@ == o.notes_above_state@.map_values(
        |x: NoteState| spec_auto_note_step(x, o.tick_time, delta_us, spt),
    )
    &&& n.notes_below_state@ == o.notes_below_state@.map_values(
        |x: NoteState| spec_auto_note_step(x, o.tick_time, delta_us, spt),
    )
}

/// One enabled line's frame: its above notes stepped in order, then its
/// below notes, over the pool and cue list the other left; the geometry
/// is the line's centre with the host's trig pair, the query time the
/// line's own, the tempo its own.
pub open spec fn line_judge_step(
    o: LineState,
    n: LineState,
    tr: JudgeTrig,
    ts0: Seq<TouchInfo>,
    ts1: Seq<TouchInfo>,
    cs0: Seq<SplashCue>,
    cs1: Seq<SplashCue>,
    delta_us: i64,
    auto: bool,
    judged: bool,
) -> bool {
    let g = JudgeGeometry {
        line_x: o.x,
        line_y: o.y,
        sin_micro: tr.sin_micro,
        cos_micro: tr.cos_micro,
    };
    let spt = crate::chart::spec_seconds_per_tick(o.bpm) as i64;
    exists|w: (Seq<TouchInfo>, Seq<SplashCue>, bool, bool)|
        {
            &&& #[trigger] judge_list_step(
                o.notes_above_state@,
                n.notes_above_state@,
                ts0,
                w.0,
                cs0,
                w.1,
                delta_us,
                o.tick_time,
                spt,
                g,
                auto,
                w.2,
            )
            &&& judge_list_step(
                o.notes_below_state@,
                n.notes_below_state@,
                w.0,
                ts1,
                w.1,
                cs1,
                delta_us,
                o.tick_time,
                spt,
                g,
                auto,
                w.3,
            )
            &&& judged == (w.2 || w.3)
        }
}

/// One line slot's frame: an enabled slot runs [`line_judge_step`] and
/// keeps everything but its note states; a disabled slot does nothing.
pub open spec fn line_frame_step(
    o: LineState,
    n: LineState,
    tr: JudgeTrig,
    ts0: Seq<TouchInfo>,
    ts1: Seq<TouchInfo>,
    cs0: Seq<SplashCue>,
    cs1: Seq<SplashCue>,
    delta_us: i64,
    auto: bool,
    judged: bool,
) -> bool {
    if o.enable {
        &&& line_judge_step(o, n, tr, ts0, ts1, cs0, cs1, delta_us, auto, judged)
        &&& n == (LineState {
            notes_above_state: n.notes_above_state,
            notes_below_state: n.notes_below_state,
            ..o
        })
    } else {
        n == o && ts1 == ts0 && cs1 == cs0 && judged == false
    }
}

/// The frame's lines stepped in slot order over the shared touch pool and
/// cue list; `judged` collects whether any note anywhere moved to a new
/// score.
pub open spec fn lines_judge_step(
    ls0: Seq<LineState>,
    ls1: Seq<LineState>,
    trig: Seq<JudgeTrig>,
    ts0: Seq<TouchInfo>,
    ts1: Seq<TouchInfo>,
    cs0: Seq<SplashCue>,
    cs1: Seq<SplashCue>,
    delta_us: i64,
    auto: bool,
    judged: bool,
) -> bool
    decreases ls0.len(),
{
    if ls0.len() == 0 {
        ls1.len() == 0 && ts1 == ts0 && cs1 == cs0 && judged == false
    } else {
        exists|w: (Seq<TouchInfo>, Seq<SplashCue>, bool, bool)|
            {
                &&& #[trigger] line_frame_step(
                    ls0.first(),
                    ls1.first(),
                    trig.first(),
                    ts0,
                    w.0,
                    cs0,
                    w.1,
                    delta_us,
                    auto,
                    w.2,
                )
                &&& ls1.len() == ls0.len()
                &&& lines_judge_step(
                    ls0.drop_first(),
                    ls1.drop_first(),
                    trig.drop_first(),
                    w.0,
                    ts1,
                    w.1,
                    cs1,
                    delta_us,
                    auto,
                    w.3,
                )
                &&& judged == (w.2 || w.3)
            }
    }
}

/// Appending one stepped line to a stepped slot prefix steps the longer
/// prefix.
proof fn lemma_lines_judge_snoc(
    ls0: Seq<LineState>,
    ls1: Seq<LineState>,
    trig: Seq<JudgeTrig>,
    o: LineState,
    n: LineState,
    tr: JudgeTrig,
    ts0: Seq<TouchInfo>,
    ts_mid: Seq<TouchInfo>,
    ts1: Seq<TouchInfo>,
    cs0: Seq<SplashCue>,
    cs_mid: Seq<SplashCue>,
    cs1: Seq<SplashCue>,
    delta_us: i64,
    auto: bool,
    j1: bool,
    j2: bool,
)
    requires
        lines_judge_step(ls0, ls1, trig, ts0, ts_mid, cs0, cs_mid, delta_us, auto, j1),
        line_frame_step(o, n, tr, ts_mid, ts1, cs_mid, cs1, delta_us, auto, j2),
        trig.len() == ls0.len(),
    ensures
        lines_judge_step(
            ls0.push(o),
            ls1.push(n),
            trig.push(tr),
            ts0,
            ts1,
            cs0,
            cs1,
            delta_us,
            auto,
            j1 || j2,
        ),
    decreases ls0.len(),
{
    if ls0.len() == 0 {
        assert(ls0.push(o).first() == o);
        assert(ls1.push(n).first() == n);
        assert(trig.push(tr).first() == tr);
        assert(ls0.push(o).drop_first() =~= ls0);
        assert(ls1.push(n).drop_first() =~= ls1);
        assert(trig.push(tr).drop_first() =~= trig);
        let w = (ts1, cs1, j2, false);
        assert(line_frame_step(
            ls0.push(o).first(),
            ls1.push(n).first(),
            trig.push(tr).first(),
            ts0,
            w.0,
            cs0,
            w.1,
            delta_us,
            auto,
            w.2,
        ));
        assert(lines_judge_step(
            ls0.push(o).drop_first(),
            ls1.push(n).drop_first(),
            trig.push(tr).drop_first(),
            w.0,
            ts1,
            w.1,
            cs1,
            delta_us,
            auto,
            false,
        ));
        assert(lines_judge_step(
            ls0.push(o),
            ls1.push(n),
            trig.push(tr),
            ts0,
            ts1,
            cs0,
            cs1,
            delta_us,
            auto,
            j2 || false,
        ));
    } else {
        let w = choose|w: (Seq<TouchInfo>, Seq<SplashCue>, bool, bool)|
            {
                &&& #[trigger] line_frame_step(
                    ls0.first(),
                    ls1.first(),
                    trig.first(),
                    ts0,
                    w.0,
                    cs0,
                    w.1,
                    delta_us,
                    auto,
                    w.2,
                )
                &&& ls1.len() == ls0.len()
                &&& lines_judge_step(
                    ls0.drop_first(),
                    ls1.drop_first(),
                    trig.drop_first(),
                    w.0,
                    ts_mid,
                    w.1,
                    cs_mid,
                    delta_us,
                    auto,
                    w.3,
                )
                &&& j1 == (w.2 || w.3)
            };
        lemma_lines_judge_snoc(
            ls0.drop_first(),
            ls1.drop_first(),
            trig.drop_first(),
            o,
            n,
            tr,
            w.0,
            ts_mid,
            ts1,
            w.1,
            cs_mid,
            cs1,
            delta_us,
            auto,
            w.3,
            j2,
        );
        assert(ls0.push(o).drop_first() =~= ls0.drop_first().push(o));
        assert(ls1.push(n).drop_first() =~= ls1.drop_first().push(n));
        assert(trig.push(tr).drop_first() =~= trig.drop_first().push(tr));
        assert(ls0.push(o).first() == ls0.first());
        assert(ls1.push(n).first() == ls1.first());
        assert(trig.push(tr).first() == trig.first());
        assert(lines_judge_step(
            ls0.push(o).drop_first(),
            ls1.push(n).drop_first(),
            trig.push(tr).drop_first(),
            w.0,
            ts1,
            w.1,
            cs1,
            delta_us,
            auto,
            w.3 || j2,
        ));
        let w2 = (w.0, w.1, w.2, w.3 || j2);
        assert(line_frame_step(
            ls0.push(o).first(),
            ls1.push(n).first(),
            trig.push(tr).first(),
            ts0,
            w2.0,
            cs0,
            w2.1,
            delta_us,
            auto,
            w2.2,
        ));
        assert(lines_judge_step(
            ls0.push(o),
            ls1.push(n),
            trig.push(tr),
            ts0,
            ts1,
            cs0,
            cs1,
            delta_us,
            auto,
            w2.2 || w2.3,
        ));
        assert((j1 || j2) == (w2.2 || w2.3));
    }
}

/// The frame's epilogue over the touch pool: every enabled slot's
/// validity is spent; disabled slots are untouched.
pub open spec fn spec_spend_validity(ts: Seq<TouchInfo>) -> Seq<TouchInfo> {
    Seq::new(
        ts.len(),
        |k: int|
            if ts[k].enable {
                TouchInfo { touch_valid: false, ..ts[k] }
            } else {
                ts[k]
            },
    )
}

/// Whether a frame moved some note of a line to a new score.
pub open spec fn line_newly_judged(o: LineState, n: LineState) -> bool {
    ||| (exists|j: int|
        0 <= j < o.notes_above_state@.len() && (#[trigger] n.notes_above_state@[j]).score
            != o.notes_above_state@[j].score)
    ||| (exists|j: int|
        0 <= j < o.notes_below_state@.len() && (#[trigger] n.notes_below_state@[j]).score
            != o.notes_below_state@[j].score)
}

/// Whether a frame moved any note of any line to a new score.
pub open spec fn spec_any_newly_judged(a: Seq<LineState>, b: Seq<LineState>) -> bool {
    exists|i: int| 0 <= i < a.len() && line_newly_judged(#[trigger] a[i], b[i])
}

/// A line's direction for judging, as the host computed it from the line's
/// current rotation: sine and cosine in micro-units.
#[derive(Clone, Copy, PartialEq, Eq, Structural, Debug)]
pub struct JudgeTrig {
    pub sin_micro: i64,
    pub cos_micro: i64,
}

pub open spec fn trig_wf(s: Seq<JudgeTrig>) -> bool {
    forall|i: int|
        0 <= i < s.len() ==> {
            &&& -SCALE_MICRO <= (#[trigger] s[i]).sin_micro <= SCALE_MICRO
            &&& -SCALE_MICRO <= s[i].cos_micro <= SCALE_MICRO
        }
}

/// Judges every note of every enabled line, then spends the frame's touch
/// validity: after the pass no enabled touch can satisfy a tap match until
/// it is released and touches down again.
#[verifier::loop_isolation(false)]
pub fn tick_line_judge(
    delta_us: i64,
    touches: &mut Vec<TouchInfo>,
    lines: &mut Vec<LineState>,
    trig: &Vec<JudgeTrig>,
    auto: bool,
    cues: &mut Vec<SplashCue>,
) -> (judged: bool)
    requires
        -TIME_US_MAX <= delta_us <= TIME_US_MAX,
        crate::states::lines_wf(old(lines)@),
        touches_wf(old(touches)@),
        trig@.len() == old(lines)@.len(),
        trig_wf(trig@),
    ensures
        final(lines)@.len() == old(lines)@.len(),
        crate::states::lines_wf(final(lines)@),
        touches_wf(final(touches)@),
        forall|i: int|
            0 <= i < old(lines)@.len() ==> line_judged_frame(
                old(lines)@[i],
                #[trigger] final(lines)@[i],
            ),
        judged == spec_any_newly_judged(old(lines)@, final(lines)@),
        auto ==> forall|i: int|
            0 <= i < old(lines)@.len() && old(lines)@[i].enable ==> line_auto_stepped(
                old(lines)@[i],
                #[trigger] final(lines)@[i],
                delta_us,
            ),
        final(touches)@.len() == old(touches)@.len(),
        forall|k: int|
            0 <= k < old(touches)@.len() ==> {
                &&& (#[trigger] final(touches)@[k]).enable == old(touches)@[k].enable
                &&& final(touches)@[k].x == old(touches)@[k].x
                &&& final(touches)@[k].y == old(touches)@[k].y
                &&& (!old(touches)@[k].enable ==> final(touches)@[k] == old(touches)@[k])
                &&& (final(touches)@[k].enable ==> final(touches)@[k].touch_valid == false)
            },
        exists|mid: Seq<TouchInfo>|
            {
                &&& #[trigger] lines_judge_step(
                    old(lines)@,
                    final(lines)@,
                    trig@,
                    old(touches)@,
                    mid,
                    old(cues)@,
                    final(cues)@,
                    delta_us,
                    auto,
                    judged,
                )
                &&& final(touches)@ == spec_spend_validity(mid)
            },
        old(cues)@.is_prefix_of(final(cues)@),
{
    let n = lines.len();
    let mut judged = false;
    let mut i: usize = 0;
    while i < n
        invariant
            i <= n,
            n == lines@.len(),
            lines@.len() == old(lines)@.len(),
            crate::states::lines_wf(lines@),
            touches_wf(touches@),
            touches_judged_frame(old(touches)@, touches@),
            forall|k: int| i <= k < n ==> lines@[k] == old(lines)@[k],
            forall|k: int|
                0 <= k < i ==> line_judged_frame(old(lines)@[k], #[trigger] lines@[k]),
            judged == (exists|k: int|
                0 <= k < i && line_newly_judged(#[trigger] old(lines)@[k], lines@[k])),
            auto ==> forall|k: int|
                0 <= k < i && old(lines)@[k].enable ==> line_auto_stepped(
                    old(lines)@[k],
                    #[trigger] lines@[k],
                    delta_us,
                ),
            lines_judge_step(
                old(lines)@.take(i as int),
                lines@.take(i as int),
                trig@.take(i as int),
                old(touches)@,
                touches@,
                old(cues)@,
                cues@,
                delta_us,
                auto,
                judged,
            ),
            old(cues)@.is_prefix_of(cues@),
        decreases n - i,
    {
        let ghost lines_pre = lines@;
        let ghost judged_pre = judged;
        let enabled = lines[i].enable;
        if enabled {
            let current_us = lines[i].tick_time;
            let spt_us = crate::states::get_seconds_per_tick(lines[i].bpm);
            let geom = JudgeGeometry {
                line_x: lines[i].x,
                line_y: lines[i].y,
                sin_micro: trig[i].sin_micro,
                cos_micro: trig[i].cos_micro,
            };
            let ghost touches_pre = touches@;
            let ghost cues_pre = cues@;
            let line = el_mut(lines, i);
            let judged_above = judge_notes_list(
                delta_us,
                current_us,
                spt_us,
                &mut line.notes_above_state,
                touches,
                geom,
                auto,
                cues,
            );
            let ghost touches_mid = touches@;
            let ghost cues_mid = cues@;
            let judged_below = judge_notes_list(
                delta_us,
                current_us,
                spt_us,
                &mut line.notes_below_state,
                touches,
                geom,
                auto,
                cues,
            );
            proof {
                lemma_touch_frame_trans(touches_pre, touches_mid, touches@);
                lemma_touch_frame_trans(old(touches)@, touches_pre, touches@);
                lemma_prefix_trans(cues_pre, cues_mid, cues@);
                lemma_prefix_trans(old(cues)@, cues_pre, cues@);
                assert(line_judged_frame(old(lines)@[i as int], lines@[i as int]));
                if auto {
                    let o = old(lines)@[i as int];
                    let spt2 = crate::chart::spec_seconds_per_tick(o.bpm) as i64;
                    assert(lines@[i as int].notes_above_state@ =~= o.notes_above_state@.map_values(
                        |x: NoteState| spec_auto_note_step(x, o.tick_time, delta_us, spt2),
                    ));
                    assert(lines@[i as int].notes_below_state@ =~= o.notes_below_state@.map_values(
                        |x: NoteState| spec_auto_note_step(x, o.tick_time, delta_us, spt2),
                    ));
                }
                assert((judged_above || judged_below) == line_newly_judged(
                    old(lines)@[i as int],
                    lines@[i as int],
                ));
                let o = old(lines)@[i as int];
                let tr = trig@[i as int];
                let g2 = JudgeGeometry {
                    line_x: o.x,
                    line_y: o.y,
                    sin_micro: tr.sin_micro,
                    cos_micro: tr.cos_micro,
                };
                let spt2 = crate::chart::spec_seconds_per_tick(o.bpm) as i64;
                assert(geom == g2);
                assert(spt_us == spt2);
                assert(current_us == o.tick_time);
                let w = (touches_mid, cues_mid, judged_above, judged_below);
                assert(judge_list_step(
                    o.notes_above_state@,
                    lines@[i as int].notes_above_state@,
                    touches_pre,
                    w.0,
                    cues_pre,
                    w.1,
                    delta_us,
                    o.tick_time,
                    spt2,
                    g2,
                    auto,
                    w.2,
                ));
                assert(judge_list_step(
                    o.notes_below_state@,
                    lines@[i as int].notes_below_state@,
                    w.0,
                    touches@,
                    w.1,
                    cues@,
                    delta_us,
                    o.tick_time,
                    spt2,
                    g2,
                    auto,
                    w.3,
                ));
                assert(line_judge_step(
                    o,
                    lines@[i as int],
                    tr,
                    touches_pre,
                    touches@,
                    cues_pre,
                    cues@,
                    delta_us,
                    auto,
                    judged_above || judged_below,
                ));
                assert(line_frame_step(
                    o,
                    lines@[i as int],
                    tr,
                    touches_pre,
                    touches@,
                    cues_pre,
                    cues@,
                    delta_us,
                    auto,
                    judged_above || judged_below,
                ));
                assert(lines_pre.take(i as int) =~= lines@.take(i as int));
                lemma_lines_judge_snoc(
                    old(lines)@.take(i as int),
                    lines@.take(i as int),
                    trig@.take(i as int),
                    o,
                    lines@[i as int],
                    tr,
                    old(touches)@,
                    touches_pre,
                    touches@,
                    old(cues)@,
                    cues_pre,
                    cues@,
                    delta_us,
                    auto,
                    judged_pre,
                    judged_above || judged_below,
                );
                assert(old(lines)@.take(i as int + 1) =~= old(lines)@.take(i as int).push(o));
                assert(lines@.take(i as int + 1) =~= lines@.take(i as int).push(
                    lines@[i as int],
                ));
                assert(trig@.take(i as int + 1) =~= trig@.take(i as int).push(tr));
            }
            judged = judged || judged_above || judged_below;
        } else {
            proof {
                let o = old(lines)@[i as int];
                let tr = trig@[i as int];
                assert(line_frame_step(
                    o,
                    lines@[i as int],
                    tr,
                    touches@,
                    touches@,
                    cues@,
                    cues@,
                    delta_us,
                    auto,
                    false,
                ));
                lemma_lines_judge_snoc(
                    old(lines)@.take(i as int),
                    lines@.take(i as int),
                    trig@.take(i as int),
                    o,
                    lines@[i as int],
                    tr,
                    old(touches)@,
                    touches@,
                    touches@,
                    old(cues)@,
                    cues@,
                    cues@,
                    delta_us,
                    auto,
                    judged_pre,
                    false,
                );
                assert(old(lines)@.take(i as int + 1) =~= old(lines)@.take(i as int).push(o));
                assert(lines@.take(i as int + 1) =~= lines@.take(i as int).push(
                    lines@[i as int],
                ));
                assert(trig@.take(i as int + 1) =~= trig@.take(i as int).push(tr));
            }
        }
        i = i + 1;
    }
    proof {
        assert(old(lines)@.take(n as int) =~= old(lines)@);
        assert(lines@.take(n as int) =~= lines@);
        assert(trig@.take(n as int) =~= trig@);
    }
    let m = touches.len();
    let ghost touches_judge_end = touches@;
    let mut k: usize = 0;
    while k < m
        invariant
            k <= m,
            m == touches@.len(),
            touches@.len() == touches_judge_end.len(),
            forall|q: int| k <= q < m ==> touches@[q] == touches_judge_end[q],
            forall|q: int|
                0 <= q < k ==> touches@[q] == (if touches_judge_end[q].enable {
                    TouchInfo { touch_valid: false, ..touches_judge_end[q] }
                } else {
                    touches_judge_end[q]
                }),
            touches_wf(touches@),
        decreases m - k,
    {
        let t = el_mut(touches, k);
        if t.enable {
            t.touch_valid = false;
        }
        k = k + 1;
    }
    proof {
        assert(touches@ =~= spec_spend_validity(touches_judge_end));
        assert(lines_judge_step(
            old(lines)@,
            lines@,
            trig@,
            old(touches)@,
            touches_judge_end,
            old(cues)@,
            cues@,
            delta_us,
            auto,
            judged,
        ));
    }
    judged
}

/// One frame's judging entry: first the decoded touch samples are applied
/// to the pool, then every line's notes are judged, and finally the
/// frame's touch validity is spent. Returns whether any note reached a
/// terminal score this frame, which gates the scoring refresh.
pub fn tick_lines_judge(
    delta_us: i64,
    samples: &Vec<crate::input::TouchSample>,
    touches: &mut Vec<TouchInfo>,
    lines: &mut Vec<LineState>,
    trig: &Vec<JudgeTrig>,
    auto: bool,
    cues: &mut Vec<SplashCue>,
) -> (judged: bool)
    requires
        -TIME_US_MAX <= delta_us <= TIME_US_MAX,
        crate::states::lines_wf(old(lines)@),
        touches_wf(old(touches)@),
        old(touches)@.len() <= crate::input::TOUCH_SLOT_COUNT,
        trig@.len() == old(lines)@.len(),
        trig_wf(trig@),
        forall|k: int|
            0 <= k < samples@.len() ==> (#[trigger] samples@[k].id as int) < old(
                touches,
            )@.len(),
        forall|k: int|
            0 <= k < samples@.len() ==> {
                &&& -COORD_MAX <= #[trigger] samples@[k].x <= COORD_MAX
                &&& -COORD_MAX <= samples@[k].y <= COORD_MAX
            },
    ensures
        final(lines)@.len() == old(lines)@.len(),
        crate::states::lines_wf(final(lines)@),
        touches_wf(final(touches)@),
        forall|i: int|
            0 <= i < old(lines)@.len() ==> line_judged_frame(
                old(lines)@[i],
                #[trigger] final(lines)@[i],
            ),
        judged == spec_any_newly_judged(old(lines)@, final(lines)@),
        auto ==> forall|i: int|
            0 <= i < old(lines)@.len() && old(lines)@[i].enable ==> line_auto_stepped(
                old(lines)@[i],
                #[trigger] final(lines)@[i],
                delta_us,
            ),
        ({
            let ingested = crate::input::spec_touch_ingest(old(touches)@, samples@);
            &&& final(touches)@.len() == ingested.len()
            &&& forall|k: int|
                0 <= k < ingested.len() ==> {
                    &&& (#[trigger] final(touches)@[k]).enable == ingested[k].enable
                    &&& final(touches)@[k].x == ingested[k].x
                    &&& final(touches)@[k].y == ingested[k].y
                    &&& (!ingested[k].enable ==> final(touches)@[k] == ingested[k])
                    &&& (final(touches)@[k].enable ==> final(touches)@[k].touch_valid == false)
                }
        }),
        exists|mid: Seq<TouchInfo>|
            {
                &&& #[trigger] lines_judge_step(
                    old(lines)@,
                    final(lines)@,
                    trig@,
                    crate::input::spec_touch_ingest(old(touches)@, samples@),
                    mid,
                    old(cues)@,
                    final(cues)@,
                    delta_us,
                    auto,
                    judged,
                )
                &&& final(touches)@ == spec_spend_validity(mid)
            },
        old(cues)@.is_prefix_of(final(cues)@),
{
    crate::input::process_touch_info(touches, samples);
    let ghost ingested = touches@;
    let judged = tick_line_judge(delta_us, touches, lines, trig, auto, cues);
    proof {
        let mid = choose|mid: Seq<TouchInfo>|
            {
                &&& #[trigger] lines_judge_step(
                    old(lines)@,
                    lines@,
                    trig@,
                    ingested,
                    mid,
                    old(cues)@,
                    cues@,
                    delta_us,
                    auto,
                    judged,
                )
                &&& touches@ == spec_spend_validity(mid)
            };
        assert(lines_judge_step(
            old(lines)@,
            lines@,
            trig@,
            crate::input::spec_touch_ingest(old(touches)@, samples@),
            mid,
            old(cues)@,
            cues@,
            delta_us,
            auto,
            judged,
        ));
    }
    judged
}

} // verus!
