use phasetida_core::chart::{Chart, Event1, Event2, Event4, JudgeLine, Note, NoteType};
use phasetida_core::effect::SplashCue;
use phasetida_core::input::{TouchInfo, TouchSample};
use phasetida_core::states::{
    get_metadata, init_line_states, reset_note_state, ChartError, LineState, NoteScore,
};
use phasetida_core::states_judge::{check_judge_result, tick_lines_judge, JudgeTrig};
use phasetida_core::states_statistics::{
    init_flatten_line_state, refresh_chart_statistics, ChartStatistics, NoteIndex,
};
use phasetida_core::states_ticking::tick_lines;

// 120 bpm in milli-bpm: one tick is exactly 15625 microseconds.
const BPM_120: i64 = 120_000;

fn one_note_line(bpm: i64, note_type: NoteType, time: i64, hold_time: i64) -> JudgeLine {
    JudgeLine {
        bpm,
        notes_above: vec![Note {
            note_type,
            time,
            position_x: 0,
            hold_time,
            speed: 1_000,
            floor_position: 0,
        }],
        notes_below: Vec::new(),
        speed_events: Vec::new(),
        move_events: Vec::new(),
        rotate_events: Vec::new(),
        alpha_events: Vec::new(),
    }
}

fn load(chart: &Chart) -> Vec<LineState> {
    let mut states: Vec<LineState> = Vec::new();
    init_line_states(chart, &mut states).expect("valid chart");
    states
}

// With no move events a line rests at (0, 1_080_000) pointing along +x,
// so its trig pair is (sin, cos) = (0, 1).
fn flat_trig(n: usize) -> Vec<JudgeTrig> {
    vec![JudgeTrig { sin_micro: 0, cos_micro: 1_000_000 }; n]
}

struct Driver {
    lines: Vec<LineState>,
    touches: Vec<TouchInfo>,
    cues: Vec<SplashCue>,
    last_time: i64,
}

impl Driver {
    fn new(chart: &Chart) -> Driver {
        Driver {
            lines: load(chart),
            touches: vec![TouchInfo::default(); 30],
            cues: Vec::new(),
            last_time: 0,
        }
    }

    // One frame: timeline tick, then judging, as the host drives it.
    fn frame(&mut self, time_us: i64, samples: &[TouchSample], auto: bool) -> bool {
        let delta = time_us - self.last_time;
        self.last_time = time_us;
        tick_lines(time_us, &mut self.lines);
        let trig = flat_trig(self.lines.len());
        let sample_vec: Vec<TouchSample> = samples.to_vec();
        tick_lines_judge(
            delta,
            &sample_vec,
            &mut self.touches,
            &mut self.lines,
            &trig,
            auto,
            &mut self.cues,
        )
    }

    fn stats(&self) -> ChartStatistics {
        let mut flatten: Vec<NoteIndex> = Vec::new();
        init_flatten_line_state(&self.lines, &mut flatten);
        let mut stats = ChartStatistics::default();
        refresh_chart_statistics(&self.lines, &flatten, &mut stats);
        stats
    }

    fn note(&self, line: usize, j: usize) -> &phasetida_core::states::NoteState {
        &self.lines[line].notes_above_state[j]
    }
}

// The judge line rests at y = 1_080_000 with the note at lane offset 0, so
// this touch lies exactly on the note's root.
fn touch_on_note() -> TouchSample {
    TouchSample { id: 0, x: 0, y: 1_080_000 }
}

#[test]
fn timing_windows_have_exact_boundaries() {
    let mut ns = phasetida_core::states::NoteState::default();
    ns.note.time = 32_000;
    ns.note.hold_time = 0;
    // Nominal time is 500_000 us.
    assert_eq!(check_judge_result(500_000, &ns, 15_625), (0, NoteScore::Perfect));
    assert_eq!(check_judge_result(580_000, &ns, 15_625).1, NoteScore::Perfect);
    assert_eq!(check_judge_result(580_001, &ns, 15_625).1, NoteScore::Good);
    assert_eq!(check_judge_result(660_000, &ns, 15_625).1, NoteScore::Good);
    assert_eq!(check_judge_result(660_001, &ns, 15_625).1, NoteScore::Bad);
    assert_eq!(check_judge_result(680_000, &ns, 15_625).1, NoteScore::Bad);
    assert_eq!(check_judge_result(680_001, &ns, 15_625).1, NoteScore::Miss);
    assert_eq!(check_judge_result(319_999, &ns, 15_625).1, NoteScore::Miss);
}

#[test]
fn tap_at_nominal_commits_perfect() {
    let chart = Chart { judge_line_list: vec![one_note_line(BPM_120, NoteType::Tap, 32_000, 0)] };
    let mut d = Driver::new(&chart);
    let judged = d.frame(500_000, &[touch_on_note()], false);
    assert!(judged);
    assert_eq!(d.note(0, 0).score, NoteScore::Perfect);
    // The consuming commit raised a perfect-tinted splash cue.
    assert_eq!(d.cues.len(), 1);
    assert_eq!(d.cues[0].tint_type, 0);
}

#[test]
fn tap_at_81ms_late_commits_good() {
    let chart = Chart { judge_line_list: vec![one_note_line(BPM_120, NoteType::Tap, 32_000, 0)] };
    let mut d = Driver::new(&chart);
    let judged = d.frame(581_000, &[touch_on_note()], false);
    assert!(judged);
    assert_eq!(d.note(0, 0).score, NoteScore::Good);
    assert_eq!(d.cues[0].tint_type, 1);
}

#[test]
fn tap_unanswered_past_window_misses() {
    let chart = Chart { judge_line_list: vec![one_note_line(BPM_120, NoteType::Tap, 32_000, 0)] };
    let mut d = Driver::new(&chart);
    // Before the window opens nothing happens.
    assert!(!d.frame(300_000, &[], false));
    assert_eq!(d.note(0, 0).score, NoteScore::Pending);
    // 190 ms past nominal: committed Miss, no splash.
    assert!(d.frame(690_000, &[], false));
    assert_eq!(d.note(0, 0).score, NoteScore::Miss);
    assert_eq!(d.cues.len(), 0);
}

#[test]
fn tap_out_of_band_touch_is_ignored() {
    let chart = Chart { judge_line_list: vec![one_note_line(BPM_120, NoteType::Tap, 32_000, 0)] };
    let mut d = Driver::new(&chart);
    // 400 units to the side: outside the +-300-unit judge band.
    let far = TouchSample { id: 0, x: 400_000, y: 1_080_000 };
    assert!(!d.frame(500_000, &[far], false));
    assert_eq!(d.note(0, 0).score, NoteScore::Pending);
}

#[test]
fn drag_commits_perfect_from_a_brief_touch() {
    let chart = Chart { judge_line_list: vec![one_note_line(BPM_120, NoteType::Drag, 32_000, 0)] };
    let mut d = Driver::new(&chart);
    // A touch well before nominal, in the Good sub-window: stages only.
    assert!(!d.frame(360_000, &[touch_on_note()], false));
    assert_eq!(d.note(0, 0).score, NoteScore::Pending);
    assert_eq!(d.note(0, 0).extra_score, NoteScore::Perfect);
    // The touch is long gone; past nominal the drag still resolves Perfect.
    assert!(d.frame(510_000, &[], false));
    assert_eq!(d.note(0, 0).score, NoteScore::Perfect);
}

#[test]
fn drag_without_any_touch_misses() {
    let chart = Chart { judge_line_list: vec![one_note_line(BPM_120, NoteType::Drag, 32_000, 0)] };
    let mut d = Driver::new(&chart);
    assert!(d.frame(690_000, &[], false));
    assert_eq!(d.note(0, 0).score, NoteScore::Miss);
}

#[test]
fn flick_needs_a_long_enough_swipe() {
    let chart = Chart {
        judge_line_list: vec![one_note_line(BPM_120, NoteType::Flick, 32_000, 0)],
    };
    let mut d = Driver::new(&chart);
    // Touch down on the note: no swipe yet, nothing staged.
    assert!(!d.frame(450_000, &[touch_on_note()], false));
    assert_eq!(d.note(0, 0).extra_score, NoteScore::Pending);
    // Swipe 60 units along the line: stages Perfect and resets the
    // baseline.
    let moved = TouchSample { id: 0, x: 60_000, y: 1_080_000 };
    assert!(!d.frame(470_000, &[moved], false));
    assert_eq!(d.note(0, 0).extra_score, NoteScore::Perfect);
    assert_eq!(d.touches[0].init_x, 60_000);
    // Past nominal the staged flick commits.
    assert!(d.frame(510_000, &[moved], false));
    assert_eq!(d.note(0, 0).score, NoteScore::Perfect);
}

#[test]
fn hold_sustained_to_the_end_commits_by_expiry() {
    // An 8-tick hold: nominal 0.5 s, sustain ends at 0.625 s.
    let chart = Chart {
        judge_line_list: vec![one_note_line(BPM_120, NoteType::Hold, 32_000, 8_000)],
    };
    let mut d = Driver::new(&chart);
    // Touched at nominal: stages Perfect and consumes the touch.
    assert!(!d.frame(500_000, &[touch_on_note()], false));
    assert_eq!(d.note(0, 0).extra_score, NoteScore::Perfect);
    assert_eq!(d.note(0, 0).score, NoteScore::Pending);
    // Sustaining with the touch present: the cooldown crosses zero, finds
    // presence, and re-arms (16 ticks = 250 ms) with a periodic splash.
    assert!(!d.frame(600_000, &[touch_on_note()], false));
    assert_eq!(d.note(0, 0).score, NoteScore::Pending);
    assert_eq!(d.note(0, 0).hold_cool_down, 150_000);
    // Past the sustain's end the staged Perfect commits by time-expiry.
    assert!(d.frame(630_000, &[touch_on_note()], false));
    assert_eq!(d.note(0, 0).score, NoteScore::Perfect);
}

#[test]
fn hold_abandoned_mid_sustain_misses() {
    let chart = Chart {
        judge_line_list: vec![one_note_line(BPM_120, NoteType::Hold, 32_000, 64_000)],
    };
    let mut d = Driver::new(&chart);
    assert!(!d.frame(500_000, &[touch_on_note()], false));
    assert_eq!(d.note(0, 0).extra_score, NoteScore::Perfect);
    // The finger lifts; when the cooldown next crosses zero with nobody in
    // the band, the hold dies.
    assert!(d.frame(600_000, &[], false));
    assert_eq!(d.note(0, 0).score, NoteScore::Miss);
}

#[test]
fn manual_chart_with_no_input_scores_zero() {
    // One line, bpm 120 (one tick 0.015625 s), one tap at tick 32 (0.5 s),
    // no touch ever supplied: at 0.7 s the offset of about 12.8 ticks is
    // far past the Bad bound, so the note is Miss and everything is zero.
    let chart = Chart { judge_line_list: vec![one_note_line(BPM_120, NoteType::Tap, 32_000, 0)] };
    let mut d = Driver::new(&chart);
    let judged = d.frame(700_000, &[], false);
    assert!(judged);
    assert_eq!(d.note(0, 0).score, NoteScore::Miss);
    let s = d.stats();
    assert_eq!(s.combo, 0);
    assert_eq!(s.max_combo, 0);
    assert_eq!(s.accurate, 0);
    assert_eq!(s.score, 0);
}

#[test]
fn auto_play_scores_the_full_million() {
    // The same chart in auto-play: at 0.5 s the tap commits Perfect and the
    // aggregate reaches combo 1, accuracy 100% and the full million.
    let chart = Chart { judge_line_list: vec![one_note_line(BPM_120, NoteType::Tap, 32_000, 0)] };
    let mut d = Driver::new(&chart);
    let judged = d.frame(500_000, &[], true);
    assert!(judged);
    assert_eq!(d.note(0, 0).score, NoteScore::Perfect);
    let s = d.stats();
    assert_eq!(s.combo, 1);
    assert_eq!(s.max_combo, 1);
    assert_eq!(s.accurate, 1_000_000);
    assert_eq!(s.score, 1_000_000_000);
}

#[test]
fn auto_play_resolves_holds_through_the_sustain() {
    let chart = Chart {
        judge_line_list: vec![one_note_line(BPM_120, NoteType::Hold, 32_000, 8_000)],
    };
    let mut d = Driver::new(&chart);
    assert!(!d.frame(500_000, &[], true));
    assert_eq!(d.note(0, 0).extra_score, NoteScore::Perfect);
    assert!(d.frame(640_000, &[], true));
    assert_eq!(d.note(0, 0).score, NoteScore::Perfect);
}

#[test]
fn terminal_scores_never_change_again() {
    let chart = Chart { judge_line_list: vec![one_note_line(BPM_120, NoteType::Tap, 32_000, 0)] };
    let mut d = Driver::new(&chart);
    d.frame(500_000, &[], true);
    assert_eq!(d.note(0, 0).score, NoteScore::Perfect);
    // Later frames, with and without touches, leave the commit alone.
    assert!(!d.frame(600_000, &[touch_on_note()], false));
    assert!(!d.frame(900_000, &[], true));
    assert_eq!(d.note(0, 0).score, NoteScore::Perfect);
}

#[test]
fn statistics_are_idempotent() {
    let chart = Chart {
        judge_line_list: vec![
            one_note_line(BPM_120, NoteType::Tap, 32_000, 0),
            one_note_line(BPM_120, NoteType::Tap, 64_000, 0),
        ],
    };
    let mut d = Driver::new(&chart);
    d.frame(500_000, &[], true);
    let mut flatten: Vec<NoteIndex> = Vec::new();
    init_flatten_line_state(&d.lines, &mut flatten);
    let mut s1 = ChartStatistics::default();
    refresh_chart_statistics(&d.lines, &flatten, &mut s1);
    let mut s2 = s1;
    refresh_chart_statistics(&d.lines, &flatten, &mut s2);
    assert_eq!(s1, s2);
}

#[test]
fn combo_resets_on_miss_and_tracks_maximum() {
    let chart = Chart {
        judge_line_list: vec![
            one_note_line(BPM_120, NoteType::Tap, 32_000, 0),
            one_note_line(BPM_120, NoteType::Tap, 64_000, 0),
            one_note_line(BPM_120, NoteType::Tap, 96_000, 0),
        ],
    };
    let mut d = Driver::new(&chart);
    // Auto-play commits the first two notes...
    d.frame(1_010_000, &[], true);
    // ...then force the third to a miss by seeking far past it without
    // auto.
    d.frame(2_000_000, &[], false);
    assert_eq!(d.note(0, 0).score, NoteScore::Perfect);
    assert_eq!(d.note(1, 0).score, NoteScore::Perfect);
    assert_eq!(d.note(2, 0).score, NoteScore::Miss);
    let s = d.stats();
    assert_eq!(s.combo, 0);
    assert_eq!(s.max_combo, 2);
    // accuracy = 2/3 in micro, rounded down.
    assert_eq!(s.accurate, 666_666);
    // score = 2/3 * 100000 + 0.666666 * 900000, in milli-points.
    assert_eq!(s.score, 66_666_666 + 666_666 * 900);
}

#[test]
fn flatten_index_is_sorted_by_resolution_time() {
    // Two tempos and a hold tail: resolution order differs from line and
    // list order.
    let mut slow = one_note_line(BPM_120, NoteType::Hold, 32_000, 32_000);
    slow.notes_below = vec![Note {
        note_type: NoteType::Tap,
        time: 16_000,
        position_x: 0,
        hold_time: 0,
        speed: 1_000,
        floor_position: 0,
    }];
    let fast = one_note_line(240_000, NoteType::Tap, 32_000, 0);
    let chart = Chart { judge_line_list: vec![slow, fast] };
    let lines = load(&chart);
    let mut flatten: Vec<NoteIndex> = Vec::new();
    init_flatten_line_state(&lines, &mut flatten);
    assert_eq!(flatten.len(), 3);
    for w in flatten.windows(2) {
        assert!(w[0].time_us <= w[1].time_us);
    }
    // Tick 32 at 240 bpm resolves first (the 7812.5 us tick rounds down to
    // 7812), tick 16 at 120 bpm exactly at 0.25 s, and the hold (32+32
    // ticks at 120 bpm) at 1.0 s.
    assert_eq!(flatten[0].time_us, 249_984);
    assert_eq!(flatten[1].time_us, 250_000);
    assert_eq!(flatten[2].time_us, 1_000_000);
    assert_eq!(flatten[2].line_index, 0);
    assert!(flatten[2].above);
}

#[test]
fn timeline_is_cache_independent() {
    // A line with enough events that a warm cursor sits far from a cold
    // one.
    let line = JudgeLine {
        bpm: BPM_120,
        notes_above: Vec::new(),
        notes_below: Vec::new(),
        speed_events: vec![
            Event1 { start_time: 0, end_time: 32_000, value: 1_000 },
            Event1 { start_time: 32_000, end_time: 64_000, value: 2_000 },
            Event1 { start_time: 64_000, end_time: 96_000, value: 500 },
        ],
        move_events: vec![Event4 {
            start_time: 0,
            end_time: 96_000,
            start: 0,
            end: 1_000,
            start2: 0,
            end2: 1_000,
        }],
        rotate_events: vec![Event2 { start_time: 0, end_time: 96_000, start: 0, end: 90_000 }],
        alpha_events: vec![Event2 { start_time: 0, end_time: 96_000, start: 0, end: 1_000 }],
    };
    let chart = Chart { judge_line_list: vec![line] };
    // Warm path: visit three distinct times so every cursor moves.
    let mut warm = load(&chart);
    tick_lines(100_000, &mut warm);
    tick_lines(1_400_000, &mut warm);
    tick_lines(700_000, &mut warm);
    // Cold path: one query straight from load.
    let mut cold = load(&chart);
    tick_lines(700_000, &mut cold);
    let w = &warm[0];
    let c = &cold[0];
    assert_eq!(w.speed, c.speed);
    assert_eq!(w.x, c.x);
    assert_eq!(w.y, c.y);
    assert_eq!(w.rotate, c.rotate);
    assert_eq!(w.alpha, c.alpha);
    assert_eq!(w.line_y, c.line_y);
    // And the interpolation itself is exact: at 0.7 s the 1.5 s ramps sit
    // at 7/15.
    assert_eq!(c.alpha, 466);
    assert_eq!(c.speed, 2_000);
    assert_eq!(c.line_y, (500_000i128 * 1_000) + (200_000i128 * 2_000));
}

#[test]
fn timeline_agrees_on_shared_boundaries_and_gaps() {
    // Two contiguous alpha ramps share the boundary at 0.5 s; two speed
    // segments leave a gap between 0.25 s and 0.75 s.
    let line = JudgeLine {
        bpm: BPM_120,
        notes_above: Vec::new(),
        notes_below: Vec::new(),
        speed_events: vec![
            Event1 { start_time: 0, end_time: 16_000, value: 1_000 },
            Event1 { start_time: 48_000, end_time: 64_000, value: 2_000 },
        ],
        move_events: Vec::new(),
        rotate_events: Vec::new(),
        alpha_events: vec![
            Event2 { start_time: 0, end_time: 32_000, start: 0, end: 1_000 },
            Event2 { start_time: 32_000, end_time: 64_000, start: 400, end: 200 },
        ],
    };
    let chart = Chart { judge_line_list: vec![line] };
    // Warm caches parked at the upper events by a late query.
    let mut warm = load(&chart);
    tick_lines(990_000, &mut warm);
    // Exactly on the shared alpha boundary: the earlier ramp wins, held at
    // its end, from a cold cache and from the warm one alike.
    let mut cold = load(&chart);
    tick_lines(500_000, &mut cold);
    tick_lines(500_000, &mut warm);
    assert_eq!(cold[0].alpha, 1_000);
    assert_eq!(warm[0].alpha, cold[0].alpha);
    assert_eq!(warm[0].speed, cold[0].speed);
    // Inside the speed gap: the first event past the gap, held at its end.
    let mut warm2 = load(&chart);
    tick_lines(990_000, &mut warm2);
    tick_lines(500_000, &mut warm2);
    let mut cold2 = load(&chart);
    tick_lines(500_000, &mut cold2);
    assert_eq!(cold2[0].speed, 2_000);
    assert_eq!(warm2[0].speed, cold2[0].speed);
    // A speed segment whose range ends exactly at the query time counts as
    // fully elapsed in the scroll integral.
    let mut at_end = load(&chart);
    tick_lines(250_000, &mut at_end);
    assert_eq!(at_end[0].line_y, 250_000i128 * 1_000);
}

#[test]
fn chart_length_covers_notes_and_events() {
    let mut line = one_note_line(BPM_120, NoteType::Hold, 32_000, 8_000);
    line.alpha_events = vec![Event2 { start_time: 0, end_time: 64_000, start: 0, end: 1_000 }];
    let chart = Chart { judge_line_list: vec![line] };
    let lines = load(&chart);
    // The hold resolves at 0.625 s; the alpha event starts at 0.
    assert_eq!(get_metadata(&lines), 625_000);
}

#[test]
fn reset_winds_judgements_back() {
    let chart = Chart {
        judge_line_list: vec![
            one_note_line(BPM_120, NoteType::Tap, 32_000, 0),
            one_note_line(BPM_120, NoteType::Tap, 64_000, 0),
        ],
    };
    let mut d = Driver::new(&chart);
    d.frame(1_010_000, &[], true);
    assert_eq!(d.note(0, 0).score, NoteScore::Perfect);
    assert_eq!(d.note(1, 0).score, NoteScore::Perfect);
    // Seek back between the two notes: the later note reopens, the earlier
    // commit stands.
    reset_note_state(750_000, &mut d.lines);
    assert_eq!(d.note(0, 0).score, NoteScore::Perfect);
    assert_eq!(d.note(1, 0).score, NoteScore::Pending);
    // Seek to the start: everything reopens.
    reset_note_state(0, &mut d.lines);
    assert_eq!(d.note(0, 0).score, NoteScore::Pending);
}

#[test]
fn load_rejects_malformed_charts_untouched() {
    let good = Chart { judge_line_list: vec![one_note_line(BPM_120, NoteType::Tap, 32_000, 0)] };
    let mut states = load(&good);
    // Tempo zero is invalid; the previously loaded chart must survive.
    let bad = Chart { judge_line_list: vec![one_note_line(0, NoteType::Tap, 32_000, 0)] };
    let r = init_line_states(&bad, &mut states);
    assert_eq!(r, Err(ChartError::InvalidLine));
    assert!(states[0].enable);
    assert_eq!(states[0].notes_above_state[0].note.time, 32_000);
    // Overlapping events are invalid too.
    let mut overlapping = one_note_line(BPM_120, NoteType::Tap, 32_000, 0);
    overlapping.speed_events = vec![
        Event1 { start_time: 0, end_time: 64_000, value: 1_000 },
        Event1 { start_time: 32_000, end_time: 96_000, value: 2_000 },
    ];
    let bad2 = Chart { judge_line_list: vec![overlapping] };
    assert_eq!(init_line_states(&bad2, &mut states), Err(ChartError::InvalidLine));
}

#[test]
fn load_sorts_notes_and_marks_simultaneous_ones() {
    let mut line = one_note_line(BPM_120, NoteType::Tap, 64_000, 0);
    line.notes_above.push(Note {
        note_type: NoteType::Drag,
        time: 32_000,
        position_x: 1_000,
        hold_time: 0,
        speed: 1_000,
        floor_position: 0,
    });
    // A second line with a note sounding together with the drag.
    let other = one_note_line(BPM_120, NoteType::Tap, 32_000, 0);
    let chart = Chart { judge_line_list: vec![line, other] };
    let lines = load(&chart);
    // Sorted ascending by time after load.
    assert_eq!(lines[0].notes_above_state[0].note.time, 32_000);
    assert_eq!(lines[0].notes_above_state[1].note.time, 64_000);
    // The two tick-32 notes coincide across lines: both highlighted; the
    // lone tick-64 note is not.
    assert!(lines[0].notes_above_state[0].highlight);
    assert!(lines[1].notes_above_state[0].highlight);
    assert!(!lines[0].notes_above_state[1].highlight);
    // Unused slots are disabled.
    assert_eq!(lines.len(), 50);
    assert!(!lines[2].enable);
}

#[test]
fn one_touch_satisfies_only_one_tap_per_frame() {
    // Two taps at the same spot and time: a single touch consumes on the
    // first and cannot also commit the second within the frame.
    let mut line = one_note_line(BPM_120, NoteType::Tap, 32_000, 0);
    line.notes_above.push(Note {
        note_type: NoteType::Tap,
        time: 32_000,
        position_x: 0,
        hold_time: 0,
        speed: 1_000,
        floor_position: 0,
    });
    let chart = Chart { judge_line_list: vec![line] };
    let mut d = Driver::new(&chart);
    d.frame(500_000, &[touch_on_note()], false);
    let a = d.note(0, 0).score;
    let b = d.note(0, 1).score;
    assert_eq!(a, NoteScore::Perfect);
    assert_eq!(b, NoteScore::Pending);
    // The frame spent the touch's validity for later frames too.
    assert!(!d.touches[0].touch_valid);
}

#[test]
fn touch_consumption_chains_across_lines_in_slot_order() {
    // Two lines, each with a tap at the same spot and time, one touch: the
    // earlier slot's tap consumes the touch, the later one goes unanswered.
    let chart = Chart {
        judge_line_list: vec![
            one_note_line(BPM_120, NoteType::Tap, 32_000, 0),
            one_note_line(BPM_120, NoteType::Tap, 32_000, 0),
        ],
    };
    let mut d = Driver::new(&chart);
    assert!(d.frame(500_000, &[touch_on_note()], false));
    assert_eq!(d.note(0, 0).score, NoteScore::Perfect);
    assert_eq!(d.note(1, 0).score, NoteScore::Pending);
    assert_eq!(d.cues.len(), 1);
}

#[test]
fn tap_in_bad_window_commits_bad_without_feedback() {
    let chart = Chart { judge_line_list: vec![one_note_line(BPM_120, NoteType::Tap, 32_000, 0)] };
    let mut d = Driver::new(&chart);
    // 170 ms late: inside the Bad window.
    assert!(d.frame(670_000, &[touch_on_note()], false));
    assert_eq!(d.note(0, 0).score, NoteScore::Bad);
    // Bad commits raise no splash and count for neither accuracy term.
    assert_eq!(d.cues.len(), 0);
    let s = d.stats();
    assert_eq!(s.combo, 0);
    assert_eq!(s.max_combo, 0);
    assert_eq!(s.accurate, 0);
    assert_eq!(s.score, 0);
}

#[test]
fn hold_staged_good_commits_good() {
    let chart = Chart {
        judge_line_list: vec![one_note_line(BPM_120, NoteType::Hold, 32_000, 8_000)],
    };
    let mut d = Driver::new(&chart);
    // 90 ms late: the Good sub-window stages Good.
    assert!(!d.frame(590_000, &[touch_on_note()], false));
    assert_eq!(d.note(0, 0).extra_score, NoteScore::Good);
    // Held to the end: the staged Good commits.
    assert!(d.frame(630_000, &[touch_on_note()], false));
    assert_eq!(d.note(0, 0).score, NoteScore::Good);
}
