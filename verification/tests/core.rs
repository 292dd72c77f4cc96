use phasetida_core::chart::{ticks_to_us, Event1, Event2, Note, NoteType};
use phasetida_core::effect::{new_click_effect, tick_effect, HitEffect, Rng, SplashBurst};
use phasetida_core::input::{
    decode_touch_records, process_touch_info, TouchInfo, TouchRecord, TouchSample,
};
use phasetida_core::math::{div_trunc, fix_degree, is_point_in_judge_range, lane_offset};
use phasetida_core::states::get_seconds_per_tick;

#[test]
fn note_type_codes_round_trip() {
    assert_eq!(NoteType::from_code(1), Some(NoteType::Tap));
    assert_eq!(NoteType::from_code(2), Some(NoteType::Drag));
    assert_eq!(NoteType::from_code(3), Some(NoteType::Hold));
    assert_eq!(NoteType::from_code(4), Some(NoteType::Flick));
    assert_eq!(NoteType::from_code(0), None);
    assert_eq!(NoteType::from_code(5), None);
    assert_eq!(NoteType::Hold.code(), 3);
}

#[test]
fn seconds_per_tick_at_120_bpm_is_exact() {
    // 60 / 120 / 32 s = 15625 us per tick.
    assert_eq!(get_seconds_per_tick(120_000), 15_625);
    // A fractional tempo rounds down to whole microseconds.
    assert_eq!(get_seconds_per_tick(133_500), 14_044);
}

#[test]
fn ticks_to_us_is_exact_at_120_bpm() {
    // Tick 32 is 0.5 s.
    assert_eq!(ticks_to_us(32_000, 15_625), 500_000);
    assert_eq!(ticks_to_us(0, 15_625), 0);
}

#[test]
fn div_trunc_rounds_towards_zero() {
    assert_eq!(div_trunc(7, 2), 3);
    assert_eq!(div_trunc(-7, 2), -3);
    assert_eq!(div_trunc(6, 3), 2);
    assert_eq!(div_trunc(-6, 3), -2);
}

#[test]
fn fix_degree_wraps_into_range() {
    assert_eq!(fix_degree(-90_000), 270_000);
    assert_eq!(fix_degree(450_000), 90_000);
    assert_eq!(fix_degree(0), 0);
    // A whole number of full turns maps to zero; the range is half-open.
    assert_eq!(fix_degree(360_000), 0);
    assert_eq!(fix_degree(720_000), 0);
    assert_eq!(fix_degree(-360_000), 0);
    assert_eq!(fix_degree(359_999), 359_999);
}

#[test]
fn lane_offset_scales_lanes_to_world_units() {
    // Nine lane units reach half the world width: 960 units.
    assert_eq!(lane_offset(9_000), 960_000);
    assert_eq!(lane_offset(-9_000), -960_000);
    assert_eq!(lane_offset(0), 0);
}

#[test]
fn judge_band_boundary_is_inclusive() {
    // Root at the origin, direction along +x: the band covers +-300 units
    // measured along x.
    assert!(is_point_in_judge_range(0, 0, 0, 1_000_000, 300_000, 999, 300_000));
    assert!(!is_point_in_judge_range(0, 0, 0, 1_000_000, 300_001, 999, 300_000));
    assert!(is_point_in_judge_range(0, 0, 0, 1_000_000, -300_000, -999, 300_000));
    // Along +y the x offset is ignored.
    assert!(is_point_in_judge_range(0, 0, 1_000_000, 0, 987_654, 100_000, 300_000));
}

#[test]
fn decode_reads_records_until_terminator() {
    let mut buf: Vec<u8> = Vec::new();
    buf.push(1);
    buf.push(7);
    buf.extend_from_slice(&[0x01, 0x02, 0x03, 0x04]);
    buf.extend_from_slice(&[0xaa, 0xbb, 0xcc, 0xdd]);
    buf.push(2);
    buf.push(9);
    buf.extend_from_slice(&[0, 0, 0, 0]);
    buf.extend_from_slice(&[1, 0, 0, 0]);
    buf.push(0);
    let recs = decode_touch_records(&buf);
    assert_eq!(recs.len(), 2);
    assert_eq!(
        recs[0],
        TouchRecord { id: 7, x_bits: 0x04030201, y_bits: 0xddccbbaa }
    );
    assert_eq!(recs[1], TouchRecord { id: 9, x_bits: 0, y_bits: 1 });
}

#[test]
fn decode_handles_empty_and_truncated_buffers() {
    assert_eq!(decode_touch_records(&Vec::new()).len(), 0);
    assert_eq!(decode_touch_records(&vec![0u8]).len(), 0);
    // A nonzero continuation byte with too few bytes behind it ends the
    // stream.
    assert_eq!(decode_touch_records(&vec![1u8, 3, 4]).len(), 0);
}

#[test]
fn touch_ingest_tracks_down_move_release() {
    let mut touches = vec![TouchInfo::default(); 30];
    // Touch-down on slot 2.
    let samples = vec![TouchSample { id: 2, x: 100, y: 200 }];
    process_touch_info(&mut touches, &samples);
    assert!(touches[2].enable);
    assert!(touches[2].touch_valid);
    assert_eq!((touches[2].x, touches[2].y), (100, 200));
    assert_eq!((touches[2].init_x, touches[2].init_y), (100, 200));
    // Moving keeps the baseline.
    let samples = vec![TouchSample { id: 2, x: 150, y: 260 }];
    process_touch_info(&mut touches, &samples);
    assert_eq!((touches[2].x, touches[2].y), (150, 260));
    assert_eq!((touches[2].init_x, touches[2].init_y), (100, 200));
    // Releasing disables the slot and restores its validity.
    touches[2].touch_valid = false;
    process_touch_info(&mut touches, &Vec::new());
    assert!(!touches[2].enable);
    assert!(touches[2].touch_valid);
}

#[test]
fn touch_length_accumulates_and_resets() {
    let mut t = TouchInfo::default();
    t.enable = true;
    t.x = 30_000;
    t.y = 40_000;
    // 50 units of swipe: exactly the flick trigger length.
    assert_eq!(t.length_sq(), 2_500_000_000);
    t.reset_length();
    assert_eq!(t.length_sq(), 0);
}

#[test]
fn rng_is_deterministic_and_zero_seed_falls_back() {
    let mut a = Rng::new(0);
    assert_eq!(a.next(), 3061955290);
    assert_eq!(a.next(), 641659558);
    let mut b = Rng::new(0xdead_beef);
    assert_eq!(b.next(), 3061955290);
    let mut c = Rng::new(1);
    assert_eq!(c.next(), 2305613085);
}

#[test]
fn hit_effects_decay_and_release() {
    let mut pool = vec![HitEffect::default(); 4];
    let mut bursts: Vec<SplashBurst> = Vec::new();
    new_click_effect(500_000, 10, 20, 0, &mut pool, &mut bursts);
    assert!(pool[0].enable);
    assert_eq!((pool[0].x, pool[0].y, pool[0].progress, pool[0].tint_type), (10, 20, 0, 0));
    assert_eq!(bursts.len(), 1);
    assert_eq!(bursts[0].count, 4);
    // Good-tinted bursts carry three particles.
    new_click_effect(500_000, 0, 0, 1, &mut pool, &mut bursts);
    assert!(pool[1].enable);
    assert_eq!(bursts[1].count, 3);
    // Half the animation: progress advances by twice the frame delta.
    tick_effect(250_000, &mut pool);
    assert!(pool[0].enable);
    assert_eq!(pool[0].progress, 500_000);
    // The rest of it: the marker is released.
    tick_effect(250_000, &mut pool);
    assert!(!pool[0].enable);
    // A negative delta is treated as no time passing.
    tick_effect(-100_000, &mut pool);
    assert_eq!(pool[1].progress, 1_000_000);
    assert!(!pool[1].enable);
}

#[test]
fn click_pool_exhaustion_drops_feedback() {
    let mut pool = vec![HitEffect::default(); 1];
    let mut bursts: Vec<SplashBurst> = Vec::new();
    new_click_effect(0, 1, 1, 0, &mut pool, &mut bursts);
    new_click_effect(0, 2, 2, 0, &mut pool, &mut bursts);
    assert_eq!(bursts.len(), 1);
    assert_eq!((pool[0].x, pool[0].y), (1, 1));
}

#[test]
fn event_values_survive_conversion() {
    // An alpha ramp over the first 64 ticks at 120 bpm spans exactly one
    // second after conversion.
    let e = Event2 { start_time: 0, end_time: 64_000, start: 0, end: 1_000 };
    assert_eq!(ticks_to_us(e.end_time, 15_625), 1_000_000);
    let s = Event1 { start_time: 0, end_time: 64_000, value: 1_000 };
    assert_eq!(s.value, 1_000);
    let n = Note {
        note_type: NoteType::Tap,
        time: 32_000,
        position_x: 0,
        hold_time: 0,
        speed: 1_000,
        floor_position: 500_000,
    };
    assert_eq!(ticks_to_us(n.time, 15_625), 500_000);
}
