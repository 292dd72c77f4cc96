//! Timeline evaluator: per line and per frame, resolves the animated speed,
//! position, rotation and alpha from the four event lists, and integrates
//! the scroll offset.
//!
//! The cached-index search is an optimization only: every contract here pins
//! the result to a function of the event list and the query time alone, so a
//! warm cache can never change what a frame computes (see
//! [`lemma_timeline_determinism`]).

use vstd::prelude::*;

use crate::chart::{
    Event1, Event2, Event4, TimeState, WithTimeRange, WithValue, TIME_US_MAX, VALUE_MAX,
};
use crate::math::{div_trunc_i128, fix_degree, spec_div_trunc, spec_fix_degree};
use crate::states::{
    el_mut, event1_values_wf, event2_values_wf, event4_values_wf, events_time_wf, line_wf,
    lines_wf, LineState, EVENT_COUNT_MAX, EVENT_US_MAX,
};

verus! {

/// The query time lies strictly before the event's range.
pub open spec fn evt_early<T: WithTimeRange>(e: T, t: i64) -> bool {
    t < e.spec_time_start()
}

/// The query time lies strictly after the event's range.
pub open spec fn evt_late<T: WithTimeRange>(e: T, t: i64) -> bool {
    t > e.spec_time_end()
}

/// The query time lies inside the event's (closed) range.
pub open spec fn evt_during<T: WithTimeRange>(e: T, t: i64) -> bool {
    !evt_early(e, t) && !evt_late(e, t)
}

pub open spec fn all_early<T: WithTimeRange>(s: Seq<T>, t: i64) -> bool {
    forall|i: int| 0 <= i < s.len() ==> evt_early(#[trigger] s[i], t)
}

pub open spec fn all_late<T: WithTimeRange>(s: Seq<T>, t: i64) -> bool {
    forall|i: int| 0 <= i < s.len() ==> evt_late(#[trigger] s[i], t)
}

/// The lowest index at or after `k` whose event's range contains the
/// query time, or the list's length if none does.
pub open spec fn first_during_from<T: WithTimeRange>(s: Seq<T>, t: i64, k: int) -> int
    decreases s.len() - k,
{
    if k < 0 || k >= s.len() {
        s.len() as int
    } else if evt_during(s[k], t) {
        k
    } else {
        first_during_from(s, t, k + 1)
    }
}

pub open spec fn first_during<T: WithTimeRange>(s: Seq<T>, t: i64) -> int {
    first_during_from(s, t, 0)
}

/// The lowest index at or after `k` whose event starts after the query
/// time, or the list's length if none does.
pub open spec fn first_early_from<T: WithTimeRange>(s: Seq<T>, t: i64, k: int) -> int
    decreases s.len() - k,
{
    if k < 0 || k >= s.len() {
        s.len() as int
    } else if evt_early(s[k], t) {
        k
    } else {
        first_early_from(s, t, k + 1)
    }
}

pub open spec fn first_early<T: WithTimeRange>(s: Seq<T>, t: i64) -> int {
    first_early_from(s, t, 0)
}

proof fn lemma_first_during_props<T: WithTimeRange>(s: Seq<T>, t: i64, k: int)
    requires
        0 <= k <= s.len(),
    ensures
        k <= first_during_from(s, t, k) <= s.len(),
        first_during_from(s, t, k) < s.len() ==> evt_during(s[first_during_from(s, t, k)], t),
        forall|j: int| k <= j < first_during_from(s, t, k) ==> !evt_during(#[trigger] s[j], t),
    decreases s.len() - k,
{
    if k < s.len() && !evt_during(s[k], t) {
        lemma_first_during_props(s, t, k + 1);
    }
}

proof fn lemma_first_during_prefix<T: WithTimeRange>(s: Seq<T>, t: i64, k: int)
    requires
        0 <= k <= s.len(),
        forall|j: int| 0 <= j < k ==> !evt_during(#[trigger] s[j], t),
    ensures
        first_during(s, t) == first_during_from(s, t, k),
    decreases k,
{
    if k > 0 {
        lemma_first_during_prefix(s, t, k - 1);
    }
}

proof fn lemma_first_early_prefix<T: WithTimeRange>(s: Seq<T>, t: i64, k: int)
    requires
        0 <= k <= s.len(),
        forall|j: int| 0 <= j < k ==> !evt_early(#[trigger] s[j], t),
    ensures
        first_early(s, t) == first_early_from(s, t, k),
    decreases k,
{
    if k > 0 {
        lemma_first_early_prefix(s, t, k - 1);
    }
}

/// Where the search lands, a function of the list and the query time
/// alone: the lowest event whose (closed) range contains the time, with
/// the elapsed and total range lengths — on a boundary two adjacent
/// ranges share, the earlier event, held at its end. Before every event
/// no event applies; after every event the last one holds at its end; a
/// time inside a gap resolves to the first event past the gap, held at
/// its end.
pub open spec fn spec_search<T: WithTimeRange>(s: Seq<T>, t: i64) -> Result<
    (usize, i64, i64),
    (),
> {
    let d = first_during(s, t);
    if d < s.len() {
        Ok(
            (
                d as usize,
                (t - s[d].spec_time_start()) as i64,
                (s[d].spec_time_end() - s[d].spec_time_start()) as i64,
            ),
        )
    } else if all_early(s, t) {
        Err(())
    } else if all_late(s, t) {
        Ok((((s.len() - 1) as usize), 1i64, 1i64))
    } else {
        Ok(((first_early(s, t) as usize), 1i64, 1i64))
    }
}

/// Classifies a query time against one event's range.
pub fn check_time<T: WithTimeRange>(event: &T, time: i64) -> (r: TimeState)
    requires
        0 <= event.spec_time_start(),
        event.spec_time_start() <= event.spec_time_end(),
        event.spec_time_end() <= EVENT_US_MAX,
        -TIME_US_MAX <= time <= TIME_US_MAX,
    ensures
        r == (if evt_early(*event, time) {
            TimeState::Early
        } else if evt_late(*event, time) {
            TimeState::Late
        } else {
            TimeState::During(
                (time - event.spec_time_start()) as i64,
                (event.spec_time_end() - event.spec_time_start()) as i64,
            )
        }),
{
    let start = event.time_start();
    let end = event.time_end();
    if time < start {
        TimeState::Early
    } else if time > end {
        TimeState::Late
    } else {
        TimeState::During(time - start, end - start)
    }
}

/// Finds the event whose range holds the query time, walking from a cached
/// index: step down while the current event starts too late, step up while
/// it ends too early, and stop on the first containing event (stepping
/// once more down to the earlier neighbour when the time sits on a shared
/// boundary). Off the lower end no event applies; off the upper end, and
/// inside a gap, the nearest following event holds at its end.
///
/// The result always equals [`spec_search`], whatever the cached index
/// was: the cache affects cost only, never the outcome.
#[verifier::loop_isolation(false)]
pub fn find_current_event<T: WithTimeRange>(
    tick_time: i64,
    events: &Vec<T>,
    cache_index: usize,
) -> (r: Result<(usize, i64, i64), ()>)
    requires
        events_time_wf(events@),
        -TIME_US_MAX <= tick_time <= TIME_US_MAX,
    ensures
        r == spec_search(events@, tick_time),
        (match r {
            Ok(v) => v.0 < events@.len() && 1 <= v.2 <= EVENT_US_MAX && 0 <= v.1 <= v.2,
            Err(u) => true,
        }),
{
    let len = events.len();
    if len == 0 {
        return Err(());
    }
    let start_index: usize = if cache_index > len - 1 {
        len - 1
    } else {
        cache_index
    };
    let mut i: i64 = start_index as i64;
    let ghost i0: int = i as int;
    let mut last: u8 = 0;
    loop
        invariant
            -1 <= i <= len as int,
            0 <= i0 < len as int,
            last == 0 || last == 1 || last == 2,
            last == 0 ==> i == i0,
            last == 1 ==> -1 <= i <= i0 - 1 && (forall|j: int|
                i < j <= i0 ==> evt_early(#[trigger] events@[j], tick_time)),
            last == 2 ==> i0 + 1 <= i <= len as int && (forall|j: int|
                i0 <= j < i ==> evt_late(#[trigger] events@[j], tick_time)),
        decreases
                (if last == 1 {
                    i + 1
                } else if last == 2 {
                    len as int - i
                } else {
                    len as int + 1
                }),
    {
        if i < 0 {
            proof {
                let s = events@;
                assert forall|j: int| 0 <= j < s.len() implies evt_early(
                    #[trigger] s[j],
                    tick_time,
                ) by {
                    if j <= i0 {
                        assert(evt_early(s[j], tick_time));
                    } else {
                        assert(evt_early(s[i0], tick_time));
                        assert(s[i0].spec_time_start() < s[i0].spec_time_end());
                        assert(s[i0].spec_time_end() <= s[j].spec_time_start());
                    }
                }
                assert(all_early(s, tick_time));
                lemma_first_during_props(s, tick_time, 0);
                assert(first_during(s, tick_time) == s.len());
            }
            return Err(());
        }
        if i >= len as i64 {
            proof {
                let s = events@;
                assert forall|j: int| 0 <= j < s.len() implies evt_late(
                    #[trigger] s[j],
                    tick_time,
                ) by {
                    if j >= i0 {
                        assert(evt_late(s[j], tick_time));
                    } else {
                        assert(evt_late(s[i0], tick_time));
                        assert(s[j].spec_time_end() <= s[i0].spec_time_start());
                        assert(s[i0].spec_time_start() < s[i0].spec_time_end());
                    }
                }
                assert(all_late(s, tick_time));
                assert(!all_early(s, tick_time)) by {
                    assert(evt_late(s[0], tick_time));
                    assert(s[0].spec_time_start() < s[0].spec_time_end());
                }
                lemma_first_during_props(s, tick_time, 0);
                assert(first_during(s, tick_time) == s.len());
            }
            return Ok((len - 1, 1, 1));
        }
        let idx = i as usize;
        match check_time(&events[idx], tick_time) {
            TimeState::Early => {
                if last == 2 {
                    proof {
                        let s = events@;
                        let ii = i as int;
                        assert(evt_late(s[i0], tick_time));
                        assert(!all_late(s, tick_time)) by {
                            assert(evt_early(s[ii], tick_time));
                            assert(s[ii].spec_time_start() < s[ii].spec_time_end());
                        }
                        assert(!all_early(s, tick_time)) by {
                            assert(evt_late(s[ii - 1], tick_time));
                            assert(s[ii - 1].spec_time_start() < s[ii - 1].spec_time_end());
                        }
                        assert forall|d: int| 0 <= d < s.len() implies !evt_during(
                            #[trigger] s[d],
                            tick_time,
                        ) by {
                            if d < i0 {
                                assert(s[d].spec_time_end() <= s[i0].spec_time_start());
                                assert(s[i0].spec_time_start() < s[i0].spec_time_end());
                            } else if d < ii {
                                assert(evt_late(s[d], tick_time));
                            } else if d == ii {
                                assert(evt_early(s[d], tick_time));
                            } else {
                                assert(s[ii].spec_time_start() < s[ii].spec_time_end());
                                assert(s[ii].spec_time_end() <= s[d].spec_time_start());
                            }
                        }
                        lemma_first_during_props(s, tick_time, 0);
                        assert(first_during(s, tick_time) == s.len());
                        assert forall|j: int| 0 <= j < ii implies !evt_early(
                            #[trigger] s[j],
                            tick_time,
                        ) by {
                            if j < i0 {
                                assert(s[j].spec_time_end() <= s[i0].spec_time_start());
                            } else {
                                assert(evt_late(s[j], tick_time));
                            }
                        }
                        lemma_first_early_prefix(s, tick_time, ii);
                        assert(first_early(s, tick_time) == ii);
                    }
                    return Ok((idx, 1, 1));
                }
                i = i - 1;
                last = 1;
            },
            TimeState::Late => {
                if last == 1 {
                    proof {
                        let s = events@;
                        let ii = i as int;
                        assert(evt_early(s[ii + 1], tick_time));
                        assert(!all_late(s, tick_time)) by {
                            assert(s[ii + 1].spec_time_start() < s[ii + 1].spec_time_end());
                        }
                        assert(!all_early(s, tick_time)) by {
                            assert(evt_late(s[ii], tick_time));
                            assert(s[ii].spec_time_start() < s[ii].spec_time_end());
                        }
                        assert forall|d: int| 0 <= d < s.len() implies !evt_during(
                            #[trigger] s[d],
                            tick_time,
                        ) by {
                            if d < ii {
                                assert(s[d].spec_time_end() <= s[ii].spec_time_start());
                                assert(s[ii].spec_time_start() < s[ii].spec_time_end());
                            } else if d == ii {
                                assert(evt_late(s[d], tick_time));
                            } else if d <= i0 {
                                assert(evt_early(s[d], tick_time));
                            } else {
                                assert(s[ii + 1].spec_time_start() < s[ii + 1].spec_time_end());
                                if d > ii + 1 {
                                    assert(s[ii + 1].spec_time_end() <= s[d].spec_time_start());
                                }
                            }
                        }
                        lemma_first_during_props(s, tick_time, 0);
                        assert(first_during(s, tick_time) == s.len());
                        assert forall|j: int| 0 <= j < ii + 1 implies !evt_early(
                            #[trigger] s[j],
                            tick_time,
                        ) by {
                            if j < ii {
                                assert(s[j].spec_time_end() <= s[ii].spec_time_start());
                            } else {
                                assert(evt_late(s[j], tick_time));
                            }
                        }
                        lemma_first_early_prefix(s, tick_time, ii + 1);
                        assert(first_early(s, tick_time) == ii + 1);
                    }
                    return Ok((idx + 1, 1, 1));
                }
                i = i + 1;
                last = 2;
            },
            TimeState::During(num, den) => {
                if idx > 0 {
                    let prev_end = events[idx - 1].time_end();
                    if prev_end == tick_time {
                        // The time sits on the boundary the previous event
                        // shares with this one: the earlier event wins.
                        let prev_start = events[idx - 1].time_start();
                        proof {
                            let s = events@;
                            let ii = i as int;
                            assert(evt_during(s[ii - 1], tick_time)) by {
                                assert(s[ii - 1].spec_time_start() < s[ii - 1].spec_time_end());
                            }
                            assert forall|j: int| 0 <= j < ii - 1 implies !evt_during(
                                #[trigger] s[j],
                                tick_time,
                            ) by {
                                assert(s[j].spec_time_end() <= s[ii - 1].spec_time_start());
                                assert(s[ii - 1].spec_time_start() < s[ii - 1].spec_time_end());
                            }
                            lemma_first_during_prefix(s, tick_time, ii - 1);
                            assert(first_during(s, tick_time) == ii - 1);
                        }
                        return Ok((idx - 1, tick_time - prev_start, prev_end - prev_start));
                    }
                }
                proof {
                    let s = events@;
                    let ii = i as int;
                    assert(evt_during(s[ii], tick_time));
                    assert forall|j: int| 0 <= j < ii implies !evt_during(
                        #[trigger] s[j],
                        tick_time,
                    ) by {
                        assert(!evt_early(s[ii], tick_time));
                        if j < ii - 1 {
                            assert(s[j].spec_time_end() <= s[ii - 1].spec_time_start());
                            assert(s[ii - 1].spec_time_start() < s[ii - 1].spec_time_end());
                            assert(s[ii - 1].spec_time_end() <= s[ii].spec_time_start());
                        } else {
                            assert(s[j].spec_time_end() <= s[ii].spec_time_start());
                        }
                    }
                    lemma_first_during_prefix(s, tick_time, ii);
                    assert(first_during(s, tick_time) == ii);
                    assert(s[ii].spec_time_start() < s[ii].spec_time_end());
                }
                return Ok((idx, num, den));
            },
        }
    }
}

/// Interpolation endpoints, elapsed and total range lengths, and new cache
/// index for a list at any query time: the event [`spec_search`] lands on,
/// or the zero value where no event applies.
pub open spec fn spec_current_value<T, U: WithValue<T> + WithTimeRange>(s: Seq<U>, t: i64) -> (
    (T, T),
    i64,
    i64,
    usize,
) {
    match spec_search(s, t) {
        Ok(v) => (s[v.0 as int].spec_value(), v.1, v.2, v.0),
        Err(u) => (U::spec_zero_value(), 0i64, 1i64, 0usize),
    }
}

/// Resolves a list to its interpolation endpoints and progress at a query
/// time, reusing the cached index as the search's starting point. The
/// result is a function of the list and the time alone.
pub fn get_current_value_for_event<T: Copy, U: WithValue<T> + WithTimeRange>(
    tick_time: i64,
    events: &Vec<U>,
    cache_index: usize,
) -> (r: ((T, T), i64, i64, usize))
    requires
        events_time_wf(events@),
        -TIME_US_MAX <= tick_time <= TIME_US_MAX,
    ensures
        1 <= r.2 <= EVENT_US_MAX && 0 <= r.1 <= r.2,
        r.3 < events@.len() || r.3 == 0,
        (exists|k: int| 0 <= k < events@.len() && r.0 == #[trigger] events@[k].spec_value()) || r.0
            == U::spec_zero_value(),
        r == spec_current_value::<T, U>(events@, tick_time),
{
    if events.len() == 0 {
        proof {
            assert(spec_search(events@, tick_time) == Err::<(usize, i64, i64), ()>(()));
        }
        return (U::zero(), 0, 1, 0);
    }
    match find_current_event(tick_time, events, cache_index) {
        Ok((idx, num, den)) => {
            let v = events[idx].get_value();
            proof {
                assert(events@[idx as int].spec_value() == v);
            }
            (v, num, den, idx)
        },
        Err(u) => (U::zero(), 0, 1, 0),
    }
}

/// Linear interpolation between `a` and `b` at progress `num / den`, the
/// scaled difference rounded towards zero. The result never leaves the
/// interval between the endpoints.
pub open spec fn spec_interp(a: i64, b: i64, num: i64, den: i64) -> int {
    a + spec_div_trunc((b - a) * num, den as int)
}

pub fn interpolate(a: i64, b: i64, num: i64, den: i64) -> (r: i64)
    requires
        -VALUE_MAX <= a <= VALUE_MAX,
        -VALUE_MAX <= b <= VALUE_MAX,
        1 <= den <= EVENT_US_MAX,
        0 <= num <= den,
    ensures
        r == spec_interp(a, b, num, den),
        a <= b ==> a <= r <= b,
        b <= a ==> b <= r <= a,
{
    let diff: i64 = b - a;
    proof {
        lemma_scale_by_progress(diff as int, num as int, den as int);
    }
    let prod: i128 = (diff as i128) * (num as i128);
    let q: i128 = div_trunc_i128(prod, den as i128);
    a + (q as i64)
}

/// For progress `num / den` in [0, 1], the truncated scaled difference
/// `(diff * num) / den` lies between 0 and `diff`.
proof fn lemma_scale_by_progress(diff: int, num: int, den: int)
    requires
        1 <= den <= 4_026_531_838_125_000,
        0 <= num <= den,
        -4_000_000_000 <= diff <= 4_000_000_000,
    ensures
        diff >= 0 ==> 0 <= spec_div_trunc(diff * num, den) <= diff,
        diff < 0 ==> diff <= spec_div_trunc(diff * num, den) <= 0,
        -diff * num == -(diff * num),
        -20_000_000_000_000_000_000_000_000 <= diff * num <= 20_000_000_000_000_000_000_000_000,
{
    assert(-20_000_000_000_000_000_000_000_000 <= diff * num
        <= 20_000_000_000_000_000_000_000_000) by (nonlinear_arith)
        requires
            -4_000_000_000 <= diff <= 4_000_000_000,
            0 <= num <= 4_026_531_838_125_000,
    ;
    vstd::arithmetic::mul::lemma_mul_unary_negation(diff, num);
    if diff >= 0 {
        vstd::arithmetic::mul::lemma_mul_nonnegative(diff, num);
        assert(diff * num <= diff * den) by (nonlinear_arith)
            requires
                0 <= num <= den,
                0 <= diff,
        ;
        vstd::arithmetic::div_mod::lemma_div_is_ordered(diff * num, diff * den, den);
        vstd::arithmetic::div_mod::lemma_div_multiples_vanish(diff, den);
        vstd::arithmetic::div_mod::lemma_div_pos_is_pos(diff * num, den);
        assert(den * diff == diff * den) by (nonlinear_arith);
    } else {
        vstd::arithmetic::mul::lemma_mul_nonnegative(-diff, num);
        assert((-diff) * num <= (-diff) * den) by (nonlinear_arith)
            requires
                0 <= num <= den,
                0 <= -diff,
        ;
        vstd::arithmetic::div_mod::lemma_div_is_ordered((-diff) * num, (-diff) * den, den);
        vstd::arithmetic::div_mod::lemma_div_multiples_vanish(-diff, den);
        vstd::arithmetic::div_mod::lemma_div_pos_is_pos((-diff) * num, den);
        assert(den * -diff == -diff * den) by (nonlinear_arith);
    }
}

/// Largest magnitude of one speed-segment contribution to the scroll
/// offset, in microsecond-milli-units.
pub const LINE_Y_TERM_MAX: i128 = 4_100_000_000_000_000_000_000_000;

/// Scroll offset at a query time, summed from speed events at and below
/// `i`: every fully elapsed segment — its end at or before the query time
/// — contributes its whole range times its value, the segment containing
/// the query time contributes its elapsed part, and segments not yet begun
/// stop the walk.
pub open spec fn spec_line_y_from(s: Seq<Event1>, t: i64, i: int) -> int
    decreases s.len() - i,
{
    if i < 0 || i >= s.len() {
        0
    } else {
        let e = s[i];
        if e.end_time > t && e.start_time > t {
            0
        } else if e.start_time < t && t < e.end_time {
            (t - e.start_time) * e.value
        } else if e.end_time <= t {
            (e.end_time - e.start_time) * e.value + spec_line_y_from(s, t, i + 1)
        } else {
            spec_line_y_from(s, t, i + 1)
        }
    }
}

/// Scroll offset of a line at a query time, in microsecond-milli-units.
pub open spec fn spec_line_y(s: Seq<Event1>, t: i64) -> int {
    spec_line_y_from(s, t, 0)
}

/// Integrates the scroll offset from the line's speed events.
#[verifier::loop_isolation(false)]
pub fn get_line_y(tick_time: i64, line: &LineState) -> (r: i128)
    requires
        events_time_wf(line.speed_events@),
        event1_values_wf(line.speed_events@),
        -TIME_US_MAX <= tick_time <= TIME_US_MAX,
    ensures
        r == spec_line_y(line.speed_events@, tick_time),
{
    let events = &line.speed_events;
    let n = events.len();
    let mut t_acc: i128 = 0;
    let mut k: usize = 0;
    while k < n
        invariant
            k <= n,
            -(k as int) * (LINE_Y_TERM_MAX as int) <= t_acc <= (k as int) * (
            LINE_Y_TERM_MAX as int),
            spec_line_y(events@, tick_time) == t_acc + spec_line_y_from(
                events@,
                tick_time,
                k as int,
            ),
        decreases n - k,
    {
        let e = events[k];
        proof {
            assert(events@[k as int].spec_time_start() == e.start_time);
            assert(events@[k as int].spec_time_end() == e.end_time);
            assert(0 <= e.start_time && e.start_time < e.end_time && e.end_time <= EVENT_US_MAX);
            assert(-VALUE_MAX <= events@[k as int].value <= VALUE_MAX);
        }
        if e.end_time > tick_time && e.start_time > tick_time {
            return t_acc;
        }
        if e.start_time < tick_time && tick_time < e.end_time {
            proof {
                lemma_acc_in_range(k as int, n as int, t_acc as int);
                assert(-(LINE_Y_TERM_MAX as int) <= (tick_time - e.start_time) * e.value
                    <= LINE_Y_TERM_MAX as int) by (nonlinear_arith)
                    requires
                        0 <= tick_time - e.start_time <= 4_026_531_838_125_000,
                        -1_000_000_000 <= e.value <= 1_000_000_000,
                ;
            }
            let term: i128 = ((tick_time - e.start_time) as i128) * (e.value as i128);
            return t_acc + term;
        }
        if e.end_time <= tick_time {
            proof {
                lemma_acc_in_range(k as int, n as int, t_acc as int);
                assert(-(LINE_Y_TERM_MAX as int) <= (e.end_time - e.start_time) * e.value
                    <= LINE_Y_TERM_MAX as int) by (nonlinear_arith)
                    requires
                        0 <= e.end_time - e.start_time <= 4_026_531_838_125_000,
                        -1_000_000_000 <= e.value <= 1_000_000_000,
                ;
                assert((k as int + 1) * (LINE_Y_TERM_MAX as int) == k as int * (
                LINE_Y_TERM_MAX as int) + LINE_Y_TERM_MAX as int) by (nonlinear_arith);
            }
            let term: i128 = ((e.end_time - e.start_time) as i128) * (e.value as i128);
            t_acc = t_acc + term;
        }
        k = k + 1;
    }
    t_acc
}

/// The running scroll accumulator stays far inside `i128`.
proof fn lemma_acc_in_range(k: int, n: int, acc: int)
    requires
        0 <= k <= n <= EVENT_COUNT_MAX,
        -k * (LINE_Y_TERM_MAX as int) <= acc <= k * (LINE_Y_TERM_MAX as int),
    ensures
        -100_000_000_000_000_000_000_000_000_000_000 <= acc
            <= 100_000_000_000_000_000_000_000_000_000_000,
        -100_000_000_000_000_000_000_000_000_000_000 <= (k + 1) * (LINE_Y_TERM_MAX as int)
            <= 100_000_000_000_000_000_000_000_000_000_000,
{
    assert((k + 1) * 4_100_000_000_000_000_000_000_000
        <= 100_000_000_000_000_000_000_000_000_000_000 && k * 4_100_000_000_000_000_000_000_000
        <= 100_000_000_000_000_000_000_000_000_000_000 && 0 <= (k + 1)
        * 4_100_000_000_000_000_000_000_000) by (nonlinear_arith)
        requires
            0 <= k <= 16_777_216,
    ;
}

/// Relation between a line before and after one timeline frame: chart data
/// is untouched, the scroll offset and query time are exact, and every
/// animated channel equals its interpolation formula at the query time,
/// independent of the cached indices.
pub open spec fn line_ticked(o: LineState, n: LineState, t: i64) -> bool {
    &&& n.enable == o.enable
    &&& n.bpm == o.bpm
    &&& n.notes_above_state@ == o.notes_above_state@
    &&& n.notes_below_state@ == o.notes_below_state@
    &&& n.speed_events@ == o.speed_events@
    &&& n.move_events@ == o.move_events@
    &&& n.rotate_events@ == o.rotate_events@
    &&& n.alpha_events@ == o.alpha_events@
    &&& n.tick_time == t
    &&& n.line_y == spec_line_y(o.speed_events@, t)
    &&& -200_000_000 <= n.x <= 200_000_000
    &&& -200_000_000 <= n.y <= 200_000_000
    &&& 0 <= n.rotate < 360_000
    &&& -VALUE_MAX <= n.speed <= VALUE_MAX
    &&& -VALUE_MAX <= n.alpha <= VALUE_MAX
    &&& n.speed == spec_channel1(o.speed_events@, t)
    &&& n.event_speed_index_cache == spec_current_value::<i64, Event1>(o.speed_events@, t).3
    &&& n.alpha == spec_channel2(o.alpha_events@, t)
    &&& n.event_alpha_index_cache == spec_current_value::<i64, Event2>(o.alpha_events@, t).3
    &&& n.rotate == spec_fix_degree(360_000 - spec_channel2(o.rotate_events@, t))
    &&& n.event_rotate_index_cache == spec_current_value::<i64, Event2>(o.rotate_events@, t).3
    &&& n.x == 1920 * spec_channel4(o.move_events@, t).0
    &&& n.y == 1080 * (1000 - spec_channel4(o.move_events@, t).1)
    &&& n.event_move_index_cache == spec_current_value::<(i64, i64), Event4>(o.move_events@, t).3
}

/// Interpolated value of a constant-valued (speed) list at a query time.
pub open spec fn spec_channel1(s: Seq<Event1>, t: i64) -> int {
    let r = spec_current_value::<i64, Event1>(s, t);
    spec_interp(r.0.0, r.0.1, r.1, r.2)
}

/// Interpolated value of a one-channel list at a query time.
pub open spec fn spec_channel2(s: Seq<Event2>, t: i64) -> int {
    let r = spec_current_value::<i64, Event2>(s, t);
    spec_interp(r.0.0, r.0.1, r.1, r.2)
}

/// Interpolated values of the two channels of a move list at a query time,
/// in normalized milli-units.
pub open spec fn spec_channel4(s: Seq<Event4>, t: i64) -> (int, int) {
    let r = spec_current_value::<(i64, i64), Event4>(s, t);
    (spec_interp(r.0.0.0, r.0.0.1, r.1, r.2), spec_interp(r.0.1.0, r.0.1.1, r.1, r.2))
}

/// Advances one enabled line to a query time: resolves speed, alpha,
/// rotation and position from the four event lists, integrates the scroll
/// offset, and stores the query time and the new cached indices.
pub fn tick_line_state(time_us: i64, state: &mut LineState)
    requires
        line_wf(*old(state)),
        old(state).enable,
        -TIME_US_MAX <= time_us <= TIME_US_MAX,
    ensures
        line_ticked(*old(state), *final(state), time_us),
        line_wf(*final(state)),
{
    let ly = get_line_y(time_us, state);

    let rs = get_current_value_for_event(time_us, &state.speed_events, state.event_speed_index_cache);
    state.event_speed_index_cache = rs.3;
    state.speed = rs.0.0;
    proof {
        lemma_pair_bounds_event1(state.speed_events@, rs.0);
        assert(rs.0.0 == rs.0.1);
        vstd::arithmetic::mul::lemma_mul_basics(rs.1 as int);
        vstd::arithmetic::div_mod::lemma_div_of0(rs.2 as int);
        assert(spec_interp(rs.0.0, rs.0.1, rs.1, rs.2) == rs.0.0);
    }

    let ra = get_current_value_for_event(time_us, &state.alpha_events, state.event_alpha_index_cache);
    proof {
        lemma_pair_bounds_event2(state.alpha_events@, ra.0);
    }
    state.alpha = interpolate(ra.0.0, ra.0.1, ra.1, ra.2);
    state.event_alpha_index_cache = ra.3;

    let rr = get_current_value_for_event(
        time_us,
        &state.rotate_events,
        state.event_rotate_index_cache,
    );
    proof {
        lemma_pair_bounds_event2(state.rotate_events@, rr.0);
    }
    let rot = interpolate(rr.0.0, rr.0.1, rr.1, rr.2);
    state.rotate = fix_degree(360_000 - rot);
    state.event_rotate_index_cache = rr.3;

    let rm = get_current_value_for_event(time_us, &state.move_events, state.event_move_index_cache);
    proof {
        lemma_pair_bounds_event4(state.move_events@, rm.0);
    }
    let vx = interpolate(rm.0.0.0, rm.0.0.1, rm.1, rm.2);
    let vy = interpolate(rm.0.1.0, rm.0.1.1, rm.1, rm.2);
    state.x = 1920 * vx;
    state.y = 1080 * (1000 - vy);
    state.event_move_index_cache = rm.3;

    state.line_y = ly;
    state.tick_time = time_us;
}

/// The endpoints a speed list hands out are bounded event values or zero.
proof fn lemma_pair_bounds_event1(s: Seq<Event1>, pair: (i64, i64))
    requires
        event1_values_wf(s),
        (exists|k: int| 0 <= k < s.len() && pair == #[trigger] s[k].spec_value()) || pair
            == Event1::spec_zero_value(),
    ensures
        -VALUE_MAX <= pair.0 <= VALUE_MAX,
        -VALUE_MAX <= pair.1 <= VALUE_MAX,
{
    if exists|k: int| 0 <= k < s.len() && pair == #[trigger] s[k].spec_value() {
        let k = choose|k: int| 0 <= k < s.len() && pair == #[trigger] s[k].spec_value();
        assert(-VALUE_MAX <= s[k].value <= VALUE_MAX);
    }
}

/// The endpoints a one-channel list hands out are bounded event values or
/// zero.
proof fn lemma_pair_bounds_event2(s: Seq<Event2>, pair: (i64, i64))
    requires
        event2_values_wf(s),
        (exists|k: int| 0 <= k < s.len() && pair == #[trigger] s[k].spec_value()) || pair
            == Event2::spec_zero_value(),
    ensures
        -VALUE_MAX <= pair.0 <= VALUE_MAX,
        -VALUE_MAX <= pair.1 <= VALUE_MAX,
{
    if exists|k: int| 0 <= k < s.len() && pair == #[trigger] s[k].spec_value() {
        let k = choose|k: int| 0 <= k < s.len() && pair == #[trigger] s[k].spec_value();
        assert(-VALUE_MAX <= s[k].start <= VALUE_MAX);
    }
}

/// The endpoints a move list hands out are bounded channel values or zero.
proof fn lemma_pair_bounds_event4(s: Seq<Event4>, pair: ((i64, i64), (i64, i64)))
    requires
        event4_values_wf(s),
        (exists|k: int| 0 <= k < s.len() && pair == #[trigger] s[k].spec_value()) || pair
            == Event4::spec_zero_value(),
    ensures
        -crate::chart::MOVE_VALUE_MAX <= pair.0.0 <= crate::chart::MOVE_VALUE_MAX,
        -crate::chart::MOVE_VALUE_MAX <= pair.0.1 <= crate::chart::MOVE_VALUE_MAX,
        -crate::chart::MOVE_VALUE_MAX <= pair.1.0 <= crate::chart::MOVE_VALUE_MAX,
        -crate::chart::MOVE_VALUE_MAX <= pair.1.1 <= crate::chart::MOVE_VALUE_MAX,
{
    if exists|k: int| 0 <= k < s.len() && pair == #[trigger] s[k].spec_value() {
        let k = choose|k: int| 0 <= k < s.len() && pair == #[trigger] s[k].spec_value();
        assert(-crate::chart::MOVE_VALUE_MAX <= s[k].start <= crate::chart::MOVE_VALUE_MAX);
    }
}

/// Advances every enabled line to the query time; disabled slots are left
/// untouched.
#[verifier::loop_isolation(false)]
pub fn tick_lines(time_us: i64, lines: &mut Vec<LineState>)
    requires
        lines_wf(old(lines)@),
        -TIME_US_MAX <= time_us <= TIME_US_MAX,
    ensures
        final(lines)@.len() == old(lines)@.len(),
        lines_wf(final(lines)@),
        forall|i: int|
            0 <= i < old(lines)@.len() ==> (if old(lines)@[i].enable {
                line_ticked(old(lines)@[i], #[trigger] final(lines)@[i], time_us)
            } else {
                final(lines)@[i] == old(lines)@[i]
            }),
{
    let n = lines.len();
    let mut k: usize = 0;
    while k < n
        invariant
            k <= n,
            n == lines@.len(),
            lines@.len() == old(lines)@.len(),
            forall|i: int| k <= i < n ==> lines@[i] == old(lines)@[i],
            forall|i: int|
                0 <= i < k ==> (if old(lines)@[i].enable {
                    line_ticked(old(lines)@[i], #[trigger] lines@[i], time_us)
                } else {
                    lines@[i] == old(lines)@[i]
                }),
            forall|i: int| 0 <= i < n ==> line_wf(#[trigger] lines@[i]),
        decreases n - k,
    {
        let enabled = lines[k].enable;
        if enabled {
            let line = el_mut(lines, k);
            tick_line_state(time_us, line);
        }
        k = k + 1;
    }
}

/// Timeline determinism: two frames that query the same time over the same
/// chart data agree on every animated channel and cached index, no matter
/// how the two lines' caches differed beforehand — a cold cache and a warm
/// one cannot be told apart from the output, at any query time.
pub proof fn lemma_timeline_determinism(
    o1: LineState,
    n1: LineState,
    o2: LineState,
    n2: LineState,
    t: i64,
)
    requires
        line_ticked(o1, n1, t),
        line_ticked(o2, n2, t),
        o1.speed_events@ == o2.speed_events@,
        o1.move_events@ == o2.move_events@,
        o1.rotate_events@ == o2.rotate_events@,
        o1.alpha_events@ == o2.alpha_events@,
    ensures
        n1.speed == n2.speed,
        n1.alpha == n2.alpha,
        n1.rotate == n2.rotate,
        n1.x == n2.x,
        n1.y == n2.y,
        n1.line_y == n2.line_y,
        n1.tick_time == n2.tick_time,
        n1.event_speed_index_cache == n2.event_speed_index_cache,
        n1.event_alpha_index_cache == n2.event_alpha_index_cache,
        n1.event_rotate_index_cache == n2.event_rotate_index_cache,
        n1.event_move_index_cache == n2.event_move_index_cache,
{
}

} // verus!
