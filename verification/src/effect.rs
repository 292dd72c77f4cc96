//! Hit-feedback bookkeeping: the fixed-capacity click-marker pool, the
//! splash bursts the host turns into particles, and the xorshift generator
//! that seeds them.
//!
//! Slot order is observable in the serialized snapshot, so allocation is a
//! first-free-slot scan and slots are never reordered.

use vstd::prelude::*;

use crate::chart::TIME_US_MAX;
use crate::states::NoteScore;

verus! {

/// Number of click-marker slots.
pub const HIT_EFFECT_SLOT_COUNT: usize = 64;
/// A marker's progress scale: the animation ends at 1_000_000.
pub const EFFECT_PROGRESS_END: i64 = 1_000_000;

/// One click-marker slot. Coordinates are in milli-units and `progress` is
/// in micro-units of the animation (1_000_000 is its end).
#[derive(Clone, Copy, PartialEq, Eq, Structural, Debug)]
pub struct HitEffect {
    pub enable: bool,
    pub x: i64,
    pub y: i64,
    pub progress: i64,
    pub tint_type: i8,
}

impl Default for HitEffect {
    fn default() -> (r: HitEffect)
        ensures
            r == (HitEffect { enable: false, x: 0i64, y: 0i64, progress: 0i64, tint_type: 0i8 }),
    {
        HitEffect { enable: false, x: 0, y: 0, progress: 0, tint_type: 0 }
    }
}

/// A splash request raised by a judgement: the host spawns the particle
/// burst from it. The seed is the frame's query time in microseconds.
#[derive(Clone, Copy, PartialEq, Eq, Structural, Debug)]
pub struct SplashCue {
    pub seed_us: i64,
    pub x: i64,
    pub y: i64,
    pub tint_type: i8,
}

/// A burst the host must spawn: a cue that found a free marker slot, with
/// the particle count the tint calls for.
#[derive(Clone, Copy, PartialEq, Eq, Structural, Debug)]
pub struct SplashBurst {
    pub seed_us: i64,
    pub x: i64,
    pub y: i64,
    pub tint_type: i8,
    pub count: u8,
}

/// Progress bounds of every slot: an enabled marker has not reached the
/// animation's end, and no slot's progress can overflow a later tick.
pub open spec fn effects_wf(s: Seq<HitEffect>) -> bool {
    forall|i: int|
        0 <= i < s.len() ==> {
            &&& 0 <= #[trigger] s[i].progress <= 3_000_000_000_000
            &&& (s[i].enable ==> s[i].progress < EFFECT_PROGRESS_END)
        }
}

/// One slot after a decay tick: an enabled marker advances by twice the
/// (nonnegative) frame delta and dies at the animation's end.
pub open spec fn spec_ticked_effect(e: HitEffect, delta_us: i64) -> HitEffect {
    if !e.enable {
        e
    } else {
        let d = if delta_us >= 0 {
            delta_us as int
        } else {
            0
        };
        let p = (e.progress + d * 2) as i64;
        if p >= EFFECT_PROGRESS_END {
            HitEffect { enable: false, progress: p, ..e }
        } else {
            HitEffect { progress: p, ..e }
        }
    }
}

/// Advances every enabled click marker and releases the finished ones.
#[verifier::loop_isolation(false)]
pub fn tick_effect(delta_us: i64, pool: &mut Vec<HitEffect>)
    requires
        effects_wf(old(pool)@),
        -TIME_US_MAX <= delta_us <= TIME_US_MAX,
    ensures
        final(pool)@.len() == old(pool)@.len(),
        forall|i: int|
            0 <= i < old(pool)@.len() ==> final(pool)@[i] == spec_ticked_effect(
                old(pool)@[i],
                delta_us,
            ),
        effects_wf(final(pool)@),
{
    let n = pool.len();
    let mut k: usize = 0;
    while k < n
        invariant
            k <= n,
            n == pool@.len(),
            pool@.len() == old(pool)@.len(),
            forall|i: int| k <= i < n ==> pool@[i] == old(pool)@[i],
            forall|i: int|
                0 <= i < k ==> pool@[i] == spec_ticked_effect(old(pool)@[i], delta_us),
            effects_wf(pool@),
        decreases n - k,
    {
        let d: i64 = if delta_us >= 0 {
            delta_us
        } else {
            0
        };
        let e = crate::states::el_mut(pool, k);
        if e.enable {
            e.progress = e.progress + d * 2;
            if e.progress >= EFFECT_PROGRESS_END {
                e.enable = false;
            }
        }
        k = k + 1;
    }
}

/// The first free slot at or after `i`, or the pool's length if none.
pub open spec fn spec_first_free_from(s: Seq<HitEffect>, i: int) -> int
    decreases s.len() - i,
{
    if i < 0 || i >= s.len() {
        s.len() as int
    } else if !s[i].enable {
        i
    } else {
        spec_first_free_from(s, i + 1)
    }
}

pub open spec fn spec_first_free(s: Seq<HitEffect>) -> int {
    spec_first_free_from(s, 0)
}

/// Claims the first free click-marker slot for a hit at `(x, y)` and
/// requests the matching particle burst (three particles for the
/// good-tinted burst, four otherwise). With no free slot the hit leaves no
/// feedback at all.
#[verifier::loop_isolation(false)]
pub fn new_click_effect(
    seed_us: i64,
    x: i64,
    y: i64,
    tint_type: i8,
    pool: &mut Vec<HitEffect>,
    bursts: &mut Vec<SplashBurst>,
)
    requires
        effects_wf(old(pool)@),
    ensures
        ({
            let f = spec_first_free(old(pool)@);
            if f == old(pool)@.len() {
                final(pool)@ == old(pool)@ && final(bursts)@ == old(bursts)@
            } else {
                &&& final(pool)@ == old(pool)@.update(
                    f,
                    (HitEffect { enable: true, x, y, progress: 0i64, tint_type }),
                )
                &&& final(bursts)@ == old(bursts)@.push(
                    (SplashBurst {
                        seed_us,
                        x,
                        y,
                        tint_type,
                        count: if tint_type == 1 {
                            3u8
                        } else {
                            4u8
                        },
                    }),
                )
            }
        }),
        effects_wf(final(pool)@),
        final(pool)@.len() == old(pool)@.len(),
{
    let n = pool.len();
    let mut k: usize = 0;
    while k < n
        invariant
            k <= n,
            pool@ == old(pool)@,
            bursts@ == old(bursts)@,
            forall|i: int| 0 <= i < k ==> (#[trigger] pool@[i]).enable,
            spec_first_free_from(pool@, 0) == spec_first_free_from(pool@, k as int),
        decreases n - k,
    {
        let free = !pool[k].enable;
        if free {
            proof {
                assert(spec_first_free(old(pool)@) == k as int);
            }
            let e = crate::states::el_mut(pool, k);
            e.enable = true;
            e.x = x;
            e.y = y;
            e.progress = 0;
            e.tint_type = tint_type;
            let count: u8 = if tint_type == 1 {
                3
            } else {
                4
            };
            bursts.push(SplashBurst { seed_us, x, y, tint_type, count });
            proof {
                assert(pool@ =~= old(pool)@.update(
                    k as int,
                    (HitEffect { enable: true, x, y, progress: 0i64, tint_type }),
                ));
            }
            return ;
        }
        k = k + 1;
    }
    proof {
        assert(spec_first_free(old(pool)@) == old(pool)@.len());
    }
}

/// Judgement feedback: a perfect or good commit raises a splash cue with
/// the matching tint; bad and miss raise none.
pub open spec fn spec_splash(
    cues: Seq<SplashCue>,
    seed_us: i64,
    x: i64,
    y: i64,
    score: NoteScore,
) -> Seq<SplashCue> {
    if score == NoteScore::Perfect {
        cues.push(SplashCue { seed_us, x, y, tint_type: 0i8 })
    } else if score == NoteScore::Good {
        cues.push(SplashCue { seed_us, x, y, tint_type: 1i8 })
    } else {
        cues
    }
}

/// Raises the splash cue a judgement calls for.
pub fn create_splash(seed_us: i64, x: i64, y: i64, note_score: NoteScore, cues: &mut Vec<
    SplashCue,
>)
    ensures
        final(cues)@ == spec_splash(old(cues)@, seed_us, x, y, note_score),
{
    match note_score {
        NoteScore::Perfect => cues.push(SplashCue { seed_us, x, y, tint_type: 0 }),
        NoteScore::Good => cues.push(SplashCue { seed_us, x, y, tint_type: 1 }),
        _ => (),
    }
}

/// Works the frame's splash cues off: each claims a marker slot and, if one
/// was free, requests its burst.
#[verifier::loop_isolation(false)]
pub fn process_splash_cues(
    cues: &Vec<SplashCue>,
    pool: &mut Vec<HitEffect>,
    bursts: &mut Vec<SplashBurst>,
)
    requires
        effects_wf(old(pool)@),
    ensures
        effects_wf(final(pool)@),
        final(pool)@.len() == old(pool)@.len(),
{
    let n = cues.len();
    let mut k: usize = 0;
    while k < n
        invariant
            k <= n,
            effects_wf(pool@),
            pool@.len() == old(pool)@.len(),
        decreases n - k,
    {
        let cue = cues[k];
        new_click_effect(cue.seed_us, cue.x, cue.y, cue.tint_type, pool, bursts);
        k = k + 1;
    }
}

/// The xorshift generator behind splash particle directions.
pub struct Rng {
    state: u64,
}

/// One xorshift step of the generator's state.
pub open spec fn spec_rng_step(s: u64) -> u64 {
    let a = s ^ (s >> 12u64);
    let b = a ^ (a << 25u64);
    b ^ (b >> 27u64)
}

/// The sample a step hands out: the low half of the scrambled state. The
/// host divides it by `u32::MAX` for a unit-interval number.
pub open spec fn spec_rng_out(s: u64) -> u32 {
    ((((spec_rng_step(s) * 0x2545F4914F6CDD1D) % 0x1_0000_0000_0000_0000) as u64) & 0xFFFF_FFFF) as u32
}

impl Rng {
    /// The generator's current state.
    pub closed spec fn spec_state(&self) -> u64 {
        self.state
    }

    /// Seeds the generator; a zero seed falls back to a fixed constant so
    /// the state never gets stuck.
    pub fn new(seed: u64) -> (r: Rng)
        ensures
            r.spec_state() == (if seed == 0 {
                0xdead_beefu64
            } else {
                seed
            }),
    {
        let seed = if seed == 0 {
            0xdead_beef
        } else {
            seed
        };
        Rng { state: seed }
    }

    /// Advances the state by one xorshift step and hands out the sample.
    pub fn next(&mut self) -> (r: u32)
        ensures
            final(self).spec_state() == spec_rng_step(old(self).spec_state()),
            r == spec_rng_out(old(self).spec_state()),
    {
        self.state = self.state ^ (self.state >> 12u64);
        self.state = self.state ^ (self.state << 25u64);
        self.state = self.state ^ (self.state >> 27u64);
        let x = self.state.wrapping_mul(0x2545F4914F6CDD1D);
        proof {
            assert((x & 0xFFFF_FFFF) <= 0xFFFF_FFFFu64) by (bit_vector);
        }
        (x & 0xFFFF_FFFF) as u32
    }
}

} // verus!
