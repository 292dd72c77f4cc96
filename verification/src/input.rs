//! Touch input: decoding the host's raw record buffer and maintaining the
//! fixed pool of touch slots.
//!
//! A raw buffer holds records of ten bytes — a nonzero continuation byte, a
//! slot id, and two 32-bit little-endian floats — terminated by a zero
//! byte. Decoding yields the raw float bits; the host turns them into
//! milli-unit coordinates before they are applied to the pool.

use vstd::prelude::*;

use crate::math::COORD_MAX;

verus! {

/// Number of touch slots in the pool.
pub const TOUCH_SLOT_COUNT: usize = 30;

/// One touch slot. Coordinates are in milli-units; `init_x`/`init_y` hold
/// the position at touch-down (or after a flick consumed the swipe), and
/// `touch_valid` marks the slot as able to satisfy one tap match.
#[derive(Clone, Copy, PartialEq, Eq, Structural, Debug)]
pub struct TouchInfo {
    pub enable: bool,
    pub x: i64,
    pub y: i64,
    pub touch_valid: bool,
    pub init_x: i64,
    pub init_y: i64,
}

impl Default for TouchInfo {
    /// An untouched slot; it is valid so that the first touch-down can
    /// satisfy a match.
    fn default() -> (r: TouchInfo)
        ensures
            r == (TouchInfo {
                enable: false,
                x: 0i64,
                y: 0i64,
                touch_valid: true,
                init_x: 0i64,
                init_y: 0i64,
            }),
    {
        TouchInfo { enable: false, x: 0, y: 0, touch_valid: true, init_x: 0, init_y: 0 }
    }
}

/// Coordinate bounds of one touch slot.
pub open spec fn touch_wf(t: TouchInfo) -> bool {
    &&& -COORD_MAX <= t.x <= COORD_MAX
    &&& -COORD_MAX <= t.y <= COORD_MAX
    &&& -COORD_MAX <= t.init_x <= COORD_MAX
    &&& -COORD_MAX <= t.init_y <= COORD_MAX
}

pub open spec fn touches_wf(s: Seq<TouchInfo>) -> bool {
    forall|i: int| 0 <= i < s.len() ==> touch_wf(#[trigger] s[i])
}

/// Squared displacement since the last baseline reset, in squared
/// milli-units.
pub open spec fn spec_length_sq(t: TouchInfo) -> int {
    (t.x - t.init_x) * (t.x - t.init_x) + (t.y - t.init_y) * (t.y - t.init_y)
}

impl TouchInfo {
    /// Squared swipe length since the last baseline reset.
    pub fn length_sq(&self) -> (r: i128)
        requires
            touch_wf(*self),
        ensures
            r == spec_length_sq(*self),
            r >= 0,
    {
        let dx: i64 = self.x - self.init_x;
        let dy: i64 = self.y - self.init_y;
        proof {
            lemma_square_bound(dx as int);
            lemma_square_bound(dy as int);
        }
        (dx as i128) * (dx as i128) + (dy as i128) * (dy as i128)
    }

    /// Moves the swipe baseline to the current position.
    pub fn reset_length(&mut self)
        ensures
            *final(self) == (TouchInfo {
                init_x: old(self).x,
                init_y: old(self).y,
                ..*old(self)
            }),
    {
        self.init_x = self.x;
        self.init_y = self.y;
    }
}

/// Squares of bounded coordinates stay small and nonnegative.
proof fn lemma_square_bound(d: int)
    requires
        -4_000_000_001 <= d <= 4_000_000_001,
    ensures
        0 <= d * d <= 20_000_000_000_000_000_000,
{
    assert(0 <= d * d <= 20_000_000_000_000_000_000) by (nonlinear_arith)
        requires
            -4_000_000_001 <= d <= 4_000_000_001,
    ;
}

/// One decoded raw record: slot id and the little-endian bit patterns of
/// the two coordinate floats.
#[derive(Clone, Copy, PartialEq, Eq, Structural, Debug)]
pub struct TouchRecord {
    pub id: u8,
    pub x_bits: u32,
    pub y_bits: u32,
}

/// One touch sample after the host converted the float bits, in
/// milli-units.
#[derive(Clone, Copy, PartialEq, Eq, Structural, Debug)]
pub struct TouchSample {
    pub id: u8,
    pub x: i64,
    pub y: i64,
}

/// A 32-bit little-endian value from four bytes.
pub open spec fn spec_le32(b0: u8, b1: u8, b2: u8, b3: u8) -> u32 {
    (b0 + b1 * 0x100 + b2 * 0x1_0000 + b3 * 0x100_0000) as u32
}

/// The records encoded in a raw buffer from byte `c` on: read ten-byte
/// records while the continuation byte is nonzero; a zero continuation
/// byte, the buffer's end, or a truncated record ends the stream.
pub open spec fn spec_decode_from(b: Seq<u8>, c: int) -> Seq<TouchRecord>
    decreases b.len() - c,
{
    if c < 0 || c >= b.len() {
        Seq::empty()
    } else if b[c] == 0 {
        Seq::empty()
    } else if c + 10 > b.len() {
        Seq::empty()
    } else {
        seq![
            TouchRecord {
                id: b[c + 1],
                x_bits: spec_le32(b[c + 2], b[c + 3], b[c + 4], b[c + 5]),
                y_bits: spec_le32(b[c + 6], b[c + 7], b[c + 8], b[c + 9]),
            },
        ] + spec_decode_from(b, c + 10)
    }
}

/// Reads a 32-bit little-endian value from four buffer bytes.
fn read_le32(buffer: &Vec<u8>, c: usize) -> (r: u32)
    requires
        c + 4 <= buffer@.len(),
    ensures
        r == spec_le32(buffer@[c as int], buffer@[c + 1], buffer@[c + 2], buffer@[c + 3]),
{
    let len = buffer.len();
    let b0 = buffer[c] as u32;
    let b1 = buffer[c + 1] as u32;
    let b2 = buffer[c + 2] as u32;
    let b3 = buffer[c + 3] as u32;
    b0 + b1 * 0x100 + b2 * 0x1_0000 + b3 * 0x100_0000
}

/// Decodes the host's raw touch buffer into records.
#[verifier::loop_isolation(false)]
pub fn decode_touch_records(buffer: &Vec<u8>) -> (r: Vec<TouchRecord>)
    ensures
        r@ == spec_decode_from(buffer@, 0),
{
    let mut out: Vec<TouchRecord> = Vec::new();
    let mut cursor: usize = 0;
    loop
        invariant
            spec_decode_from(buffer@, 0) == out@ + spec_decode_from(buffer@, cursor as int),
            cursor <= buffer@.len() + 10,
        decreases buffer@.len() + 10 - cursor,
    {
        if cursor >= buffer.len() {
            proof {
                assert(spec_decode_from(buffer@, cursor as int) =~= Seq::<TouchRecord>::empty());
                assert(out@ + Seq::<TouchRecord>::empty() =~= out@);
            }
            return out;
        }
        let check_byte = buffer[cursor];
        if check_byte == 0 {
            proof {
                assert(out@ + spec_decode_from(buffer@, cursor as int) =~= out@);
            }
            return out;
        }
        if buffer.len() - cursor < 10 {
            proof {
                assert(out@ + spec_decode_from(buffer@, cursor as int) =~= out@);
            }
            return out;
        }
        let id = buffer[cursor + 1];
        let x_bits = read_le32(buffer, cursor + 2);
        let y_bits = read_le32(buffer, cursor + 6);
        let rec = TouchRecord { id, x_bits, y_bits };
        proof {
            assert(spec_decode_from(buffer@, cursor as int) =~= seq![rec] + spec_decode_from(
                buffer@,
                cursor as int + 10,
            ));
            assert((out@ + spec_decode_from(buffer@, cursor as int)) =~= (out@.push(rec)
                + spec_decode_from(buffer@, cursor as int + 10)));
        }
        out.push(rec);
        cursor = cursor + 10;
    }
}

/// One sample applied to the pool: position updated, the baseline moved on
/// a fresh touch-down, and the slot enabled.
pub open spec fn spec_apply_one(ts: Seq<TouchInfo>, s: TouchSample) -> Seq<TouchInfo> {
    if s.id < ts.len() {
        let t = ts[s.id as int];
        ts.update(
            s.id as int,
            TouchInfo {
                enable: true,
                x: s.x,
                y: s.y,
                touch_valid: t.touch_valid,
                init_x: if !t.enable {
                    s.x
                } else {
                    t.init_x
                },
                init_y: if !t.enable {
                    s.y
                } else {
                    t.init_y
                },
            },
        )
    } else {
        ts
    }
}

/// All samples applied in order.
pub open spec fn spec_apply_samples(ts: Seq<TouchInfo>, ss: Seq<TouchSample>) -> Seq<TouchInfo>
    decreases ss.len(),
{
    if ss.len() == 0 {
        ts
    } else {
        spec_apply_one(spec_apply_samples(ts, ss.drop_last()), ss.last())
    }
}

/// Whether some sample addresses slot `i`.
pub open spec fn spec_id_present(ss: Seq<TouchSample>, i: int) -> bool {
    exists|k: int| 0 <= k < ss.len() && #[trigger] ss[k].id == i
}

/// The release pass: a slot no sample addressed is released and becomes
/// valid again for the next touch-down; addressed slots stay enabled.
pub open spec fn spec_release_pass(ts: Seq<TouchInfo>, ss: Seq<TouchSample>) -> Seq<TouchInfo> {
    Seq::new(
        ts.len(),
        |i: int|
            {
                let t = ts[i];
                if !spec_id_present(ss, i) && t.enable {
                    TouchInfo { enable: false, touch_valid: true, ..t }
                } else if spec_id_present(ss, i) {
                    TouchInfo { enable: true, ..t }
                } else {
                    t
                }
            },
    )
}

/// The whole per-frame touch ingest.
pub open spec fn spec_touch_ingest(ts: Seq<TouchInfo>, ss: Seq<TouchSample>) -> Seq<TouchInfo> {
    spec_release_pass(spec_apply_samples(ts, ss), ss)
}

/// Applies one frame's decoded touch samples to the pool: updates the
/// addressed slots, then releases every slot that received no sample.
#[verifier::loop_isolation(false)]
pub fn process_touch_info(touches: &mut Vec<TouchInfo>, samples: &Vec<TouchSample>)
    requires
        touches_wf(old(touches)@),
        old(touches)@.len() <= TOUCH_SLOT_COUNT,
        forall|k: int|
            0 <= k < samples@.len() ==> (#[trigger] samples@[k].id as int) < old(
                touches,
            )@.len(),
        forall|k: int|
            0 <= k < samples@.len() ==> {
                &&& -COORD_MAX <= #[trigger] samples@[k].x <= COORD_MAX
                &&& -COORD_MAX <= samples@[k].y <= COORD_MAX
            },
    ensures
        final(touches)@ == spec_touch_ingest(old(touches)@, samples@),
        final(touches)@.len() == old(touches)@.len(),
        touches_wf(final(touches)@),
{
    let n = samples.len();
    let mut k: usize = 0;
    while k < n
        invariant
            k <= n,
            touches@.len() == old(touches)@.len(),
            touches@ == spec_apply_samples(old(touches)@, samples@.take(k as int)),
            touches_wf(touches@),
        decreases n - k,
    {
        let s = samples[k];
        let slot = s.id as usize;
        let t = crate::states::el_mut(touches, slot);
        let was_enabled = t.enable;
        t.x = s.x;
        t.y = s.y;
        if !was_enabled {
            t.init_x = s.x;
            t.init_y = s.y;
        }
        t.enable = true;
        proof {
            assert(samples@.take(k as int + 1).drop_last() =~= samples@.take(k as int));
            assert(touches@ =~= spec_apply_samples(old(touches)@, samples@.take(k as int + 1)));
        }
        k = k + 1;
    }
    proof {
        assert(samples@.take(n as int) =~= samples@);
    }
    let ghost mid = touches@;
    let m = touches.len();
    let mut i: usize = 0;
    while i < m
        invariant
            i <= m,
            m == touches@.len(),
            touches@.len() == mid.len(),
            forall|j: int| i <= j < m ==> touches@[j] == mid[j],
            forall|j: int| 0 <= j < i ==> touches@[j] == spec_release_pass(mid, samples@)[j],
            touches_wf(touches@),
            touches_wf(mid),
        decreases m - i,
    {
        let mut present = false;
        let mut q: usize = 0;
        while q < n
            invariant
                q <= n,
                present == spec_id_present(samples@.take(q as int), i as int),
            decreases n - q,
        {
            if samples[q].id as usize == i {
                present = true;
            }
            proof {
                assert(samples@.take(q as int + 1).drop_last() =~= samples@.take(q as int));
                if !spec_id_present(samples@.take(q as int + 1), i as int) {
                    assert(samples@.take(q as int + 1)[q as int] == samples@[q as int]);
                }
                if spec_id_present(samples@.take(q as int), i as int) {
                    let w = choose|w: int|
                        0 <= w < q && #[trigger] samples@.take(q as int)[w].id == i as int;
                    assert(samples@.take(q as int + 1)[w].id == i as int);
                }
            }
            q = q + 1;
        }
        proof {
            assert(samples@.take(n as int) =~= samples@);
        }
        let t = crate::states::el_mut(touches, i);
        if !present && t.enable {
            t.enable = false;
            t.touch_valid = true;
        } else if present {
            t.enable = true;
        }
        i = i + 1;
    }
    proof {
        assert(touches@ =~= spec_release_pass(mid, samples@));
    }
}

} // verus!
