//! Presentation clock: exact conversion of stream timestamps to
//! nanoseconds, and the pacing decision that throttles video frames to the
//! rate their packet timestamps encode.
//!
//! The conversion is exact 128-bit integer arithmetic, never floating
//! point, so no error accumulates over a long playback. The clock never
//! fast-forwards to catch up: a frame that arrives late is shown at once
//! and the state is re-based on it, so a single late frame does not shift
//! every later one.

use vstd::arithmetic::div_mod::lemma_div_basics_1;
use vstd::arithmetic::div_mod::lemma_div_basics_4;
use vstd::arithmetic::div_mod::lemma_div_basics_5;
use vstd::prelude::*;

verus! {

/// One second in nanoseconds.
pub const NANOS_PER_SEC: i128 = 1_000_000_000;

/// Magnitude bound (2^124) on every nanosecond value `pts_to_ns` can
/// produce: |timestamp| <= 2^63, |numerator| <= 2^31, and 10^9 < 2^30.
pub const PTS_NS_BOUND: i128 = 0x10000000000000000000000000000000;

/// Nanosecond values the clock works with: far enough inside the `i128`
/// range that the gap between any two of them always fits.
pub open spec fn in_pts_range(v: int) -> bool {
    -(PTS_NS_BOUND as int) <= v <= PTS_NS_BOUND as int
}

/// Integer division rounding toward zero (the `/` of Rust's signed
/// integers), for positive divisors.
pub open spec fn trunc_div(a: int, b: int) -> int {
    if a >= 0 {
        a / b
    } else {
        -((-a) / b)
    }
}

/// The exact nanosecond value of a timestamp of `t` stream units under the
/// rational time base `num / den` seconds per unit: `t * num * 10^9 / den`,
/// rounded toward zero.
pub open spec fn pts_nanos(t: int, num: int, den: int) -> int {
    trunc_div(t * num * 1_000_000_000, den)
}

/// Converts a packet timestamp in stream time-base units to nanoseconds,
/// exactly: the rational value `t * num / den` seconds is scaled to
/// nanoseconds in 128-bit arithmetic and rounded toward zero.
pub fn pts_to_ns(t: i64, num: i32, den: i32) -> (r: i128)
    requires
        den > 0,
    ensures
        r == pts_nanos(t as int, num as int, den as int),
        in_pts_range(r as int),
{
    proof {
        assert((-0x400000000000000000000000int) <= (t as int) * (num as int)
            <= 0x400000000000000000000000int) by (nonlinear_arith)
            requires
                -0x8000000000000000 <= t as int <= 0x7fffffffffffffff,
                -0x80000000 <= num as int <= 0x7fffffff,
        ;
    }
    let wide: i128 = (t as i128) * (num as i128);
    proof {
        assert((-0x400000000000000000000000int) * 1_000_000_000 <= (wide as int) * 1_000_000_000
            <= 0x400000000000000000000000int * 1_000_000_000) by (nonlinear_arith)
            requires
                -0x400000000000000000000000 <= wide as int <= 0x400000000000000000000000,
        ;
        assert(0x400000000000000000000000int * 1_000_000_000 < PTS_NS_BOUND as int);
    }
    let scaled: i128 = wide * NANOS_PER_SEC;
    let divided = scaled.checked_div(den as i128);
    proof {
        let x = scaled as int;
        let d = den as int;
        if x > 0 {
            lemma_div_basics_4(x, d);
            lemma_div_basics_5(x, d);
        } else if x < 0 {
            lemma_div_basics_4(-x, d);
            lemma_div_basics_5(-x, d);
        } else {
            lemma_div_basics_1(d);
        }
        assert(divided is Some);
        assert(divided->0 == pts_nanos(t as int, num as int, den as int));
        assert(in_pts_range(divided->0 as int));
    }
    divided.unwrap()
}

/// The wait (in nanoseconds) that pacing asks for, as a function of the
/// previous presentation time, the new one, and the wall-clock time already
/// spent since the previous frame was shown: the target gap less the
/// elapsed time when the stream moved forward and the gap is not yet used
/// up, and zero otherwise. A first frame, a non-advancing timestamp, or an
/// elapsed time at or past the gap all ask for no wait.
pub open spec fn sleep_needed(prev: Option<i128>, new_ns: i128, elapsed_ns: u128) -> int {
    match prev {
        Some(p) => if p < new_ns && (elapsed_ns as int) < new_ns - p {
            new_ns - p - elapsed_ns
        } else {
            0
        },
        None => 0,
    }
}

/// The pacing state: the presentation time, in nanoseconds, of the last
/// frame whose timestamp was used for pacing. The companion wall-clock
/// instant of that frame lives with the caller, which measures elapsed
/// time; the clock itself never reads a wall clock.
pub struct Clock {
    pub prev: Option<i128>,
}

impl Clock {
    /// Every remembered presentation time came from `pts_to_ns`, so it is
    /// within `PTS_NS_BOUND` and gaps never overflow.
    pub open spec fn wf(self) -> bool {
        self.prev matches Some(p) ==> in_pts_range(p as int)
    }

    /// A fresh clock that has paced no frame yet.
    pub fn new() -> (c: Clock)
        ensures
            c.prev is None,
            c.wf(),
    {
        Clock { prev: None }
    }

    /// One pacing step. Returns how long the caller must block before
    /// presenting the frame whose presentation time is `new_ns`, given that
    /// `elapsed_ns` of wall-clock time already passed since the previous
    /// frame was shown. The state is re-based on `new_ns` unconditionally —
    /// also when no wait was needed — so skipped waits do not accumulate
    /// drift into later gaps.
    pub fn pace(&mut self, new_ns: i128, elapsed_ns: u128) -> (sleep_ns: u128)
        requires
            old(self).wf(),
            in_pts_range(new_ns as int),
        ensures
            final(self).prev == Some(new_ns),
            final(self).wf(),
            sleep_ns as int == sleep_needed(old(self).prev, new_ns, elapsed_ns),
    {
        let sleep: u128 = match self.prev {
            Some(p) => {
                if p < new_ns {
                    let gap: i128 = new_ns - p;
                    let gap_u: u128 = gap as u128;
                    if elapsed_ns < gap_u {
                        gap_u - elapsed_ns
                    } else {
                        0
                    }
                } else {
                    0
                }
            },
            None => 0,
        };
        self.prev = Some(new_ns);
        sleep
    }
}

/// Pacing never asks for a wait when the stream has not moved forward: a
/// presentation time at or before the previous one yields a zero sleep,
/// whatever wall-clock time has elapsed. The state update itself is
/// unconditional (see `Clock::pace`), so such a frame still re-bases the
/// clock.
pub proof fn lemma_no_sleep_when_not_ahead(prev_ns: i128, new_ns: i128, elapsed_ns: u128)
    requires
        new_ns <= prev_ns,
    ensures
        sleep_needed(Some(prev_ns), new_ns, elapsed_ns) == 0,
{
}

/// The total wait that pacing asks for over a run of presentation times,
/// paced in order with no wall-clock time spent between waits.
pub open spec fn total_sleep(pts: Seq<i128>) -> int
    decreases pts.len(),
{
    if pts.len() <= 1 {
        0
    } else {
        total_sleep(pts.drop_last()) + sleep_needed(
            Some(pts[pts.len() - 2]),
            pts.last(),
            0,
        )
    }
}

/// No accumulated drift: over any non-decreasing run of presentation
/// times, when the loop spends no wall-clock time outside the waits, the
/// waits sum exactly to the span from the first time to the last. Repeated
/// conversion and pacing introduces no compounding error.
pub proof fn lemma_no_drift(pts: Seq<i128>)
    requires
        pts.len() >= 1,
        forall|i: int| 0 <= i < pts.len() - 1 ==> #[trigger] pts[i] <= pts[i + 1],
    ensures
        total_sleep(pts) == pts.last() - pts.first(),
    decreases pts.len(),
{
    if pts.len() > 1 {
        let head = pts.drop_last();
        assert forall|i: int| 0 <= i < head.len() - 1 implies #[trigger] head[i] <= head[i
            + 1] by {
            assert(pts[i] <= pts[i + 1]);
        }
        lemma_no_drift(head);
        assert(pts[pts.len() - 2] <= pts[pts.len() - 2 + 1]);
    }
}

} // verus!
