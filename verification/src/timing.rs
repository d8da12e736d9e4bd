//! The pipeline's clock: when a segment boundary falls, when the encoder is
//! asked for a keyframe, and when the muxing session is replaced.

use vstd::arithmetic::div_mod::{lemma_fundamental_div_mod, lemma_fundamental_div_mod_converse};
use vstd::arithmetic::mul::lemma_mul_is_commutative;
use vstd::prelude::*;

verus! {

/// While fewer boundaries than this have been crossed, every boundary asks
/// for a keyframe.
pub const WARM_UP: u64 = 90;

/// After the warm-up, a boundary asks for a keyframe where the number of
/// boundaries crossed is a multiple of this.
pub const KEYFRAME_INTERVAL: u64 = 10;

/// The number of multiples of `step` in `0..end`.
pub open spec fn multiples_before(end: int, step: int) -> int
    recommends
        end >= 0,
        step > 0,
{
    (end + step - 1) / step
}

/// Whether the encoder is asked for a keyframe at the boundary that brings
/// the number of boundaries crossed to `intra_count`.
pub open spec fn forces_keyframe(intra_count: int) -> bool {
    intra_count < WARM_UP || intra_count % (KEYFRAME_INTERVAL as int) == 0
}

/// What the pipeline does in one tick.
#[derive(Clone, Copy, Debug, PartialEq, Eq, Structural)]
pub struct Tick {
    /// The tick starts a segment.
    pub is_boundary: bool,
    /// The encoder is asked to make this frame a keyframe.
    pub force_keyframe: bool,
    /// After the frame is written, the session is closed and a new one opened.
    pub rotate: bool,
    /// The time of the frame just encoded, and of its packet.
    pub start_ms: u64,
    /// The time for which the frame is shown.
    pub duration_ms: u64,
    /// The time stamped on the picture handed to the encoder.
    pub picture_ms: u64,
}

/// The pipeline's clock.
#[derive(Clone, Copy, Debug, PartialEq, Eq, Structural)]
pub struct Clock {
    /// The time between two ticks.
    pub frame_duration_ms: u64,
    /// The length of a segment.
    pub ts_duration_ms: u64,
    /// The time of the next frame.
    pub current_ms: u64,
    /// The number of segment boundaries crossed so far.
    pub intra_count: u64,
}

/// Whether a clock can run on these two durations: both are positive, and a
/// segment is a whole number of frames.
pub open spec fn valid_timing(frame_duration_ms: u64, ts_duration_ms: u64) -> bool {
    &&& frame_duration_ms > 0
    &&& ts_duration_ms > 0
    &&& ts_duration_ms % frame_duration_ms == 0
}

impl Clock {
    /// The durations are valid, the clock stands on a frame, and it has
    /// counted every boundary before the time it shows.
    pub open spec fn wf(self) -> bool {
        &&& valid_timing(self.frame_duration_ms, self.ts_duration_ms)
        &&& self.current_ms % self.frame_duration_ms == 0
        &&& self.intra_count == multiples_before(
            self.current_ms as int,
            self.ts_duration_ms as int,
        )
    }

    pub open spec fn start(frame_duration_ms: u64, ts_duration_ms: u64) -> Clock {
        Clock { frame_duration_ms, ts_duration_ms, current_ms: 0, intra_count: 0 }
    }

    /// The next tick starts a segment.
    pub open spec fn is_boundary(self) -> bool {
        self.current_ms % self.ts_duration_ms == 0
    }

    /// The clock can be advanced by one more frame.
    pub open spec fn can_tick(self) -> bool {
        self.current_ms + self.frame_duration_ms <= u64::MAX
    }

    /// The number of boundaries crossed once the next tick is done.
    pub open spec fn next_count(self) -> int {
        if self.is_boundary() {
            self.intra_count + 1
        } else {
            self.intra_count as int
        }
    }

    /// What the next tick does.
    pub open spec fn plan(self) -> Tick {
        Tick {
            is_boundary: self.is_boundary(),
            force_keyframe: self.is_boundary() && forces_keyframe(self.next_count()),
            rotate: self.is_boundary() && self.current_ms != 0,
            start_ms: self.current_ms,
            duration_ms: self.frame_duration_ms,
            picture_ms: (self.current_ms + self.frame_duration_ms) as u64,
        }
    }

    /// The clock after the next tick.
    pub open spec fn advance(self) -> Clock {
        Clock {
            frame_duration_ms: self.frame_duration_ms,
            ts_duration_ms: self.ts_duration_ms,
            current_ms: (self.current_ms + self.frame_duration_ms) as u64,
            intra_count: self.next_count() as u64,
        }
    }

    /// The clock after `ticks` ticks.
    pub open spec fn after(self, ticks: nat) -> Clock
        decreases ticks,
    {
        if ticks == 0 {
            self
        } else {
            self.after((ticks - 1) as nat).advance()
        }
    }

    /// Whether a clock can run on these two durations.
    pub fn valid(frame_duration_ms: u64, ts_duration_ms: u64) -> (r: bool)
        ensures
            r == valid_timing(frame_duration_ms, ts_duration_ms),
    {
        frame_duration_ms > 0 && ts_duration_ms > 0 && ts_duration_ms % frame_duration_ms == 0
    }

    /// A clock at time zero that has crossed no boundary.
    pub fn new(frame_duration_ms: u64, ts_duration_ms: u64) -> (r: Clock)
        requires
            valid_timing(frame_duration_ms, ts_duration_ms),
        ensures
            r == Clock::start(frame_duration_ms, ts_duration_ms),
            r.wf(),
    {
        proof {
            lemma_fundamental_div_mod_converse(
                ts_duration_ms - 1,
                ts_duration_ms as int,
                0,
                ts_duration_ms - 1,
            );
            lemma_fundamental_div_mod_converse(0, frame_duration_ms as int, 0, 0);
        }
        Clock { frame_duration_ms, ts_duration_ms, current_ms: 0, intra_count: 0 }
    }

    /// Whether the clock can be advanced by one more frame.
    pub fn ready(&self) -> (r: bool)
        ensures
            r == self.can_tick(),
    {
        self.current_ms <= u64::MAX - self.frame_duration_ms
    }

    /// Decides what the next tick does, and advances the clock by one frame.
    pub fn tick(&mut self) -> (r: Tick)
        requires
            old(self).wf(),
            old(self).can_tick(),
        ensures
            r == old(self).plan(),
            *final(self) == old(self).advance(),
            final(self).wf(),
    {
        proof {
            lemma_advance(*self);
        }
        let is_boundary = self.current_ms % self.ts_duration_ms == 0;
        let start_ms = self.current_ms;
        self.current_ms += self.frame_duration_ms;
        let mut force_keyframe = false;
        if is_boundary {
            self.intra_count += 1;
            if self.intra_count < WARM_UP || self.intra_count % KEYFRAME_INTERVAL == 0 {
                force_keyframe = true;
            }
        }
        Tick {
            is_boundary,
            force_keyframe,
            rotate: is_boundary && start_ms != 0,
            start_ms,
            duration_ms: self.frame_duration_ms,
            picture_ms: self.current_ms,
        }
    }
}

/// One tick keeps a clock well formed: the count of boundaries stays the
/// number of segment starts before the time shown, and fits its type.
pub proof fn lemma_advance(c: Clock)
    requires
        c.wf(),
        c.can_tick(),
    ensures
        c.advance().wf(),
        c.next_count() <= c.current_ms + c.frame_duration_ms,
        c.next_count() == multiples_before(
            c.current_ms + c.frame_duration_ms,
            c.ts_duration_ms as int,
        ),
{
    let f = c.frame_duration_ms as int;
    let ts = c.ts_duration_ms as int;
    let cur = c.current_ms as int;
    let q = cur / ts;
    let r = cur % ts;
    lemma_fundamental_div_mod(cur, ts);
    lemma_mul_is_commutative(ts, q);
    assert(cur == q * ts + r);
    assert(0 <= r < ts);
    assert(q >= 0) by (nonlinear_arith)
        requires
            cur == q * ts + r,
            cur >= 0,
            r < ts,
            ts > 0,
    ;
    // The remainder within the segment is itself a whole number of frames.
    let m = ts / f;
    lemma_fundamental_div_mod(ts, f);
    assert(ts == f * m);
    lemma_fundamental_div_mod(cur, f);
    let k = cur / f;
    assert(cur == f * k);
    assert(r == f * (k - q * m)) by (nonlinear_arith)
        requires
            cur == q * ts + r,
            ts == f * m,
            cur == f * k,
    ;
    let j = k - q * m;
    assert(r + f <= ts) by (nonlinear_arith)
        requires
            r == f * j,
            ts == f * m,
            r < ts,
            f > 0,
    ;
    assert((q + 1) * ts == q * ts + ts) by (nonlinear_arith);
    assert((k + 1) * f == f * k + f) by (nonlinear_arith);
    if r == 0 {
        // cur == q * ts: q boundaries before, q + 1 after.
        lemma_fundamental_div_mod_converse(cur + ts - 1, ts, q, ts - 1);
        lemma_fundamental_div_mod_converse(cur + f + ts - 1, ts, q + 1, f - 1);
        assert(q + 1 <= cur + f) by (nonlinear_arith)
            requires
                cur == q * ts,
                ts >= 1,
                q >= 0,
                f >= 1,
        ;
    } else {
        lemma_fundamental_div_mod_converse(cur + ts - 1, ts, q + 1, r - 1);
        lemma_fundamental_div_mod_converse(cur + f + ts - 1, ts, q + 1, r + f - 1);
        assert(q + 1 <= cur + f) by (nonlinear_arith)
            requires
                cur == q * ts + r,
                ts >= 1,
                q >= 0,
                r >= 1,
                f >= 1,
        ;
    }
    // The new time is again a whole number of frames.
    lemma_fundamental_div_mod_converse(cur + f, f, k + 1, 0);
}

/// From the start, a clock shows after `ticks` ticks the time of that many
/// frames, it has counted one boundary for every segment begun before that
/// time, and its next tick starts a segment exactly where `ticks` is a
/// multiple of the number of frames in a segment.
pub proof fn lemma_boundary_every_segment(frame_duration_ms: u64, ts_duration_ms: u64, ticks: nat)
    requires
        valid_timing(frame_duration_ms, ts_duration_ms),
        ticks * frame_duration_ms <= u64::MAX,
    ensures
        Clock::start(frame_duration_ms, ts_duration_ms).after(ticks).wf(),
        Clock::start(frame_duration_ms, ts_duration_ms).after(ticks).frame_duration_ms
            == frame_duration_ms,
        Clock::start(frame_duration_ms, ts_duration_ms).after(ticks).ts_duration_ms
            == ts_duration_ms,
        Clock::start(frame_duration_ms, ts_duration_ms).after(ticks).current_ms == ticks
            * frame_duration_ms,
        Clock::start(frame_duration_ms, ts_duration_ms).after(ticks).intra_count
            == multiples_before(ticks as int, ts_duration_ms as int / frame_duration_ms as int),
        Clock::start(frame_duration_ms, ts_duration_ms).after(ticks).is_boundary() <==> ticks % (
        ts_duration_ms as nat / frame_duration_ms as nat) == 0,
    decreases ticks,
{
    let f = frame_duration_ms as int;
    let ts = ts_duration_ms as int;
    let m = ts / f;
    let first = Clock::start(frame_duration_ms, ts_duration_ms);
    lemma_fundamental_div_mod(ts, f);
    assert(ts == f * m);
    assert(m >= 1) by (nonlinear_arith)
        requires
            ts == f * m,
            ts > 0,
            f > 0,
    ;
    if ticks == 0 {
        lemma_fundamental_div_mod_converse(ts - 1, ts, 0, ts - 1);
        lemma_fundamental_div_mod_converse(m - 1, m, 0, m - 1);
        lemma_fundamental_div_mod_converse(0, f, 0, 0);
        lemma_fundamental_div_mod_converse(0, ts, 0, 0);
        lemma_fundamental_div_mod_converse(0, m, 0, 0);
        assert(0nat * frame_duration_ms == 0) by (nonlinear_arith);
    } else {
        let done = (ticks - 1) as nat;
        assert(done * f + f == ticks * f) by (nonlinear_arith)
            requires
                done == ticks - 1,
        ;
        assert(done * f <= ticks * f);
        lemma_boundary_every_segment(frame_duration_ms, ts_duration_ms, done);
        let c = first.after(done);
        assert(first.after(ticks) == c.advance());
        assert(c.current_ms == done * f);
        lemma_advance(c);
        assert(first.after(ticks).current_ms == ticks * f);
    }
    let now = first.after(ticks);
    let t = ticks as int;
    // The time splits into whole segments and a rest, as the ticks split into
    // whole groups of `m` and a rest.
    let q = t / m;
    let r = t % m;
    lemma_fundamental_div_mod(t, m);
    assert(t * f == q * ts + r * f) by (nonlinear_arith)
        requires
            t == m * q + r,
            ts == f * m,
    ;
    assert(0 <= r * f < ts) by (nonlinear_arith)
        requires
            0 <= r < m,
            ts == f * m,
            f > 0,
    ;
    lemma_fundamental_div_mod_converse(t * f, ts, q, r * f);
    assert(r * f == 0 <==> r == 0) by (nonlinear_arith)
        requires
            f > 0,
            r >= 0,
    ;
    assert((q + 1) * ts == q * ts + ts) by (nonlinear_arith);
    assert((q + 1) * m == q * m + m) by (nonlinear_arith);
    lemma_mul_is_commutative(m, q);
    if r == 0 {
        lemma_fundamental_div_mod_converse(t * f + ts - 1, ts, q, ts - 1);
        lemma_fundamental_div_mod_converse(t + m - 1, m, q, m - 1);
    } else {
        assert(r * f + ts - 1 - ts < ts && r * f - 1 >= 0);
        lemma_fundamental_div_mod_converse(t * f + ts - 1, ts, q + 1, r * f - 1);
        lemma_fundamental_div_mod_converse(t + m - 1, m, q + 1, r - 1);
    }
}

} // verus!
