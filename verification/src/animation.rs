//! The frame-based animation timer: a duration-driven index cursor over an
//! ordered, non-empty sequence of frames, looping or clamping once the
//! sequence is exhausted.
//!
//! Frames are opaque handles; the application maps each handle to whatever
//! it renders (a texture, an image).  Time is counted in integer units of
//! the application's choosing.

use vstd::arithmetic::div_mod::{
    lemma_div_pos_is_pos, lemma_fundamental_div_mod, lemma_fundamental_div_mod_converse_div,
    lemma_fundamental_div_mod_converse_mod, lemma_mod_division_less_than_divisor,
};
use vstd::arithmetic::mul::lemma_mul_is_distributive_add;
use vstd::prelude::*;

verus! {

/// The one construction-time failure: an animation must have at least one
/// frame.
#[derive(Clone, Copy, Debug, PartialEq, Eq, Structural)]
pub enum AnimationError {
    EmptyAnimation,
}

/// A set of frame handles and the timing state of the animation.
pub struct Animation {
    frames: Vec<u64>,
    repeating: bool,
    frame_timer: i64,
    frame_duration: i64,
    current_frame: usize,
}

/// The index that follows `idx` in a sequence of `n` frames: past the end it
/// wraps to 0 when repeating, else stays clamped on the last index.
pub open spec fn spec_next_index(idx: int, n: int, repeating: bool) -> int {
    if idx + 1 >= n {
        if repeating {
            0
        } else {
            n - 1
        }
    } else {
        idx + 1
    }
}

/// The countdown after one advance call: `dt` is subtracted, and when the
/// countdown reaches zero or below, one duration `d` is added back, so any
/// overshoot carries into the next frame's countdown.
pub open spec fn spec_step_timer(timer: int, dt: int, d: int) -> int {
    if timer - dt <= 0 {
        timer - dt + d
    } else {
        timer - dt
    }
}

/// The frame index after one advance call: it moves exactly when the
/// countdown ran out.
pub open spec fn spec_step_index(timer: int, dt: int, idx: int, n: int, repeating: bool) -> int {
    if timer - dt <= 0 {
        spec_next_index(idx, n, repeating)
    } else {
        idx
    }
}

impl Animation {
    /// The frame handles, in play order.
    pub closed spec fn frames(self) -> Seq<u64> {
        self.frames@
    }

    /// Whether the animation wraps to the first frame after the last.
    pub closed spec fn repeating(self) -> bool {
        self.repeating
    }

    /// The countdown until the next index advance.
    pub closed spec fn timer(self) -> int {
        self.frame_timer as int
    }

    /// How long each frame is displayed.
    pub closed spec fn duration(self) -> int {
        self.frame_duration as int
    }

    /// The index of the frame currently playing.
    pub closed spec fn index(self) -> int {
        self.current_frame as int
    }

    /// Well-formedness: at least one frame, a positive duration, an index in
    /// bounds, and a countdown never above one full duration.
    pub open spec fn wf(self) -> bool {
        &&& 1 <= self.frames().len()
        &&& 1 <= self.duration()
        &&& 0 <= self.index() < self.frames().len()
        &&& self.timer() <= self.duration()
    }

    /// Builds an animation over the given frame handles, each displayed for
    /// `frame_duration` time units.  Fails exactly when no frame is given;
    /// otherwise the animation starts at index 0 with a full countdown.
    pub fn from(frames: Vec<u64>, frame_duration: i64, repeating: bool) -> (r: Result<
        Animation,
        AnimationError,
    >)
        requires
            1 <= frame_duration,
        ensures
            frames@.len() == 0 <==> r is Err,
            r matches Err(e) ==> e == AnimationError::EmptyAnimation,
            r matches Ok(a) ==> {
                &&& a.frames() == frames@
                &&& a.repeating() == repeating
                &&& a.duration() == frame_duration
                &&& a.timer() == frame_duration
                &&& a.index() == 0
                &&& a.wf()
            },
    {
        if frames.len() == 0 {
            return Err(AnimationError::EmptyAnimation);
        }
        Ok(
            Animation {
                frames,
                repeating,
                frame_timer: frame_duration,
                frame_duration,
                current_frame: 0,
            },
        )
    }

    /// Returns the handle of the frame that should play, after counting
    /// `delta_t` off the countdown and advancing the index once if the
    /// countdown ran out, applying the wrap or clamp policy.
    pub fn get_frame(&mut self, delta_t: i64) -> (r: u64)
        requires
            old(self).wf(),
            0 <= delta_t,
            i64::MIN + delta_t <= old(self).timer(),
        ensures
            final(self).frames() == old(self).frames(),
            final(self).repeating() == old(self).repeating(),
            final(self).duration() == old(self).duration(),
            final(self).timer() == spec_step_timer(
                old(self).timer(),
                delta_t as int,
                old(self).duration(),
            ),
            final(self).index() == spec_step_index(
                old(self).timer(),
                delta_t as int,
                old(self).index(),
                old(self).frames().len() as int,
                old(self).repeating(),
            ),
            final(self).wf(),
            r == final(self).frames()[final(self).index()],
    {
        self.frame_timer = self.frame_timer - delta_t;

        if self.frame_timer <= 0 {
            self.frame_timer = self.frame_timer + self.frame_duration;
            let n = self.frames.len();
            if self.current_frame + 1 >= n {
                if self.repeating {
                    self.current_frame = 0;
                } else {
                    self.current_frame = n - 1;
                }
            } else {
                self.current_frame = self.current_frame + 1;
            }
        }

        self.frames[self.current_frame]
    }

    /// Returns the index of the current frame that should play.
    pub fn get_current_frame(&self) -> (r: usize)
        ensures
            r == self.index(),
    {
        self.current_frame
    }
}

/// The total of a sequence of elapsed times.
pub open spec fn spec_sum(deltas: Seq<int>) -> int
    decreases deltas.len(),
{
    if deltas.len() == 0 {
        0
    } else {
        deltas[0] + spec_sum(deltas.drop_first())
    }
}

/// The index reached after `advances` index advances from 0 over `n`
/// frames: wrapped modulo `n` when repeating, clamped to the last index
/// otherwise.
pub open spec fn spec_wrap(advances: int, n: int, repeating: bool) -> int {
    if repeating {
        advances % n
    } else if advances < n - 1 {
        advances
    } else {
        n - 1
    }
}

/// The timer and index after a whole sequence of advance calls.
pub open spec fn spec_run(
    timer: int,
    idx: int,
    d: int,
    n: int,
    repeating: bool,
    deltas: Seq<int>,
) -> (int, int)
    decreases deltas.len(),
{
    if deltas.len() == 0 {
        (timer, idx)
    } else {
        spec_run(
            spec_step_timer(timer, deltas[0], d),
            spec_step_index(timer, deltas[0], idx, n, repeating),
            d,
            n,
            repeating,
            deltas.drop_first(),
        )
    }
}

/// A sum of non-negative elapsed times is non-negative.
proof fn lemma_sum_nonneg(deltas: Seq<int>)
    requires
        forall|i: int| 0 <= i < deltas.len() ==> 0 <= #[trigger] deltas[i],
    ensures
        0 <= spec_sum(deltas),
    decreases deltas.len(),
{
    if deltas.len() > 0 {
        lemma_sum_nonneg(deltas.drop_first());
    }
}

/// Advancing the index once more is the same as counting one more advance.
proof fn lemma_wrap_next(a: int, n: int, repeating: bool)
    requires
        0 <= a,
        1 <= n,
    ensures
        spec_next_index(spec_wrap(a, n, repeating), n, repeating) == spec_wrap(
            a + 1,
            n,
            repeating,
        ),
{
    if repeating {
        lemma_mod_division_less_than_divisor(a, n);
        lemma_fundamental_div_mod(a, n);
        assert(a == n * (a / n) + a % n);
        assert(n * (a / n) == (a / n) * n) by (nonlinear_arith);
        if a % n + 1 >= n {
            lemma_mul_is_distributive_add(n, a / n, 1);
            assert(n * (a / n + 1) == (a / n + 1) * n) by (nonlinear_arith);
            assert(a + 1 == (a / n + 1) * n + 0);
            lemma_fundamental_div_mod_converse_mod(a + 1, n, a / n + 1, 0);
        } else {
            assert(a + 1 == (a / n) * n + (a % n + 1));
            lemma_fundamental_div_mod_converse_mod(a + 1, n, a / n, a % n + 1);
        }
    }
}

/// The timing invariant of the countdown: as long as every advance call
/// hands over at most one frame duration, the countdown always encodes the
/// total elapsed time `t` as `d - t % d`, and the index is the wrap or
/// clamp of `t / d`.
proof fn lemma_run_tracks_elapsed(d: int, n: int, repeating: bool, deltas: Seq<int>, t0: int)
    requires
        1 <= d,
        1 <= n,
        0 <= t0,
        forall|i: int| 0 <= i < deltas.len() ==> 0 <= #[trigger] deltas[i] <= d,
    ensures
        ({
            let t1 = t0 + spec_sum(deltas);
            spec_run(d - t0 % d, spec_wrap(t0 / d, n, repeating), d, n, repeating, deltas) == (
                d - t1 % d,
                spec_wrap(t1 / d, n, repeating),
            )
        }),
    decreases deltas.len(),
{
    lemma_mod_division_less_than_divisor(t0, d);
    lemma_div_pos_is_pos(t0, d);
    lemma_fundamental_div_mod(t0, d);
    if deltas.len() > 0 {
        let dt = deltas[0];
        let t1 = t0 + dt;
        let timer = d - t0 % d;
        assert(0 <= dt <= d);
        if timer - dt > 0 {
            lemma_fundamental_div_mod_converse_mod(t1, d, t0 / d, t0 % d + dt);
            lemma_fundamental_div_mod_converse_div(t1, d, t0 / d, t0 % d + dt);
            lemma_run_tracks_elapsed(d, n, repeating, deltas.drop_first(), t1);
        } else {
            lemma_mul_is_distributive_add(d, t0 / d, 1);
            lemma_fundamental_div_mod_converse_mod(t1, d, t0 / d + 1, t0 % d + dt - d);
            lemma_fundamental_div_mod_converse_div(t1, d, t0 / d + 1, t0 % d + dt - d);
            lemma_wrap_next(t0 / d, n, repeating);
            lemma_run_tracks_elapsed(d, n, repeating, deltas.drop_first(), t1);
        }
    }
}

/// The animation index law: starting from a full countdown at index 0,
/// after advance calls whose elapsed times are each at most one frame
/// duration `d` and total `t`, the index is `(t / d) % n` for a repeating
/// animation over `n` frames, and the smaller of `t / d` and `n - 1` for a
/// clamping one.
pub proof fn lemma_animation_index(d: int, n: int, repeating: bool, deltas: Seq<int>)
    requires
        1 <= d,
        1 <= n,
        forall|i: int| 0 <= i < deltas.len() ==> 0 <= #[trigger] deltas[i] <= d,
    ensures
        ({
            let t = spec_sum(deltas);
            spec_run(d, 0, d, n, repeating, deltas).1 == if repeating {
                (t / d) % n
            } else if t / d < n - 1 {
                t / d
            } else {
                n - 1
            }
        }),
{
    lemma_sum_nonneg(deltas);
    lemma_fundamental_div_mod_converse_mod(0, d, 0, 0);
    lemma_fundamental_div_mod_converse_div(0, d, 0, 0);
    if repeating {
        lemma_fundamental_div_mod_converse_mod(0, n, 0, 0);
    }
    lemma_run_tracks_elapsed(d, n, repeating, deltas, 0);
}

} // verus!
