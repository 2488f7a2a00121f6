//! The animation driver: a per-actor cyclic timer over an inclusive frame
//! range. Each elapsed period steps the display frame once, wrapping from
//! the end of the range back to its start.

use vstd::arithmetic::div_mod::{
    lemma_add_mod_noop, lemma_fundamental_div_mod, lemma_fundamental_div_mod_converse,
    lemma_small_mod,
};
use vstd::prelude::*;

verus! {

use crate::actor::SpawnError;

/// Looping animation data for one actor: the inclusive frame range
/// `frame_start..=frame_end`, the frame currently on display, and a cyclic
/// timer (`elapsed_micros` accumulates toward `period_micros`). All
/// durations are in microseconds.
#[derive(Clone, Copy, PartialEq, Eq, Structural, Debug)]
pub struct AnimationState {
    pub frame_start: u32,
    pub frame_end: u32,
    pub current_frame: u32,
    pub elapsed_micros: u64,
    pub period_micros: u64,
}

/// The frame on display after `steps` timer expirations, starting from
/// `current` inside the inclusive cycle `start..=end`: each step increments
/// the frame by one and wraps from `end` back to `start`. With
/// `start == end` every step wraps the single frame to itself.
pub open spec fn frame_cycled(start: int, end: int, current: int, steps: nat) -> int
    decreases steps,
{
    if steps == 0 {
        current
    } else {
        let prev = frame_cycled(start, end, current, (steps - 1) as nat);
        if prev == end {
            start
        } else {
            prev + 1
        }
    }
}

/// Incrementing a non-negative number either steps its remainder by one or
/// wraps the remainder to zero.
proof fn lemma_mod_succ(x: int, m: int)
    requires
        x >= 0,
        m >= 1,
    ensures
        x % m == m - 1 ==> (x + 1) % m == 0,
        x % m < m - 1 ==> (x + 1) % m == x % m + 1,
{
    lemma_fundamental_div_mod(x, m);
    if x % m == m - 1 {
        assert(x + 1 == (x / m + 1) * m + 0) by (nonlinear_arith)
            requires
                x == m * (x / m) + x % m,
                x % m == m - 1,
        ;
        lemma_fundamental_div_mod_converse(x + 1, m, x / m + 1, 0);
    } else {
        assert(x + 1 == (x / m) * m + (x % m + 1)) by (nonlinear_arith)
            requires
                x == m * (x / m) + x % m,
        ;
        lemma_fundamental_div_mod_converse(x + 1, m, x / m, x % m + 1);
    }
}

/// Wrap invariant: however many steps the cyclic automaton takes, the
/// displayed frame stays inside the inclusive range `start..=end`.
pub proof fn lemma_frame_cycled_in_range(start: int, end: int, current: int, steps: nat)
    requires
        start <= current <= end,
    ensures
        start <= frame_cycled(start, end, current, steps) <= end,
    decreases steps,
{
    if steps > 0 {
        lemma_frame_cycled_in_range(start, end, current, (steps - 1) as nat);
    }
}

/// Closed form of the cyclic automaton: `steps` steps from `current` land
/// on `start + ((current - start + steps) % cycle_length)`.
pub proof fn lemma_frame_cycled_mod(start: int, end: int, current: int, steps: nat)
    requires
        start <= current <= end,
    ensures
        frame_cycled(start, end, current, steps) == start + (current - start + steps) % (end - start
            + 1),
    decreases steps,
{
    let m = end - start + 1;
    if steps == 0 {
        lemma_small_mod((current - start) as nat, m as nat);
    } else {
        lemma_frame_cycled_mod(start, end, current, (steps - 1) as nat);
        lemma_frame_cycled_in_range(start, end, current, (steps - 1) as nat);
        lemma_mod_succ(current - start + steps - 1, m);
    }
}

impl AnimationState {
    /// Well-formedness: the displayed frame lies in the inclusive range,
    /// the period is positive, and the accumulator holds less than one
    /// full period.
    pub open spec fn valid(self) -> bool {
        &&& self.frame_start <= self.current_frame <= self.frame_end
        &&& self.period_micros >= 1
        &&& self.elapsed_micros < self.period_micros
    }

    /// What `new` returns for each input: the first violated construction
    /// rule, or the freshly started state.
    pub open spec fn construction(
        frame_start: u32,
        frame_end: u32,
        current_frame: u32,
        period_micros: u64,
    ) -> Result<AnimationState, SpawnError> {
        if frame_start > frame_end {
            Err(SpawnError::FrameRangeInverted)
        } else if current_frame < frame_start || current_frame > frame_end {
            Err(SpawnError::FrameOutOfRange)
        } else if period_micros == 0 {
            Err(SpawnError::ZeroPeriod)
        } else {
            Ok(
                AnimationState {
                    frame_start,
                    frame_end,
                    current_frame,
                    elapsed_micros: 0,
                    period_micros,
                },
            )
        }
    }

    /// Build a freshly started animation, rejecting an inverted frame
    /// range, an initial frame outside the range, and a zero period.
    pub fn new(frame_start: u32, frame_end: u32, current_frame: u32, period_micros: u64) -> (r:
        Result<AnimationState, SpawnError>)
        ensures
            r == Self::construction(frame_start, frame_end, current_frame, period_micros),
            r matches Ok(st) ==> st.valid(),
    {
        if frame_start > frame_end {
            Err(SpawnError::FrameRangeInverted)
        } else if current_frame < frame_start || current_frame > frame_end {
            Err(SpawnError::FrameOutOfRange)
        } else if period_micros == 0 {
            Err(SpawnError::ZeroPeriod)
        } else {
            Ok(
                AnimationState {
                    frame_start,
                    frame_end,
                    current_frame,
                    elapsed_micros: 0,
                    period_micros,
                },
            )
        }
    }

    /// The state after the timer advances by `dt_micros`: the accumulator
    /// keeps the remainder (no time is dropped) and the frame steps once
    /// per full period that has elapsed.
    pub open spec fn advanced(self, dt_micros: u64) -> AnimationState {
        let total = self.elapsed_micros + dt_micros;
        let period = self.period_micros as int;
        AnimationState {
            current_frame: frame_cycled(
                self.frame_start as int,
                self.frame_end as int,
                self.current_frame as int,
                (total / period) as nat,
            ) as u32,
            elapsed_micros: (total % period) as u64,
            ..self
        }
    }

    /// Advance the cyclic timer by `dt_micros`, carrying any remainder,
    /// and step the displayed frame once per elapsed period, wrapping from
    /// `frame_end` to `frame_start`.
    pub fn advance(&mut self, dt_micros: u64)
        requires
            old(self).valid(),
            old(self).elapsed_micros + dt_micros <= u64::MAX,
        ensures
            *final(self) == old(self).advanced(dt_micros),
            final(self).valid(),
    {
        let ghost s = self.frame_start as int;
        let ghost e = self.frame_end as int;
        let ghost c = self.current_frame as int;
        let ghost m = e - s + 1;
        let total: u64 = self.elapsed_micros + dt_micros;
        let steps: u64 = total / self.period_micros;
        self.elapsed_micros = total % self.period_micros;
        let cycle: u64 = (self.frame_end - self.frame_start) as u64 + 1;
        let offset: u64 = (self.current_frame - self.frame_start) as u64;
        let new_offset: u64 = (offset + steps % cycle) % cycle;
        self.current_frame = self.frame_start + (new_offset as u32);
        proof {
            lemma_frame_cycled_mod(s, e, c, steps as nat);
            lemma_small_mod((c - s) as nat, m as nat);
            lemma_add_mod_noop(c - s, steps as int, m);
            assert(new_offset == (c - s + steps) % m);
            assert(self.current_frame == frame_cycled(s, e, c, steps as nat));
        }
    }
}

} // verus!
