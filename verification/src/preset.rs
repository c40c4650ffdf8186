//! Drive to an arbitrary target height: a driven approach that stops once the
//! desk is close, then short fine-tune pulses until it is within tolerance.
//!
//! The tolerances, the round limit and the pulse and settle times below are
//! tuning values chosen for this library; the arrival rule is the same
//! approach-side margin that an uncalibrated hold uses.

use vstd::prelude::*;

use crate::motion::abs;
use crate::protocol::Direction;

verus! {

/// A target within this many raw counts of the height counts as reached: the
/// move is not started, and a driven approach stops this close to it.
pub const ARRIVE_TOLERANCE: i32 = 10;

/// Fine-tuning stops once the height is within this many raw counts of the
/// target.
pub const FINE_TOLERANCE: i32 = 5;

/// At most this many fine-tune rounds.
pub const FINE_MAX: u32 = 5;

/// How long (ms) one fine-tune pulse drives the motor.
pub const FINE_PULSE_MS: u64 = 100;

/// How long (ms) to let the desk settle before each fine-tune round.
pub const FINE_SETTLE_MS: u64 = 300;

/// The direction a move toward `target` reports, from the height known when
/// it is requested: up when below the target, down otherwise. `None` while no
/// height is known.
pub fn move_direction(current: Option<i32>, target: i32) -> (d: Option<Direction>)
    ensures
        current is None ==> d is None,
        current matches Some(c) ==> d == Some(if c < target { Direction::Up } else { Direction::Down }),
{
    match current {
        None => None,
        Some(c) => if c < target {
            Some(Direction::Up)
        } else {
            Some(Direction::Down)
        },
    }
}

/// The driven approach to `target` from `height`: the way to drive, or `None`
/// when the height is unknown or already within [`ARRIVE_TOLERANCE`].
pub open spec fn approach_plan(height: Option<i32>, target: i32) -> Option<Direction> {
    match height {
        None => None,
        Some(h) => if abs(h - target) <= ARRIVE_TOLERANCE {
            None
        } else if h < target {
            Some(Direction::Up)
        } else {
            Some(Direction::Down)
        },
    }
}

/// Plan the driven approach of a move to `target`.
pub fn plan_approach(height: Option<i32>, target: i32) -> (d: Option<Direction>)
    requires
        height matches Some(h) ==> i32::MIN < h - target <= i32::MAX,
    ensures
        d == approach_plan(height, target),
{
    let h = match height {
        Some(h) => h,
        None => return None,
    };
    let gap = h - target;
    let dist = if gap < 0 {
        -gap
    } else {
        gap
    };
    if dist <= ARRIVE_TOLERANCE {
        None
    } else if h < target {
        Some(Direction::Up)
    } else {
        Some(Direction::Down)
    }
}

/// A move to a preset drives up whenever the height is more than
/// [`ARRIVE_TOLERANCE`] below the target and down whenever it is more than that
/// above it, however wide the gap; it does nothing only when the height is
/// unknown or already within the tolerance.
pub proof fn lemma_approach_direction(h: i32, t: i32)
    ensures
        h < t - 10 ==> approach_plan(Some(h), t) == Some(Direction::Up),
        h > t + 10 ==> approach_plan(Some(h), t) == Some(Direction::Down),
        t - 10 <= h <= t + 10 ==> approach_plan(Some(h), t) is None,
        approach_plan(None, t) is None,
{
}

/// Whether a driven approach in `direction` has arrived: the height has come
/// within [`ARRIVE_TOLERANCE`] of the target from the side it started on, or
/// passed it.
pub open spec fn arrived_spec(direction: Direction, target: int, height: int) -> bool {
    match direction {
        Direction::Up => height >= target - ARRIVE_TOLERANCE,
        Direction::Down => height <= target + ARRIVE_TOLERANCE,
    }
}

/// Check a fresh height against the approach in progress.
pub fn arrived(direction: Direction, target: i32, height: i32) -> (r: bool)
    ensures
        r == arrived_spec(direction, target as int, height as int),
{
    let t = target as i64;
    let h = height as i64;
    match direction {
        Direction::Up => h >= t - ARRIVE_TOLERANCE as i64,
        Direction::Down => h <= t + ARRIVE_TOLERANCE as i64,
    }
}

/// An approach has arrived exactly when the height is within 10 counts of the
/// target on the side it came from, or past the target.
pub proof fn lemma_arrival_point(target: int, height: int)
    ensures
        arrived_spec(Direction::Up, target, height) <==> height + 10 >= target,
        arrived_spec(Direction::Down, target, height) <==> height <= target + 10,
{
}

/// An approach that has not arrived is still on its side of the target.
pub proof fn lemma_not_arrived_means_short(direction: Direction, target: int, height: int)
    requires
        !arrived_spec(direction, target, height),
    ensures
        direction == Direction::Up ==> height < target,
        direction == Direction::Down ==> height > target,
{
}

/// The fine-tune phase of a move: short pulses toward the target, at most
/// [`FINE_MAX`] rounds.
pub struct FineTune {
    target: i32,
    rounds_left: u32,
}

/// The abstract content of [`FineTune`].
pub struct FineTuneView {
    pub target: i32,
    pub rounds_left: nat,
}

impl View for FineTune {
    type V = FineTuneView;

    closed spec fn view(&self) -> FineTuneView {
        FineTuneView { target: self.target, rounds_left: self.rounds_left as nat }
    }
}

/// The pulse a fine-tune round gives at `height`, or `None` when the height is
/// unknown or already within [`FINE_TOLERANCE`] of the target.
pub open spec fn fine_pulse(target: i32, height: Option<i32>) -> Option<Direction> {
    match height {
        None => None,
        Some(h) => if abs(target - h) <= FINE_TOLERANCE {
            None
        } else if target - h > 0 {
            Some(Direction::Up)
        } else {
            Some(Direction::Down)
        },
    }
}

impl FineTune {
    /// Fine-tuning toward `target`, all rounds still to go.
    pub fn new(target: i32) -> (f: FineTune)
        ensures
            f@.target == target,
            f@.rounds_left == FINE_MAX,
    {
        FineTune { target, rounds_left: FINE_MAX }
    }

    /// Whether another round may run: rounds are left, the move was not
    /// stopped and the desk is still connected.
    pub fn proceed(&self, stopped: bool, connected: bool) -> (r: bool)
        ensures
            r == (self@.rounds_left > 0 && !stopped && connected),
    {
        self.rounds_left > 0 && !stopped && connected
    }

    /// Run one round at the settled `height`: the pulse to give, or `None` to
    /// end fine-tuning. The round is used up either way.
    pub fn round(&mut self, height: Option<i32>) -> (p: Option<Direction>)
        requires
            old(self)@.rounds_left > 0,
            height matches Some(h) ==> i32::MIN < old(self)@.target - h <= i32::MAX,
        ensures
            final(self)@.target == old(self)@.target,
            final(self)@.rounds_left == old(self)@.rounds_left - 1,
            p == fine_pulse(old(self)@.target, height),
    {
        self.rounds_left = self.rounds_left - 1;
        let h = match height {
            Some(h) => h,
            None => return None,
        };
        let diff = self.target - h;
        let dist = if diff < 0 {
            -diff
        } else {
            diff
        };
        if dist <= FINE_TOLERANCE {
            None
        } else if diff > 0 {
            Some(Direction::Up)
        } else {
            Some(Direction::Down)
        }
    }
}

/// Every fine-tune pulse drives toward the target.
pub proof fn lemma_pulse_toward_target(target: i32, h: i32)
    ensures
        fine_pulse(target, Some(h)) == Some(Direction::Up) ==> h < target - FINE_TOLERANCE,
        fine_pulse(target, Some(h)) == Some(Direction::Down) ==> h > target + FINE_TOLERANCE,
        fine_pulse(target, Some(h)) is None ==> abs(target - h) <= FINE_TOLERANCE,
{
}

} // verus!
