//! Press-and-hold moves: the single background task ("busy"), the direction
//! of a hold toward a target, the coast-compensated stop point, and the
//! samples that calibrate it.

use vstd::prelude::*;

use crate::protocol::{command_bytes, Direction, DEAD_MAN_MS, POLL_MS};

verus! {

/// Refuse a hold-to-target move for a gap of at most this many raw counts
/// (1 raw is about 0.1 mm): below it the desk cannot meaningfully reposition.
/// Also the stop margin of the very first move, before the coast model is
/// calibrated.
pub const TARGET_DEADBAND: i32 = 10;

/// Hard cap on the predicted coast distance (raw counts) a move leads the
/// target by, so a bad coast factor can never stop the desk far too early.
pub const MAX_LEAD: i32 = 120;

/// How long (ms) to keep watching the height after STOP for the desk to coast
/// to rest.
pub const SETTLE_TIMEOUT_MS: u64 = 800;

/// The slot of the one background move ("busy" task). `T` is the handle used
/// to signal the running task to stop.
pub struct BusySlot<T> {
    task: Option<T>,
}

impl<T> View for BusySlot<T> {
    type V = Option<T>;

    closed spec fn view(&self) -> Option<T> {
        self.task
    }
}

/// The slot after an attempt to start a task, and whether it started: only
/// when connected and no task runs.
pub open spec fn begin<T>(slot: Option<T>, connected: bool, token: T) -> (Option<T>, bool) {
    if connected && slot is None {
        (Some(token), true)
    } else {
        (slot, false)
    }
}

impl<T> BusySlot<T> {
    /// No task running.
    pub fn new() -> (s: BusySlot<T>)
        ensures
            s@ is None,
    {
        BusySlot { task: None }
    }

    /// Whether a background move is running.
    pub fn is_busy(&self) -> (b: bool)
        ensures
            b == self@ is Some,
    {
        self.task.is_some()
    }

    /// Start a background task signalled by `token`: a no-op when not
    /// connected or when a task already runs. Returns whether it started; the
    /// caller then reports motion and spawns the work.
    pub fn try_begin(&mut self, connected: bool, token: T) -> (started: bool)
        ensures
            (final(self)@, started) == begin(old(self)@, connected, token),
    {
        if !connected || self.task.is_some() {
            return false;
        }
        self.task = Some(token);
        true
    }

    /// The running task finished: the slot is free again.
    pub fn finish(&mut self)
        ensures
            final(self)@ is None,
    {
        self.task = None;
    }

    /// What a stop request acts on: the running task's handle, which the
    /// caller signals, or `None`, in which case the caller just stops the
    /// motor.
    pub fn current(&self) -> (t: Option<&T>)
        ensures
            t is None <==> self@ is None,
            t matches Some(x) ==> self@ == Some(*x),
    {
        match &self.task {
            Some(t) => Some(t),
            None => None,
        }
    }
}

/// At most one background move: once one has started, every further start is
/// refused until it finishes.
pub proof fn lemma_one_task_at_a_time<T>(slot: Option<T>, c1: bool, t1: T, c2: bool, t2: T)
    requires
        begin(slot, c1, t1).1,
    ensures
        begin(begin(slot, c1, t1).0, c2, t2) == (Some(t1), false),
{
}

/// After a task finishes, a new one may start (when connected).
pub proof fn lemma_finish_frees_slot<T>(t: T)
    ensures
        begin(None, true, t) == (Some(t), true),
{
}

/// The gap `target - current` fits an `i32` and has an `i32` magnitude.
pub open spec fn gap_fits(current: int, target: int) -> bool {
    i32::MIN < target - current <= i32::MAX
}

/// `|x|`.
pub open spec fn abs(x: int) -> int {
    if x < 0 {
        -x
    } else {
        x
    }
}

/// Which way a hold toward `target` drives, or `None` when there is nothing to
/// do: no height known yet, or a gap within [`TARGET_DEADBAND`].
pub open spec fn hold_target_plan(current: Option<i32>, target: i32) -> Option<Direction> {
    match current {
        None => None,
        Some(c) => if abs(target - c) <= TARGET_DEADBAND {
            None
        } else if target > c {
            Some(Direction::Up)
        } else {
            Some(Direction::Down)
        },
    }
}

/// The direction of a press-and-hold move toward `target_raw`.
pub fn hold_target_direction(current: Option<i32>, target_raw: i32) -> (d: Option<Direction>)
    requires
        current matches Some(c) ==> gap_fits(c as int, target_raw as int),
    ensures
        d == hold_target_plan(current, target_raw),
{
    let c = match current {
        Some(c) => c,
        None => return None,
    };
    let gap = target_raw - c;
    let dist = if gap < 0 {
        -gap
    } else {
        gap
    };
    if dist <= TARGET_DEADBAND {
        return None;
    }
    if target_raw > c {
        Some(Direction::Up)
    } else {
        Some(Direction::Down)
    }
}

/// A hold toward a target always drives toward it, and only across a gap
/// wider than the dead band.
pub proof fn lemma_hold_closes_gap(current: i32, target: i32)
    ensures
        hold_target_plan(Some(current), target) == Some(Direction::Up) ==> target > current + TARGET_DEADBAND,
        hold_target_plan(Some(current), target) == Some(Direction::Down) ==> target < current - TARGET_DEADBAND,
        hold_target_plan(Some(current), target) is None ==> abs(target - current) <= TARGET_DEADBAND,
{
}

/// A predicted coast held within `[-MAX_LEAD, MAX_LEAD]`.
pub open spec fn clamp_lead(lead: int) -> int {
    if lead < -MAX_LEAD {
        -MAX_LEAD as int
    } else if lead > MAX_LEAD {
        MAX_LEAD as int
    } else {
        lead
    }
}

/// Whether a hold toward `target` should cut the motor now. Calibrated
/// (`lead` is the predicted coast, speed times the learned factor, rounded):
/// when the height the desk will coast to reaches the target, the lead capped
/// at [`MAX_LEAD`]. Uncalibrated: when the height is within
/// [`TARGET_DEADBAND`] of the target.
pub open spec fn reached(direction: Direction, current: int, target: int, lead: Option<int>) -> bool {
    match lead {
        Some(l) => match direction {
            Direction::Up => current + clamp_lead(l) >= target,
            Direction::Down => current + clamp_lead(l) <= target,
        },
        None => match direction {
            Direction::Up => current >= target - TARGET_DEADBAND,
            Direction::Down => current <= target + TARGET_DEADBAND,
        },
    }
}

/// The sums [`reached`] forms fit an `i32`.
pub open spec fn reached_fits(direction: Direction, current: int, target: int, lead: Option<int>) -> bool {
    match lead {
        Some(l) => i32::MIN <= current + clamp_lead(l) <= i32::MAX,
        None => match direction {
            Direction::Up => target - TARGET_DEADBAND >= i32::MIN,
            Direction::Down => target + TARGET_DEADBAND <= i32::MAX,
        },
    }
}

/// Decide whether a hold toward `target_raw` has reached its cutoff point.
pub fn drive_reached(direction: Direction, current: i32, target_raw: i32, lead: Option<i32>) -> (r: bool)
    requires
        reached_fits(direction, current as int, target_raw as int, match lead {
            Some(l) => Some(l as int),
            None => None,
        }),
    ensures
        r == reached(direction, current as int, target_raw as int, match lead {
            Some(l) => Some(l as int),
            None => None,
        }),
{
    match lead {
        Some(l) => {
            let capped = if l < -MAX_LEAD {
                -MAX_LEAD
            } else if l > MAX_LEAD {
                MAX_LEAD
            } else {
                l
            };
            match direction {
                Direction::Up => current + capped >= target_raw,
                Direction::Down => current + capped <= target_raw,
            }
        },
        None => match direction {
            Direction::Up => current >= target_raw - TARGET_DEADBAND,
            Direction::Down => current <= target_raw + TARGET_DEADBAND,
        },
    }
}

/// When an uncalibrated hold cuts the motor: going up, exactly once the
/// height is within [`TARGET_DEADBAND`] below the target or anywhere above it;
/// going down, the mirror image.
pub proof fn lemma_uncalibrated_cutoff(current: int, target: int)
    ensures
        reached(Direction::Up, current, target, None) <==> current + 10 >= target,
        reached(Direction::Down, current, target, None) <==> current <= target + 10,
        current >= target ==> reached(Direction::Up, current, target, None),
        current <= target ==> reached(Direction::Down, current, target, None),
{
}

/// When a calibrated hold cuts the motor: once the height plus the predicted
/// coast reaches the target (going up) or falls to it (going down). A
/// prediction beyond 120 counts either way counts as 120.
pub proof fn lemma_calibrated_cutoff(current: int, target: int, lead: int)
    ensures
        -120 <= lead <= 120 ==> (reached(Direction::Up, current, target, Some(lead)) <==> current + lead >= target),
        -120 <= lead <= 120 ==> (reached(Direction::Down, current, target, Some(lead)) <==> current + lead <= target),
        lead > 120 ==> (reached(Direction::Up, current, target, Some(lead)) <==> current + 120 >= target),
        lead > 120 ==> (reached(Direction::Down, current, target, Some(lead)) <==> current + 120 <= target),
        lead < -120 ==> (reached(Direction::Up, current, target, Some(lead)) <==> current - 120 >= target),
        lead < -120 ==> (reached(Direction::Down, current, target, Some(lead)) <==> current - 120 <= target),
{
}

/// The cutoff is monotone toward the target: a desk at or beyond a height at
/// which the cutoff fires (higher going up, lower going down) fires it too.
pub proof fn lemma_cutoff_monotone(direction: Direction, c1: int, c2: int, target: int, lead: Option<int>)
    requires
        reached(direction, c1, target, lead),
        direction == Direction::Up ==> c2 >= c1,
        direction == Direction::Down ==> c2 <= c1,
    ensures
        reached(direction, c2, target, lead),
{
}

/// However wrong the coast factor, a move never cuts the motor more than
/// [`MAX_LEAD`] short of its target.
pub proof fn lemma_cutoff_never_far_short(direction: Direction, current: int, target: int, lead: Option<int>)
    requires
        reached(direction, current, target, lead),
    ensures
        direction == Direction::Up ==> current >= target - MAX_LEAD,
        direction == Direction::Down ==> current <= target + MAX_LEAD,
{
}

/// Whether an observed coast is plausible: it went the way the desk moved,
/// from a cutoff speed of more than 2 in that direction.
pub open spec fn coast_is_sane(direction: Direction, coast: int, cutoff_v: int) -> bool {
    match direction {
        Direction::Up => coast >= 0 && cutoff_v > 2,
        Direction::Down => coast <= 0 && cutoff_v < -2,
    }
}

/// The coast (`rest - cutoff_h`) of one observed move, if it is fit to learn
/// from: plausible and no larger than [`MAX_LEAD`]. Wrong-sign coasts,
/// near-stationary cutoffs and outliers give `None`.
pub open spec fn usable_coast(direction: Direction, cutoff_h: int, cutoff_v: int, rest: int) -> Option<int> {
    let coast = rest - cutoff_h;
    if !coast_is_sane(direction, coast, cutoff_v) || abs(coast) > MAX_LEAD {
        None
    } else {
        Some(coast)
    }
}

/// Screen one observed move for the coast model. The caller folds the ratio
/// of the returned coast to `cutoff_v` into its factor.
pub fn coast_sample(direction: Direction, cutoff_h: i32, cutoff_v: i32, rest: i32) -> (c: Option<i32>)
    requires
        i32::MIN <= rest - cutoff_h <= i32::MAX,
        rest - cutoff_h == i32::MIN ==> !coast_is_sane(direction, rest - cutoff_h, cutoff_v as int),
    ensures
        c == match usable_coast(direction, cutoff_h as int, cutoff_v as int, rest as int) {
            Some(v) => Some(v as i32),
            None => None::<i32>,
        },
{
    let coast = rest - cutoff_h;
    let sane = match direction {
        Direction::Up => coast >= 0 && cutoff_v > 2,
        Direction::Down => coast <= 0 && cutoff_v < -2,
    };
    if !sane {
        return None;
    }
    let size = if coast < 0 {
        -coast
    } else {
        coast
    };
    if size > MAX_LEAD {
        None
    } else {
        Some(coast)
    }
}

/// A sample the model learns from coasts the way the desk moved, by at most
/// [`MAX_LEAD`], from a speed above 2 in that direction, so the factor it
/// yields is positive.
pub proof fn lemma_usable_coast_is_plausible(direction: Direction, cutoff_h: int, cutoff_v: int, rest: int)
    requires
        usable_coast(direction, cutoff_h, cutoff_v, rest) is Some,
    ensures
        abs(rest - cutoff_h) <= MAX_LEAD,
        direction == Direction::Up ==> rest >= cutoff_h && cutoff_v > 2,
        direction == Direction::Down ==> rest <= cutoff_h && cutoff_v < -2,
{
}

/// Every plausible coast of at most 120 counts is learned from, as the
/// distance from the cutoff height to the resting height.
pub proof fn lemma_plausible_coast_is_usable(direction: Direction, cutoff_h: int, cutoff_v: int, rest: int)
    requires
        -120 <= rest - cutoff_h <= 120,
        direction == Direction::Up ==> rest >= cutoff_h && cutoff_v > 2,
        direction == Direction::Down ==> rest <= cutoff_h && cutoff_v < -2,
    ensures
        usable_coast(direction, cutoff_h, cutoff_v, rest) == Some(rest - cutoff_h),
{
}

/// Whether the desk has come to rest: it reports a speed of zero.
pub fn is_at_rest(speed: Option<i32>) -> (r: bool)
    ensures
        r == (speed == Some(0i32)),
{
    match speed {
        Some(v) => v == 0,
        None => false,
    }
}

/// Where a driven move stands.
#[derive(Clone, Copy, Debug, PartialEq, Eq, Structural)]
pub enum MovePhase {
    /// Repeating the direction command.
    Driving,
    /// STOP was written; the release of the move-to-target latch is due.
    Releasing,
    /// Over: nothing more is written.
    Finished,
}

/// What a driven move writes next.
#[derive(Clone, Copy, Debug)]
pub enum MoveStep {
    /// Write `bytes` to the move characteristic, then wait at most `wait_ms`
    /// for a wake-up before the next step.
    Drive { bytes: [u8; 2], wait_ms: u64 },
    /// Write STOP to the move characteristic.
    Stop,
    /// Write RELEASE to the reference-in characteristic.
    Release,
    /// Write nothing; the move is over.
    Finished,
}

/// A driven move in one direction: keep-alive writes of the direction's
/// command while it goes on, then STOP followed by RELEASE.
pub struct MoveSession {
    direction: Direction,
    phase: MovePhase,
}

/// The abstract content of a [`MoveSession`].
pub struct MoveSessionView {
    pub direction: Direction,
    pub phase: MovePhase,
}

impl View for MoveSession {
    type V = MoveSessionView;

    closed spec fn view(&self) -> MoveSessionView {
        MoveSessionView { direction: self.direction, phase: self.phase }
    }
}

/// The step a move in `phase` takes: while driving and `go_on`, the
/// direction's command with a wait within the keep-alive period; when a
/// connected move halts, STOP and then RELEASE; a move that halts without a
/// connection writes nothing more.
pub open spec fn move_step(phase: MovePhase, go_on: bool, connected: bool) -> MovePhase {
    match phase {
        MovePhase::Driving => if go_on {
            MovePhase::Driving
        } else if connected {
            MovePhase::Releasing
        } else {
            MovePhase::Finished
        },
        _ => MovePhase::Finished,
    }
}

/// Whether `step` is what a move in `phase` of `direction` writes.
pub open spec fn step_matches(step: MoveStep, direction: Direction, phase: MovePhase, go_on: bool, connected: bool) -> bool {
    match phase {
        MovePhase::Driving => if go_on {
            step matches MoveStep::Drive { bytes, wait_ms } && bytes@ == command_bytes(direction) && wait_ms == POLL_MS
        } else if connected {
            step is Stop
        } else {
            step is Finished
        },
        MovePhase::Releasing => step is Release,
        MovePhase::Finished => step is Finished,
    }
}

impl MoveSession {
    /// A move in `direction`, driving.
    pub fn new(direction: Direction) -> (m: MoveSession)
        ensures
            m@.direction == direction,
            m@.phase == MovePhase::Driving,
    {
        MoveSession { direction, phase: MovePhase::Driving }
    }

    /// Where the move stands.
    pub fn phase(&self) -> (p: MovePhase)
        ensures
            p == self@.phase,
    {
        self.phase
    }

    /// The next write. `go_on` says whether the move continues (not stopped,
    /// target not reached, last write accepted); `connected` whether a desk
    /// is there to write to when it halts.
    pub fn step(&mut self, go_on: bool, connected: bool) -> (s: MoveStep)
        ensures
            final(self)@.direction == old(self)@.direction,
            final(self)@.phase == move_step(old(self)@.phase, go_on, connected),
            step_matches(s, old(self)@.direction, old(self)@.phase, go_on, connected),
    {
        match self.phase {
            MovePhase::Driving => {
                if go_on {
                    MoveStep::Drive { bytes: self.direction.command(), wait_ms: POLL_MS }
                } else if connected {
                    self.phase = MovePhase::Releasing;
                    MoveStep::Stop
                } else {
                    self.phase = MovePhase::Finished;
                    MoveStep::Finished
                }
            },
            MovePhase::Releasing => {
                self.phase = MovePhase::Finished;
                MoveStep::Release
            },
            MovePhase::Finished => MoveStep::Finished,
        }
    }
}

/// Every keep-alive write repeats the direction's command and is followed by a
/// wait shorter than the desk's dead-man timer.
pub proof fn lemma_keep_alive_within_dead_man(step: MoveStep, direction: Direction, go_on: bool, connected: bool)
    requires
        step_matches(step, direction, MovePhase::Driving, go_on, connected),
        step is Drive,
    ensures
        step->bytes@ == command_bytes(direction),
        step->wait_ms < DEAD_MAN_MS,
{
}

/// A connected move that halts writes STOP, then RELEASE, then nothing more,
/// whatever its caller reports after the halt.
pub proof fn lemma_halt_is_stop_then_release(
    direction: Direction,
    s1: MoveStep, s2: MoveStep, s3: MoveStep,
    g2: bool, c2: bool, g3: bool, c3: bool,
)
    requires
        step_matches(s1, direction, MovePhase::Driving, false, true),
        step_matches(s2, direction, move_step(MovePhase::Driving, false, true), g2, c2),
        step_matches(s3, direction, move_step(move_step(MovePhase::Driving, false, true), g2, c2), g3, c3),
    ensures
        s1 is Stop,
        s2 is Release,
        s3 is Finished,
        move_step(move_step(MovePhase::Driving, false, true), g2, c2) == MovePhase::Finished,
{
}

/// Once over, a move stays over and writes nothing.
pub proof fn lemma_finished_is_final(direction: Direction, s: MoveStep, go_on: bool, connected: bool)
    requires
        step_matches(s, direction, MovePhase::Finished, go_on, connected),
    ensures
        s is Finished,
        move_step(MovePhase::Finished, go_on, connected) == MovePhase::Finished,
{
}

} // verus!
