//! The adaptive iteration controller.
//!
//! While the view moves, every frame is drawn at the lowest iteration cap so
//! that navigation stays fluid. Once the view rests, the cap climbs by a fixed
//! increment every few frames until it reaches the highest cap.

use crate::input::KeyState;
use vstd::prelude::*;

verus! {

/// By how much the cap grows at each growth step.
pub const GROWTH_INCREMENT: u32 = 100;

/// After how many still frames the cap grows again.
pub const GROWTH_PERIOD: u64 = 5;

/// The cap used while the view moves, unless configured otherwise.
pub const DEFAULT_MIN_ITERATIONS: u32 = 150;

/// The cap that a resting view climbs to, unless configured otherwise.
pub const DEFAULT_MAX_ITERATIONS: u32 = 2000;

/// `value` brought into the closed range from `low` to `high`.
pub open spec fn clamped(value: int, low: int, high: int) -> int {
    if value < low {
        low
    } else if value > high {
        high
    } else {
        value
    }
}

/// The cap of a frame, given how many frames the view has been still and the
/// cap of the frame before.
pub open spec fn cap_after(frames_since_move: nat, current: int, min: int, max: int) -> int {
    if frames_since_move == 0 {
        min
    } else if frames_since_move % 5 == 0 {
        clamped(current + 100, min, max)
    } else {
        current
    }
}

/// Derives the cap of a frame from the number of frames since the view last
/// moved and the cap of the frame before.
pub fn next_cap(frames_since_move: u64, current: u32, min_iterations: u32, max_iterations: u32) -> (cap: u32)
    requires
        min_iterations <= max_iterations,
    ensures
        cap == cap_after(
            frames_since_move as nat,
            current as int,
            min_iterations as int,
            max_iterations as int,
        ),
        frames_since_move == 0 ==> cap == min_iterations,
        frames_since_move % 5 == 0 ==> min_iterations <= cap <= max_iterations,
{
    if frames_since_move == 0 {
        min_iterations
    } else if frames_since_move % GROWTH_PERIOD == 0 {
        let grown: u64 = current as u64 + GROWTH_INCREMENT as u64;
        if grown < min_iterations as u64 {
            min_iterations
        } else if grown > max_iterations as u64 {
            max_iterations
        } else {
            grown as u32
        }
    } else {
        current
    }
}

/// The controller as mathematics: unbounded counters, no machine limits.
pub struct ControllerModel {
    pub frames_since_move: nat,
    pub cap: int,
    pub min: int,
    pub max: int,
}

impl ControllerModel {
    /// The limits are ordered and the cap lies between them.
    pub open spec fn wf(self) -> bool {
        0 <= self.min <= self.cap <= self.max
    }

    /// The controller right after the view moved, or at startup.
    pub open spec fn fresh(min: int, max: int) -> ControllerModel {
        ControllerModel { frames_since_move: 0, cap: min, min, max }
    }

    /// The controller after one more frame, in which the view moved or not.
    pub open spec fn step(self, moved: bool) -> ControllerModel {
        let frames: nat = if moved {
            0
        } else {
            self.frames_since_move + 1
        };
        ControllerModel {
            frames_since_move: frames,
            cap: cap_after(frames, self.cap, self.min, self.max),
            min: self.min,
            max: self.max,
        }
    }

    /// The controller after `n` frames in a row without movement.
    pub open spec fn idle(self, n: nat) -> ControllerModel
        decreases n,
    {
        if n == 0 {
            self
        } else {
            self.idle((n - 1) as nat).step(false)
        }
    }
}

/// A frame keeps a well-formed controller well-formed and its limits as they
/// were.
pub proof fn lemma_step_preserves_wf(s: ControllerModel, moved: bool)
    requires
        s.wf(),
    ensures
        s.step(moved).wf(),
        s.step(moved).min == s.min,
        s.step(moved).max == s.max,
{
}

/// A frame in which the view moved resets the still-frame counter to zero and
/// the cap to the minimum, whatever they were before.
pub proof fn lemma_move_resets(s: ControllerModel)
    ensures
        s.step(true).frames_since_move == 0,
        s.step(true).cap == s.min,
        s.step(true) == ControllerModel::fresh(s.min, s.max),
{
}

/// A still frame never lowers the cap.
pub proof fn lemma_idle_never_lowers(s: ControllerModel)
    requires
        s.wf(),
    ensures
        s.cap <= s.step(false).cap <= s.max,
{
}

/// Starting right after a move, `n` still frames leave the counter at `n` and
/// the cap at the minimum plus one increment for every full growth period,
/// held at the maximum.
pub proof fn lemma_idle_growth(min: int, max: int, n: nat)
    requires
        0 <= min <= max,
    ensures
        ControllerModel::fresh(min, max).idle(n).frames_since_move == n,
        ControllerModel::fresh(min, max).idle(n).min == min,
        ControllerModel::fresh(min, max).idle(n).max == max,
        ControllerModel::fresh(min, max).idle(n).cap == clamped(min + 100 * (n / 5), min, max),
    decreases n,
{
    if n > 0 {
        let before = (n - 1) as nat;
        lemma_idle_growth(min, max, before);
        assert(n % 5 == 0 ==> n / 5 == before / 5 + 1) by (nonlinear_arith)
            requires
                before == n - 1,
                n > 0,
        ;
        assert(n % 5 != 0 ==> n / 5 == before / 5) by (nonlinear_arith)
            requires
                before == n - 1,
                n > 0,
        ;
        assert(before / 5 >= 0);
    }
}

/// With the default limits, five still frames after a move raise the cap from
/// 150 to 250, and a resting view reaches the cap of 2000 and stays there.
pub proof fn lemma_default_schedule(n: nat)
    ensures
        ControllerModel::fresh(150, 2000).idle(5).cap == 250,
        n < 5 ==> ControllerModel::fresh(150, 2000).idle(n).cap == 150,
        n >= 95 ==> ControllerModel::fresh(150, 2000).idle(n).cap == 2000,
{
    lemma_idle_growth(150, 2000, 5);
    lemma_idle_growth(150, 2000, n);
}

/// The movement-tracking part of the render state.
#[derive(Clone, Copy, Debug, PartialEq, Eq, Structural)]
pub struct IterationController {
    /// Frames drawn since the view last moved.
    pub frames_since_move: u64,
    /// The cap of the frame drawn last.
    pub current_max_iterations: u32,
    /// The cap while the view moves.
    pub min_iterations: u32,
    /// The cap that a resting view climbs to.
    pub max_iterations: u32,
}

impl View for IterationController {
    type V = ControllerModel;

    open spec fn view(&self) -> ControllerModel {
        ControllerModel {
            frames_since_move: self.frames_since_move as nat,
            cap: self.current_max_iterations as int,
            min: self.min_iterations as int,
            max: self.max_iterations as int,
        }
    }
}

impl IterationController {
    /// The limits are ordered and the cap lies between them.
    pub open spec fn wf(self) -> bool {
        self@.wf()
    }

    /// A controller at startup: no still frame yet, the cap at the minimum.
    pub fn new(min_iterations: u32, max_iterations: u32) -> (state: IterationController)
        requires
            min_iterations <= max_iterations,
        ensures
            state.wf(),
            state@ == ControllerModel::fresh(min_iterations as int, max_iterations as int),
    {
        IterationController {
            frames_since_move: 0,
            current_max_iterations: min_iterations,
            min_iterations,
            max_iterations,
        }
    }

    /// The cap of the frame drawn last.
    pub fn cap(&self) -> (cap: u32)
        ensures
            cap == self.current_max_iterations,
    {
        self.current_max_iterations
    }

    /// Accounts for one frame: counts it as still or resets the counter, then
    /// derives the frame's cap.
    pub fn advance(&mut self, moved: bool)
        requires
            old(self).wf(),
            moved || old(self).frames_since_move < u64::MAX,
        ensures
            final(self)@ == old(self)@.step(moved),
            final(self).wf(),
            moved ==> final(self).frames_since_move == 0 && final(self).current_max_iterations
                == old(self).min_iterations,
    {
        if moved {
            self.frames_since_move = 0;
        } else {
            self.frames_since_move = self.frames_since_move + 1;
        }
        self.current_max_iterations =
        next_cap(
            self.frames_since_move,
            self.current_max_iterations,
            self.min_iterations,
            self.max_iterations,
        );
    }

    /// Starts a frame from the keys sampled for it and returns the iteration
    /// cap to draw it with.
    pub fn begin_frame(&mut self, keys: &KeyState) -> (cap: u32)
        requires
            old(self).wf(),
            keys.moved() || old(self).frames_since_move < u64::MAX,
        ensures
            final(self)@ == old(self)@.step(keys.moved()),
            final(self).wf(),
            cap == final(self).current_max_iterations,
            keys.moved() ==> cap == old(self).min_iterations,
    {
        self.advance(keys.any_active());
        self.current_max_iterations
    }
}

impl Default for IterationController {
    /// The controller with the default limits.
    fn default() -> (state: IterationController)
        ensures
            state.wf(),
            state@ == ControllerModel::fresh(150, 2000),
    {
        IterationController::new(DEFAULT_MIN_ITERATIONS, DEFAULT_MAX_ITERATIONS)
    }
}

} // verus!
