//! Per-frame update scheduling: a wrapping frame counter plus "fires every N
//! frames" rates derived from a duration at an assumed fixed frame rate.

use vstd::prelude::*;
use vstd::arithmetic::div_mod::{
    lemma_mod_add_multiples_vanish, lemma_add_mod_noop, lemma_small_mod,
};

verus! {

/// The frame rate assumed when a rate is derived from a duration alone.
pub const ASSUMED_FPS: u32 = 60;

/// A rate lay outside the representable range at construction time; this is a
/// build-time wiring bug, fatal for the host.
#[derive(Copy, Clone, PartialEq, Eq, Structural, Debug)]
pub enum SchedulingConfigError {
    /// The duration yields fewer than one frame between updates.
    BelowOneFrame,
    /// The duration yields more frames than the counter can represent.
    AboveCounterRange,
}

/// How many whole frames pass between updates for a duration in milliseconds
/// at `fps` frames per second.
pub open spec fn frames_between_updates(num_millis: u32, fps: u32) -> int {
    num_millis * fps / 1000
}

/// An immutable "fires every N frames" value, N >= 1.
#[derive(Copy, Clone)]
pub struct UpdateRate {
    every_n_frames: u16,
}

/// A process-wide frame counter, incremented once per render iteration and
/// wrapping silently; only its value modulo a rate matters.
#[derive(Copy, Clone)]
pub struct FrameCounter {
    wrapping_frame_index: u16,
}

/// A rate is due at a frame index exactly when the index is a multiple of the
/// rate's period.
pub open spec fn is_due(rate: UpdateRate, frame_index: u16) -> bool {
    frame_index % rate.spec_every_n_frames() == 0
}

impl UpdateRate {
    pub closed spec fn spec_every_n_frames(self) -> u16 {
        self.every_n_frames
    }

    /// A rate rejects degenerate periods: it fires at least every frame.
    pub open spec fn wf(self) -> bool {
        1 <= self.spec_every_n_frames()
    }

    /// The "once per frame" rate.
    pub fn once_per_frame() -> (r: Self)
        ensures
            r.spec_every_n_frames() == 1,
            r.wf(),
    {
        Self { every_n_frames: 1 }
    }

    /// Derive a rate from a duration in milliseconds at `fps` frames per
    /// second: the number of frames between updates is floored, and the
    /// construction fails when it leaves the counter's representable range.
    pub fn from_seconds(num_millis_between_updates: u32, fps: u32) -> (r: Result<
        Self,
        SchedulingConfigError,
    >)
        ensures
            ({
                let frames = frames_between_updates(num_millis_between_updates, fps);
                &&& (r is Ok <==> 1 <= frames <= u16::MAX)
                &&& (r is Ok ==> r->Ok_0.spec_every_n_frames() == frames && r->Ok_0.wf())
                &&& (frames < 1 ==> r == Err::<Self, _>(SchedulingConfigError::BelowOneFrame))
                &&& (frames > u16::MAX ==> r == Err::<Self, _>(
                    SchedulingConfigError::AboveCounterRange,
                ))
            }),
    {
        proof {
            assert((num_millis_between_updates as int) * (fps as int) <= (u32::MAX as int) * (
            u32::MAX as int)) by (nonlinear_arith)
                requires
                    num_millis_between_updates <= u32::MAX,
                    fps <= u32::MAX,
            ;
        }
        let frames: u128 = (num_millis_between_updates as u128) * (fps as u128) / 1000;
        if frames < 1 {
            Err(SchedulingConfigError::BelowOneFrame)
        } else if frames > (u16::MAX as u128) {
            Err(SchedulingConfigError::AboveCounterRange)
        } else {
            Ok(Self { every_n_frames: frames as u16 })
        }
    }

    /// Derive a rate from a duration in milliseconds at the assumed fixed
    /// frame rate.
    pub fn new(num_millis_between_updates: u32) -> (r: Result<Self, SchedulingConfigError>)
        ensures
            ({
                let frames = frames_between_updates(num_millis_between_updates, ASSUMED_FPS);
                &&& (r is Ok <==> 1 <= frames <= u16::MAX)
                &&& (r is Ok ==> r->Ok_0.spec_every_n_frames() == frames && r->Ok_0.wf())
                &&& (frames < 1 ==> r == Err::<Self, _>(SchedulingConfigError::BelowOneFrame))
                &&& (frames > u16::MAX ==> r == Err::<Self, _>(
                    SchedulingConfigError::AboveCounterRange,
                ))
            }),
    {
        Self::from_seconds(num_millis_between_updates, ASSUMED_FPS)
    }

    pub fn every_n_frames(&self) -> (r: u16)
        ensures
            r == self.spec_every_n_frames(),
    {
        self.every_n_frames
    }

    /// Whether a periodic task with this rate is due at the counter's current
    /// frame index.
    pub fn is_time_to_update(self, frame_counter: FrameCounter) -> (r: bool)
        requires
            self.wf(),
        ensures
            r == is_due(self, frame_counter.spec_index()),
    {
        frame_counter.index() % self.every_n_frames == 0
    }
}

impl FrameCounter {
    pub closed spec fn spec_index(self) -> u16 {
        self.wrapping_frame_index
    }

    pub fn new() -> (r: Self)
        ensures
            r.spec_index() == 0,
    {
        Self { wrapping_frame_index: 0 }
    }

    /// Advance by one frame, wrapping silently at the type's range.
    pub fn tick(&mut self)
        ensures
            final(self).spec_index() == (old(self).spec_index() + 1) % 0x10000,
    {
        if self.wrapping_frame_index == u16::MAX {
            self.wrapping_frame_index = 0;
        } else {
            self.wrapping_frame_index = self.wrapping_frame_index + 1;
        }
    }

    pub fn index(&self) -> (r: u16)
        ensures
            r == self.spec_index(),
    {
        self.wrapping_frame_index
    }
}

/// LAW: a rate is due exactly every `every_n_frames` ticks starting at index
/// 0: it is due at 0, it is due at an index exactly when the index is a
/// multiple of the period, a due index is followed by the next due index one
/// period later, and no index strictly between two such indices is due.
pub proof fn lemma_is_due_exactly_every_n(rate: UpdateRate, i: u16)
    requires
        rate.wf(),
    ensures
        is_due(rate, 0),
        is_due(rate, i) <==> i as int % (rate.spec_every_n_frames() as int) == 0,
        is_due(rate, i) && i + rate.spec_every_n_frames() <= u16::MAX ==> is_due(
            rate,
            (i + rate.spec_every_n_frames()) as u16,
        ),
        forall|j: u16|
            is_due(rate, i) && i < j < i + rate.spec_every_n_frames() ==> !is_due(rate, j),
{
    let n = rate.spec_every_n_frames() as int;
    lemma_small_mod(0nat, n as nat);
    if is_due(rate, i) && i + n <= u16::MAX {
        lemma_mod_add_multiples_vanish(i as int, n);
    }
    assert forall|j: u16| is_due(rate, i) && i < j < i + n implies !is_due(rate, j) by {
        let d = j - i;
        lemma_add_mod_noop(i as int, d as int, n);
        lemma_small_mod(d as nat, n as nat);
        lemma_small_mod(0nat, n as nat);
    }
}

/// LAW: the "once per frame" rate is due at every frame index.
pub proof fn lemma_once_per_frame_always_due(rate: UpdateRate, i: u16)
    requires
        rate.spec_every_n_frames() == 1,
    ensures
        is_due(rate, i),
{
    assert(i as int % 1int == 0);
}

} // verus!
