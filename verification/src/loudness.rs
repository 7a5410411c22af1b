//! The integer rules of the integrated loudness measurement: where the
//! measurement blocks lie in a stream, at which levels blocks are gated, and
//! by which ratio a result is brought to the stereo scale.
//!
//! The filters and the power sums of the measurement work on sample values
//! and are the caller's; they take their block boundaries, their thresholds
//! and their scale from here.

use vstd::prelude::*;
use crate::stream::ChannelLayout;

verus! {

/// Blocks whose loudness is below this level, in loudness units relative to
/// full scale, are discarded first.
pub const ABSOLUTE_GATE: i32 = -70;

/// Of the blocks that pass the absolute gate, those more than this many
/// loudness units below their mean loudness are discarded as well. The value
/// is negative: the threshold lies below the mean.
pub const RELATIVE_GATE: i32 = -10;

/// Number of steps that one block spans. A block is 400 ms long and the
/// next one starts 100 ms later, so that successive blocks overlap by three
/// quarters.
pub const STEPS_PER_BLOCK: u64 = 4;

/// Where the measurement blocks of a stream lie, counted in frames.
///
/// The stream divides into steps of a tenth of a second. A block is a run of
/// [`STEPS_PER_BLOCK`] successive steps, and block number `b` begins with
/// step number `b`, both counted from 0.
#[derive(Clone, Copy, Debug, PartialEq, Eq)]
pub struct BlockSchedule {
    step: u64,
}

/// Number of frames in a tenth of a second at `sample_rate`, to the nearest
/// frame.
pub open spec fn step_frames(sample_rate: u32) -> nat {
    ((sample_rate + 5) / 10) as nat
}

impl BlockSchedule {
    /// Frames in one step.
    pub closed spec fn spec_step(&self) -> nat {
        self.step as nat
    }

    /// A schedule has a positive step that comes from a sample rate.
    pub open spec fn wf(&self) -> bool {
        0 < self.spec_step() <= step_frames(u32::MAX)
    }

    /// Frames in one block.
    pub open spec fn spec_block_len(&self) -> nat {
        STEPS_PER_BLOCK as nat * self.spec_step()
    }

    /// Number of whole steps in a stream of `frames` frames.
    pub open spec fn spec_step_count(&self, frames: nat) -> nat {
        frames / self.spec_step()
    }

    /// Number of whole blocks in a stream of `frames` frames.
    pub open spec fn spec_block_count(&self, frames: nat) -> nat {
        if self.spec_step_count(frames) < STEPS_PER_BLOCK {
            0
        } else {
            (self.spec_step_count(frames) - STEPS_PER_BLOCK + 1) as nat
        }
    }

    /// First frame of block number `block`.
    pub open spec fn spec_block_start(&self, block: nat) -> nat {
        block * self.spec_step()
    }

    /// The schedule for a stream of `sample_rate` frames per second, or
    /// `None` where the rate is too low for a step to hold a frame.
    pub fn new(sample_rate: u32) -> (schedule: Option<BlockSchedule>)
        ensures
            match schedule {
                Some(s) => s.wf() && s.spec_step() == step_frames(sample_rate),
                None => step_frames(sample_rate) == 0,
            },
    {
        let step: u64 = (sample_rate as u64 + 5) / 10;
        if step == 0 {
            None
        } else {
            Some(BlockSchedule { step })
        }
    }

    pub fn step(&self) -> (frames: u64)
        ensures
            frames == self.spec_step(),
    {
        self.step
    }

    pub fn block_len(&self) -> (frames: u64)
        requires
            self.wf(),
        ensures
            frames == self.spec_block_len(),
    {
        STEPS_PER_BLOCK * self.step
    }

    pub fn step_count(&self, frames: u64) -> (steps: u64)
        requires
            self.wf(),
        ensures
            steps == self.spec_step_count(frames as nat),
    {
        frames / self.step
    }

    /// Whether a step ends with frame number `seen`, counted from 1.
    pub fn completes_step(&self, seen: u64) -> (completes: bool)
        requires
            self.wf(),
        ensures
            completes == (seen > 0 && seen % self.spec_step() as u64 == 0),
    {
        seen > 0 && seen % self.step == 0
    }

    pub fn block_count(&self, frames: u64) -> (blocks: u64)
        requires
            self.wf(),
        ensures
            blocks == self.spec_block_count(frames as nat),
    {
        let steps = self.step_count(frames);
        if steps < STEPS_PER_BLOCK {
            0
        } else {
            steps - STEPS_PER_BLOCK + 1
        }
    }

    /// First frame of a block of a stream of `frames` frames.
    pub fn block_start(&self, block: u64, frames: u64) -> (start: u64)
        requires
            self.wf(),
            block < self.spec_block_count(frames as nat),
        ensures
            start == self.spec_block_start(block as nat),
            start + self.spec_block_len() <= frames,
    {
        proof {
            lemma_blocks_fit(*self, frames as nat, block as nat);
        }
        block * self.step
    }
}

/// Every block of the schedule lies within the stream and no further block
/// would. Each block starts one step after the one before it, so that it
/// shares all but one of its steps with its neighbour.
pub proof fn lemma_blocks_fit(schedule: BlockSchedule, frames: nat, block: nat)
    requires
        schedule.wf(),
    ensures
        block < schedule.spec_block_count(frames) <==> schedule.spec_block_start(block)
            + schedule.spec_block_len() <= frames,
        block < schedule.spec_block_count(frames) ==> block + STEPS_PER_BLOCK
            <= schedule.spec_step_count(frames),
        schedule.spec_block_start(block + 1) == schedule.spec_block_start(block) + schedule.spec_step(),
        schedule.spec_block_len() == STEPS_PER_BLOCK * schedule.spec_step(),
{
    let step = schedule.spec_step() as int;
    let steps = schedule.spec_step_count(frames) as int;
    let b = block as int;
    let n = frames as int;
    assert((b + 1) * step == b * step + step) by (nonlinear_arith);
    assert((b + 4) * step == b * step + 4 * step) by (nonlinear_arith);
    assert(steps * step <= n < steps * step + step) by (nonlinear_arith)
        requires
            step > 0,
            n >= 0,
            steps == n / step,
    ;
    if b + 4 <= steps {
        assert((b + 4) * step <= steps * step) by (nonlinear_arith)
            requires
                b + 4 <= steps,
                step > 0,
        ;
    } else {
        assert((b + 4) * step >= steps * step + step) by (nonlinear_arith)
            requires
                b + 4 >= steps + 1,
                step > 0,
        ;
    }
}

/// Number of channels whose power one measured value sums up.
pub open spec fn summed_channels(layout: ChannelLayout) -> nat {
    if layout.independent {
        1
    } else {
        layout.channels as nat
    }
}

/// The factor that brings a measured power to the stereo scale.
///
/// A strict measurement is left as the standard defines it, whatever the
/// layout. Otherwise a value that measures a single channel, because the
/// stream has only one or because its channels are measured independently,
/// is doubled: it then reads as the same signal would on both channels of a
/// stereo pair. A value that sums two channels or more is left as it is.
pub open spec fn stereo_factor(layout: ChannelLayout, strict: bool) -> nat {
    if !strict && summed_channels(layout) == 1 {
        2
    } else {
        1
    }
}

pub fn power_factor(layout: ChannelLayout, strict: bool) -> (factor: u8)
    ensures
        factor == stereo_factor(layout, strict),
{
    if !strict && (layout.independent || layout.channels == 1) {
        2
    } else {
        1
    }
}

} // verus!
