//! The shape of a stream: how many channels it interleaves, at which rate,
//! and how channels map to the values that are measured and applied.

use vstd::prelude::*;
use crate::error::Error;

verus! {

/// Channel count and sample rate of a stream. Both are read from the source
/// once and hold for the whole run.
#[derive(Clone, Copy, Debug, PartialEq, Eq, Structural)]
pub struct StreamSpec {
    /// Number of interleaved channels.
    pub channels: u16,
    /// Frames per second.
    pub sample_rate: u32,
}

impl StreamSpec {
    /// A stream has at least one channel and a positive rate.
    pub open spec fn wf(&self) -> bool {
        self.channels > 0 && self.sample_rate > 0
    }

    /// Accepts a channel count and a rate read from a stream header.
    pub fn new(channels: u16, sample_rate: u32) -> (spec: Result<StreamSpec, Error>)
        ensures
            channels > 0 && sample_rate > 0 ==> spec == Ok::<StreamSpec, Error>(
                (StreamSpec { channels, sample_rate }),
            ),
            channels == 0 || sample_rate == 0 ==> spec == Err::<StreamSpec, Error>(
                Error::MalformedStream,
            ),
            spec matches Ok(s) ==> s.wf(),
    {
        if channels == 0 || sample_rate == 0 {
            Err(Error::MalformedStream)
        } else {
            Ok(StreamSpec { channels, sample_rate })
        }
    }

    /// The layout of this stream's channels under the given linkage.
    pub fn layout(&self, independent: bool) -> (layout: ChannelLayout)
        ensures
            layout == (ChannelLayout { channels: self.channels, independent }),
    {
        ChannelLayout { channels: self.channels, independent }
    }
}

/// How the channels of a frame map to slots. A slot is one measured value
/// and one gain: each channel has its own when channels are independent, and
/// all channels share slot 0 when they are linked.
#[derive(Clone, Copy, Debug, PartialEq, Eq, Structural)]
pub struct ChannelLayout {
    /// Number of channels in a frame.
    pub channels: u16,
    /// Whether each channel is measured and scaled on its own.
    pub independent: bool,
}

impl ChannelLayout {
    /// Number of slots: one per channel, or one for all.
    pub open spec fn spec_slots(&self) -> nat {
        if self.independent {
            self.channels as nat
        } else {
            1
        }
    }

    /// The slot that `channel` contributes to and is scaled by.
    pub open spec fn spec_slot_of(&self, channel: int) -> int {
        if self.independent {
            channel
        } else {
            0
        }
    }

    /// Number of samples that `frames` frames contribute to each slot.
    pub open spec fn spec_samples_per_slot(&self, frames: nat) -> nat {
        if self.independent {
            frames
        } else {
            frames * (self.channels as nat)
        }
    }

    pub fn slots(&self) -> (n: usize)
        ensures
            n == self.spec_slots(),
    {
        if self.independent {
            self.channels as usize
        } else {
            1
        }
    }

    pub fn slot_of(&self, channel: usize) -> (slot: usize)
        ensures
            slot == self.spec_slot_of(channel as int),
            channel < self.channels ==> slot < self.spec_slots(),
    {
        if self.independent {
            channel
        } else {
            0
        }
    }

    /// The divisor of a mean over `frames` frames, or `None` where it does
    /// not fit the machine word.
    pub fn samples_per_slot(&self, frames: u64) -> (count: Option<u64>)
        ensures
            match count {
                Some(n) => n == self.spec_samples_per_slot(frames as nat),
                None => self.spec_samples_per_slot(frames as nat) > u64::MAX,
            },
    {
        if self.independent {
            Some(frames)
        } else {
            frames.checked_mul(self.channels as u64)
        }
    }
}

} // verus!
