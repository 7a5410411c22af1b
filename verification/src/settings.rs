//! What a caller configures for one run, and what follows from it before
//! any sample is read.

use vstd::prelude::*;
use crate::error::Error;

verus! {

/// The loudness measure that a run matches to its target.
#[derive(Clone, Copy, Debug, PartialEq, Eq, Structural)]
pub enum Mode {
    /// Peak amplitude.
    Amplitude,
    /// Integrated loudness, K-weighted and gated.
    Lufs,
    /// Root mean square power.
    Rms,
}

/// The analyzer that a run instantiates, with the flags it is built from.
#[derive(Clone, Copy, Debug, PartialEq, Eq, Structural)]
pub enum Analyzer {
    /// Integrated loudness.
    Loudness { channel_independent: bool, strict_ebur128: bool },
    /// Root mean square power.
    Rms { channel_independent: bool },
}

/// How a gain is derived from a measurement `x` and a target `t`.
///
/// The gain is `10^(t / decibel_divisor) / x`, and the square root of that
/// where `square_root` is set.
#[derive(Clone, Copy, Debug, PartialEq, Eq, Structural)]
pub struct GainRule {
    /// Divisor of the target in the exponent: 10 where the target is a power
    /// ratio, 20 where it is an amplitude ratio.
    pub decibel_divisor: u8,
    /// Whether the quotient is in the power domain, so that its square root
    /// is the amplitude multiplier.
    pub square_root: bool,
}

/// The settings of one run. `T` is the type of the target level, which this
/// crate carries and never interprets.
#[derive(Clone, Debug)]
pub struct Settings<T> {
    /// Algorithm to use.
    pub mode: Mode,
    /// Target loudness in dB. Its unit depends on the mode.
    pub target: T,
    /// Measure and scale each channel on its own.
    pub channel_independent: bool,
    /// Do not normalize the loudness result to stereo.
    pub strict_ebur128: bool,
}

/// The analyzer that `mode` selects, if it has one.
pub open spec fn analyzer_for(mode: Mode, channel_independent: bool, strict_ebur128: bool) -> Option<Analyzer> {
    match mode {
        Mode::Amplitude => None,
        Mode::Lufs => Some(Analyzer::Loudness { channel_independent, strict_ebur128 }),
        Mode::Rms => Some(Analyzer::Rms { channel_independent }),
    }
}

/// The gain rule that belongs to `mode`, if it has an analyzer.
pub open spec fn gain_rule_for(mode: Mode) -> Option<GainRule> {
    match mode {
        Mode::Amplitude => None,
        Mode::Lufs => Some(GainRule { decibel_divisor: 10, square_root: true }),
        Mode::Rms => Some(GainRule { decibel_divisor: 20, square_root: false }),
    }
}

impl<T> Settings<T> {
    pub fn new(mode: Mode, target: T, channel_independent: bool, strict_ebur128: bool) -> (settings: Self)
        ensures
            settings.mode == mode,
            settings.target == target,
            settings.channel_independent == channel_independent,
            settings.strict_ebur128 == strict_ebur128,
    {
        Settings { mode, target, channel_independent, strict_ebur128 }
    }

    /// Selects the analyzer for these settings. A mode without an
    /// implementation is a fault: no other analyzer stands in for it.
    pub fn analyzer(&self) -> (selected: Result<Analyzer, Error>)
        ensures
            selected == match analyzer_for(self.mode, self.channel_independent, self.strict_ebur128) {
                Some(analyzer) => Ok::<Analyzer, Error>(analyzer),
                None => Err::<Analyzer, Error>(Error::Unimplemented),
            },
    {
        match self.mode {
            Mode::Amplitude => Err(Error::Unimplemented),
            Mode::Lufs => Ok(Analyzer::Loudness {
                channel_independent: self.channel_independent,
                strict_ebur128: self.strict_ebur128,
            }),
            Mode::Rms => Ok(Analyzer::Rms { channel_independent: self.channel_independent }),
        }
    }

    /// The rule by which these settings turn a measurement into a gain.
    pub fn gain_rule(&self) -> (rule: Result<GainRule, Error>)
        ensures
            rule == match gain_rule_for(self.mode) {
                Some(r) => Ok::<GainRule, Error>(r),
                None => Err::<GainRule, Error>(Error::Unimplemented),
            },
    {
        match self.mode {
            Mode::Amplitude => Err(Error::Unimplemented),
            Mode::Lufs => Ok(GainRule { decibel_divisor: 10, square_root: true }),
            Mode::Rms => Ok(GainRule { decibel_divisor: 20, square_root: false }),
        }
    }
}

} // verus!
