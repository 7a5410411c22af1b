//! The gains of a run, one per channel, and their application to a frame.

use vstd::prelude::*;
use crate::error::Error;
use crate::measurement::Measurement;
use crate::stream::ChannelLayout;

verus! {

/// One multiplier per channel, in channel order.
///
/// The vector always has as many entries as the stream has channels. Where
/// the channels are linked, every entry is the one linked gain.
#[derive(Clone, Debug, PartialEq)]
pub struct GainVector<G> {
    gains: Vec<G>,
}

/// The gain of every channel of `layout`, given the gain of every slot.
pub open spec fn broadcast_of<G>(resolved: Measurement<G>, layout: ChannelLayout) -> Seq<G> {
    Seq::new(layout.channels as nat, |c: int| resolved.values()[layout.spec_slot_of(c)])
}

impl<G> View for GainVector<G> {
    type V = Seq<G>;

    closed spec fn view(&self) -> Seq<G> {
        self.gains@
    }
}

impl<G: Copy> GainVector<G> {
    /// Gives every channel the gain of its slot. A linked gain goes to all
    /// channels alike.
    pub fn broadcast(resolved: &Measurement<G>, layout: ChannelLayout) -> (gains: Result<GainVector<G>, Error>)
        ensures
            resolved.fits(layout) ==> {
                &&& gains matches Ok(g)
                &&& g@ == broadcast_of(*resolved, layout)
            },
            !resolved.fits(layout) ==> gains == Err::<GainVector<G>, Error>(Error::MalformedStream),
    {
        match resolved {
            Measurement::Linked(g) => {
                if layout.independent {
                    return Err(Error::MalformedStream);
                }
                let mut gains: Vec<G> = Vec::new();
                let mut c: usize = 0;
                while c < layout.channels as usize
                    invariant
                        c <= layout.channels,
                        gains.len() == c,
                        forall|j: int| 0 <= j < c ==> gains@[j] == *g,
                    decreases layout.channels - c,
                {
                    gains.push(*g);
                    c = c + 1;
                }
                Ok(GainVector { gains })
            },
            Measurement::PerChannel(v) => {
                if !layout.independent || v.len() != layout.channels as usize {
                    return Err(Error::MalformedStream);
                }
                let mut gains: Vec<G> = Vec::new();
                let mut c: usize = 0;
                while c < v.len()
                    invariant
                        c <= v.len(),
                        gains.len() == c,
                        forall|j: int| 0 <= j < c ==> gains@[j] == v@[j],
                    decreases v.len() - c,
                {
                    gains.push(v[c]);
                    c = c + 1;
                }
                Ok(GainVector { gains })
            },
        }
    }

    /// Number of channels.
    pub fn len(&self) -> (n: usize)
        ensures
            n == self@.len(),
    {
        self.gains.len()
    }

    /// The gain of `channel`.
    pub fn gain(&self, channel: usize) -> (gain: G)
        requires
            channel < self@.len(),
        ensures
            gain == self@[channel as int],
    {
        self.gains[channel]
    }

    /// Scales a frame: every sample by the gain of its channel.
    ///
    /// The result has the samples of the frame in the same order, each one
    /// replaced by what `scale` makes of it and its gain. A frame that does
    /// not have one sample per channel is refused.
    pub fn apply<S: Copy, F: Fn(S, G) -> S>(&self, frame: &Vec<S>, scale: F) -> (scaled: Result<Vec<S>, Error>)
        requires
            forall|c: int|
                0 <= c < frame@.len() && c < self@.len() ==> call_requires(scale, (#[trigger] frame@[c], self@[c])),
        ensures
            frame@.len() == self@.len() ==> {
                &&& scaled matches Ok(out)
                &&& out@.len() == frame@.len()
                &&& forall|c: int|
                    0 <= c < frame@.len() ==> call_ensures(scale, (frame@[c], self@[c]), #[trigger] out@[c])
            },
            frame@.len() != self@.len() ==> scaled == Err::<Vec<S>, Error>(Error::MalformedStream),
    {
        if frame.len() != self.gains.len() {
            return Err(Error::MalformedStream);
        }
        let mut out: Vec<S> = Vec::new();
        let mut c: usize = 0;
        while c < frame.len()
            invariant
                c <= frame.len(),
                frame.len() == self.gains.len(),
                self@ == self.gains@,
                out.len() == c,
                forall|j: int|
                    0 <= j < frame@.len() && j < self@.len() ==> call_requires(
                        scale,
                        (#[trigger] frame@[j], self@[j]),
                    ),
                forall|j: int|
                    0 <= j < c ==> call_ensures(scale, (frame@[j], self@[j]), #[trigger] out@[j]),
            decreases frame.len() - c,
        {
            out.push(scale(frame[c], self.gains[c]));
            c = c + 1;
        }
        Ok(out)
    }
}

/// Linked channels are scaled alike: whatever the samples of a frame are,
/// the gain of one channel is the gain of every other.
pub proof fn lemma_linked_gain_is_uniform<G>(resolved: Measurement<G>, layout: ChannelLayout, a: int, b: int)
    requires
        resolved.fits(layout),
        !layout.independent,
        0 <= a < layout.channels,
        0 <= b < layout.channels,
    ensures
        broadcast_of(resolved, layout).len() == layout.channels,
        broadcast_of(resolved, layout)[a] == broadcast_of(resolved, layout)[b],
        broadcast_of(resolved, layout)[a] == resolved.values()[0],
{
}

/// Independent channels keep their own gain: channel `c` is scaled by the
/// gain that was derived from the measurement of channel `c`.
pub proof fn lemma_independent_gain_is_own<G>(resolved: Measurement<G>, layout: ChannelLayout, c: int)
    requires
        resolved.fits(layout),
        layout.independent,
        0 <= c < layout.channels,
    ensures
        broadcast_of(resolved, layout) == resolved.values(),
        broadcast_of(resolved, layout)[c] == resolved.values()[c],
{
}

} // verus!
