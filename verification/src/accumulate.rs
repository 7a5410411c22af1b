//! Accumulating the samples of a stream per slot.
//!
//! Amplitude-domain analyzers reduce a stream to one number per slot by
//! folding every sample into the accumulator of its slot: a sum of squares
//! for the root mean square, a maximum for the peak. The accumulator here
//! does the routing and the counting; the step that folds one sample into
//! one accumulated value is the caller's.

use vstd::prelude::*;
use crate::error::Error;
use crate::measurement::Measurement;
use crate::progress::Progress;
use crate::stream::ChannelLayout;

verus! {

/// Whether folding `samples`, first to last, into `from` by `step` can give
/// `to`.
pub open spec fn folds_to<A, S, F: Fn(A, S) -> A>(step: F, from: A, samples: Seq<S>, to: A) -> bool
    decreases samples.len(),
{
    if samples.len() == 0 {
        to == from
    } else {
        exists|mid: A|
            folds_to(step, from, samples.drop_last(), mid) && #[trigger] call_ensures(
                step,
                (mid, samples.last()),
                to,
            )
    }
}

/// The samples of `frame` that belong to `slot`, in channel order: the one
/// sample of the channel where channels are independent, every sample where
/// they are linked.
pub open spec fn slot_samples<S>(frame: Seq<S>, layout: ChannelLayout, slot: int) -> Seq<S> {
    if layout.independent {
        seq![frame[slot]]
    } else {
        frame
    }
}

/// Folding one more sample extends a fold.
pub proof fn lemma_fold_push<A, S, F: Fn(A, S) -> A>(step: F, from: A, samples: Seq<S>, mid: A, sample: S, to: A)
    requires
        folds_to(step, from, samples, mid),
        call_ensures(step, (mid, sample), to),
    ensures
        folds_to(step, from, samples.push(sample), to),
{
    let longer = samples.push(sample);
    assert(longer.drop_last() == samples);
    assert(longer.last() == sample);
}

/// Folds compose: what folds `first` and then `second` folds the two in a
/// row. The accumulated value of a stream is thus the fold of the samples
/// of all its frames, frame after frame.
pub proof fn lemma_fold_append<A, S, F: Fn(A, S) -> A>(
    step: F,
    from: A,
    first: Seq<S>,
    mid: A,
    second: Seq<S>,
    to: A,
)
    requires
        folds_to(step, from, first, mid),
        folds_to(step, mid, second, to),
    ensures
        folds_to(step, from, first + second, to),
    decreases second.len(),
{
    if second.len() == 0 {
    } else {
        let before = choose|before: A|
            folds_to(step, mid, second.drop_last(), before) && #[trigger] call_ensures(
                step,
                (before, second.last()),
                to,
            );
        lemma_fold_append(step, from, first, mid, second.drop_last(), before);
        lemma_fold_push(step, from, first + second.drop_last(), before, second.last(), to);
        assert((first + second.drop_last()).push(second.last()) == first + second);
    }
}

/// Samples that leave an accumulated value as it is leave it so however
/// many of them are folded. Where silence adds nothing to a sum, a silent
/// stream accumulates to the value that it started from.
pub proof fn lemma_fold_neutral<A, S, F: Fn(A, S) -> A>(step: F, rest: A, samples: Seq<S>, to: A)
    requires
        forall|i: int, out: A|
            0 <= i < samples.len() && #[trigger] call_ensures(step, (rest, samples[i]), out) ==> out == rest,
        folds_to(step, rest, samples, to),
    ensures
        to == rest,
    decreases samples.len(),
{
    if samples.len() > 0 {
        let mid = choose|mid: A|
            folds_to(step, rest, samples.drop_last(), mid) && #[trigger] call_ensures(
                step,
                (mid, samples.last()),
                to,
            );
        lemma_fold_neutral(step, rest, samples.drop_last(), mid);
    }
}

/// One accumulated value per slot of a layout, and the number of frames
/// that went into them.
#[derive(Clone, Debug, PartialEq)]
pub struct Accumulator<A> {
    layout: ChannelLayout,
    slots: Vec<A>,
    frames: usize,
}

impl<A: Copy> Accumulator<A> {
    /// The layout whose slots are accumulated.
    pub closed spec fn spec_layout(&self) -> ChannelLayout {
        self.layout
    }

    /// The accumulated value of every slot.
    pub closed spec fn spec_slots(&self) -> Seq<A> {
        self.slots@
    }

    /// Number of frames accumulated.
    pub closed spec fn spec_frames(&self) -> usize {
        self.frames
    }

    /// There is one accumulated value for every slot of the layout.
    pub open spec fn wf(&self) -> bool {
        self.spec_slots().len() == self.spec_layout().spec_slots()
    }

    /// An accumulator for `layout` in which every slot holds `zero`.
    pub fn new(layout: ChannelLayout, zero: A) -> (accumulator: Self)
        ensures
            accumulator.wf(),
            accumulator.spec_layout() == layout,
            accumulator.spec_frames() == 0,
            forall|slot: int| 0 <= slot < layout.spec_slots() ==> accumulator.spec_slots()[slot] == zero,
    {
        let count = layout.slots();
        let mut slots: Vec<A> = Vec::new();
        while slots.len() < count
            invariant
                slots.len() <= count,
                forall|slot: int| 0 <= slot < slots.len() ==> slots[slot] == zero,
            decreases count - slots.len(),
        {
            slots.push(zero);
        }
        Accumulator { layout, slots, frames: 0 }
    }

    /// Folds every sample of `frame` into the accumulated value of its slot,
    /// in channel order, and counts the frame.
    ///
    /// A frame that does not have one sample per channel is refused and
    /// leaves the accumulator as it was.
    pub fn add_frame<S: Copy, F: Fn(A, S) -> A>(&mut self, frame: &Vec<S>, step: F) -> (added: Result<(), Error>)
        requires
            old(self).wf(),
            forall|a: A, s: S| call_requires(step, (a, s)),
        ensures
            final(self).wf(),
            final(self).spec_layout() == old(self).spec_layout(),
            frame@.len() != old(self).spec_layout().channels ==> {
                &&& added == Err::<(), Error>(Error::MalformedStream)
                &&& final(self).spec_slots() == old(self).spec_slots()
                &&& final(self).spec_frames() == old(self).spec_frames()
            },
            frame@.len() == old(self).spec_layout().channels ==> {
                &&& added == Ok::<(), Error>(())
                &&& final(self).spec_frames() == Progress::successor(old(self).spec_frames())
                &&& forall|slot: int|
                    0 <= slot < old(self).spec_layout().spec_slots() ==> folds_to(
                        step,
                        old(self).spec_slots()[slot],
                        slot_samples(frame@, old(self).spec_layout(), slot),
                        #[trigger] final(self).spec_slots()[slot],
                    )
            },
    {
        if frame.len() != self.layout.channels as usize {
            return Err(Error::MalformedStream);
        }
        let ghost before = self.slots@;
        let mut c: usize = 0;
        while c < frame.len()
            invariant
                c <= frame.len(),
                frame.len() == self.layout.channels,
                self.layout == old(self).layout,
                self.frames == old(self).frames,
                before == old(self).slots@,
                self.slots.len() == before.len(),
                before.len() == self.layout.spec_slots(),
                forall|a: A, s: S| call_requires(step, (a, s)),
                self.layout.independent ==> forall|k: int|
                    0 <= k < c ==> call_ensures(step, (before[k], frame@[k]), #[trigger] self.slots@[k]),
                self.layout.independent ==> forall|k: int| c <= k < before.len() ==> self.slots@[k] == before[k],
                !self.layout.independent ==> folds_to(step, before[0], frame@.take(c as int), self.slots@[0]),
            decreases frame.len() - c,
        {
            let slot = self.layout.slot_of(c);
            let folded = step(self.slots[slot], frame[c]);
            proof {
                if !self.layout.independent {
                    lemma_fold_push(step, before[0], frame@.take(c as int), self.slots@[0], frame@[c as int], folded);
                    assert(frame@.take(c as int).push(frame@[c as int]) == frame@.take(c + 1));
                }
            }
            self.slots.set(slot, folded);
            c = c + 1;
        }
        proof {
            assert(frame@.take(frame@.len() as int) == frame@);
            assert forall|slot: int| 0 <= slot < self.layout.spec_slots() implies folds_to(
                step,
                before[slot],
                slot_samples(frame@, self.layout, slot),
                #[trigger] self.slots@[slot],
            ) by {
                if self.layout.independent {
                    let one = seq![frame@[slot]];
                    assert(folds_to(step, before[slot], one.drop_last(), before[slot]));
                    assert(one.last() == frame@[slot]);
                }
            }
        }
        if self.frames < usize::MAX {
            self.frames = self.frames + 1;
        }
        Ok(())
    }

    /// Number of frames accumulated.
    pub fn frames(&self) -> (frames: usize)
        ensures
            frames == self.spec_frames(),
    {
        self.frames
    }

    /// The accumulated values, in the shape of the layout.
    pub fn finish(self) -> (totals: Measurement<A>)
        requires
            self.wf(),
        ensures
            totals.fits(self.spec_layout()),
            totals.values() == self.spec_slots(),
    {
        if self.layout.independent {
            Measurement::PerChannel(self.slots)
        } else {
            Measurement::Linked(self.slots[0])
        }
    }
}

} // verus!
