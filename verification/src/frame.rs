//! Cutting an interleaved stream of samples into frames.
//!
//! A frame holds one sample of each channel, in channel order. The source is
//! any iterator over the results of reading one sample; what it will still
//! yield is `source.remaining()`, and the contracts below say what a call
//! returns and how far it advances the source in terms of that sequence.

use vstd::prelude::*;
use vstd::std_specs::iter::IteratorSpec;
use crate::error::Error;

verus! {

/// Why no frame could be cut.
#[derive(Clone, Copy, Debug, PartialEq, Eq)]
pub enum FrameError<E> {
    /// Reading a sample failed; the failure is handed on as it came.
    Source(E),
    /// The stream ended inside a frame.
    Malformed,
}

impl<E> FrameError<E> {
    /// The fault that this failure aborts a run with.
    pub fn fault(&self) -> (fault: Error)
        ensures
            fault == match self {
                FrameError::Source(_) => Error::Io,
                FrameError::Malformed => Error::MalformedStream,
            },
    {
        match self {
            FrameError::Source(_) => Error::Io,
            FrameError::Malformed => Error::MalformedStream,
        }
    }
}

/// What the next call yields, as a value of specifications.
pub enum Yield<S, E> {
    /// The stream has ended on a frame boundary.
    End,
    /// A whole frame, in channel order.
    Frame(Seq<S>),
    /// The source failed before the frame was whole.
    Failure(E),
    /// The stream ended inside a frame.
    Partial,
}

/// Number of samples at the head of `items` that were read without failure,
/// counted up to `limit`.
pub open spec fn leading_ok<S, E>(items: Seq<Result<S, E>>, limit: nat) -> nat
    decreases limit,
{
    if limit == 0 || items.len() == 0 || items[0] is Err {
        0
    } else {
        1 + leading_ok(items.drop_first(), (limit - 1) as nat)
    }
}

/// What a frame iterator of `channels` channels yields when its source will
/// still yield `items`.
pub open spec fn yielded<S, E>(items: Seq<Result<S, E>>, channels: nat) -> Yield<S, E> {
    let k = leading_ok(items, channels);
    if items.len() == 0 {
        Yield::End
    } else if k == channels {
        Yield::Frame(Seq::new(channels, |c: int| items[c]->Ok_0))
    } else if k < items.len() {
        Yield::Failure(items[k as int]->Err_0)
    } else {
        Yield::Partial
    }
}

/// Number of items that the call takes from the source: a whole frame, or
/// everything up to and including the failed read, or what was left.
pub open spec fn consumed<S, E>(items: Seq<Result<S, E>>, channels: nat) -> nat {
    let k = leading_ok(items, channels);
    if k == channels || k == items.len() {
        k
    } else {
        k + 1
    }
}

/// Whether the value `item` that a call returned is the yield `expected`.
pub open spec fn is_yield<S, E>(item: Option<Result<Vec<S>, FrameError<E>>>, expected: Yield<S, E>) -> bool {
    match expected {
        Yield::End => item is None,
        Yield::Frame(samples) => item matches Some(Ok(frame)) && frame@ == samples,
        Yield::Failure(e) => item == Some(Err::<Vec<S>, FrameError<E>>(FrameError::Source(e))),
        Yield::Partial => item == Some(Err::<Vec<S>, FrameError<E>>(FrameError::Malformed)),
    }
}

/// `leading_ok` is the place of the first failed read, the limit or the end
/// of the stream, whichever comes first.
pub proof fn lemma_leading_ok<S, E>(items: Seq<Result<S, E>>, limit: nat, k: nat)
    requires
        k <= limit,
        k <= items.len(),
        forall|j: int| 0 <= j < k ==> items[j] is Ok,
        k == limit || k == items.len() || items[k as int] is Err,
    ensures
        leading_ok(items, limit) == k,
    decreases k,
{
    if k > 0 {
        let rest = items.drop_first();
        lemma_leading_ok(rest, (limit - 1) as nat, (k - 1) as nat);
    }
}

/// No call takes more from the source than one frame, nor more than the
/// source has.
pub proof fn lemma_consumed_is_bounded<S, E>(items: Seq<Result<S, E>>, channels: nat)
    requires
        channels > 0,
    ensures
        consumed(items, channels) <= channels,
        consumed(items, channels) <= items.len(),
        items.len() > 0 ==> consumed(items, channels) > 0,
{
    lemma_leading_ok_is_bounded(items, channels);
}

proof fn lemma_leading_ok_is_bounded<S, E>(items: Seq<Result<S, E>>, limit: nat)
    ensures
        leading_ok(items, limit) <= limit,
        leading_ok(items, limit) <= items.len(),
    decreases limit,
{
    if limit > 0 && items.len() > 0 && items[0] is Ok {
        lemma_leading_ok_is_bounded(items.drop_first(), (limit - 1) as nat);
    }
}

/// Cuts frames of `channels` samples out of `source`.
pub struct FrameIterator<I> {
    /// The interleaved samples that are still to be read.
    pub source: I,
    /// Number of samples in a frame.
    pub channels: u16,
}

impl<S, E, I: Iterator<Item = Result<S, E>>> FrameIterator<I> {
    pub fn new(source: I, channels: u16) -> (frames: Self)
        requires
            channels > 0,
        ensures
            frames.source == source,
            frames.channels == channels,
    {
        FrameIterator { source, channels }
    }

    /// Reads the next frame.
    ///
    /// Returns the frame, or `None` at the end of the stream, or the reason
    /// why the frame could not be completed. A whole frame takes exactly
    /// `channels` samples from the source; nothing is read ahead.
    pub fn next(&mut self) -> (item: Option<Result<Vec<S>, FrameError<E>>>)
        requires
            old(self).channels > 0,
        ensures
            final(self).channels == old(self).channels,
            item matches Some(Ok(frame)) ==> frame@.len() == old(self).channels,
            final(self).source.obeys_prophetic_iter_laws() == old(self).source.obeys_prophetic_iter_laws(),
            old(self).source.obeys_prophetic_iter_laws() ==> {
                &&& is_yield(item, yielded(old(self).source.remaining(), old(self).channels as nat))
                &&& final(self).source.remaining() == old(self).source.remaining().skip(
                    consumed(old(self).source.remaining(), old(self).channels as nat) as int,
                )
            },
    {
        let channels = self.channels as usize;
        let ghost items = self.source.remaining();
        let ghost lawful = self.source.obeys_prophetic_iter_laws();
        let mut frame: Vec<S> = Vec::new();
        while frame.len() < channels
            invariant
                channels == self.channels,
                self.channels == old(self).channels,
                frame.len() <= channels,
                items == old(self).source.remaining(),
                lawful == old(self).source.obeys_prophetic_iter_laws(),
                self.source.obeys_prophetic_iter_laws() == lawful,
                lawful ==> {
                    &&& frame.len() <= items.len()
                    &&& self.source.remaining() == items.skip(frame.len() as int)
                    &&& forall|j: int| 0 <= j < frame.len() ==> items[j] == Ok::<S, E>(frame[j])
                },
            decreases channels - frame.len(),
        {
            let ghost k = frame.len() as nat;
            match self.source.next() {
                None => {
                    proof {
                        if lawful {
                            lemma_leading_ok(items, channels as nat, k);
                        }
                    }
                    if frame.len() == 0 {
                        return None;
                    } else {
                        return Some(Err(FrameError::Malformed));
                    }
                },
                Some(Ok(sample)) => {
                    frame.push(sample);
                },
                Some(Err(e)) => {
                    proof {
                        if lawful {
                            lemma_leading_ok(items, channels as nat, k);
                        }
                    }
                    return Some(Err(FrameError::Source(e)));
                },
            }
        }
        proof {
            if lawful {
                lemma_leading_ok(items, channels as nat, channels as nat);
                assert(frame@ == Seq::new(channels as nat, |c: int| items[c]->Ok_0));
            }
        }
        Some(Ok(frame))
    }
}


/// The stream in which every read succeeds, giving `samples` in order.
pub open spec fn ok_stream<S, E>(samples: Seq<S>) -> Seq<Result<S, E>> {
    Seq::new(samples.len(), |i: int| Ok::<S, E>(samples[i]))
}

/// What a source that would yield `items` is left with after `calls` calls
/// of a frame iterator of `channels` channels.
pub open spec fn left_after<S, E>(items: Seq<Result<S, E>>, channels: nat, calls: nat) -> Seq<Result<S, E>>
    decreases calls,
{
    if calls == 0 {
        items
    } else {
        let before = left_after(items, channels, (calls - 1) as nat);
        before.skip(consumed(before, channels) as int)
    }
}

/// What call number `call`, counted from 0, yields.
pub open spec fn nth_yield<S, E>(items: Seq<Result<S, E>>, channels: nat, call: nat) -> Yield<S, E> {
    yielded(left_after(items, channels, call), channels)
}

/// While whole frames are left, every call takes exactly one of them.
proof fn lemma_left_after_whole_frames<S, E>(samples: Seq<S>, channels: nat, calls: nat)
    requires
        channels > 0,
        calls * channels <= samples.len(),
    ensures
        left_after(ok_stream::<S, E>(samples), channels, calls) == ok_stream::<S, E>(samples).skip(
            (calls * channels) as int,
        ),
    decreases calls,
{
    let stream = ok_stream::<S, E>(samples);
    if calls == 0 {
        assert(calls * channels == 0) by (nonlinear_arith)
            requires
                calls == 0,
        ;
    } else {
        let done = (calls - 1) as nat;
        assert(done * channels + channels == calls * channels) by (nonlinear_arith)
            requires
                done + 1 == calls,
        ;
        lemma_left_after_whole_frames::<S, E>(samples, channels, done);
        let before = stream.skip((done * channels) as int);
        lemma_leading_ok(before, channels, channels);
    }
}

/// A stream of `frames` whole frames yields exactly these frames, each of
/// `channels` samples in the order in which they stand in the stream, and
/// then ends. A stream with samples left over after its last whole frame
/// yields the whole frames first and then reports the partial one.
pub proof fn lemma_frames_in_order<S, E>(samples: Seq<S>, channels: nat, call: nat)
    requires
        channels > 0,
    ensures
        call < samples.len() / channels ==> nth_yield(ok_stream::<S, E>(samples), channels, call)
            == Yield::<S, E>::Frame(
            samples.subrange((call * channels) as int, (call * channels + channels) as int),
        ),
        call == samples.len() / channels && samples.len() % channels != 0 ==> nth_yield(
            ok_stream::<S, E>(samples),
            channels,
            call,
        ) == Yield::<S, E>::Partial,
        call == samples.len() / channels && samples.len() % channels == 0 ==> nth_yield(
            ok_stream::<S, E>(samples),
            channels,
            call,
        ) == Yield::<S, E>::End,
        call > samples.len() / channels ==> nth_yield(ok_stream::<S, E>(samples), channels, call)
            == Yield::<S, E>::End,
    decreases call,
{
    let stream = ok_stream::<S, E>(samples);
    let len = samples.len();
    let whole = len / channels;
    let rest = len % channels;
    assert(len == whole * channels + rest && rest < channels) by (nonlinear_arith)
        requires
            channels > 0,
            whole == len / channels,
            rest == len % channels,
    ;
    if call <= whole {
        assert(call * channels <= whole * channels) by (nonlinear_arith)
            requires
                call <= whole,
        ;
        lemma_left_after_whole_frames::<S, E>(samples, channels, call);
        let left = stream.skip((call * channels) as int);
        if call < whole {
            assert(call * channels + channels <= whole * channels) by (nonlinear_arith)
                requires
                    call < whole,
            ;
            lemma_leading_ok(left, channels, channels);
            assert(Seq::new(channels, |c: int| left[c]->Ok_0) == samples.subrange(
                (call * channels) as int,
                (call * channels + channels) as int,
            ));
        } else {
            lemma_leading_ok(left, channels, rest);
        }
    } else {
        let before = left_after(stream, channels, (call - 1) as nat);
        lemma_frames_in_order::<S, E>(samples, channels, (call - 1) as nat);
        if call - 1 == whole {
            lemma_left_after_whole_frames::<S, E>(samples, channels, whole);
            lemma_leading_ok(before, channels, rest);
        }
    }
}

} // verus!
