//! The steps of a normalization run and the order in which they are taken.
//!
//! A run measures, resolves gains, rewinds the source, applies the gains
//! frame by frame and finalizes the sink. Every one of these steps is work
//! on streams or on sample values, which the caller does; what this module
//! decides is which step comes next. The caller performs the pending
//! [`Action`], reports what came of it as an [`Event`], and is told the next
//! action, until the run completes or aborts.

use vstd::prelude::*;
use crate::error::Error;
use crate::progress::Progress;
use crate::settings::{analyzer_for, gain_rule_for, Analyzer, GainRule, Settings};
use crate::stream::{ChannelLayout, StreamSpec};

verus! {

/// The states of a run, in the order in which a run passes through them.
#[derive(Clone, Copy, Debug, PartialEq, Eq, Structural)]
pub enum Phase {
    /// The analyzer consumes the source.
    Measuring,
    /// The gains are derived from the measurement.
    GainResolved,
    /// The source is put back to its start.
    Rewound,
    /// Frames are read, scaled and written.
    Applying,
    /// The sink is finalized.
    Done,
}

/// What the caller is to do next.
#[derive(Clone, Copy, Debug, PartialEq, Eq, Structural)]
pub enum Action {
    /// Run this analyzer over the source, from where it stands to its end.
    Analyze(Analyzer),
    /// Derive the gains from the measurement by this rule.
    ResolveGains(GainRule),
    /// Put the source back to its first frame.
    Rewind,
    /// Read the next frame from the source.
    ReadFrame,
    /// Scale the frame that was read and write it to the sink.
    WriteFrame,
    /// Finalize the sink.
    Finalize,
    /// Nothing: the run has succeeded and the sink is complete.
    Complete,
    /// Nothing: the run has failed with this fault.
    Abort(Error),
}

/// What came of the pending action.
#[derive(Clone, Copy, Debug, PartialEq, Eq, Structural)]
pub enum Event {
    /// The analyzer reached the end of the source after this many frames.
    Measured { frames: usize },
    /// Every gain was derived.
    GainsResolved,
    /// The source stands at its first frame again.
    Rewound,
    /// A whole frame was read.
    FrameRead,
    /// The source has no further frame.
    EndOfStream,
    /// Every sample of the frame was written.
    FrameWritten,
    /// The sink was finalized.
    Finalized,
    /// The action failed.
    Fault(Error),
}

/// The state of a run, as contracts see it.
pub struct Run {
    /// The analyzer of this run.
    pub analyzer: Analyzer,
    /// The gain rule of this run.
    pub rule: GainRule,
    /// The stream that is normalized.
    pub stream: StreamSpec,
    /// How the channels of that stream are measured and scaled.
    pub layout: ChannelLayout,
    /// The number of frames announced for the second pass.
    pub expected: usize,
    /// The last state that the run entered.
    pub phase: Phase,
    /// The action whose outcome the run waits for.
    pub pending: Action,
    /// The number of frames read in the second pass.
    pub processed: usize,
}

/// Position of a phase in the order of a run.
pub open spec fn rank(phase: Phase) -> nat {
    match phase {
        Phase::Measuring => 0,
        Phase::GainResolved => 1,
        Phase::Rewound => 2,
        Phase::Applying => 3,
        Phase::Done => 4,
    }
}

/// A run that has completed or aborted takes no further step.
pub open spec fn is_terminal(action: Action) -> bool {
    action is Complete || action is Abort
}

/// Whether `event` reports an outcome of `pending`.
pub open spec fn answers(pending: Action, event: Event) -> bool {
    match pending {
        Action::Analyze(_) => event is Measured || event is Fault,
        Action::ResolveGains(_) => event is GainsResolved || event is Fault,
        Action::Rewind => event is Rewound || event is Fault,
        Action::ReadFrame => event is FrameRead || event is EndOfStream || event is Fault,
        Action::WriteFrame => event is FrameWritten || event is Fault,
        Action::Finalize => event is Finalized || event is Fault,
        Action::Complete => false,
        Action::Abort(_) => false,
    }
}

impl Run {
    /// The state in which a run starts.
    pub open spec fn initial(
        analyzer: Analyzer,
        rule: GainRule,
        stream: StreamSpec,
        layout: ChannelLayout,
        expected: usize,
    ) -> Run {
        Run {
            analyzer,
            rule,
            stream,
            layout,
            expected,
            phase: Phase::Measuring,
            pending: Action::Analyze(analyzer),
            processed: 0,
        }
    }

    /// The states that a run can be in.
    pub open spec fn wf(self) -> bool {
        &&& match self.pending {
            Action::Analyze(a) => self.phase == Phase::Measuring && a == self.analyzer,
            Action::ResolveGains(r) => self.phase == Phase::GainResolved && r == self.rule,
            Action::Rewind => self.phase == Phase::Rewound,
            Action::ReadFrame => self.phase == Phase::Applying,
            Action::WriteFrame => self.phase == Phase::Applying,
            Action::Finalize => self.phase == Phase::Done,
            Action::Complete => self.phase == Phase::Done,
            Action::Abort(_) => true,
        }
        &&& rank(self.phase) < rank(Phase::Applying) ==> self.processed == 0
    }

    /// The state after `event`.
    ///
    /// A fault aborts the run with that fault, whatever was pending. An
    /// empty source has no loudness to match, so a measurement over no frame
    /// aborts the run as degenerate before any gain is derived. An event that
    /// does not answer the pending action changes nothing, and neither does
    /// any event once the run has completed or aborted.
    pub open spec fn after(self, event: Event) -> Run {
        if !answers(self.pending, event) {
            self
        } else {
            match event {
                Event::Fault(fault) => Run { pending: Action::Abort(fault), ..self },
                Event::Measured { frames } => if frames == 0 {
                    Run { pending: Action::Abort(Error::DegenerateMeasurement), ..self }
                } else {
                    Run {
                        phase: Phase::GainResolved,
                        pending: Action::ResolveGains(self.rule),
                        ..self
                    }
                },
                Event::GainsResolved => Run {
                    phase: Phase::Rewound,
                    pending: Action::Rewind,
                    ..self
                },
                Event::Rewound => Run {
                    phase: Phase::Applying,
                    pending: Action::ReadFrame,
                    ..self
                },
                Event::FrameRead => Run {
                    pending: Action::WriteFrame,
                    processed: Progress::successor(self.processed),
                    ..self
                },
                Event::FrameWritten => Run { pending: Action::ReadFrame, ..self },
                Event::EndOfStream => Run {
                    phase: Phase::Done,
                    pending: Action::Finalize,
                    ..self
                },
                Event::Finalized => Run { pending: Action::Complete, ..self },
            }
        }
    }

    /// The state after a sequence of events, taken in order.
    pub open spec fn after_all(self, events: Seq<Event>) -> Run
        decreases events.len(),
    {
        if events.len() == 0 {
            self
        } else {
            self.after_all(events.drop_last()).after(events.last())
        }
    }
}

/// Number of times that the caller is asked to finalize the sink while the
/// run takes `events`, one after the other.
pub open spec fn finalize_requests(run: Run, events: Seq<Event>) -> nat
    decreases events.len(),
{
    if events.len() == 0 {
        0
    } else {
        let before = run.after_all(events.drop_last());
        let request: nat = if before.after(events.last()).pending is Finalize && !(before.pending is Finalize) {
            1
        } else {
            0
        };
        finalize_requests(run, events.drop_last()) + request
    }
}

/// Drives one run.
pub struct Orchestrator {
    analyzer: Analyzer,
    rule: GainRule,
    stream: StreamSpec,
    layout: ChannelLayout,
    phase: Phase,
    pending: Action,
    progress: Progress,
}

impl View for Orchestrator {
    type V = Run;

    closed spec fn view(&self) -> Run {
        Run {
            analyzer: self.analyzer,
            rule: self.rule,
            stream: self.stream,
            layout: self.layout,
            expected: self.progress.spec_total(),
            phase: self.phase,
            pending: self.pending,
            processed: self.progress.spec_count(),
        }
    }
}

impl Orchestrator {
    /// Starts a run of `analyzer` over `stream`.
    fn start(
        analyzer: Analyzer,
        rule: GainRule,
        stream: StreamSpec,
        layout: ChannelLayout,
        expected: usize,
    ) -> (run: Orchestrator)
        ensures
            run@ == Run::initial(analyzer, rule, stream, layout, expected),
            run@.wf(),
    {
        Orchestrator {
            analyzer,
            rule,
            stream,
            layout,
            phase: Phase::Measuring,
            pending: Action::Analyze(analyzer),
            progress: Progress::new(expected),
        }
    }

    /// Takes the outcome of the pending action and returns the next one.
    pub fn step(&mut self, event: Event) -> (action: Action)
        ensures
            final(self)@ == old(self)@.after(event),
            action == final(self)@.pending,
            old(self)@.wf() ==> final(self)@.wf(),
    {
        match (self.pending, event) {
            (Action::Complete, _) | (Action::Abort(_), _) => {},
            (Action::Analyze(_), Event::Fault(fault))
            | (Action::ResolveGains(_), Event::Fault(fault))
            | (Action::Rewind, Event::Fault(fault))
            | (Action::ReadFrame, Event::Fault(fault))
            | (Action::WriteFrame, Event::Fault(fault))
            | (Action::Finalize, Event::Fault(fault)) => {
                self.pending = Action::Abort(fault);
            },
            (Action::Analyze(_), Event::Measured { frames }) => {
                if frames == 0 {
                    self.pending = Action::Abort(Error::DegenerateMeasurement);
                } else {
                    self.phase = Phase::GainResolved;
                    self.pending = Action::ResolveGains(self.rule);
                }
            },
            (Action::ResolveGains(_), Event::GainsResolved) => {
                self.phase = Phase::Rewound;
                self.pending = Action::Rewind;
            },
            (Action::Rewind, Event::Rewound) => {
                self.phase = Phase::Applying;
                self.pending = Action::ReadFrame;
            },
            (Action::ReadFrame, Event::FrameRead) => {
                self.progress.next();
                self.pending = Action::WriteFrame;
            },
            (Action::ReadFrame, Event::EndOfStream) => {
                self.phase = Phase::Done;
                self.pending = Action::Finalize;
            },
            (Action::WriteFrame, Event::FrameWritten) => {
                self.pending = Action::ReadFrame;
            },
            (Action::Finalize, Event::Finalized) => {
                self.pending = Action::Complete;
            },
            _ => {},
        }
        self.pending
    }

    /// The action whose outcome the run waits for.
    pub fn pending(&self) -> (action: Action)
        ensures
            action == self@.pending,
    {
        self.pending
    }

    /// The last state that the run entered.
    pub fn phase(&self) -> (phase: Phase)
        ensures
            phase == self@.phase,
    {
        self.phase
    }

    /// How the run ended: `None` while it is under way.
    pub fn outcome(&self) -> (outcome: Option<Result<(), Error>>)
        ensures
            outcome == match self@.pending {
                Action::Complete => Some(Ok::<(), Error>(())),
                Action::Abort(fault) => Some(Err::<(), Error>(fault)),
                _ => None::<Result<(), Error>>,
            },
    {
        match self.pending {
            Action::Complete => Some(Ok(())),
            Action::Abort(fault) => Some(Err(fault)),
            _ => None,
        }
    }

    /// The frames read in the second pass, against the number announced.
    pub fn progress(&self) -> (progress: Progress)
        ensures
            progress.spec_count() == self@.processed,
            progress.spec_total() == self@.expected,
    {
        self.progress
    }

    /// The stream that is normalized.
    pub fn stream(&self) -> (stream: StreamSpec)
        ensures
            stream == self@.stream,
    {
        self.stream
    }

    /// How the channels of the stream are measured and scaled.
    pub fn layout(&self) -> (layout: ChannelLayout)
        ensures
            layout == self@.layout,
    {
        self.layout
    }
}

impl<T> Settings<T> {
    /// Begins the normalization of a stream of `frames` frames.
    ///
    /// The run starts with the analyzer that the mode selects. A mode
    /// without an implementation is refused here, before anything is read.
    pub fn normalize(&self, stream: StreamSpec, frames: usize) -> (run: Result<Orchestrator, Error>)
        ensures
            match run {
                Ok(r) => {
                    &&& analyzer_for(self.mode, self.channel_independent, self.strict_ebur128) is Some
                    &&& gain_rule_for(self.mode) is Some
                    &&& r@ == Run::initial(
                        analyzer_for(self.mode, self.channel_independent, self.strict_ebur128)->0,
                        gain_rule_for(self.mode)->0,
                        stream,
                        (ChannelLayout {
                            channels: stream.channels,
                            independent: self.channel_independent,
                        }),
                        frames,
                    )
                    &&& r@.wf()
                },
                Err(fault) => fault == Error::Unimplemented && self.mode == crate::settings::Mode::Amplitude,
            },
            self.mode == crate::settings::Mode::Amplitude ==> run is Err,
    {
        let analyzer = match self.analyzer() {
            Ok(a) => a,
            Err(fault) => { return Err(fault); },
        };
        let rule = match self.gain_rule() {
            Ok(r) => r,
            Err(fault) => { return Err(fault); },
        };
        Ok(Orchestrator::start(analyzer, rule, stream, stream.layout(self.channel_independent), frames))
    }
}

/// A run never goes back: no step lowers the phase, and none skips one.
pub proof fn lemma_step_is_linear(run: Run, event: Event)
    requires
        run.wf(),
    ensures
        run.after(event).wf(),
        rank(run.phase) <= rank(run.after(event).phase) <= rank(run.phase) + 1,
        run.after(event).processed >= run.processed,
{
}

/// A fault at any state aborts the whole run, and with that very fault.
pub proof fn lemma_fault_aborts(run: Run, fault: Error)
    requires
        !is_terminal(run.pending),
    ensures
        run.after(Event::Fault(fault)).pending == Action::Abort(fault),
        run.after(Event::Fault(fault)).phase == run.phase,
{
}

/// The sink is finalized only when the source has ended, and never while a
/// frame that was read is still unwritten. A run completes only by the
/// finalization of the sink.
pub proof fn lemma_finalize_follows_last_frame(run: Run, event: Event)
    requires
        run.wf(),
    ensures
        run.after(event).pending is Finalize && !(run.pending is Finalize) ==> run.pending is ReadFrame
            && event is EndOfStream,
        run.after(event).pending is Complete && !(run.pending is Complete) ==> run.pending is Finalize
            && event is Finalized,
{
}

/// A run that has completed or aborted stays as it is: nothing is retried.
pub proof fn lemma_terminal_is_final(run: Run, events: Seq<Event>)
    requires
        is_terminal(run.pending),
    ensures
        run.after_all(events) == run,
    decreases events.len(),
{
    if events.len() > 0 {
        lemma_terminal_is_final(run, events.drop_last());
    }
}

/// Over any sequence of events the phase only moves forward, the count of
/// frames only grows, and what the run was started with stays as it was.
pub proof fn lemma_run_is_linear(run: Run, events: Seq<Event>)
    requires
        run.wf(),
    ensures
        run.after_all(events).wf(),
        rank(run.phase) <= rank(run.after_all(events).phase),
        rank(run.after_all(events).phase) <= rank(run.phase) + events.len(),
        run.processed <= run.after_all(events).processed,
        run.after_all(events).analyzer == run.analyzer,
        run.after_all(events).rule == run.rule,
        run.after_all(events).stream == run.stream,
        run.after_all(events).layout == run.layout,
        run.after_all(events).expected == run.expected,
    decreases events.len(),
{
    if events.len() > 0 {
        lemma_run_is_linear(run, events.drop_last());
        lemma_step_is_linear(run.after_all(events.drop_last()), events.last());
    }
}

/// Whatever the caller reports, a run asks for the sink to be finalized at
/// most once, and a run that completes has asked for it exactly once.
pub proof fn lemma_finalized_once(
    analyzer: Analyzer,
    rule: GainRule,
    stream: StreamSpec,
    layout: ChannelLayout,
    expected: usize,
    events: Seq<Event>,
)
    ensures
        finalize_requests(Run::initial(analyzer, rule, stream, layout, expected), events) <= 1,
        Run::initial(analyzer, rule, stream, layout, expected).after_all(events).pending is Complete
            ==> finalize_requests(Run::initial(analyzer, rule, stream, layout, expected), events) == 1,
{
    lemma_finalize_marks_done(Run::initial(analyzer, rule, stream, layout, expected), events);
}

proof fn lemma_finalize_marks_done(run: Run, events: Seq<Event>)
    requires
        run.wf(),
        run.phase != Phase::Done,
    ensures
        run.after_all(events).wf(),
        finalize_requests(run, events) == if run.after_all(events).phase == Phase::Done {
            1nat
        } else {
            0nat
        },
    decreases events.len(),
{
    if events.len() > 0 {
        lemma_finalize_marks_done(run, events.drop_last());
        lemma_step_is_linear(run.after_all(events.drop_last()), events.last());
    }
}

} // verus!
