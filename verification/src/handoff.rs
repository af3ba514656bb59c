//! Hand-off of analysis frames over a rendezvous channel, and the failures
//! that end a session.
//!
//! The polling side checks the capture source before every snapshot. The
//! render side tries once per displayed frame to take a frame without
//! waiting: finding none is normal, finding the channel closed is fatal.

use crate::display::DisplayState;
use crate::frame::FrequencyBinPoint;
use crate::pipeline::{analyze_all, analyzed, frame_views};
use crate::windower::{lemma_windows_partition, Windower};
use vstd::prelude::*;

verus! {

/// A failure after which the session cannot go on.
#[derive(Clone, Copy, Debug, PartialEq, Eq, Structural)]
pub enum FatalError {
    /// The capture source reported that its stream ended abnormally.
    StreamStopped,
    /// The capture source was polled while it was not sampling.
    NotSampling,
    /// The sending side of the channel is gone.
    ProducerGone,
}

/// How a session ended.
#[derive(Clone, Copy, Debug, PartialEq, Eq, Structural)]
pub enum SessionEnd {
    /// The user asked to quit.
    Quit,
    /// A fatal error stopped the session.
    Failed(FatalError),
}

/// The exit status reported for each way a session ends.
pub open spec fn exit_code_of(end: SessionEnd) -> i32 {
    match end {
        SessionEnd::Quit => 0,
        SessionEnd::Failed(_) => 1,
    }
}

/// The process exit status for `end`: zero after a quit, non-zero after a
/// fatal error.
pub fn exit_code(end: SessionEnd) -> (code: i32)
    ensures
        code == exit_code_of(end),
        code == 0 <==> end == SessionEnd::Quit,
{
    match end {
        SessionEnd::Quit => 0,
        SessionEnd::Failed(_) => 1,
    }
}

/// What the capture source says it is doing.
#[derive(Clone, Copy, Debug, PartialEq, Eq, Structural)]
pub enum CaptureStatus {
    /// Samples are arriving.
    Sampling,
    /// The stream has been stopped.
    Stopped,
    /// The stream is in some other state in which no samples arrive.
    Idle,
}

/// Checks, before a snapshot is taken, that the capture source is sampling.
pub fn check_sampling(status: CaptureStatus) -> (outcome: Result<(), FatalError>)
    ensures
        status == CaptureStatus::Sampling <==> outcome is Ok,
        outcome matches Err(error) ==> error == FatalError::NotSampling,
{
    match status {
        CaptureStatus::Sampling => Ok(()),
        _ => Err(FatalError::NotSampling),
    }
}

/// One round of the polling side: checks that the capture source is
/// sampling, feeds the snapshot to `windower` and analyzes each window it
/// completes. The frames are handed back in the order in which they are to be
/// sent.
///
/// If the source is not sampling, nothing is fed and nothing is analyzed.
pub fn poll_step<T: Copy, F: Fn(&Vec<T>) -> Vec<FrequencyBinPoint>>(
    status: CaptureStatus,
    windower: &mut Windower<T>,
    snapshot: &[T],
    analyze: F,
) -> (outcome: Result<Vec<Vec<FrequencyBinPoint>>, FatalError>)
    requires
        old(windower)@.wf(),
        forall|window: Vec<T>|
            window@.len() == old(windower)@.window_size ==> call_requires(analyze, (&window,)),
    ensures
        final(windower)@.wf(),
        status == CaptureStatus::Sampling <==> outcome is Ok,
        outcome matches Err(error) ==> error == FatalError::NotSampling && final(windower)@ == old(
            windower,
        )@,
        outcome matches Ok(frames) ==> final(windower)@ == old(windower)@.feed(snapshot@)
            && analyzed(analyze, old(windower)@.emitted(snapshot@), frame_views(frames@)),
{
    match check_sampling(status) {
        Err(error) => Err(error),
        Ok(()) => {
            let ghost emitted = windower@.emitted(snapshot@);
            proof {
                lemma_windows_partition(windower@.pending + snapshot@, windower@.window_size);
            }
            let windows: Vec<Vec<T>> = windower.feed(snapshot);
            assert forall|i: int| 0 <= i < windows@.len() implies call_requires(
                analyze,
                (&#[trigger] windows@[i],),
            ) by {
                assert(emitted[i] == windows@[i]@);
            }
            Ok(analyze_all(&windows, analyze))
        },
    }
}

/// What a receive attempt that does not wait found on the channel.
pub enum Received {
    /// A frame was waiting.
    Frame(Vec<FrequencyBinPoint>),
    /// No frame was waiting.
    Empty,
    /// The sending side is gone.
    Disconnected,
}

/// What the render side does after a receive attempt.
#[derive(Clone, Copy, Debug, PartialEq, Eq, Structural)]
pub enum RenderStep {
    /// The received frame was applied to the display.
    Applied,
    /// The received frame was discarded because the display is paused.
    Discarded,
    /// Nothing was received: the previous state is drawn again.
    Redraw,
    /// The session must end.
    Fatal(FatalError),
}

impl DisplayState {
    /// Whether `received` can be handled: a frame must reach the configured
    /// bin unless it is going to be discarded.
    pub open spec fn can_receive(&self, received: Received) -> bool {
        received matches Received::Frame(frame) ==> self@.paused || self@.accepts(frame@)
    }

    /// Handles the outcome of one receive attempt.
    pub fn receive(&mut self, received: Received) -> (step: RenderStep)
        requires
            old(self)@.wf(),
            old(self).can_receive(received),
        ensures
            final(self)@.wf(),
            match received {
                Received::Frame(frame) => {
                    &&& final(self)@ == old(self)@.publish(frame@)
                    &&& step == if old(self)@.paused {
                        RenderStep::Discarded
                    } else {
                        RenderStep::Applied
                    }
                },
                Received::Empty => final(self)@ == old(self)@ && step == RenderStep::Redraw,
                Received::Disconnected => final(self)@ == old(self)@ && step == RenderStep::Fatal(
                    FatalError::ProducerGone,
                ),
            },
    {
        match received {
            Received::Frame(frame) => {
                if self.publish(frame.as_slice()) {
                    RenderStep::Applied
                } else {
                    RenderStep::Discarded
                }
            },
            Received::Empty => RenderStep::Redraw,
            Received::Disconnected => RenderStep::Fatal(FatalError::ProducerGone),
        }
    }
}

} // verus!
