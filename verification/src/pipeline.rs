//! The path of one audio chunk through the pipeline: into the windower,
//! through the analyzer once per completed window, onto the display.
//!
//! The analyzer is the caller's. Frames reach the display in the order in
//! which their windows were completed, and none is applied twice or skipped.

use crate::display::DisplayState;
use crate::frame::FrequencyBinPoint;
use crate::windower::{lemma_windows_partition, window_views, Windower};
use vstd::prelude::*;

verus! {

/// Whether `frame` is what a call of `analyze` on a window holding `samples`
/// returned.
pub open spec fn frame_of<T, F: Fn(&Vec<T>) -> Vec<FrequencyBinPoint>>(
    analyze: F,
    samples: Seq<T>,
    frame: Seq<FrequencyBinPoint>,
) -> bool {
    exists|window: Vec<T>, result: Vec<FrequencyBinPoint>|
        window@ == samples && result@ == frame && #[trigger] call_ensures(
            analyze,
            (&window,),
            result,
        )
}

/// Whether `frames` are what `analyze` returned for `windows`, one frame per
/// window and in the same order.
pub open spec fn analyzed<T, F: Fn(&Vec<T>) -> Vec<FrequencyBinPoint>>(
    analyze: F,
    windows: Seq<Seq<T>>,
    frames: Seq<Seq<FrequencyBinPoint>>,
) -> bool {
    &&& frames.len() == windows.len()
    &&& forall|i: int|
        0 <= i < windows.len() ==> frame_of(analyze, windows[i], #[trigger] frames[i])
}

/// The contents of each frame of `frames`.
pub open spec fn frame_views(frames: Seq<Vec<FrequencyBinPoint>>) -> Seq<Seq<FrequencyBinPoint>> {
    Seq::new(frames.len(), |i: int| frames[i]@)
}

/// Analyzes each window of `windows` and hands back the frames, in order.
pub fn analyze_all<T, F: Fn(&Vec<T>) -> Vec<FrequencyBinPoint>>(
    windows: &Vec<Vec<T>>,
    analyze: F,
) -> (frames: Vec<Vec<FrequencyBinPoint>>)
    requires
        forall|i: int|
            0 <= i < windows@.len() ==> call_requires(analyze, (&#[trigger] windows@[i],)),
    ensures
        analyzed(analyze, window_views(windows@), frame_views(frames@)),
{
    let mut frames: Vec<Vec<FrequencyBinPoint>> = Vec::new();
    let mut i: usize = 0;
    while i < windows.len()
        invariant
            i <= windows.len(),
            frames@.len() == i,
            forall|j: int|
                0 <= j < windows@.len() ==> call_requires(analyze, (&#[trigger] windows@[j],)),
            forall|j: int|
                0 <= j < i ==> frame_of(
                    analyze,
                    window_views(windows@)[j],
                    #[trigger] frame_views(frames@)[j],
                ),
        decreases windows.len() - i,
    {
        let ghost earlier = frame_views(frames@);
        let frame: Vec<FrequencyBinPoint> = analyze(&windows[i]);
        let ghost latest = frame@;
        assert(frame_of(analyze, window_views(windows@)[i as int], latest));
        frames.push(frame);
        assert(frame_views(frames@) =~= earlier.push(latest));
        i += 1;
    }
    frames
}

/// Feeds one chunk to `windower` and, unless `display` is paused, analyzes
/// each window the chunk completes and publishes the frame. Returns the
/// number of frames published.
///
/// A paused display is left untouched and the analyzer is not called; the
/// windower takes the chunk in either way, so no sample is lost to a pause.
pub fn process_chunk<T: Copy, F: Fn(&Vec<T>) -> Vec<FrequencyBinPoint>>(
    windower: &mut Windower<T>,
    display: &mut DisplayState,
    chunk: &[T],
    analyze: F,
) -> (published: usize)
    requires
        old(windower)@.wf(),
        old(display)@.wf(),
        forall|window: Vec<T>|
            window@.len() == old(windower)@.window_size ==> call_requires(analyze, (&window,)),
        old(display)@.paused || forall|window: Vec<T>, frame: Vec<FrequencyBinPoint>|
            call_ensures(analyze, (&window,), frame) ==> old(display)@.accepts(frame@),
    ensures
        final(windower)@ == old(windower)@.feed(chunk@),
        final(windower)@.wf(),
        final(display)@.wf(),
        old(display)@.paused ==> final(display)@ == old(display)@ && published == 0,
        !old(display)@.paused ==> published == old(windower)@.emitted(chunk@).len()
            && exists|frames: Seq<Seq<FrequencyBinPoint>>|
            analyzed(analyze, old(windower)@.emitted(chunk@), frames) && final(display)@ == old(
                display,
            )@.publish_all(frames),
{
    let ghost emitted = windower@.emitted(chunk@);
    let ghost start = display@;
    proof {
        lemma_windows_partition(windower@.pending + chunk@, windower@.window_size);
    }
    let ghost window_size = windower@.window_size;
    let windows: Vec<Vec<T>> = windower.feed(chunk);
    if display.is_paused() {
        return 0;
    }
    let ghost mut frames: Seq<Seq<FrequencyBinPoint>> = Seq::empty();
    let mut i: usize = 0;
    while i < windows.len()
        invariant
            i <= windows.len(),
            window_views(windows@) == emitted,
            forall|j: int| 0 <= j < emitted.len() ==> (#[trigger] emitted[j]).len() == window_size,
            forall|window: Vec<T>|
                window@.len() == window_size ==> call_requires(analyze, (&window,)),
            forall|window: Vec<T>, frame: Vec<FrequencyBinPoint>|
                call_ensures(analyze, (&window,), frame) ==> start.accepts(frame@),
            frames.len() == i,
            forall|j: int| 0 <= j < i ==> frame_of(analyze, emitted[j], #[trigger] frames[j]),
            display@ == start.publish_all(frames),
            display@.wf(),
            !display@.paused,
            display@.target_bin == start.target_bin,
        decreases windows.len() - i,
    {
        assert(window_views(windows@)[i as int] == windows@[i as int]@);
        let frame: Vec<FrequencyBinPoint> = analyze(&windows[i]);
        proof {
            let earlier = frames;
            frames = frames.push(frame@);
            assert(frames.drop_last() =~= earlier);
            assert(frame_of(analyze, emitted[i as int], frame@));
        }
        display.publish(frame.as_slice());
        i += 1;
    }
    proof {
        assert(analyzed(analyze, emitted, frames));
    }
    windows.len()
}

} // verus!
