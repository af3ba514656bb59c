//! The state shared between the analysis side, which writes it, and the
//! render side, which reads it: both display buffers, the highlighted bin and
//! the pause flag.
//!
//! Nothing is queued. A published frame replaces what was there, and while
//! the display is paused a published frame is discarded.

use crate::dft_surface::{DftSurface, DftView};
use crate::frame::{select_target, target_of, FrequencyBinPoint};
use crate::spectrogram_surface::{SpectrogramSurface, SpectrogramView};
use vstd::prelude::*;

verus! {

/// The display buffers with the highlighted bin and the pause flag.
pub struct DisplayState {
    spectrogram: SpectrogramSurface,
    dft: DftSurface,
    target: Option<FrequencyBinPoint>,
    target_bin: Option<usize>,
    paused: bool,
}

/// What a [`DisplayState`] holds, as mathematical values.
pub struct DisplayView {
    /// The scrolling history.
    pub spectrogram: SpectrogramView,
    /// The instantaneous frame.
    pub dft: DftView,
    /// The bin highlighted at the moment, if any frame has set one.
    pub target: Option<FrequencyBinPoint>,
    /// The bin to highlight in every frame, or `None` to highlight the peak.
    pub target_bin: Option<usize>,
    /// Whether published frames are being discarded.
    pub paused: bool,
}

impl DisplayView {
    /// Both buffers are well formed and the history can take a frame.
    pub open spec fn wf(self) -> bool {
        &&& self.spectrogram.wf()
        &&& self.spectrogram.accepts_frames()
        &&& self.dft.wf()
    }

    /// Whether `frame` reaches the configured bin, if one is configured.
    pub open spec fn accepts(self, frame: Seq<FrequencyBinPoint>) -> bool {
        self.target_bin matches Some(bin) ==> bin < frame.len()
    }

    /// The state after `frame` has been published.
    pub open spec fn publish(self, frame: Seq<FrequencyBinPoint>) -> DisplayView {
        if self.paused {
            self
        } else {
            DisplayView {
                spectrogram: self.spectrogram.push(frame),
                dft: self.dft.draw(frame),
                target: target_of(frame, self.target_bin),
                ..self
            }
        }
    }

    /// The state after each frame of `frames` has been published, in order.
    pub open spec fn publish_all(self, frames: Seq<Seq<FrequencyBinPoint>>) -> DisplayView
        decreases frames.len(),
    {
        if frames.len() == 0 {
            self
        } else {
            self.publish_all(frames.drop_last()).publish(frames.last())
        }
    }

    /// The state after the pause flag has been flipped.
    pub open spec fn toggle_pause(self) -> DisplayView {
        DisplayView { paused: !self.paused, ..self }
    }
}

/// A running display stays running, and its history after a run of frames is
/// the history with each of those frames pushed, in order.
pub proof fn lemma_running_pushes_all(view: DisplayView, frames: Seq<Seq<FrequencyBinPoint>>)
    requires
        !view.paused,
    ensures
        !view.publish_all(frames).paused,
        view.publish_all(frames).target_bin == view.target_bin,
        view.publish_all(frames).spectrogram == view.spectrogram.push_all(frames),
        frames.len() > 0 ==> view.publish_all(frames).dft == view.publish_all(
            frames.drop_last(),
        ).dft.draw(frames.last()),
        frames.len() > 0 ==> view.publish_all(frames).target == target_of(
            frames.last(),
            view.target_bin,
        ),
    decreases frames.len(),
{
    if frames.len() > 0 {
        lemma_running_pushes_all(view, frames.drop_last());
    }
}

/// While the display is paused, published frames change nothing.
pub proof fn lemma_paused_discards(view: DisplayView, frames: Seq<Seq<FrequencyBinPoint>>)
    requires
        view.paused,
    ensures
        view.publish_all(frames) == view,
    decreases frames.len(),
{
    if frames.len() > 0 {
        lemma_paused_discards(view, frames.drop_last());
    }
}

/// Pausing, publishing any number of frames and resuming leaves the display
/// as it was before the pause, and the first frame published after resuming
/// is applied to it as if the pause had never happened.
pub proof fn lemma_pause_then_resume(
    view: DisplayView,
    during: Seq<Seq<FrequencyBinPoint>>,
    next: Seq<FrequencyBinPoint>,
)
    requires
        !view.paused,
    ensures
        view.toggle_pause().publish_all(during).toggle_pause() == view,
        view.toggle_pause().publish_all(during).toggle_pause().publish(next) == view.publish(next),
        view.publish(next).spectrogram == view.spectrogram.push(next),
        view.publish(next).dft == view.dft.draw(next),
        view.publish(next).target == target_of(next, view.target_bin),
{
    lemma_paused_discards(view.toggle_pause(), during);
}

impl View for DisplayState {
    type V = DisplayView;

    closed spec fn view(&self) -> DisplayView {
        DisplayView {
            spectrogram: self.spectrogram@,
            dft: self.dft@,
            target: self.target,
            target_bin: self.target_bin,
            paused: self.paused,
        }
    }
}

impl DisplayState {
    /// Creates a running display with blank buffers of `fft_real_size` bins,
    /// a history `history_size` frames deep, and nothing highlighted yet.
    pub fn new(history_size: usize, fft_real_size: usize, target_bin: Option<usize>) -> (state:
        Self)
        requires
            4 * history_size * fft_real_size <= usize::MAX,
            history_size >= 1 || fft_real_size == 0,
        ensures
            state@.wf(),
            state@.spectrogram == SpectrogramView::blank(
                history_size as nat,
                fft_real_size as nat,
            ),
            state@.dft == DftView::blank(fft_real_size as nat),
            state@.target is None,
            state@.target_bin == target_bin,
            !state@.paused,
    {
        assert(4 * fft_real_size <= 4 * history_size * fft_real_size) by (nonlinear_arith)
            requires
                history_size >= 1 || fft_real_size == 0,
        ;
        DisplayState {
            spectrogram: SpectrogramSurface::new(history_size, fft_real_size),
            dft: DftSurface::new(fft_real_size),
            target: None,
            target_bin,
            paused: false,
        }
    }

    /// Creates a display as [`DisplayState::new`] does, or returns `None`
    /// where the buffers would not fit in memory or the history could not
    /// take a frame.
    pub fn try_new(history_size: usize, fft_real_size: usize, target_bin: Option<usize>) -> (made:
        Option<Self>)
        ensures
            made is Some <==> 4 * history_size * fft_real_size <= usize::MAX && (history_size >= 1
                || fft_real_size == 0),
            made matches Some(state) ==> {
                &&& state@.wf()
                &&& state@.spectrogram == SpectrogramView::blank(
                    history_size as nat,
                    fft_real_size as nat,
                )
                &&& state@.dft == DftView::blank(fft_real_size as nat)
                &&& state@.target is None
                &&& state@.target_bin == target_bin
                &&& !state@.paused
            },
    {
        if history_size == 0 && fft_real_size != 0 {
            return None;
        }
        let fits: bool = match history_size.checked_mul(fft_real_size) {
            Some(texels) => texels.checked_mul(4).is_some(),
            None => false,
        };
        assert(fits <==> 4 * history_size * fft_real_size <= usize::MAX) by (nonlinear_arith)
            requires
                fits <==> history_size * fft_real_size <= usize::MAX && (history_size
                    * fft_real_size) * 4 <= usize::MAX,
        ;
        if fits {
            Some(Self::new(history_size, fft_real_size, target_bin))
        } else {
            None
        }
    }

    /// Whether `fft` can be published: it must reach the configured bin, if
    /// one is configured.
    pub fn accepts(&self, fft: &[FrequencyBinPoint]) -> (accepted: bool)
        ensures
            accepted == self@.accepts(fft@),
    {
        match self.target_bin {
            Some(bin) => bin < fft.len(),
            None => true,
        }
    }

    /// The scrolling history.
    pub fn spectrogram(&self) -> (surface: &SpectrogramSurface)
        ensures
            surface@ == self@.spectrogram,
    {
        &self.spectrogram
    }

    /// The instantaneous frame.
    pub fn dft(&self) -> (surface: &DftSurface)
        ensures
            surface@ == self@.dft,
    {
        &self.dft
    }

    /// The bin highlighted at the moment.
    pub fn target(&self) -> (target: Option<FrequencyBinPoint>)
        ensures
            target == self@.target,
    {
        self.target
    }

    /// The bin to highlight in every frame, if one is configured.
    pub fn target_bin(&self) -> (bin: Option<usize>)
        ensures
            bin == self@.target_bin,
    {
        self.target_bin
    }

    /// The caption of the highlighted bin: `Target` for a configured bin,
    /// `Max` for the peak.
    pub fn target_label(&self) -> (label: &'static str)
        ensures
            label@ == if self@.target_bin is Some {
                "Target"@
            } else {
                "Max"@
            },
    {
        if self.target_bin.is_some() {
            "Target"
        } else {
            "Max"
        }
    }

    /// Whether published frames are being discarded.
    pub fn is_paused(&self) -> (paused: bool)
        ensures
            paused == self@.paused,
    {
        self.paused
    }

    /// Flips the pause flag.
    pub fn toggle_pause(&mut self)
        ensures
            final(self)@ == old(self)@.toggle_pause(),
    {
        self.paused = !self.paused;
    }

    /// Publishes one analysis frame and says whether it was applied.
    ///
    /// A running display pushes the frame to the history, draws it as the
    /// instantaneous frame and picks the highlighted bin from it. A paused
    /// display discards the frame.
    pub fn publish(&mut self, fft: &[FrequencyBinPoint]) -> (applied: bool)
        requires
            old(self)@.wf(),
            !old(self)@.paused ==> old(self)@.accepts(fft@),
        ensures
            final(self)@ == old(self)@.publish(fft@),
            final(self)@.wf(),
            applied == !old(self)@.paused,
    {
        if self.paused {
            return false;
        }
        self.target = select_target(fft, self.target_bin);
        self.spectrogram.update(fft);
        self.dft.update(fft);
        true
    }
}

} // verus!
