//! The scrolling history view: the most recent analysis frames as a stack of
//! byte-encoded scanlines.
//!
//! The buffer is flat and never wraps. Scanline 0, at the start of the
//! buffer, is the oldest; the last scanline is the newest. Each update drops
//! scanline 0, moves every other scanline one place towards the start and
//! draws the new frame in the last place, so a reader needs no wrap-around
//! addressing.

use crate::encoding::{blank_line, overlay, scanline, write_bins};
use crate::frame::FrequencyBinPoint;
use vstd::prelude::*;

verus! {

/// A fixed-depth history of encoded analysis frames.
pub struct SpectrogramSurface {
    spectrogram_as_texture: Vec<u8>,
    history_size: usize,
    dft_size: usize,
}

/// What a [`SpectrogramSurface`] holds, as mathematical values.
pub struct SpectrogramView {
    /// Number of scanlines.
    pub history_size: nat,
    /// Number of bins per scanline.
    pub dft_size: nat,
    /// The scanlines, oldest first, laid end to end.
    pub texture: Seq<u8>,
}

impl SpectrogramView {
    /// Number of bytes in one scanline.
    pub open spec fn stride(self) -> nat {
        4 * self.dft_size
    }

    /// The buffer holds exactly `history_size` scanlines.
    pub open spec fn wf(self) -> bool {
        self.texture.len() == self.stride() * self.history_size
    }

    /// Whether a frame can be pushed: there is a scanline to draw it in, or
    /// scanlines are empty anyway.
    pub open spec fn accepts_frames(self) -> bool {
        self.history_size >= 1 || self.dft_size == 0
    }

    /// Scanline `j`, counted from the oldest.
    pub open spec fn line(self, j: int) -> Seq<u8> {
        self.texture.subrange(self.stride() * j, self.stride() * (j + 1))
    }

    /// A history of the given shape in which every byte is zero.
    pub open spec fn blank(history_size: nat, dft_size: nat) -> SpectrogramView {
        SpectrogramView {
            history_size,
            dft_size,
            texture: Seq::new(4 * dft_size * history_size, |k: int| 0u8),
        }
    }

    /// The history after one more frame has arrived.
    ///
    /// Everything but the oldest scanline moves one place towards the start.
    /// The frame is drawn over what the last place then still holds, which is
    /// the previous newest scanline: a frame with fewer bins than a scanline
    /// leaves the bins it does not reach as they were in that scanline, and
    /// bins beyond the scanline's width are dropped.
    pub open spec fn push(self, frame: Seq<FrequencyBinPoint>) -> SpectrogramView {
        let len = self.texture.len() as int;
        let stride = self.stride() as int;
        SpectrogramView {
            texture: self.texture.subrange(stride, len) + overlay(
                self.texture.subrange(len - stride, len),
                frame,
            ),
            ..self
        }
    }

    /// The history after each frame of `frames` has arrived, in order.
    pub open spec fn push_all(self, frames: Seq<Seq<FrequencyBinPoint>>) -> SpectrogramView
        decreases frames.len(),
    {
        if frames.len() == 0 {
            self
        } else {
            self.push_all(frames.drop_last()).push(frames.last())
        }
    }
}

/// Scanline `j` of a well-formed history lies inside the buffer.
pub proof fn lemma_line_bounds(view: SpectrogramView, j: int)
    requires
        view.wf(),
        0 <= j < view.history_size,
    ensures
        0 <= view.stride() * j,
        view.stride() * j + view.stride() == view.stride() * (j + 1),
        view.stride() * (j + 1) <= view.texture.len(),
        view.line(j).len() == view.stride(),
{
    let stride = view.stride() as int;
    let depth = view.history_size as int;
    assert(0 <= stride * j && stride * j + stride == stride * (j + 1) && stride * (j + 1) <= stride
        * depth) by (nonlinear_arith)
        requires
            0 <= stride,
            0 <= j < depth,
    ;
}

/// A frame that fills a scanline hides whatever the scanline held before.
pub proof fn lemma_overlay_full(line: Seq<u8>, frame: Seq<FrequencyBinPoint>, width: nat)
    requires
        line.len() == 4 * width,
        frame.len() >= width,
    ensures
        overlay(line, frame) == scanline(frame, width),
{
    assert(overlay(line, frame) =~= scanline(frame, width));
}

/// One update evicts the oldest scanline, keeps the others in order and makes
/// the new frame the newest scanline.
pub proof fn lemma_push_lines(view: SpectrogramView, frame: Seq<FrequencyBinPoint>)
    requires
        view.wf(),
        view.history_size >= 1,
    ensures
        view.push(frame).wf(),
        view.push(frame).history_size == view.history_size,
        view.push(frame).dft_size == view.dft_size,
        forall|j: int|
            0 <= j < view.history_size - 1 ==> #[trigger] view.push(frame).line(j) == view.line(
                j + 1,
            ),
        view.push(frame).line(view.history_size - 1) == overlay(
            view.line(view.history_size - 1),
            frame,
        ),
{
    let after = view.push(frame);
    let stride = view.stride() as int;
    let depth = view.history_size as int;
    let len = view.texture.len() as int;
    lemma_line_bounds(view, depth - 1);
    assert(stride * (depth - 1) == len - stride);
    assert(after.texture.len() == len);
    assert forall|j: int| 0 <= j < depth - 1 implies #[trigger] after.line(j) == view.line(
        j + 1,
    ) by {
        lemma_line_bounds(view, j);
        lemma_line_bounds(view, j + 1);
        assert(after.line(j) =~= view.line(j + 1));
    }
    lemma_line_bounds(after, depth - 1);
    assert(after.line(depth - 1) =~= overlay(view.line(depth - 1), frame));
}

/// After `m` full-width frames, scanline `j` holds frame `j + m - depth` if
/// that many frames have arrived, and what scanline `j + m` held before
/// otherwise.
pub proof fn lemma_push_all_lines(
    view: SpectrogramView,
    frames: Seq<Seq<FrequencyBinPoint>>,
    j: int,
)
    requires
        view.wf(),
        view.history_size >= 1,
        0 <= j < view.history_size,
        forall|i: int| 0 <= i < frames.len() ==> (#[trigger] frames[i]).len() >= view.dft_size,
    ensures
        view.push_all(frames).wf(),
        view.push_all(frames).history_size == view.history_size,
        view.push_all(frames).dft_size == view.dft_size,
        j + frames.len() >= view.history_size ==> view.push_all(frames).line(j) == scanline(
            frames[j + frames.len() - view.history_size],
            view.dft_size,
        ),
        j + frames.len() < view.history_size ==> view.push_all(frames).line(j) == view.line(
            j + frames.len(),
        ),
    decreases frames.len(),
{
    if frames.len() > 0 {
        let earlier = frames.drop_last();
        let depth = view.history_size as int;
        let before = view.push_all(earlier);
        lemma_push_all_lines(view, earlier, j);
        lemma_push_lines(before, frames.last());
        if j < depth - 1 {
            lemma_push_all_lines(view, earlier, j + 1);
            assert(before.push(frames.last()).line(j) == before.line(j + 1));
        } else {
            lemma_line_bounds(before, depth - 1);
            lemma_overlay_full(before.line(depth - 1), frames.last(), view.dft_size);
        }
    }
}

/// Once at least as many full-width frames have arrived as the history is
/// deep, the scanlines are exactly the encodings of the latest frames, oldest
/// first.
pub proof fn lemma_history_holds_latest(
    view: SpectrogramView,
    frames: Seq<Seq<FrequencyBinPoint>>,
)
    requires
        view.wf(),
        frames.len() >= view.history_size,
        forall|i: int| 0 <= i < frames.len() ==> (#[trigger] frames[i]).len() >= view.dft_size,
    ensures
        forall|j: int|
            0 <= j < view.history_size ==> #[trigger] view.push_all(frames).line(j) == scanline(
                frames[frames.len() - view.history_size + j],
                view.dft_size,
            ),
{
    assert forall|j: int| 0 <= j < view.history_size implies #[trigger] view.push_all(
        frames,
    ).line(j) == scanline(frames[frames.len() - view.history_size + j], view.dft_size) by {
        lemma_push_all_lines(view, frames, j);
    }
}

/// Every scanline of a blank history is a blank line.
pub proof fn lemma_blank_lines(history_size: nat, dft_size: nat, j: int)
    requires
        0 <= j < history_size,
    ensures
        SpectrogramView::blank(history_size, dft_size).wf(),
        SpectrogramView::blank(history_size, dft_size).line(j) == blank_line(dft_size),
{
    let view = SpectrogramView::blank(history_size, dft_size);
    assert(4 * dft_size * history_size == (4 * dft_size) * history_size) by (nonlinear_arith);
    lemma_line_bounds(view, j);
    assert(view.line(j) =~= blank_line(dft_size));
}

/// The first update of a blank history draws the frame in the newest scanline
/// and leaves every other scanline blank.
pub proof fn lemma_first_update(history_size: nat, dft_size: nat, frame: Seq<FrequencyBinPoint>)
    requires
        history_size >= 1,
    ensures
        forall|j: int|
            0 <= j < history_size - 1 ==> #[trigger] SpectrogramView::blank(
                history_size,
                dft_size,
            ).push(frame).line(j) == blank_line(dft_size),
        SpectrogramView::blank(history_size, dft_size).push(frame).line(history_size - 1)
            == scanline(frame, dft_size),
{
    let view = SpectrogramView::blank(history_size, dft_size);
    lemma_blank_lines(history_size, dft_size, history_size - 1);
    lemma_push_lines(view, frame);
    assert forall|j: int| 0 <= j < history_size - 1 implies #[trigger] view.push(frame).line(j)
        == blank_line(dft_size) by {
        lemma_blank_lines(history_size, dft_size, j + 1);
    }
}

impl View for SpectrogramSurface {
    type V = SpectrogramView;

    closed spec fn view(&self) -> SpectrogramView {
        SpectrogramView {
            history_size: self.history_size as nat,
            dft_size: self.dft_size as nat,
            texture: self.spectrogram_as_texture@,
        }
    }
}

impl SpectrogramSurface {
    /// Creates a history of `history_size` scanlines of `dft_size` bins each,
    /// every byte zero.
    pub fn new(history_size: usize, dft_size: usize) -> (surface: Self)
        requires
            4 * history_size * dft_size <= usize::MAX,
        ensures
            surface@ == SpectrogramView::blank(history_size as nat, dft_size as nat),
            surface@.wf(),
    {
        assert(4 * history_size <= 4 * history_size * dft_size || dft_size == 0)
            by (nonlinear_arith);
        assert(4 * history_size * dft_size == 4 * dft_size * history_size) by (nonlinear_arith);
        assert(4 * dft_size * history_size == (4 * dft_size) * history_size) by (nonlinear_arith);
        let len: usize = if dft_size == 0 {
            0
        } else {
            4 * history_size * dft_size
        };
        let surface = Self { history_size, dft_size, spectrogram_as_texture: vec![0u8; len] };
        assert(surface@.texture =~= SpectrogramView::blank(
            history_size as nat,
            dft_size as nat,
        ).texture);
        surface
    }

    /// Number of scanlines.
    pub fn history_size(&self) -> (n: usize)
        ensures
            n == self@.history_size,
    {
        self.history_size
    }

    /// Number of bins per scanline.
    pub fn dft_size(&self) -> (n: usize)
        ensures
            n == self@.dft_size,
    {
        self.dft_size
    }

    /// The encoded scanlines, oldest first, as the renderer reads them.
    pub fn texture(&self) -> (bytes: &[u8])
        ensures
            bytes@ == self@.texture,
    {
        self.spectrogram_as_texture.as_slice()
    }

    /// The texture's width and height in texels, one texel per bin and one
    /// row per scanline, if both fit the renderer's 16-bit dimensions.
    pub fn texture_size(&self) -> (size: Option<(u16, u16)>)
        ensures
            size is Some <==> self@.dft_size <= u16::MAX && self@.history_size <= u16::MAX,
            size matches Some((width, height)) ==> width == self@.dft_size && height
                == self@.history_size,
    {
        if self.dft_size <= 0xffff && self.history_size <= 0xffff {
            Some((self.dft_size as u16, self.history_size as u16))
        } else {
            None
        }
    }

    /// Pushes one analysis frame: the oldest scanline is evicted and the frame
    /// becomes the newest.
    pub fn update(&mut self, fft: &[FrequencyBinPoint])
        requires
            old(self)@.wf(),
            old(self)@.accepts_frames(),
        ensures
            final(self)@ == old(self)@.push(fft@),
            final(self)@.wf(),
    {
        let ghost before = self@;
        let spectrogram_len: usize = self.spectrogram_as_texture.len();
        assert(4 * self.dft_size <= spectrogram_len) by (nonlinear_arith)
            requires
                spectrogram_len == (4 * self.dft_size) * self.history_size,
                self.history_size >= 1 || self.dft_size == 0,
        ;
        let stride: usize = self.dft_size * 4;
        let base_idx: usize = spectrogram_len - stride;
        let mut k: usize = 0;
        while k < base_idx
            invariant
                k <= base_idx,
                base_idx + stride == spectrogram_len,
                self.spectrogram_as_texture.len() == spectrogram_len,
                before.texture.len() == spectrogram_len,
                self.history_size == before.history_size,
                self.dft_size == before.dft_size,
                forall|m: int|
                    0 <= m < spectrogram_len ==> #[trigger] self.spectrogram_as_texture@[m] == if m
                        < k {
                        before.texture[m + stride]
                    } else {
                        before.texture[m]
                    },
            decreases base_idx - k,
        {
            let byte: u8 = self.spectrogram_as_texture[k + stride];
            self.spectrogram_as_texture.set(k, byte);
            k += 1;
        }
        write_bins(&mut self.spectrogram_as_texture, base_idx, self.dft_size, fft);
        assert(self@.texture =~= before.push(fft@).texture);
    }
}

} // verus!
