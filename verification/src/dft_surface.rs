//! The instantaneous view: the single most recent analysis frame, encoded as
//! one scanline that is overwritten in place.

use crate::encoding::{blank_line, overlay, scanline, write_bins};
use crate::frame::FrequencyBinPoint;
use vstd::prelude::*;

verus! {

/// One encoded scanline holding the latest analysis frame.
pub struct DftSurface {
    dft_as_texture: Vec<u8>,
    fft_real_size: usize,
}

/// What a [`DftSurface`] holds, as mathematical values.
pub struct DftView {
    /// Number of bins in the scanline.
    pub fft_real_size: nat,
    /// The scanline.
    pub texture: Seq<u8>,
}

impl DftView {
    /// The buffer holds exactly one scanline.
    pub open spec fn wf(self) -> bool {
        self.texture.len() == 4 * self.fft_real_size
    }

    /// A view of the given width in which every byte is zero.
    pub open spec fn blank(fft_real_size: nat) -> DftView {
        DftView { fft_real_size, texture: blank_line(fft_real_size) }
    }

    /// The view after `frame` has been drawn.
    ///
    /// Bins of the frame beyond the scanline's width are dropped; bins of the
    /// scanline that the frame does not reach keep what they held.
    pub open spec fn draw(self, frame: Seq<FrequencyBinPoint>) -> DftView {
        DftView { texture: overlay(self.texture, frame), ..self }
    }
}

/// A frame that fills the scanline replaces it entirely, so the view holds
/// nothing but the latest frame.
pub proof fn lemma_draw_full(view: DftView, frame: Seq<FrequencyBinPoint>)
    requires
        view.wf(),
        frame.len() >= view.fft_real_size,
    ensures
        view.draw(frame).texture == scanline(frame, view.fft_real_size),
{
    assert(view.draw(frame).texture =~= scanline(frame, view.fft_real_size));
}

impl View for DftSurface {
    type V = DftView;

    closed spec fn view(&self) -> DftView {
        DftView { fft_real_size: self.fft_real_size as nat, texture: self.dft_as_texture@ }
    }
}

impl DftSurface {
    /// Creates a scanline of `fft_real_size` bins, every byte zero.
    pub fn new(fft_real_size: usize) -> (surface: Self)
        requires
            4 * fft_real_size <= usize::MAX,
        ensures
            surface@ == DftView::blank(fft_real_size as nat),
            surface@.wf(),
    {
        let surface = Self { fft_real_size, dft_as_texture: vec![0u8; 4 * fft_real_size] };
        assert(surface@.texture =~= blank_line(fft_real_size as nat));
        surface
    }

    /// Number of bins in the scanline.
    pub fn fft_real_size(&self) -> (n: usize)
        ensures
            n == self@.fft_real_size,
    {
        self.fft_real_size
    }

    /// The encoded scanline, as the renderer reads it.
    pub fn texture(&self) -> (bytes: &[u8])
        ensures
            bytes@ == self@.texture,
    {
        self.dft_as_texture.as_slice()
    }

    /// The texture's width and height in texels, one texel per bin in a
    /// single row, if the width fits the renderer's 16-bit dimensions.
    pub fn texture_size(&self) -> (size: Option<(u16, u16)>)
        ensures
            size is Some <==> self@.fft_real_size <= u16::MAX,
            size matches Some((width, height)) ==> width == self@.fft_real_size && height == 1,
    {
        if self.fft_real_size <= 0xffff {
            Some((self.fft_real_size as u16, 1))
        } else {
            None
        }
    }

    /// Draws one analysis frame over the scanline.
    pub fn update(&mut self, fft: &[FrequencyBinPoint])
        requires
            old(self)@.wf(),
        ensures
            final(self)@ == old(self)@.draw(fft@),
            final(self)@.wf(),
    {
        let ghost before = self@;
        write_bins(&mut self.dft_as_texture, 0, self.fft_real_size, fft);
        assert(self@.texture =~= before.draw(fft@).texture);
    }
}

} // verus!
