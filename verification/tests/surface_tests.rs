use spectrogram::dft_surface::DftSurface;
use spectrogram::encoding::decode_scanline;
use spectrogram::frame::FrequencyBinPoint;
use spectrogram::spectrogram_surface::SpectrogramSurface;

fn frame_of_powers(powers: &[f32]) -> Vec<FrequencyBinPoint> {
    powers
        .iter()
        .enumerate()
        .map(|(bin, power)| FrequencyBinPoint { bin, frequency: 0, power: power.to_bits(), phase: 0 })
        .collect()
}

fn encoded(powers: &[f32]) -> Vec<u8> {
    powers.iter().flat_map(|p| p.to_be_bytes()).collect()
}

fn scanline(surface: &SpectrogramSurface, j: usize) -> Vec<u8> {
    let stride = 4 * surface.dft_size();
    surface.texture()[j * stride..(j + 1) * stride].to_vec()
}

#[test]
fn fresh_history_is_zero_filled() {
    let surface = SpectrogramSurface::new(3, 5);
    assert_eq!(surface.history_size(), 3);
    assert_eq!(surface.dft_size(), 5);
    assert_eq!(surface.texture(), vec![0u8; 4 * 3 * 5].as_slice());
}

#[test]
fn default_sized_history_has_the_expected_length() {
    let surface = SpectrogramSurface::new(512, 698);
    assert_eq!(surface.texture().len(), 4 * 512 * 698);
    assert_eq!(surface.texture_size(), Some((698, 512)));
}

#[test]
fn first_update_changes_only_the_newest_scanline() {
    let mut surface = SpectrogramSurface::new(4, 3);
    surface.update(&frame_of_powers(&[5.0, 1.0, 9.0]));
    for j in 0..3 {
        assert_eq!(scanline(&surface, j), vec![0u8; 12]);
    }
    assert_eq!(scanline(&surface, 3), encoded(&[5.0, 1.0, 9.0]));
}

#[test]
fn update_writes_exact_bytes() {
    let mut surface = SpectrogramSurface::new(2, 2);
    surface.update(&frame_of_powers(&[1.0, 2.0]));
    assert_eq!(
        surface.texture(),
        [0, 0, 0, 0, 0, 0, 0, 0, 0x3f, 0x80, 0, 0, 0x40, 0, 0, 0].as_slice()
    );
    surface.update(&frame_of_powers(&[0.5, -2.0]));
    assert_eq!(
        surface.texture(),
        [0x3f, 0x80, 0, 0, 0x40, 0, 0, 0, 0x3f, 0, 0, 0, 0xc0, 0, 0, 0].as_slice()
    );
}

#[test]
fn history_keeps_the_latest_frames_oldest_first() {
    let depth = 3;
    let extra = 4;
    let mut surface = SpectrogramSurface::new(depth, 2);
    let frames: Vec<Vec<f32>> =
        (1..=depth + extra).map(|n| vec![n as f32, 10.0 * n as f32]).collect();
    for frame in &frames {
        surface.update(&frame_of_powers(frame));
    }
    for j in 0..depth {
        assert_eq!(scanline(&surface, j), encoded(&frames[extra + j]));
    }
}

#[test]
fn history_not_yet_full_keeps_blank_lines_at_the_old_end() {
    let mut surface = SpectrogramSurface::new(4, 1);
    surface.update(&frame_of_powers(&[1.0]));
    surface.update(&frame_of_powers(&[2.0]));
    assert_eq!(scanline(&surface, 0), vec![0u8; 4]);
    assert_eq!(scanline(&surface, 1), vec![0u8; 4]);
    assert_eq!(scanline(&surface, 2), encoded(&[1.0]));
    assert_eq!(scanline(&surface, 3), encoded(&[2.0]));
}

#[test]
fn history_of_depth_one_holds_only_the_latest_frame() {
    let mut surface = SpectrogramSurface::new(1, 2);
    surface.update(&frame_of_powers(&[1.0, 2.0]));
    surface.update(&frame_of_powers(&[3.0, 4.0]));
    assert_eq!(surface.texture(), encoded(&[3.0, 4.0]).as_slice());
}

#[test]
fn bins_beyond_the_width_are_ignored() {
    let mut surface = SpectrogramSurface::new(2, 2);
    surface.update(&frame_of_powers(&[1.0, 2.0, 3.0, 4.0]));
    assert_eq!(scanline(&surface, 0), vec![0u8; 8]);
    assert_eq!(scanline(&surface, 1), encoded(&[1.0, 2.0]));
}

#[test]
fn short_frame_leaves_trailing_bins_as_the_previous_newest_line_had_them() {
    let mut surface = SpectrogramSurface::new(2, 3);
    surface.update(&frame_of_powers(&[1.0, 2.0, 3.0]));
    surface.update(&frame_of_powers(&[7.0]));
    assert_eq!(scanline(&surface, 0), encoded(&[1.0, 2.0, 3.0]));
    assert_eq!(scanline(&surface, 1), encoded(&[7.0, 2.0, 3.0]));
}

#[test]
fn empty_frame_still_scrolls_the_history() {
    let mut surface = SpectrogramSurface::new(3, 1);
    surface.update(&frame_of_powers(&[1.0]));
    surface.update(&[]);
    assert_eq!(scanline(&surface, 0), vec![0u8; 4]);
    assert_eq!(scanline(&surface, 1), encoded(&[1.0]));
    assert_eq!(scanline(&surface, 2), encoded(&[1.0]));
}

#[test]
fn history_without_bins_stays_empty() {
    let mut surface = SpectrogramSurface::new(3, 0);
    surface.update(&frame_of_powers(&[1.0, 2.0]));
    assert!(surface.texture().is_empty());
    let mut surface = SpectrogramSurface::new(0, 0);
    surface.update(&frame_of_powers(&[1.0]));
    assert!(surface.texture().is_empty());
}

#[test]
fn history_texture_size_needs_sixteen_bit_dimensions() {
    assert_eq!(SpectrogramSurface::new(2, 3).texture_size(), Some((3, 2)));
    assert_eq!(SpectrogramSurface::new(1, 65_535).texture_size(), Some((65_535, 1)));
    assert_eq!(SpectrogramSurface::new(1, 65_536).texture_size(), None);
    assert_eq!(SpectrogramSurface::new(65_536, 1).texture_size(), None);
    assert_eq!(SpectrogramSurface::new(0, 0).texture_size(), Some((0, 0)));
}

#[test]
fn decoding_a_scanline_gives_back_the_powers() {
    let powers = [0.0f32, 5.0, 1.0, 9.0, 3.0, 6.1e-5];
    let mut surface = SpectrogramSurface::new(2, powers.len());
    surface.update(&frame_of_powers(&powers));
    let decoded = decode_scanline(&scanline(&surface, 1));
    let want: Vec<u32> = powers.iter().map(|p| p.to_bits()).collect();
    assert_eq!(decoded, want);
}

#[test]
fn fresh_instantaneous_frame_is_zero_filled() {
    let surface = DftSurface::new(6);
    assert_eq!(surface.fft_real_size(), 6);
    assert_eq!(surface.texture(), vec![0u8; 24].as_slice());
    assert_eq!(surface.texture_size(), Some((6, 1)));
}

#[test]
fn instantaneous_frame_is_overwritten_in_place() {
    let mut surface = DftSurface::new(3);
    surface.update(&frame_of_powers(&[1.0, 2.0, 3.0]));
    assert_eq!(surface.texture(), encoded(&[1.0, 2.0, 3.0]).as_slice());
    surface.update(&frame_of_powers(&[4.0, 5.0, 6.0]));
    assert_eq!(surface.texture(), encoded(&[4.0, 5.0, 6.0]).as_slice());
    assert_eq!(surface.texture().len(), 12);
}

#[test]
fn instantaneous_frame_truncates_and_keeps_stale_bins() {
    let mut surface = DftSurface::new(2);
    surface.update(&frame_of_powers(&[1.0, 2.0, 3.0]));
    assert_eq!(surface.texture(), encoded(&[1.0, 2.0]).as_slice());
    surface.update(&frame_of_powers(&[9.0]));
    assert_eq!(surface.texture(), encoded(&[9.0, 2.0]).as_slice());
    surface.update(&[]);
    assert_eq!(surface.texture(), encoded(&[9.0, 2.0]).as_slice());
}

#[test]
fn instantaneous_texture_size_needs_a_sixteen_bit_width() {
    assert_eq!(DftSurface::new(0).texture_size(), Some((0, 1)));
    assert_eq!(DftSurface::new(65_535).texture_size(), Some((65_535, 1)));
    assert_eq!(DftSurface::new(65_536).texture_size(), None);
}

#[test]
fn decoding_the_instantaneous_frame_gives_back_the_powers() {
    let powers = [2.5f32, 0.0, 1.0e10];
    let mut surface = DftSurface::new(3);
    surface.update(&frame_of_powers(&powers));
    let decoded: Vec<f32> =
        decode_scanline(surface.texture()).into_iter().map(f32::from_bits).collect();
    assert_eq!(decoded, powers.to_vec());
}
