use spectrogram::display::DisplayState;
use spectrogram::frame::FrequencyBinPoint;

fn frame_of_powers(powers: &[f32]) -> Vec<FrequencyBinPoint> {
    powers
        .iter()
        .enumerate()
        .map(|(bin, power)| FrequencyBinPoint { bin, frequency: 0, power: power.to_bits(), phase: 0 })
        .collect()
}

fn encoded(powers: &[f32]) -> Vec<u8> {
    powers.iter().flat_map(|p| p.to_be_bytes()).collect()
}

#[test]
fn new_display_is_running_blank_and_without_target() {
    let display = DisplayState::new(2, 3, None);
    assert!(!display.is_paused());
    assert_eq!(display.target(), None);
    assert_eq!(display.target_bin(), None);
    assert_eq!(display.spectrogram().texture(), vec![0u8; 24].as_slice());
    assert_eq!(display.dft().texture(), vec![0u8; 12].as_slice());
    assert_eq!(display.spectrogram().history_size(), 2);
    assert_eq!(display.spectrogram().dft_size(), 3);
    assert_eq!(display.dft().fft_real_size(), 3);
}

#[test]
fn publish_updates_both_buffers_and_the_target() {
    let mut display = DisplayState::new(2, 4, None);
    let frame = frame_of_powers(&[5.0, 1.0, 9.0, 3.0]);
    assert!(display.publish(&frame));
    assert_eq!(display.target(), Some(frame[2]));
    assert_eq!(display.dft().texture(), encoded(&[5.0, 1.0, 9.0, 3.0]).as_slice());
    let mut history = vec![0u8; 16];
    history.extend(encoded(&[5.0, 1.0, 9.0, 3.0]));
    assert_eq!(display.spectrogram().texture(), history.as_slice());
}

#[test]
fn publish_with_a_configured_bin_highlights_that_bin() {
    let mut display = DisplayState::new(1, 4, Some(1));
    let frame = frame_of_powers(&[5.0, 1.0, 9.0, 3.0]);
    display.publish(&frame);
    assert_eq!(display.target(), Some(frame[1]));
    assert_eq!(display.target_bin(), Some(1));
}

#[test]
fn publishing_a_frame_without_peak_clears_the_target() {
    let mut display = DisplayState::new(1, 2, None);
    display.publish(&frame_of_powers(&[1.0, 2.0]));
    assert!(display.target().is_some());
    display.publish(&frame_of_powers(&[1.0]));
    assert_eq!(display.target(), None);
}

#[test]
fn toggle_pause_flips_the_flag() {
    let mut display = DisplayState::new(1, 1, None);
    display.toggle_pause();
    assert!(display.is_paused());
    display.toggle_pause();
    assert!(!display.is_paused());
}

#[test]
fn paused_display_discards_frames_and_resumes_with_the_next() {
    let mut display = DisplayState::new(3, 2, None);
    let before_pause = frame_of_powers(&[0.0, 1.0]);
    assert!(display.publish(&before_pause));
    let history = display.spectrogram().texture().to_vec();
    let instant = display.dft().texture().to_vec();
    let target = display.target();

    display.toggle_pause();
    for n in 0..5 {
        assert!(!display.publish(&frame_of_powers(&[n as f32, 100.0 + n as f32])));
        assert_eq!(display.spectrogram().texture(), history.as_slice());
        assert_eq!(display.dft().texture(), instant.as_slice());
        assert_eq!(display.target(), target);
    }

    display.toggle_pause();
    let after_pause = frame_of_powers(&[0.0, 7.0]);
    assert!(display.publish(&after_pause));
    let mut want = vec![0u8; 8];
    want.extend(encoded(&[0.0, 1.0]));
    want.extend(encoded(&[0.0, 7.0]));
    assert_eq!(display.spectrogram().texture(), want.as_slice());
    assert_eq!(display.dft().texture(), encoded(&[0.0, 7.0]).as_slice());
    assert_eq!(display.target(), Some(after_pause[1]));
}

#[test]
fn paused_display_ignores_frames_too_short_for_the_configured_bin() {
    let mut display = DisplayState::new(1, 2, Some(1));
    display.toggle_pause();
    assert!(!display.publish(&[]));
    assert_eq!(display.target(), None);
}

#[test]
fn try_new_builds_the_same_display_as_new() {
    let display = DisplayState::try_new(2, 3, Some(1)).unwrap();
    assert!(!display.is_paused());
    assert_eq!(display.target(), None);
    assert_eq!(display.target_bin(), Some(1));
    assert_eq!(display.spectrogram().texture(), vec![0u8; 24].as_slice());
    assert_eq!(display.dft().texture(), vec![0u8; 12].as_slice());
}

#[test]
fn try_new_refuses_buffers_that_do_not_fit() {
    assert!(DisplayState::try_new(usize::MAX, 2, None).is_none());
    assert!(DisplayState::try_new(usize::MAX / 4 + 1, 1, None).is_none());
    assert!(DisplayState::try_new(2, usize::MAX / 2, None).is_none());
}

#[test]
fn try_new_refuses_a_history_without_scanlines() {
    assert!(DisplayState::try_new(0, 3, None).is_none());
    assert!(DisplayState::try_new(0, 0, None).is_some());
    assert!(DisplayState::try_new(3, 0, None).is_some());
}

#[test]
fn accepts_asks_for_the_configured_bin() {
    let display = DisplayState::new(1, 4, Some(2));
    assert!(!display.accepts(&frame_of_powers(&[1.0, 2.0])));
    assert!(display.accepts(&frame_of_powers(&[1.0, 2.0, 3.0])));
    let display = DisplayState::new(1, 4, None);
    assert!(display.accepts(&[]));
}
