use spectrogram::display::DisplayState;
use spectrogram::frame::FrequencyBinPoint;

fn bin_with_phase(phase: f32) -> FrequencyBinPoint {
    FrequencyBinPoint { bin: 3, frequency: 0, power: 0, phase: phase.to_bits() }
}

#[test]
fn phase_sign_of_known_values() {
    assert_eq!(bin_with_phase(1.5).phase_sign(), '+');
    assert_eq!(bin_with_phase(-1.5).phase_sign(), '-');
    assert_eq!(bin_with_phase(0.0).phase_sign(), '+');
    assert_eq!(bin_with_phase(-0.0).phase_sign(), '-');
    assert_eq!(bin_with_phase(f32::INFINITY).phase_sign(), '+');
    assert_eq!(bin_with_phase(f32::NEG_INFINITY).phase_sign(), '-');
    assert_eq!(bin_with_phase(f32::NAN).phase_sign(), '-');
}

#[test]
fn phase_sign_agrees_with_the_float_signum() {
    let values = [
        3.1415927f32,
        -3.1415927,
        1.0e-40,
        -1.0e-40,
        0.0,
        -0.0,
        f32::MAX,
        f32::MIN,
        f32::INFINITY,
        f32::NEG_INFINITY,
        f32::NAN,
        f32::from_bits(0xffc0_0000),
        f32::from_bits(0x7f80_0001),
    ];
    for value in values {
        let want = if value.signum() > 0. { '+' } else { '-' };
        assert_eq!(bin_with_phase(value).phase_sign(), want);
    }
}

#[test]
fn phase_magnitude_agrees_with_the_float_abs() {
    for value in [2.5f32, -2.5, 0.0, -0.0, -1.0e-40, f32::NEG_INFINITY, f32::MIN] {
        assert_eq!(bin_with_phase(value).phase_magnitude(), value.abs().to_bits());
    }
    assert_eq!(bin_with_phase(-2.5).phase_magnitude(), 0x4020_0000);
}

#[test]
fn target_label_names_the_selection_rule() {
    assert_eq!(DisplayState::new(1, 4, None).target_label(), "Max");
    assert_eq!(DisplayState::new(1, 4, Some(2)).target_label(), "Target");
}
