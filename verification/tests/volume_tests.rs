use music_library::volume::{clamp_volume, FULL, INFINITE, SIGN, SILENT};

fn applied(requested: f32) -> f32 {
    f32::from_bits(clamp_volume(requested.to_bits()))
}

#[test]
fn constants_are_the_patterns_they_name() {
    assert_eq!(SILENT, 0.0f32.to_bits());
    assert_eq!(FULL, 1.0f32.to_bits());
    assert_eq!(INFINITE, f32::INFINITY.to_bits());
    assert_eq!(SIGN, (-0.0f32).to_bits());
}

#[test]
fn negative_request_is_applied_as_zero() {
    assert_eq!(applied(-1.0), 0.0);
    assert_eq!(clamp_volume((-1.0f32).to_bits()), SILENT);
}

#[test]
fn request_above_one_is_applied_as_one() {
    assert_eq!(applied(5.0), 1.0);
    assert_eq!(clamp_volume(5.0f32.to_bits()), FULL);
}

#[test]
fn request_in_range_is_applied_unchanged() {
    for v in [0.0f32, 1.0, 0.5, 0.25, 0.999_999_9, f32::MIN_POSITIVE, 1.0e-40] {
        assert_eq!(clamp_volume(v.to_bits()), v.to_bits(), "{v}");
    }
}

#[test]
fn infinities_are_clamped() {
    assert_eq!(applied(f32::INFINITY), 1.0);
    assert_eq!(applied(f32::NEG_INFINITY), 0.0);
    assert_eq!(applied(f32::MAX), 1.0);
    assert_eq!(applied(f32::MIN), 0.0);
}

#[test]
fn negative_zero_and_nan_pass_through() {
    assert_eq!(clamp_volume((-0.0f32).to_bits()), (-0.0f32).to_bits());
    assert!(applied(f32::NAN).is_nan());
    assert_eq!(clamp_volume(f32::NAN.to_bits()), f32::NAN.to_bits());
    assert_eq!(clamp_volume(0xffc0_0001), 0xffc0_0001);
}

#[test]
fn agrees_with_the_float_clamp_on_a_sweep_of_patterns() {
    let mut bits: u32 = 0;
    loop {
        let requested = f32::from_bits(bits);
        let expected = requested.clamp(0.0, 1.0);
        let got = f32::from_bits(clamp_volume(bits));
        if expected.is_nan() {
            assert!(got.is_nan(), "{bits:#x}");
        } else {
            assert_eq!(got.to_bits(), expected.to_bits(), "{bits:#x}");
        }
        match bits.checked_add(0x0001_0007) {
            Some(next) => bits = next,
            None => break,
        }
    }
}

#[test]
fn patterns_around_the_bounds() {
    assert_eq!(clamp_volume(FULL + 1), FULL);
    assert_eq!(clamp_volume(FULL - 1), FULL - 1);
    assert_eq!(clamp_volume(SIGN + 1), SILENT);
    assert_eq!(clamp_volume(SIGN | INFINITE), SILENT);
    assert_eq!(clamp_volume(INFINITE + 1), INFINITE + 1);
}
