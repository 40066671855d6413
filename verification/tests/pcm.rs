use ale_gui::pcm::{quantize, quantize_all, sample_from_i16, sample_from_u16, to_bytes};

fn on_hardware(s: f32) -> i16 {
    (s.clamp(-1.0, 1.0) * 32767.0) as i16
}

#[test]
fn quantization_agrees_with_hardware() {
    let mut bits: u32 = 0;
    loop {
        assert_eq!(quantize(bits), on_hardware(f32::from_bits(bits)), "{bits:x}");
        match bits.checked_add(4099) {
            Some(next) => bits = next,
            None => break,
        }
    }
}

#[test]
fn special_samples() {
    for s in [0.0, -0.0, 1.0, -1.0, 2.5, f32::INFINITY, f32::NEG_INFINITY, f32::NAN, f32::MIN_POSITIVE, 0.5, -0.5, 0.99999994] {
        assert_eq!(quantize(f32::to_bits(s)), on_hardware(s));
    }
}

#[test]
fn every_signed_sample_agrees_with_hardware() {
    for s in i16::MIN..=i16::MAX {
        assert_eq!(sample_from_i16(s), f32::to_bits(s as f32 / i16::MAX as f32));
    }
}

#[test]
fn every_unsigned_sample_agrees_with_hardware() {
    for s in u16::MIN..=u16::MAX {
        assert_eq!(sample_from_u16(s), f32::to_bits((s as f32 / u16::MAX as f32) * 2.0 - 1.0));
    }
}

#[test]
fn quantization_is_symmetric_and_monotone() {
    let mut last = quantize(0);
    for k in 0..=2000u32 {
        let s = k as f32 / 1000.0;
        let value = quantize(s.to_bits());
        assert!(value >= last && value <= 32767);
        assert_eq!(quantize((-s).to_bits()), -value);
        last = value;
    }
    assert_eq!(quantize(0.5f32.to_bits()), 16383);
}

#[test]
fn pcm_values_are_written_low_byte_first() {
    assert_eq!(to_bytes(&[1, -2, 0x1234]), vec![1, 0, 0xFE, 0xFF, 0x34, 0x12]);
    assert_eq!(quantize_all(&[1f32.to_bits(), (-0.25f32).to_bits()]), vec![32767, -8191]);
}
