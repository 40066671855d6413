use ale_gui::recorder::{Input, Recorder, ANDROID_SAMPLE_RATE};
use ale_gui::wav::encode;

fn recorded(samples: &[f32], sample_rate: u32, channels: u16) -> Recorder {
    let bits: Vec<u32> = samples.iter().map(|s| s.to_bits()).collect();
    let mut recorder = Recorder::new(sample_rate, channels);
    recorder.push_input(Input::F32(&bits), sample_rate as usize, channels as usize);
    recorder
}

#[test]
fn format_is_kept() {
    let recorder = Recorder::new(44_100, 2);
    assert_eq!((recorder.sample_rate(), recorder.channels()), (44_100, 2));
}

#[test]
fn mono_file_has_the_expected_bytes() {
    let file = recorded(&[0.0, 1.0, -1.0, 0.5], 16_000, 1).into_wav_bytes().unwrap();
    let mut expected: Vec<u8> = Vec::new();
    expected.extend(b"RIFF");
    expected.extend(44u32.to_le_bytes());
    expected.extend(b"WAVEfmt ");
    expected.extend(16u32.to_le_bytes());
    expected.extend(1u16.to_le_bytes());
    expected.extend(1u16.to_le_bytes());
    expected.extend(16_000u32.to_le_bytes());
    expected.extend(32_000u32.to_le_bytes());
    expected.extend(2u16.to_le_bytes());
    expected.extend(16u16.to_le_bytes());
    expected.extend(b"data");
    expected.extend(8u32.to_le_bytes());
    for value in [0i16, 32767, -32767, 16383] {
        expected.extend(value.to_le_bytes());
    }
    assert_eq!(file, expected);
}

#[test]
fn file_with_many_channels_has_the_expected_bytes() {
    let file = encode(3, 8_000, &[1, -2, 300]).unwrap();
    let mut expected: Vec<u8> = Vec::new();
    expected.extend(b"RIFF");
    expected.extend(66u32.to_le_bytes());
    expected.extend(b"WAVEfmt ");
    expected.extend(40u32.to_le_bytes());
    expected.extend(0xFFFEu16.to_le_bytes());
    expected.extend(3u16.to_le_bytes());
    expected.extend(8_000u32.to_le_bytes());
    expected.extend(48_000u32.to_le_bytes());
    expected.extend(6u16.to_le_bytes());
    expected.extend(16u16.to_le_bytes());
    expected.extend(22u16.to_le_bytes());
    expected.extend(16u16.to_le_bytes());
    expected.extend(7u32.to_le_bytes());
    expected.extend([1, 0, 0, 0, 0, 0, 0x10, 0, 0x80, 0, 0, 0xAA, 0, 0x38, 0x9B, 0x71]);
    expected.extend(b"data");
    expected.extend(6u32.to_le_bytes());
    for value in [1i16, -2, 300] {
        expected.extend(value.to_le_bytes());
    }
    assert_eq!(file, expected);
}

#[test]
fn channel_mask_names_eighteen_speakers_at_most() {
    for (channels, mask) in [(17u16, 0x1FFFFu32), (18, 0x3FFFF), (40, 0x3FFFF)] {
        let file = encode(channels, 8_000, &vec![0; channels as usize]).unwrap();
        assert_eq!(file[40..44], mask.to_le_bytes());
        assert_eq!(file[32..34], (2 * channels).to_le_bytes());
    }
}

#[test]
fn file_reads_back() {
    let file = recorded(&[0.25, -0.25, 3.0, -3.0], 48_000, 2).into_wav_bytes().unwrap();
    let mut reader = hound::WavReader::new(std::io::Cursor::new(file)).unwrap();
    let spec = reader.spec();
    assert_eq!((spec.channels, spec.sample_rate, spec.bits_per_sample), (2, 48_000, 16));
    let values: Vec<i16> = reader.samples::<i16>().map(|s| s.unwrap()).collect();
    assert_eq!(values, vec![8191, -8191, 32767, -32767]);
}

#[test]
fn empty_recording_is_an_error() {
    assert_eq!(Recorder::new(16_000, 1).into_wav_bytes(), Err("没有录到音频".to_string()));
}

#[test]
fn incomplete_frame_is_an_error() {
    assert_eq!(
        recorded(&[0.1, 0.2, 0.3], 16_000, 2).into_wav_bytes(),
        Err(
            "完成 WAV 失败: The number of samples written is not a multiple of the number of channels."
                .to_string()
        )
    );
}

#[test]
fn readers_get_pcm_bytes() {
    let mut recorder = recorded(&[1.0, -1.0], 16_000, 1);
    let mut offset = 0;
    assert_eq!(recorder.samples_since(&mut offset), vec![0xFF, 0x7F, 0x01, 0x80]);
    assert_eq!(offset, 2);
    recorder.push_input(Input::F32(&[0.5f32.to_bits()]), 16_000, 1);
    assert_eq!(recorder.samples_since(&mut offset), vec![0xFF, 0x3F]);
}

#[test]
fn file_ends_with_what_a_reader_gets() {
    let recorder = recorded(&[0.1, -0.7, 0.3, 0.9], 16_000, 1);
    let bytes = recorder.samples_since(&mut 0);
    let file = recorder.into_wav_bytes().unwrap();
    assert_eq!(file[44..], bytes);
}

#[test]
fn integer_input_is_converted() {
    let mut signed = Recorder::new(16_000, 1);
    signed.push_input(Input::I16(&[0, 32767, -32767, 12345]), 16_000, 1);
    let expected: Vec<u32> =
        [0i16, 32767, -32767, 12345].iter().map(|s| (*s as f32 / 32767.0).to_bits()).collect();
    assert_eq!(signed.samples.samples, expected);

    let mut unsigned = Recorder::new(16_000, 1);
    unsigned.push_input(Input::U16(&[0, 65535, 32768]), 16_000, 1);
    let expected: Vec<u32> =
        [0u16, 65535, 32768].iter().map(|s| ((*s as f32 / 65535.0) * 2.0 - 1.0).to_bits()).collect();
    assert_eq!(unsigned.samples.samples, expected);
}

#[test]
fn signed_input_keeps_its_values() {
    let values: Vec<i16> = (-32767..=32767).step_by(7).collect();
    let mut recorder = Recorder::new(16_000, 1);
    recorder.push_input(Input::I16(&values), 16_000, 1);
    let bytes: Vec<u8> = values.iter().flat_map(|v| v.to_le_bytes()).collect();
    assert_eq!(recorder.samples_since(&mut 0), bytes);
}

#[test]
fn long_recordings_lose_their_beginning() {
    let mut recorder = Recorder::new(48_000, 1);
    let second = vec![0u32; ANDROID_SAMPLE_RATE];
    for _ in 0..6 {
        recorder.push_input(Input::F32(&second), ANDROID_SAMPLE_RATE, 1);
    }
    assert_eq!(recorder.samples.samples.len(), 4 * ANDROID_SAMPLE_RATE);
    assert_eq!(recorder.samples.start_index, 2 * ANDROID_SAMPLE_RATE);
}
