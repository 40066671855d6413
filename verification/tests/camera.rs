use ale_gui::camera::{
    encoding_result, frame_to_jpeg, generate_placeholder_frame, rgba_frame_pixels, AndroidCamera,
    CameraConfig, CameraError, CameraFrame, CameraStart, Rgba8Pixel,
};

fn frame(width: u32, height: u32, rgba_data: Vec<u8>) -> CameraFrame {
    CameraFrame { width, height, rgba_data, is_placeholder: false }
}

#[test]
fn default_configuration() {
    let config = CameraConfig::default();
    assert_eq!((config.width, config.height, config.fps), (1280, 720, 30));
    let copy = config.clone();
    assert_eq!((copy.width, copy.height, copy.fps), (1280, 720, 30));
}

#[test]
fn camera_starts_on_android_only() {
    let mut camera = AndroidCamera::new(CameraConfig::default());
    let error = camera.start(false).unwrap_err();
    assert_eq!(error.text(), "Camera only available on Android");
    assert!(!camera.running);
    assert_eq!(camera.start(true).unwrap(), CameraStart::Launch { width: 1280, height: 720 });
    assert!(camera.running);
    assert_eq!(camera.start(true).unwrap(), CameraStart::AlreadyRunning);
    camera.stop();
    assert!(!camera.running);
    assert_eq!(camera.start(true).unwrap(), CameraStart::Launch { width: 1280, height: 720 });
}

#[test]
fn latest_frame_is_the_stored_one() {
    let mut camera = AndroidCamera::new(CameraConfig::default());
    assert!(camera.latest_frame().is_none());
    match camera.capture_frame() {
        Err(error) => assert_eq!(error.text(), "No camera frame available"),
        Ok(_) => panic!(),
    }
    camera.store_frame(frame(1, 1, vec![1, 2, 3, 4]));
    camera.store_frame(frame(1, 1, vec![5, 6, 7, 8]));
    let latest = camera.latest_frame().unwrap();
    assert_eq!((latest.width, latest.height, latest.is_placeholder), (1, 1, false));
    assert_eq!(latest.rgba_data, vec![5, 6, 7, 8]);
    match camera.capture_frame() {
        Ok(captured) => assert_eq!(captured.rgba_data, vec![5, 6, 7, 8]),
        Err(_) => panic!(),
    }
}

#[test]
fn errors_say_what_happened() {
    assert_eq!(
        CameraError::Lock("poisoned".to_string()).text(),
        "Failed to lock running flag: poisoned"
    );
    assert_eq!(CameraError::Encode("why".to_string()).text(), "JPEG encode failed: why");
}

#[test]
fn jpeg_is_what_the_encoder_makes() {
    let mut rgba = Vec::new();
    let mut rgb = Vec::new();
    for i in 0..16 * 8u32 {
        let (r, g, b) = ((i * 3) as u8, (i * 5) as u8, (i * 7) as u8);
        rgba.extend([r, g, b, i as u8]);
        rgb.extend([r, g, b]);
    }
    let file = frame_to_jpeg(&frame(16, 8, rgba), 80).unwrap();

    let picture = image::RgbImage::from_raw(16, 8, rgb).unwrap();
    let mut expected = std::io::Cursor::new(Vec::new());
    let encoder = image::codecs::jpeg::JpegEncoder::new_with_quality(&mut expected, 80);
    picture.write_with_encoder(encoder).unwrap();
    assert_eq!(file, expected.into_inner());
    assert_eq!(file[..2], [0xFF, 0xD8]);
}

#[test]
fn quality_makes_a_difference() {
    let rgba: Vec<u8> = (0..64 * 64 * 4u32).map(|i| (i * i / 7) as u8).collect();
    let coarse = frame_to_jpeg(&frame(64, 64, rgba.clone()), 5).unwrap();
    let fine = frame_to_jpeg(&frame(64, 64, rgba), 95).unwrap();
    assert!(coarse.len() < fine.len());
}

#[test]
fn bytes_beyond_the_picture_are_ignored() {
    let short = frame_to_jpeg(&frame(2, 1, vec![9; 8]), 80).unwrap();
    let long = frame_to_jpeg(&frame(2, 1, vec![9; 100]), 80).unwrap();
    assert_eq!(short, long);
}

#[test]
fn incomplete_frames_are_refused() {
    let error = frame_to_jpeg(&frame(2, 2, vec![0; 15]), 80).unwrap_err();
    assert_eq!(error.text(), "Failed to create image from frame");
}

#[test]
fn sizes_beyond_the_format_are_refused() {
    let error = frame_to_jpeg(&frame(0, 5, vec![]), 80).unwrap_err();
    assert_eq!(
        error.text(),
        "JPEG encode failed: Format error encoding Jpeg:\nInvalid image size (0 x 5) to encode as JPEG: width and height must be >= 1 and <= 65535"
    );
    let error = frame_to_jpeg(&frame(65536, 1, vec![0; 4 * 65536]), 80).unwrap_err();
    assert_eq!(
        error.text(),
        "JPEG encode failed: Format error encoding Jpeg:\nInvalid image size (65536 x 1) to encode as JPEG: width and height must be >= 1 and <= 65535"
    );
}

#[test]
fn encoding_results_are_passed_on() {
    assert_eq!(encoding_result(Ok(vec![1, 2])).unwrap(), vec![1, 2]);
    match encoding_result(Err("full".to_string())) {
        Err(CameraError::Encode(cause)) => assert_eq!(cause, "full"),
        _ => panic!(),
    }
}

#[test]
fn placeholders_are_not_sent_on() {
    let mut camera = AndroidCamera::new(CameraConfig::default());
    assert!(camera.latest_frame_jpeg(80).is_none());
    camera.store_frame(generate_placeholder_frame(4, 4, 0));
    assert!(camera.latest_frame_jpeg(80).is_none());
    camera.store_frame(frame(2, 2, vec![0; 3]));
    assert!(camera.latest_frame_jpeg(80).is_none());
    camera.store_frame(frame(2, 2, vec![0; 16]));
    let file = camera.latest_frame_jpeg(80).unwrap();
    assert_eq!(file, frame_to_jpeg(&frame(2, 2, vec![0; 16]), 80).unwrap());
}

#[test]
fn placeholder_is_drawn_as_expected() {
    for (width, height, tick) in [(1u32, 1u32, 0u32), (7, 5, 254), (100, 80, 255), (64, 3, 4_000_000_000)] {
        let drawn = generate_placeholder_frame(width, height, tick);
        assert!(drawn.is_placeholder);
        assert_eq!((drawn.width, drawn.height), (width, height));
        let mut expected = Vec::new();
        let stripe = (tick % 255) as u8;
        for y in 0..height {
            for x in 0..width {
                let gradient_x = ((x * 255) / width.max(1)) as u8;
                let gradient_y = ((y * 255) / height.max(1)) as u8;
                let pulse = stripe.wrapping_add(((x + y) % 64) as u8);
                expected.push(gradient_x.saturating_add(pulse / 4));
                expected.push(gradient_y.saturating_add(pulse / 5));
                expected.push(96u8.saturating_add(pulse / 3));
                expected.push(255);
            }
        }
        assert_eq!(drawn.rgba_data, expected);
    }
    assert!(generate_placeholder_frame(0, 9, 1).rgba_data.is_empty());
}

#[test]
fn placeholder_pixels_have_these_values() {
    let drawn = generate_placeholder_frame(2, 1, 100);
    assert_eq!(drawn.rgba_data, vec![25, 20, 129, 255, 152, 20, 129, 255]);
}

#[test]
fn frames_become_pixels() {
    let pixels = rgba_frame_pixels(2, 1, &[1, 2, 3, 4, 5, 6, 7, 8]);
    assert_eq!(
        pixels,
        vec![Rgba8Pixel { r: 1, g: 2, b: 3, a: 4 }, Rgba8Pixel { r: 5, g: 6, b: 7, a: 8 }]
    );
}

#[test]
fn missing_pixels_are_transparent() {
    let blank = Rgba8Pixel { r: 0, g: 0, b: 0, a: 0 };
    let pixels = rgba_frame_pixels(3, 1, &[1, 2, 3, 4, 5, 6, 7]);
    assert_eq!(pixels, vec![Rgba8Pixel { r: 1, g: 2, b: 3, a: 4 }, blank, blank]);
    assert_eq!(rgba_frame_pixels(1, 1, &[1, 2, 3, 4, 5, 6, 7, 8]).len(), 1);
}
