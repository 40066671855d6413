use ale_gui::yuv::{convert_pixel, yuv420_to_rgba};

#[test]
fn test_yuv_to_rgba() {
    let width = 2;
    let height = 2;
    let y = vec![128, 128, 128, 128];
    let u = vec![128];
    let v = vec![128];

    let rgba = yuv420_to_rgba(&y, &u, &v, width, height, 2, 1);
    assert_eq!(rgba.len(), 16);
    assert!((rgba[0] as i32 - 128).abs() < 5);
    assert!((rgba[1] as i32 - 128).abs() < 5);
    assert!((rgba[2] as i32 - 128).abs() < 5);
    assert_eq!(rgba[3], 255);
}

fn on_hardware(y: u8, u: u8, v: u8) -> (u8, u8, u8) {
    let y = y as f32;
    let u = u as f32 - 128.0;
    let v = v as f32 - 128.0;
    (
        (y + 1.402 * v).clamp(0.0, 255.0) as u8,
        (y - 0.344 * u - 0.714 * v).clamp(0.0, 255.0) as u8,
        (y + 1.772 * u).clamp(0.0, 255.0) as u8,
    )
}

#[test]
fn every_chroma_pair_agrees_with_hardware() {
    for y in (0..=255u8).step_by(15) {
        for u in 0..=255u8 {
            for v in 0..=255u8 {
                assert_eq!(convert_pixel(y, u, v), on_hardware(y, u, v));
            }
        }
    }
}

#[test]
fn every_luma_agrees_with_hardware() {
    for y in 0..=255u8 {
        for u in (0..=255u8).step_by(17) {
            for v in (0..=255u8).step_by(5) {
                assert_eq!(convert_pixel(y, u, v), on_hardware(y, u, v));
            }
        }
    }
}

#[test]
fn colours_are_as_good_as_exact() {
    let clamp = |x: i32| x.clamp(0, 255) as u8;
    for y in (0..=255i32).step_by(5) {
        for c in 0..=255i32 {
            let d = c - 128;
            let (red, _, _) = convert_pixel(y as u8, 128, c as u8);
            assert_eq!(red, clamp((1000 * y + 1402 * d).div_euclid(1000)));
            let (_, _, blue) = convert_pixel(y as u8, c as u8, 128);
            assert_eq!(blue, clamp((1000 * y + 1772 * d).div_euclid(1000)));
            let (_, green, _) = convert_pixel(y as u8, c as u8, 200);
            let exact = 1000 * y - 344 * d - 714 * 72;
            let lower = clamp(exact.div_euclid(1000) - 1);
            let whole = exact.rem_euclid(1000) == 0;
            assert!(green == clamp(exact.div_euclid(1000)) || (whole && green == lower));
        }
    }
}

#[test]
fn gray_stays_gray() {
    for y in 0..=255u8 {
        assert_eq!(convert_pixel(y, 128, 128), (y, y, y));
    }
}

#[test]
fn pixels_share_chroma_two_by_two() {
    let y = [100; 9];
    let u = [0, 255, 90, 30];
    let v = [255, 0, 10, 200];
    let rgba = yuv420_to_rgba(&y, &u, &v, 3, 3, 3, 2);
    for row in 0..3 {
        for col in 0..3 {
            let chroma = (row / 2) * 2 + col / 2;
            let (r, g, b) = convert_pixel(100, u[chroma], v[chroma]);
            let at = (row * 3 + col) * 4;
            assert_eq!(rgba[at..at + 4], [r, g, b, 255]);
        }
    }
}

#[test]
fn samples_outside_a_plane_count_as_gray() {
    assert_eq!(yuv420_to_rgba(&[], &[], &[], 1, 1, 1, 1), vec![128, 128, 128, 255]);
    assert!(yuv420_to_rgba(&[1], &[1], &[1], 0, 7, 1, 1).is_empty());
}

#[test]
fn strides_may_exceed_the_width() {
    let rgba = yuv420_to_rgba(&[10, 99, 99, 20, 99], &[128], &[128], 1, 2, 3, 5);
    assert_eq!(rgba, vec![10, 10, 10, 255, 20, 20, 20, 255]);
}
