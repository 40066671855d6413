use ale_gui::single::{ratio, round, round_magnitude};

#[test]
fn rounding_agrees_with_hardware() {
    let mut n: u64 = 1;
    for _ in 0..20_000 {
        n = n.wrapping_mul(6364136223846793005).wrapping_add(1442695040888963407);
        let a = n >> (24 + n % 40);
        assert_eq!(round_magnitude(a), a as f32 as u64);
        assert_eq!(round(-(a as i64)), -(a as i64) as f32 as i64);
        assert_eq!(round(a as i64), a as i64 as f32 as i64);
    }
    assert_eq!(round_magnitude(0x100_0001), 0x100_0000);
    assert_eq!(round_magnitude(0x100_0003), 0x100_0004);
    assert_eq!(round(-0x300_0003), -0x300_0004);
}

#[test]
fn ratios_agree_with_hardware() {
    for n in (1..65536u64).step_by(7) {
        for d in [1u64, 3, 10, 32767, 65535] {
            if n <= d {
                assert_eq!(ratio(n, d), (n as f32 / d as f32).to_bits());
            }
        }
    }
    assert_eq!(ratio(1, 2), 0.5f32.to_bits());
}
