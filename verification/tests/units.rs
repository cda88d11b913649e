use ground_control::units::{scale_mG_to_mps2, scale_mgauss, scale_mrad_to_rad, MICRO};

fn shown(micro: i64) -> f64 {
    micro as f64 / MICRO as f64
}

#[test]
fn accel_of_one_g_is_9_81() {
    assert_eq!(scale_mG_to_mps2(1000), 9_810_000);
    assert!((shown(scale_mG_to_mps2(1000)) - 9.81).abs() < 1e-9);
}

#[test]
fn accel_of_minus_half_g_is_minus_4_905() {
    assert_eq!(scale_mG_to_mps2(-500), -4_905_000);
    assert!((shown(scale_mG_to_mps2(-500)) - (-4.905)).abs() < 1e-9);
}

#[test]
fn accel_matches_the_decimal_formula() {
    for raw in [-32768i16, -1000, -1, 0, 1, 7, 999, 32767] {
        let wanted = raw as f64 / 1000.0 * 9.81;
        assert!((shown(scale_mG_to_mps2(raw)) - wanted).abs() < 1e-9);
    }
}

#[test]
fn accel_of_zero_is_zero() {
    assert_eq!(scale_mG_to_mps2(0), 0);
}

#[test]
fn accel_at_the_ends_of_the_range() {
    assert_eq!(scale_mG_to_mps2(i16::MAX), 32767 * 9810);
    assert_eq!(scale_mG_to_mps2(i16::MIN), -32768 * 9810);
}

#[test]
fn gyro_of_2500_is_2_5() {
    assert_eq!(scale_mrad_to_rad(2500), 2_500_000);
    assert!((shown(scale_mrad_to_rad(2500)) - 2.5).abs() < 1e-9);
}

#[test]
fn gyro_at_the_ends_of_the_range() {
    assert_eq!(scale_mrad_to_rad(i16::MAX), 32_767_000);
    assert_eq!(scale_mrad_to_rad(i16::MIN), -32_768_000);
    assert_eq!(scale_mrad_to_rad(0), 0);
}

#[test]
fn mag_is_passed_through() {
    assert_eq!(scale_mgauss(123), 123_000_000);
    assert_eq!(shown(scale_mgauss(123)), 123.0);
    assert_eq!(shown(scale_mgauss(-300)), -300.0);
    assert_eq!(shown(scale_mgauss(i16::MIN)), -32768.0);
    assert_eq!(shown(scale_mgauss(i16::MAX)), 32767.0);
}

#[test]
fn scaling_keeps_the_order_of_readings() {
    let mut raw: i16 = i16::MIN;
    while raw < i16::MAX {
        assert!(scale_mG_to_mps2(raw) < scale_mG_to_mps2(raw + 1));
        assert!(scale_mrad_to_rad(raw) < scale_mrad_to_rad(raw + 1));
        assert!(scale_mgauss(raw) < scale_mgauss(raw + 1));
        raw += 1;
    }
}
