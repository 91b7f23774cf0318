use softrender::color::Color;
use softrender::fixed::{HALF, ONE};

#[test]
fn new_keeps_the_channels() {
    let c = Color::new(1, 2, 3);
    assert_eq!((c.r, c.g, c.b), (1, 2, 3));
}

#[test]
fn black_is_all_zero() {
    assert_eq!(Color::black(), Color::new(0, 0, 0));
}

#[test]
fn from_hex_splits_the_bytes() {
    assert_eq!(Color::from_hex(0xFF8000), Color::new(255, 128, 0));
    assert_eq!(Color::from_hex(0x010203), Color::new(1, 2, 3));
}

#[test]
fn from_hex_ignores_the_high_byte() {
    assert_eq!(Color::from_hex(0xAB123456), Color::new(0x12, 0x34, 0x56));
}

#[test]
fn to_hex_packs_the_bytes() {
    assert_eq!(Color::new(255, 128, 0).to_hex(), 0xFF8000);
    assert_eq!(Color::new(0, 0, 1).to_hex(), 1);
}

#[test]
fn hex_round_trip_is_exact() {
    assert_eq!(Color::from_hex(0xFF8000).to_hex(), 0xFF8000);
    for hex in [0u32, 1, 0xFF, 0x100, 0xFFFF, 0x10000, 0x123456, 0xFFFFFF] {
        assert_eq!(Color::from_hex(hex).to_hex(), hex);
    }
}

#[test]
fn channels_round_trip_through_hex() {
    let c = Color::new(17, 0, 254);
    assert_eq!(Color::from_hex(c.to_hex()), c);
}

#[test]
fn lerp_meets_both_ends() {
    let a = Color::new(10, 200, 30);
    let b = Color::new(250, 20, 30);
    assert_eq!(a.lerp(&b, 0), a);
    assert_eq!(a.lerp(&b, ONE), b);
}

#[test]
fn lerp_clamps_the_fraction() {
    let a = Color::new(10, 200, 30);
    let b = Color::new(250, 20, 30);
    assert_eq!(a.lerp(&b, -5 * ONE), a);
    assert_eq!(a.lerp(&b, 7 * ONE), b);
    assert_eq!(a.lerp(&b, i32::MIN), a);
    assert_eq!(a.lerp(&b, i32::MAX), b);
}

#[test]
fn lerp_rounds_to_the_nearest_byte() {
    let black = Color::new(0, 0, 0);
    let white = Color::new(255, 255, 255);
    assert_eq!(black.lerp(&white, HALF), Color::new(128, 128, 128));
    assert_eq!(black.lerp(&white, ONE / 4), Color::new(64, 64, 64));
    assert_eq!(white.lerp(&black, HALF), Color::new(128, 128, 128));
}

#[test]
fn lerp_stays_between_the_ends() {
    let a = Color::new(10, 200, 77);
    let b = Color::new(250, 20, 77);
    let mut t = -ONE;
    while t <= 2 * ONE {
        let c = a.lerp(&b, t);
        assert!(10 <= c.r && c.r <= 250);
        assert!(20 <= c.g && c.g <= 200);
        assert_eq!(c.b, 77);
        t += 1021;
    }
}

#[test]
fn add_saturates() {
    assert_eq!(Color::new(200, 100, 50) + Color::new(100, 100, 100), Color::new(255, 200, 150));
    assert_eq!(Color::new(255, 255, 255) + Color::new(255, 255, 255), Color::new(255, 255, 255));
}

#[test]
fn mul_scales_and_clamps() {
    assert_eq!(Color::new(200, 100, 50) * HALF, Color::new(100, 50, 25));
    assert_eq!(Color::new(200, 100, 50) * (2 * ONE), Color::new(255, 200, 100));
    assert_eq!(Color::new(200, 100, 50) * 0, Color::new(0, 0, 0));
    assert_eq!(Color::new(200, 100, 50) * -ONE, Color::new(0, 0, 0));
    assert_eq!(Color::new(201, 101, 51) * ONE, Color::new(201, 101, 51));
    assert_eq!(Color::new(201, 101, 51) * i32::MAX, Color::new(255, 255, 255));
}

#[test]
fn from_fixed_clamps_and_scales() {
    assert_eq!(Color::from_fixed(ONE, HALF, 0), Color::new(255, 127, 0));
    assert_eq!(Color::from_fixed(2 * ONE, -ONE, ONE / 4), Color::new(255, 0, 63));
}

#[test]
fn blend_normal_skips_black() {
    let base = Color::new(9, 8, 7);
    assert_eq!(base.blend_normal(&Color::new(0, 0, 0)), base);
    assert_eq!(base.blend_normal(&Color::new(0, 0, 1)), Color::new(0, 0, 1));
    assert_eq!(base.blend_normal(&Color::new(200, 100, 50)), Color::new(200, 100, 50));
}

#[test]
fn blend_multiply_divides_by_255() {
    let base = Color::new(200, 100, 50);
    assert_eq!(base.blend_multiply(&Color::new(128, 255, 0)), Color::new(100, 100, 0));
    assert_eq!(base.blend_multiply(&Color::new(255, 255, 255)), base);
}

#[test]
fn blend_multiply_never_exceeds_an_operand() {
    for a in [0u8, 1, 77, 128, 254, 255] {
        for b in [0u8, 1, 77, 128, 254, 255] {
            let c = Color::new(a, a, a).blend_multiply(&Color::new(b, b, b));
            assert!(c.r <= a && c.r <= b);
        }
    }
}

#[test]
fn blend_screen_brightens() {
    let base = Color::new(200, 100, 50);
    assert_eq!(base.blend_screen(&Color::new(128, 255, 0)), Color::new(228, 255, 50));
}

#[test]
fn blend_add_is_the_saturating_sum() {
    let base = Color::new(200, 100, 50);
    assert_eq!(base.blend_add(&Color::new(100, 100, 100)), Color::new(255, 200, 150));
    for a in [0u8, 1, 100, 200, 255] {
        for b in [0u8, 1, 55, 56, 255] {
            let c = Color::new(a, 0, 0).blend_add(&Color::new(b, 0, 0));
            assert_eq!(c.r as u32, (a as u32 + b as u32).min(255));
        }
    }
}

#[test]
fn blend_subtract_clamps_at_zero() {
    let base = Color::new(200, 100, 50);
    assert_eq!(base.blend_subtract(&Color::new(100, 100, 100)), Color::new(100, 0, 0));
}

#[test]
fn to_string_writes_the_channels_in_decimal() {
    assert_eq!(Color::new(1, 2, 3).to_string(), "Color(r: 1, g: 2, b: 3)");
    assert_eq!(Color::new(0, 10, 255).to_string(), "Color(r: 0, g: 10, b: 255)");
    assert_eq!(Color::new(100, 99, 109).to_string(), "Color(r: 100, g: 99, b: 109)");
    for n in 0..=255u8 {
        assert_eq!(Color::new(n, 0, 0).to_string(), format!("Color(r: {}, g: 0, b: 0)", n));
    }
}
