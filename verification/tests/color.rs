use approx::AbsDiffEq;
use ray_tracer::binary64::{ONE, ZERO};
use ray_tracer::channel::channel_level;
use ray_tracer::color::{pack_argb, Color};

fn color(red: f64, green: f64, blue: f64) -> Color {
    Color::new(red.to_bits(), green.to_bits(), blue.to_bits())
}

fn level(value: f64) -> u8 {
    channel_level(value.to_bits())
}

#[test]
fn create_color() {
    let c = color(-0.5, 0.4, 1.7);

    assert!(f64::from_bits(c.red).abs_diff_eq(&-0.5, f64::default_epsilon()));
    assert!(f64::from_bits(c.green).abs_diff_eq(&0.4, f64::default_epsilon()));
    assert!(f64::from_bits(c.blue).abs_diff_eq(&1.7, f64::default_epsilon()));
}

#[test]
fn color_keeps_its_channels() {
    let c = Color::new(1, 2, 3);
    assert_eq!(c, Color { red: 1, green: 2, blue: 3 });
    assert_eq!(Color::black(), color(0.0, 0.0, 0.0));
    assert_eq!(Color::black(), Color { red: 0, green: 0, blue: 0 });
}

#[test]
fn channel_constants() {
    assert_eq!(ZERO, 0.0f64.to_bits());
    assert_eq!(ONE, 1.0f64.to_bits());
    assert_eq!(channel_level(ZERO), 0);
    assert_eq!(channel_level(ONE), 255);
}

#[test]
fn level_rounds_to_nearest() {
    assert_eq!(level(0.5), 128);
    assert_eq!(level(0.25), 64);
    assert_eq!(level(0.75), 191);
    assert_eq!(level(0.2), 51);
    assert_eq!(level(0.4), 102);
    assert_eq!(level(0.04), 10);
    assert_eq!(level(0.1), 26);
    assert_eq!(level(0.6), 153);
    assert_eq!(level(0.9), 230);
    assert_eq!(level(0.001), 0);
    assert_eq!(level(0.002), 1);
    assert_eq!(level(0.998), 254);
    assert_eq!(level(0.99803), 254);
    assert_eq!(level(0.99804), 255);
    assert_eq!(level(0.999999), 255);
}

#[test]
fn level_agrees_with_rounding_on_a_sweep() {
    for step in 0..=1000u32 {
        let value = f64::from(step) / 1000.0;
        let scaled = value * 255.0;
        if (scaled - scaled.floor() - 0.5).abs() > 0.001 {
            assert_eq!(u32::from(level(value)), scaled.round() as u32, "at {}", value);
        }
    }
}

#[test]
fn level_saturates_outside_the_unit_interval() {
    assert_eq!(level(1.0), 255);
    assert_eq!(level(1.0000000000000002), 255);
    assert_eq!(level(1.7), 255);
    assert_eq!(level(1e300), 255);
    assert_eq!(level(f64::MAX), 255);
    assert_eq!(level(f64::INFINITY), 255);
    assert_eq!(level(-0.0), 0);
    assert_eq!(level(-1e-300), 0);
    assert_eq!(level(-0.5), 0);
    assert_eq!(level(-3.0), 0);
    assert_eq!(level(f64::NEG_INFINITY), 0);
}

#[test]
fn level_of_tiny_and_undefined_values_is_zero() {
    assert_eq!(level(0.0), 0);
    assert_eq!(level(f64::from_bits(1)), 0);
    assert_eq!(level(f64::MIN_POSITIVE), 0);
    assert_eq!(level(1e-300), 0);
    assert_eq!(level(f64::NAN), 0);
    assert_eq!(channel_level(0x7FF0_0000_0000_0001), 0);
    assert_eq!(channel_level(0xFFF8_0000_0000_0000), 0);
}

#[test]
fn level_just_below_a_half_step() {
    let half_step: f64 = 0.5 / 255.0;
    assert_eq!(level(half_step), 0);
    assert_eq!(level(f64::from_bits(half_step.to_bits() + 1)), 1);
    assert_eq!(level(f64::from_bits(ONE - 1)), 255);
}

#[test]
fn pack_puts_alpha_red_green_blue_in_order() {
    assert_eq!(pack_argb(0, 0, 0), 0xFF00_0000);
    assert_eq!(pack_argb(255, 255, 255), 0xFFFF_FFFF);
    assert_eq!(pack_argb(0x12, 0x34, 0x56), 0xFF12_3456);
    assert_eq!(pack_argb(1, 0, 0), 0xFF01_0000);
    assert_eq!(pack_argb(0, 1, 0), 0xFF00_0100);
    assert_eq!(pack_argb(0, 0, 1), 0xFF00_0001);
}

#[test]
fn color_to_argb() {
    assert_eq!(color(1.0, 0.2, 0.4).to_argb_32(), 0xFFFF_3366);
    assert_eq!(color(0.0, 0.0, 0.0).to_argb_32(), 0xFF00_0000);
    assert_eq!(color(1.0, 1.0, 1.0).to_argb_32(), 0xFFFF_FFFF);
    assert_eq!(color(0.9, 0.2, 0.04).to_argb_32(), 0xFFE6_330A);
}

#[test]
fn color_to_argb_clamps_each_channel() {
    assert_eq!(color(1.5, 0.0, 0.0).to_argb_32(), 0xFFFF_0000);
    assert_eq!(color(0.0, 0.5, 0.0).to_argb_32(), 0xFF00_8000);
    assert_eq!(color(-0.5, 0.0, 1.0).to_argb_32(), 0xFF00_00FF);
    assert_eq!(color(-0.5, 0.4, 1.7).to_argb_32(), 0xFF00_66FF);
    assert_eq!(color(f64::NAN, 2.0, -2.0).to_argb_32(), 0xFF00_FF00);
}

#[test]
fn level_never_falls_as_the_channel_rises() {
    let mut previous = 0u8;
    let mut bits = 0x3F00_0000_0000_0000u64;
    while bits < 0x4000_0000_0000_0000 {
        let current = channel_level(bits);
        assert!(previous <= current, "at {:#x}", bits);
        previous = current;
        bits += 0x0000_0123_4567_89AB;
    }
    assert_eq!(previous, 255);
}
