use starter_kit::fade::{
    inverted_duty, random_level, step_toward, RgbFade, ARRIVAL_TICKS, FADE_STEP, LEVEL_MAX,
};
use starter_kit::palette::{next_color_index, palette_color, PALETTE_LEN};
use starter_kit::scale::{nightlamp_duty, potentiometer_duty, remap, NIGHTLAMP_FULL_DUTY};
use starter_kit::sensors::{buzzer_duty_pct, is_railed, JoystickCenter};
use starter_kit::sweep::{sweep_order, LED_BAR_LEN};
use starter_kit::ws2812::{encode_rgb, grb_word, Pulse, BIT_PERIOD, T0H, T0L, T1H, T1L};

#[test]
fn step_toward_moves_up_by_one_step() {
    assert_eq!(step_toward(100, 200, 4), 104);
}

#[test]
fn step_toward_moves_down_by_one_step() {
    assert_eq!(step_toward(200, 100, 4), 196);
}

#[test]
fn step_toward_snaps_to_target_within_one_step() {
    assert_eq!(step_toward(198, 200, 4), 200);
    assert_eq!(step_toward(202, 200, 4), 200);
    assert_eq!(step_toward(196, 200, 4), 200);
}

#[test]
fn step_toward_stays_on_target() {
    assert_eq!(step_toward(512, 512, 4), 512);
}

#[test]
fn step_toward_does_not_overflow_near_the_limits() {
    assert_eq!(step_toward(i32::MAX - 1, i32::MAX, 4), i32::MAX);
    assert_eq!(step_toward(i32::MIN + 1, i32::MIN, 4), i32::MIN);
}

#[test]
fn step_toward_never_overshoots() {
    for current in 0..40 {
        for target in 0..40 {
            let r = step_toward(current, target, 4);
            let before = (target - current).abs();
            let after = (target - r).abs();
            assert!(after <= before);
            assert_eq!(after, if before <= 4 { 0 } else { before - 4 });
        }
    }
}

#[test]
fn random_level_reduces_modulo_1024() {
    assert_eq!(random_level(0), 0);
    assert_eq!(random_level(1023), 1023);
    assert_eq!(random_level(1024), 0);
    assert_eq!(random_level(u32::MAX), 1023);
    assert_eq!(random_level(5000), 5000 % 1024);
}

#[test]
fn inverted_duty_for_common_anode() {
    assert_eq!(inverted_duty(0), 1023);
    assert_eq!(inverted_duty(1023), 0);
    assert_eq!(inverted_duty(300), 723);
}

#[test]
fn fade_tick_moves_every_channel() {
    let mut fade = RgbFade::new((0, 1023, 500), (8, 1000, 500));
    let frame = fade.tick();
    assert_eq!((fade.red, fade.green, fade.blue), (4, 1019, 500));
    assert_eq!((frame.red_duty, frame.green_duty, frame.blue_duty), (1019, 4, 523));
    assert!(!frame.arrived);
    let frame = fade.tick();
    assert_eq!((fade.red, fade.green, fade.blue), (8, 1015, 500));
    assert!(!frame.arrived);
}

#[test]
fn fade_new_reduces_draws() {
    let fade = RgbFade::new((1024, 2049, 7), (4096, 1, 1030));
    assert_eq!((fade.red, fade.green, fade.blue), (0, 1, 7));
    assert_eq!((fade.target_red, fade.target_green, fade.target_blue), (0, 1, 6));
}

#[test]
fn fade_arrives_within_arrival_ticks() {
    let mut fade = RgbFade::new((0, 1023, 0), (1023, 0, 1023));
    let mut ticks = 0u32;
    let mut arrived = false;
    while !arrived {
        arrived = fade.tick().arrived;
        ticks += 1;
        assert!(ticks <= ARRIVAL_TICKS);
    }
    assert_eq!(ticks, ARRIVAL_TICKS);
    assert_eq!((fade.red, fade.green, fade.blue), (1023, 0, 1023));
    let frame = fade.tick();
    assert!(frame.arrived);
    assert_eq!((fade.red, fade.green, fade.blue), (1023, 0, 1023));
    assert_eq!(FADE_STEP * ARRIVAL_TICKS as i32 >= LEVEL_MAX, true);
}

#[test]
fn fade_retarget_keeps_levels() {
    let mut fade = RgbFade::new((10, 20, 30), (10, 20, 30));
    assert!(fade.tick().arrived);
    fade.retarget((1025, 2047, 3000));
    assert_eq!((fade.red, fade.green, fade.blue), (10, 20, 30));
    assert_eq!((fade.target_red, fade.target_green, fade.target_blue), (1, 1023, 3000 % 1024));
}

#[test]
fn remap_scales_by_span_ratio() {
    assert_eq!(remap(4095, 0, 4095, 0, 1023), 1023);
    assert_eq!(remap(2048, 0, 4095, 0, 1023), 2048 * 1023 / 4095);
    assert_eq!(remap(0, 0, 4095, 0, 1023), 0);
}

#[test]
fn remap_ignores_the_lower_bounds_except_in_the_spans() {
    // Only the span widths matter: 10 * (20 - 10) / (110 - 10) == 1.
    assert_eq!(remap(10, 10, 110, 10, 20), 1);
    assert_eq!(remap(100, 50, 150, 0, 10), 10);
}

#[test]
fn remap_rounds_toward_zero() {
    assert_eq!(remap(-7, 0, 2, 0, 1), -3);
    assert_eq!(remap(7, 2, 0, 0, 1), -3);
    assert_eq!(remap(-7, 2, 0, 0, 1), 3);
    assert_eq!(remap(7, 0, 2, 0, 1), 3);
}

#[test]
fn remap_at_the_i32_edge() {
    assert_eq!(remap(i32::MIN, 0, 2, 0, 1), i32::MIN / 2);
    assert_eq!(remap(i32::MIN, 0, 1, 0, 1), i32::MIN);
    assert_eq!(remap(i32::MIN, 2, 0, 0, 1), 1 << 30);
}

#[test]
fn nightlamp_only_at_full_scale() {
    assert_eq!(nightlamp_duty(0), 0);
    assert_eq!(nightlamp_duty(2000), 0);
    assert_eq!(nightlamp_duty(4094), 0);
    assert_eq!(nightlamp_duty(4095), NIGHTLAMP_FULL_DUTY);
    assert_eq!(nightlamp_duty(8190), 2048);
}

#[test]
fn potentiometer_duty_inverts_the_knob() {
    assert_eq!(potentiometer_duty(0), 1023);
    assert_eq!(potentiometer_duty(4095), 0);
    assert_eq!(potentiometer_duty(2048), 1023 - 2048 * 1023 / 4095);
    assert_eq!(potentiometer_duty(4099), 0);
}

#[test]
fn potentiometer_duty_never_increases_with_the_reading() {
    let mut previous = potentiometer_duty(0);
    for v in 1..=4095u16 {
        let d = potentiometer_duty(v);
        assert!(d <= previous);
        assert_eq!(d as i64, 1023 - remap(v as i32, 0, 4095, 0, 1023) as i64);
        previous = d;
    }
}

#[test]
fn grb_word_orders_green_red_blue() {
    assert_eq!(grb_word(0x12, 0x34, 0x56), 0x34_12_56);
    assert_eq!(grb_word(255, 0, 0), 0x00_ff_00);
}

fn pulse(bit: bool) -> Pulse {
    if bit {
        Pulse { level1: true, length1: T1H, level2: false, length2: T1L }
    } else {
        Pulse { level1: true, length1: T0H, level2: false, length2: T0L }
    }
}

#[test]
fn encode_rgb_sends_green_first_msb_first() {
    let pulses = encode_rgb(0x00, 0x80, 0x01);
    assert_eq!(pulses[0], pulse(true));
    for i in 1..23 {
        assert_eq!(pulses[i], pulse(false));
    }
    assert_eq!(pulses[23], pulse(true));
    assert_eq!(pulses[24], Pulse { level1: false, length1: 0, level2: false, length2: 0 });
}

#[test]
fn encode_rgb_red() {
    let pulses = encode_rgb(255, 0, 0);
    for i in 0..24 {
        assert_eq!(pulses[i], pulse((8..16).contains(&i)));
    }
    assert_eq!(pulses[24], Pulse::end_marker());
}

#[test]
fn encode_rgb_matches_word_bits() {
    let (r, g, b) = (0xa5u8, 0x3cu8, 0x7eu8);
    let word = grb_word(r, g, b);
    let pulses = encode_rgb(r, g, b);
    for i in 0..24 {
        assert_eq!(pulses[i], pulse((word >> (23 - i)) & 1 == 1));
        assert_eq!(pulses[i].length1 + pulses[i].length2, BIT_PERIOD);
    }
}

#[test]
fn encode_rgb_distinct_colors_distinct_trains() {
    let a = encode_rgb(1, 2, 3);
    let b = encode_rgb(1, 2, 4);
    let c = encode_rgb(2, 1, 3);
    assert_ne!(a, b);
    assert_ne!(a, c);
    assert_eq!(a, encode_rgb(1, 2, 3));
}

#[test]
fn sweep_order_out_and_back() {
    let order = sweep_order(LED_BAR_LEN);
    assert_eq!(order, vec![0, 1, 2, 3, 4, 5, 6, 7, 8, 9, 9, 8, 7, 6, 5, 4, 3, 2, 1, 0]);
    let mut reversed = order.clone();
    reversed.reverse();
    assert_eq!(order, reversed);
    for led in 0..LED_BAR_LEN {
        assert_eq!(order.iter().filter(|&&x| x == led).count(), 2);
    }
}

#[test]
fn sweep_order_empty_bar() {
    assert!(sweep_order(0).is_empty());
    assert_eq!(sweep_order(1), vec![0, 0]);
}

#[test]
fn palette_cycles_through_six_colours() {
    let expected = [
        (255, 0, 0),
        (0, 255, 0),
        (0, 0, 255),
        (255, 255, 0),
        (0, 255, 255),
        (255, 0, 255),
    ];
    let mut idx = 0usize;
    for step in 0..12 {
        assert_eq!(palette_color(idx), expected[step % PALETTE_LEN]);
        idx = next_color_index(idx);
    }
    assert_eq!(idx, 0);
    assert_eq!(next_color_index(5), 0);
    assert_eq!(next_color_index(6), 1);
}

#[test]
fn joystick_rest_reads_zero() {
    let center = JoystickCenter::new(2047, 1990);
    assert_eq!(center.offset(2047, 1990), (0, 0));
    assert_eq!(center.offset(4095, 0), (2048, -1990));
    assert_eq!(center.offset(0, 4095), (-2047, 2105));
}

#[test]
fn thermistor_rails() {
    assert!(is_railed(0));
    assert!(is_railed(4095));
    assert!(is_railed(u16::MAX));
    assert!(!is_railed(1));
    assert!(!is_railed(4094));
    assert!(!is_railed(2000));
}

#[test]
fn buzzer_sounds_only_while_pressed() {
    assert_eq!(buzzer_duty_pct(true), 50);
    assert_eq!(buzzer_duty_pct(false), 0);
}
