use sidebox::combiner::{combine, mode_index, Mode, MAX_MODE};
use sidebox::envelope::{EnvelopeFollower, SimpleEnvelopeFollower};
use sidebox::fixed::{mul_fx, ONE};
use sidebox::processor::{shapes_ok, ProcessStatus, Sidebox, SideboxParams};
use sidebox::smoother::{ConfigError, Smoother, SmoothingStyle};

/// 0.2, 0.3, 0.4 and 0.5 in Q16.16, rounded to the nearest raw unit.
const POINT_TWO: i32 = 13107;
const POINT_THREE: i32 = 19661;
const POINT_FOUR: i32 = 26214;
const HALF: i32 = 32768;

fn follower() -> SimpleEnvelopeFollower {
    SimpleEnvelopeFollower::new(4)
}

#[test]
fn add_mode_sums_gained_samples() {
    let mut f = follower();
    let r = combine(Mode::Add, POINT_TWO, POINT_THREE, ONE, ONE, &mut f);
    assert_eq!(mul_fx(r as i64, ONE as i64), HALF);
}

#[test]
fn add_mode_applies_both_gains() {
    let mut f = follower();
    // 0.5 * 2 + 0.5 * 0.5 = 1.25
    let r = combine(Mode::Add, HALF, HALF, 2 * ONE, HALF, &mut f);
    assert_eq!(r, ONE + ONE / 4);
}

#[test]
fn multiply_mode_multiplies() {
    let mut f = follower();
    let r = combine(Mode::Multiply, HALF, POINT_FOUR, ONE, ONE, &mut f);
    assert_eq!(mul_fx(r as i64, ONE as i64), POINT_TWO);
}

#[test]
fn abs_multiply_uses_sidechain_magnitude() {
    let mut f = follower();
    let r = combine(Mode::AbsMultiply, HALF, -HALF, ONE, ONE, &mut f);
    assert_eq!(r, ONE / 4);
    let r = combine(Mode::AbsMultiply, -HALF, -HALF, ONE, ONE, &mut f);
    assert_eq!(r, -(ONE / 4));
}

#[test]
fn modulo_mode_keeps_sign_of_primary() {
    let mut f = follower();
    let r = combine(Mode::Modulo, 3 * ONE + HALF, ONE, ONE, ONE, &mut f);
    assert_eq!(r, HALF);
    let r = combine(Mode::Modulo, -(3 * ONE + HALF), ONE, ONE, ONE, &mut f);
    assert_eq!(r, -HALF);
    let r = combine(Mode::Modulo, 3 * ONE + HALF, -ONE, ONE, ONE, &mut f);
    assert_eq!(r, HALF);
}

#[test]
fn modulo_by_zero_passes_primary() {
    let mut f = follower();
    assert_eq!(combine(Mode::Modulo, POINT_THREE, 0, ONE, ONE, &mut f), POINT_THREE);
    // A sidechain gain of zero makes the divisor zero too.
    assert_eq!(combine(Mode::Modulo, -POINT_TWO, HALF, 2 * ONE, 0, &mut f), -POINT_TWO);
}

#[test]
fn envelope_mode_scales_by_window_mean() {
    let mut f = SimpleEnvelopeFollower::new(2);
    // Window [0, 1.0]: mean 0.5, so 0.5 * 0.5.
    let r = combine(Mode::EnvelopeModulate, HALF, -ONE, ONE, ONE, &mut f);
    assert_eq!(r, ONE / 4);
    // Window [1.0, 1.0]: mean 1.0.
    let r = combine(Mode::EnvelopeModulate, HALF, ONE, ONE, ONE, &mut f);
    assert_eq!(r, HALF);
}

#[test]
fn other_modes_leave_follower_alone() {
    let mut f = SimpleEnvelopeFollower::new(2);
    combine(Mode::Add, HALF, ONE, ONE, ONE, &mut f);
    combine(Mode::Multiply, HALF, ONE, ONE, ONE, &mut f);
    // The window is still silent, so the first envelope step sees [0, 1.0].
    let r = combine(Mode::EnvelopeModulate, ONE, ONE, ONE, ONE, &mut f);
    assert_eq!(r, HALF);
}

#[test]
fn passthrough_returns_primary() {
    let mut f = follower();
    assert_eq!(combine(Mode::Passthrough, POINT_TWO, ONE, 2 * ONE, ONE, &mut f), POINT_TWO);
    assert_eq!(Mode::from_index(5), Mode::Passthrough);
    assert_eq!(Mode::from_index(6), Mode::Passthrough);
    assert_eq!(Mode::from_index(7), Mode::Passthrough);
}

#[test]
fn mode_index_truncates_and_clamps() {
    assert_eq!(mode_index(0), 0);
    assert_eq!(mode_index(2 * ONE + HALF), 2);
    assert_eq!(mode_index(7 * ONE + ONE - 1), 7);
    assert_eq!(mode_index(100 * ONE), MAX_MODE);
    assert_eq!(mode_index(i32::MAX), MAX_MODE);
    assert_eq!(mode_index(-HALF), 0);
    assert_eq!(mode_index(-3 * ONE), MAX_MODE);
    assert_eq!(mode_index(-ONE), MAX_MODE);
    assert_eq!(mode_index(i32::MIN), MAX_MODE);
    assert_eq!(Mode::from_value(-2 * ONE), Mode::Passthrough);
    assert_eq!(Mode::from_value(ONE + HALF), Mode::Multiply);
    assert_eq!(Mode::from_value(4 * ONE), Mode::EnvelopeModulate);
}

#[test]
fn fixed_multiply_saturates() {
    assert_eq!(mul_fx(i32::MAX as i64, 2 * ONE as i64), i32::MAX);
    assert_eq!(mul_fx(i32::MIN as i64, 2 * ONE as i64), i32::MIN);
    assert_eq!(mul_fx(-3, HALF as i64), -1);
}

#[test]
fn moving_average_settles_on_constant_input() {
    let mut f = SimpleEnvelopeFollower::new(4);
    let a = -(ONE / 4);
    assert_eq!(f.process(a), ONE as u32 / 16);
    assert_eq!(f.process(a), ONE as u32 / 8);
    assert_eq!(f.process(a), 3 * ONE as u32 / 16);
    assert_eq!(f.process(a), ONE as u32 / 4);
    assert_eq!(f.process(a), ONE as u32 / 4);
}

#[test]
fn moving_average_drops_oldest() {
    let mut f = SimpleEnvelopeFollower::new(2);
    f.process(ONE);
    f.process(ONE);
    assert_eq!(f.process(0), HALF as u32);
    assert_eq!(f.process(0), 0);
}

#[test]
fn moving_average_reset_silences() {
    let mut f = SimpleEnvelopeFollower::new(3);
    f.process(ONE);
    f.process(ONE);
    f.reset();
    assert_eq!(f.process(3 * 3), 3);
}

#[test]
fn moving_average_handles_extreme_sample() {
    let mut f = SimpleEnvelopeFollower::new(1);
    assert_eq!(f.process(i32::MIN), 0x8000_0000u32);
}

#[test]
fn rc_follower_step_value() {
    let mut f = EnvelopeFollower::new();
    // Starts silent; alpha = 1/51 is 1285 raw units.
    assert_eq!(f.process(-ONE), 1285);
}

#[test]
fn rc_follower_never_negative() {
    let mut f = EnvelopeFollower::new();
    f.update_time(0);
    // With a time constant of zero the state jumps to the magnitude.
    assert_eq!(f.process(-ONE), ONE as u32);
    assert_eq!(f.process(i32::MIN), 0x8000_0000u32);
    f.reset();
    f.update_time(3);
    // alpha = 1/4: 0 * 3/4 + 1.0 / 4.
    assert_eq!(f.process(-ONE), ONE as u32 / 4);
}

#[test]
fn linear_smoother_reaches_target_exactly() {
    let mut s = match Smoother::new(SmoothingStyle::Linear(4), 0, ONE, 0) {
        Ok(s) => s,
        Err(_) => panic!("valid configuration"),
    };
    s.set_target(ONE);
    assert_eq!(s.next(), ONE / 4);
    assert_eq!(s.next(), ONE / 2);
    assert_eq!(s.next(), 3 * ONE / 4);
    assert_eq!(s.next(), ONE);
    assert_eq!(s.next(), ONE);
}

#[test]
fn exponential_smoother_settles_after_five_time_constants() {
    let mut s = match Smoother::new(SmoothingStyle::Exponential(1), 0, ONE, 0) {
        Ok(s) => s,
        Err(_) => panic!("valid configuration"),
    };
    s.set_target(ONE);
    assert_eq!(s.next(), HALF);
    assert_eq!(s.next(), HALF + HALF / 2);
    let mut last = 0;
    for _ in 0..7 {
        last = s.next();
        assert!(last < ONE);
    }
    assert!(last >= ONE - ONE / 100);
    assert_eq!(s.next(), ONE);
    assert_eq!(s.next(), ONE);
}

#[test]
fn unsmoothed_parameter_jumps() {
    let mut s = match Smoother::new(SmoothingStyle::Off, 0, 7 * ONE, 0) {
        Ok(s) => s,
        Err(_) => panic!("valid configuration"),
    };
    s.set_target(3 * ONE);
    assert_eq!(s.next(), 3 * ONE);
}

#[test]
fn smoother_clamps_into_range() {
    let mut s = match Smoother::new(SmoothingStyle::Off, -ONE, ONE, 5 * ONE) {
        Ok(s) => s,
        Err(_) => panic!("valid configuration"),
    };
    assert_eq!(s.current_value(), ONE);
    s.set_target(-9 * ONE);
    assert_eq!(s.target_value(), -ONE);
    assert_eq!(s.next(), -ONE);
}

#[test]
fn smoother_rejects_bad_configuration() {
    assert!(matches!(
        Smoother::new(SmoothingStyle::Linear(0), 0, ONE, 0),
        Err(ConfigError::NonPositiveTime)
    ));
    assert!(matches!(
        Smoother::new(SmoothingStyle::Exponential(0), 0, ONE, 0),
        Err(ConfigError::NonPositiveTime)
    ));
    assert!(matches!(
        Smoother::new(SmoothingStyle::Linear(3), ONE, 0, 0),
        Err(ConfigError::EmptyRange)
    ));
}

#[test]
fn zero_sample_rate_is_rejected() {
    assert!(matches!(Sidebox::new(0), Err(ConfigError::NonPositiveSampleRate)));
    assert!(matches!(SideboxParams::new(0), Err(ConfigError::NonPositiveSampleRate)));
}

fn engine(channels: usize) -> Sidebox {
    let mut s = match Sidebox::new(48000) {
        Ok(s) => s,
        Err(_) => panic!("valid sample rate"),
    };
    assert!(s.initialize(48000, channels).is_ok());
    s
}

#[test]
fn block_add_at_unity_gains() {
    let mut s = engine(2);
    let mut main = vec![vec![POINT_TWO, 0], vec![POINT_TWO, HALF]];
    let aux = vec![vec![POINT_THREE, 0], vec![POINT_THREE, -HALF]];
    assert_eq!(s.process(&mut main, &aux), ProcessStatus::Normal);
    assert_eq!(main, vec![vec![HALF, 0], vec![HALF, 0]]);
}

#[test]
fn block_multiply_mode_from_parameter() {
    let mut s = engine(2);
    s.params.mode.set_target(ONE);
    let mut main = vec![vec![HALF], vec![-HALF]];
    let aux = vec![vec![POINT_FOUR], vec![POINT_FOUR]];
    assert_eq!(s.process(&mut main, &aux), ProcessStatus::Normal);
    assert_eq!(main, vec![vec![POINT_TWO], vec![-POINT_TWO]]);
}

#[test]
fn block_reserved_mode_passes_through() {
    let mut s = engine(1);
    s.params.mode.set_target(6 * ONE);
    let mut main = vec![vec![1, 2, 3]];
    let aux = vec![vec![ONE, ONE, ONE]];
    assert_eq!(s.process(&mut main, &aux), ProcessStatus::Normal);
    assert_eq!(main, vec![vec![1, 2, 3]]);
}

#[test]
fn block_mismatched_frames_pass_through() {
    let mut s = engine(2);
    let mut main = vec![vec![1, 2, 3], vec![4, 5, 6]];
    let aux = vec![vec![1, 2], vec![3, 4]];
    assert!(!shapes_ok(&main, &aux, 2));
    assert_eq!(s.process(&mut main, &aux), ProcessStatus::Normal);
    assert_eq!(main, vec![vec![1, 2, 3], vec![4, 5, 6]]);
}

#[test]
fn block_mismatched_channels_pass_through() {
    let mut s = engine(2);
    let mut main = vec![vec![1, 2], vec![4, 5]];
    let aux = vec![vec![1, 2]];
    assert_eq!(s.process(&mut main, &aux), ProcessStatus::Normal);
    assert_eq!(main, vec![vec![1, 2], vec![4, 5]]);
    let mut ragged = vec![vec![1, 2], vec![4]];
    let aux2 = vec![vec![1, 2], vec![3, 4]];
    assert_eq!(s.process(&mut ragged, &aux2), ProcessStatus::Normal);
    assert_eq!(ragged, vec![vec![1, 2], vec![4]]);
}

#[test]
fn block_empty_is_fine() {
    let mut s = engine(2);
    let mut main: Vec<Vec<i32>> = vec![vec![], vec![]];
    let aux: Vec<Vec<i32>> = vec![vec![], vec![]];
    assert_eq!(s.process(&mut main, &aux), ProcessStatus::Normal);
    assert_eq!(main, vec![Vec::<i32>::new(), Vec::new()]);
}

#[test]
fn gain_smoothers_advance_once_per_frame() {
    // One channel or two, the output gain follows the same path per frame.
    let mut one = engine(1);
    let mut two = engine(2);
    one.params.output_gain.set_target(2 * ONE);
    two.params.output_gain.set_target(2 * ONE);
    let mut m1 = vec![vec![ONE / 8; 16]];
    let a1 = vec![vec![0; 16]];
    let mut m2 = vec![vec![ONE / 8; 16], vec![ONE / 8; 16]];
    let a2 = vec![vec![0; 16], vec![0; 16]];
    one.process(&mut m1, &a1);
    two.process(&mut m2, &a2);
    assert_eq!(m1[0], m2[0]);
    assert_eq!(m2[0], m2[1]);
    assert!(m1[0][15] > m1[0][0]);
    assert_eq!(one.params.output_gain.current_value(), two.params.output_gain.current_value());
}

#[test]
fn block_envelope_mode_tracks_per_channel() {
    let mut s = engine(2);
    s.params.mode.set_target(4 * ONE);
    // Window of ten samples; a sidechain of 1.0 on the left only.
    let mut main = vec![vec![ONE; 10], vec![ONE; 10]];
    let aux = vec![vec![ONE; 10], vec![0; 10]];
    s.process(&mut main, &aux);
    assert_eq!(main[0][0], ONE / 10);
    assert_eq!(main[0][9], ONE);
    assert_eq!(main[1], vec![0; 10]);
}

#[test]
fn reset_clears_envelopes_and_settles_parameters() {
    let mut s = engine(1);
    s.params.mode.set_target(4 * ONE);
    s.params.input_gain.set_target(2 * ONE);
    let mut main = vec![vec![ONE; 10]];
    let aux = vec![vec![ONE; 10]];
    s.process(&mut main, &aux);
    s.reset();
    assert_eq!(s.params.input_gain.current_value(), 2 * ONE);
    let mut main = vec![vec![HALF]];
    let aux = vec![vec![ONE]];
    s.process(&mut main, &aux);
    // A fresh window of ten holds one full-scale sample: 0.5 * 2 * 0.1.
    assert_eq!(main, vec![vec![ONE / 10]]);
}

#[test]
fn rc_follower_reaches_constant_input() {
    let mut f = EnvelopeFollower::new();
    let mut last = 0;
    for _ in 0..400 {
        last = f.process(-100);
    }
    assert_eq!(last, 100);
    for _ in 0..400 {
        last = f.process(0);
    }
    assert_eq!(last, 0);
}

#[test]
fn exponential_smoother_never_stalls() {
    let mut s = match Smoother::new(SmoothingStyle::Exponential(1000), 0, ONE, 0) {
        Ok(s) => s,
        Err(_) => panic!("valid configuration"),
    };
    s.set_target(100);
    // One share of 1/1001 of 100 rounds to nothing; the step is one unit.
    assert_eq!(s.next(), 1);
    assert_eq!(s.next(), 2);
    let mut last = 0;
    for _ in 0..98 {
        last = s.next();
    }
    assert_eq!(last, 100);
}

#[test]
fn smoother_style_can_change() {
    let mut s = match Smoother::new(SmoothingStyle::Exponential(10), 0, ONE, 0) {
        Ok(s) => s,
        Err(_) => panic!("valid configuration"),
    };
    assert!(matches!(s.set_style(SmoothingStyle::Linear(0)), Err(ConfigError::NonPositiveTime)));
    assert!(s.set_style(SmoothingStyle::Linear(2)).is_ok());
    s.set_target(ONE);
    assert_eq!(s.next(), HALF);
    assert_eq!(s.next(), ONE);
}

#[test]
fn negative_mode_value_passes_through() {
    let mut s = engine(1);
    s.params.mode = match Smoother::new(SmoothingStyle::Off, -7 * ONE, 7 * ONE, -2 * ONE) {
        Ok(m) => m,
        Err(_) => panic!("valid configuration"),
    };
    let mut main = vec![vec![ONE, HALF]];
    let aux = vec![vec![ONE, ONE]];
    assert_eq!(s.process(&mut main, &aux), ProcessStatus::Normal);
    assert_eq!(main, vec![vec![ONE, HALF]]);
}

#[test]
fn initialize_rejects_zero_sample_rate() {
    let mut s = engine(2);
    assert!(matches!(s.initialize(0, 1), Err(ConfigError::NonPositiveSampleRate)));
    assert_eq!(s.followers.len(), 2);
    assert!(s.initialize(44100, 1).is_ok());
    assert_eq!(s.followers.len(), 1);
    assert!(matches!(s.params.input_gain.style, SmoothingStyle::Exponential(442)));
}

#[test]
fn reset_keeps_targets_ranges_and_styles() {
    let mut s = engine(1);
    s.params.output_gain.set_target(3 * ONE);
    s.params.output_gain.next();
    let before = s.params.output_gain.style;
    s.reset();
    let g = &s.params.output_gain;
    assert_eq!(g.target, 3 * ONE);
    assert_eq!(g.current, 3 * ONE);
    assert_eq!(g.steps_left, 0);
    assert_eq!(g.style, before);
    assert_eq!(g.min, sidebox::processor::MIN_GAIN);
    assert_eq!(g.max, sidebox::processor::MAX_GAIN);
}
