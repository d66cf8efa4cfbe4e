use cpal_synth::clock::AudioContext;
use cpal_synth::schedule::{ParamSchedule, RampPoint};
use cpal_synth::waveform::RampType;

const SAMPLE_RATE: u32 = 44100;

fn samples_for(seconds: f32, context: &AudioContext) -> u64 {
    (seconds * context.sample_rate() as f32).round() as u64
}

fn value_of(point: RampPoint<f32>) -> f32 {
    match point {
        RampPoint::Held(v) => v,
        RampPoint::Reached(v) => v,
        RampPoint::Ramping { start, end, ramp_type, elapsed, duration } => {
            let t = elapsed as f32 / duration as f32;
            match ramp_type {
                RampType::Linear => start + (end - start) * t,
                RampType::Exponential => {
                    let start = start.max(0.00001);
                    let end = end.max(0.00001);
                    start * (end / start).powf(t)
                }
            }
        }
    }
}

fn frequency() -> ParamSchedule<f32> {
    ParamSchedule::new(440.0)
}

#[test]
fn test_linear_ramp() {
    let context = AudioContext::new(SAMPLE_RATE);
    let mut freq = frequency();
    freq.set_value(440.0);
    assert_eq!(value_of(freq.value_point(0)), 440.0);
    freq.schedule(880.0, samples_for(0.1, &context), 0, RampType::Linear);
    let check_points = [(0, 440.0), (1102, 550.0), (2205, 660.0), (3307, 770.0), (4410, 880.0)];
    for (sample_index, expected_freq) in check_points {
        let value = value_of(freq.value_point(sample_index));
        let tolerance = expected_freq * 0.01;
        assert!(
            (value - expected_freq).abs() < tolerance,
            "Sample {}: Expected {}, got {}",
            sample_index,
            expected_freq,
            value
        );
    }
}

#[test]
fn test_gain_ramp() {
    let context = AudioContext::new(SAMPLE_RATE);
    let mut gain: ParamSchedule<f32> = ParamSchedule::new(1.0);
    gain.set_value(0.0);
    assert_eq!(value_of(gain.value_point(0)), 0.0);
    gain.schedule(1.0, samples_for(0.1, &context), 0, RampType::Linear);
    let check_points = [(0, 0.0), (1102, 0.25), (2205, 0.5), (3307, 0.75), (4410, 1.0)];
    for (sample_index, expected_gain) in check_points {
        let value = value_of(gain.value_point(sample_index));
        assert!(
            (value - expected_gain).abs() < 0.01,
            "Sample {}: Expected {}, got {}",
            sample_index,
            expected_gain,
            value
        );
    }
}

#[test]
fn test_smooth_transitions() {
    let context = AudioContext::new(SAMPLE_RATE);
    let mut freq = frequency();
    freq.set_value(440.0);
    freq.schedule(880.0, samples_for(0.1, &context), 0, RampType::Linear);
    let mut last_value = 440.0f32;
    for i in 0..100u64 {
        let value = value_of(freq.value_point(i));
        let change = (value - last_value).abs();
        assert!(change < 1.0, "Sample {}: Too large change {} -> {} (delta: {})", i, last_value, value, change);
        last_value = value;
    }
}

#[test]
fn test_exponential_ramp() {
    let context = AudioContext::new(SAMPLE_RATE);
    let mut freq = frequency();
    freq.set_value(440.0);
    freq.schedule(880.0, samples_for(0.1, &context), 0, RampType::Exponential);
    let check_points = [(0, 440.0), (2205, 440.0 * (2.0f32).powf(0.5)), (4410, 880.0)];
    for (sample_index, expected_freq) in check_points {
        let value = value_of(freq.value_point(sample_index));
        let tolerance = expected_freq * 0.01;
        assert!(
            (value - expected_freq).abs() < tolerance,
            "Sample {}: Expected {}, got {}",
            sample_index,
            expected_freq,
            value
        );
    }
}

#[test]
fn set_value_holds_without_events() {
    let mut p = frequency();
    p.set_value(123.5);
    for s in [0u64, 1, 4410, u64::MAX] {
        assert!(matches!(p.value_point(s), RampPoint::Held(v) if v == 123.5));
    }
}

#[test]
fn set_value_does_not_override_started_ramp() {
    let mut p = frequency();
    p.schedule(880.0, 10, 0, RampType::Linear);
    p.set_value(220.0);
    assert!(matches!(p.value_point(20), RampPoint::Reached(v) if v == 880.0));
    assert_eq!(p.current(), 220.0);
}

#[test]
fn ramp_positions_are_exact() {
    let mut p = frequency();
    p.schedule(880.0, 4410, 100, RampType::Linear);
    assert!(matches!(p.value_point(99), RampPoint::Held(v) if v == 440.0));
    match p.value_point(100 + 1102) {
        RampPoint::Ramping { start, end, ramp_type, elapsed, duration } => {
            assert_eq!((start, end, elapsed, duration), (440.0, 880.0, 1102, 4410));
            assert_eq!(ramp_type, RampType::Linear);
        }
        _ => panic!("ramp should be under way"),
    }
    match p.value_point(100 + 4409) {
        RampPoint::Ramping { elapsed, .. } => assert_eq!(elapsed, 4409),
        _ => panic!("ramp should be under way"),
    }
    assert!(matches!(p.value_point(100 + 4410), RampPoint::Reached(v) if v == 880.0));
}

#[test]
fn linear_ramp_tracks_formula() {
    let (a, b, d) = (440.0f32, 880.0f32, 4410u64);
    let mut p = frequency();
    p.schedule(b, d, 0, RampType::Linear);
    for k in (0..d).step_by(7) {
        let expected = a + (b - a) * (k as f32 / d as f32);
        let got = value_of(p.value_point(k));
        assert!((got - expected).abs() <= 1e-4 * (b - a).abs().max(1.0));
    }
    assert_eq!(value_of(p.value_point(d)), b);
}

#[test]
fn exponential_ramp_tracks_formula() {
    let (a, b, d) = (440.0f32, 880.0f32, 4410u64);
    let mut p = frequency();
    p.schedule(b, d, 0, RampType::Exponential);
    for k in (0..d).step_by(7) {
        let expected = a * (b / a).powf(k as f32 / d as f32);
        let got = value_of(p.value_point(k));
        assert!((got - expected).abs() <= 1e-4 * a.abs().max(b.abs()));
    }
    assert_eq!(value_of(p.value_point(d)), b);
}

#[test]
fn latest_started_event_wins() {
    let mut p = frequency();
    p.schedule(880.0, 1000, 0, RampType::Linear);
    p.set_value(300.0);
    p.schedule(100.0, 10, 500, RampType::Linear);
    // Before the second ramp starts, the first decides.
    match p.value_point(499) {
        RampPoint::Ramping { end, elapsed, .. } => assert_eq!((end, elapsed), (880.0, 499)),
        _ => panic!("first ramp should be under way"),
    }
    // Once it starts, the second ramp decides, from the value set before it.
    match p.value_point(505) {
        RampPoint::Ramping { start, end, elapsed, .. } => {
            assert_eq!((start, end, elapsed), (300.0, 100.0, 5))
        }
        _ => panic!("second ramp should be under way"),
    }
    assert!(matches!(p.value_point(600), RampPoint::Reached(v) if v == 100.0));
}

#[test]
fn future_event_is_ignored_until_it_starts() {
    let mut p = frequency();
    p.schedule(880.0, 10, 1000, RampType::Linear);
    assert!(matches!(p.value_point(999), RampPoint::Held(v) if v == 440.0));
    assert!(matches!(p.value_point(1000), RampPoint::Ramping { elapsed: 0, .. }));
}

#[test]
fn reset_returns_to_default() {
    let mut p: ParamSchedule<f32> = ParamSchedule::new(1.0);
    p.set_value(0.25);
    p.schedule(0.5, 100, 0, RampType::Linear);
    p.schedule(0.75, 100, 50, RampType::Exponential);
    p.reset();
    assert_eq!(p.event_count(), 0);
    for s in [0u64, 75, 1000] {
        assert!(matches!(p.value_point(s), RampPoint::Held(v) if v == 1.0));
    }
}

#[test]
fn cancel_holds_current_value() {
    let mut p = frequency();
    p.schedule(880.0, 100, 0, RampType::Linear);
    p.set_value(500.0);
    p.schedule(20.0, 100, 10, RampType::Exponential);
    p.cancel_scheduled_values();
    assert_eq!(p.event_count(), 0);
    for s in [0u64, 50, 5000] {
        assert!(matches!(p.value_point(s), RampPoint::Held(v) if v == 500.0));
    }
}

#[test]
fn zero_duration_ramp_lasts_one_sample() {
    let context = AudioContext::new(SAMPLE_RATE);
    let mut p = frequency();
    p.schedule(880.0, samples_for(0.0, &context), 7, RampType::Linear);
    assert_eq!(p.event(0).duration_samples, 1);
    assert!(matches!(p.value_point(7), RampPoint::Ramping { start, elapsed: 0, duration: 1, .. } if start == 440.0));
    assert!(matches!(p.value_point(8), RampPoint::Reached(v) if v == 880.0));
}

#[test]
fn duplicate_copies_schedule() {
    let mut p = frequency();
    p.set_value(300.0);
    p.schedule(600.0, 10, 0, RampType::Linear);
    let q = p.duplicate();
    p.cancel_scheduled_values();
    assert_eq!(q.event_count(), 1);
    assert_eq!(q.current(), 300.0);
    assert_eq!(q.default_value(), 440.0);
    assert!(matches!(q.value_point(10), RampPoint::Reached(v) if v == 600.0));
    assert!(matches!(p.value_point(10), RampPoint::Held(v) if v == 300.0));
}
