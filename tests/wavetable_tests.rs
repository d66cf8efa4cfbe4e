use cpal_synth::bank_registry::BankRegistry;
use cpal_synth::waveform::OscillatorType;
use cpal_synth::wavetable::{cubic_taps, spectrum_partials, table_index, table_length, BankLayout, Partial};

#[test]
fn table_length_is_smallest_power_of_two() {
    assert_eq!(table_length(0), 64);
    assert_eq!(table_length(16), 64);
    assert_eq!(table_length(17), 128);
    assert_eq!(table_length(735), 4096);
    assert_eq!(table_length(1024), 4096);
    assert_eq!(table_length(1025), 8192);
}

#[test]
fn bank_layout_at_44100() {
    let layout = BankLayout::new(44100);
    assert_eq!(layout.sample_rate(), 44100);
    assert_eq!(layout.table_length(), 4096);
    let harmonics: Vec<usize> = (0..layout.band_count()).map(|b| layout.harmonics(b)).collect();
    assert_eq!(harmonics, vec![735, 367, 183, 91, 45, 22, 11, 5, 2, 1]);
    let bounds: Vec<u64> = (0..layout.band_count()).map(|b| layout.frequency_bound(b)).collect();
    assert_eq!(bounds, vec![40, 80, 160, 320, 640, 1280, 2560, 5120, 10240, 20480]);
}

#[test]
fn bank_has_enough_rising_bands() {
    for rate in [1920u32, 22050, 44100, 48000, 96000, 192000] {
        let layout = BankLayout::new(rate);
        assert!(layout.band_count() >= 6, "rate {}", rate);
        for b in 1..layout.band_count() {
            assert!(layout.frequency_bound(b - 1) < layout.frequency_bound(b));
        }
    }
}

#[test]
fn bank_below_sixty_hertz_is_empty() {
    let layout = BankLayout::new(59);
    assert_eq!(layout.band_count(), 0);
    assert_eq!(layout.table_length(), 64);
}

#[test]
fn bank_selection() {
    let layout = BankLayout::new(44100);
    assert_eq!(layout.find_table_index(20), 0);
    assert!(layout.find_table_index(10000) >= 5);
    assert_eq!(layout.find_table_index(10000), 8);
    assert_eq!(layout.find_table_index(1_000_000_000), layout.band_count() - 1);
}

#[test]
fn selection_picks_first_covering_band() {
    let layout = BankLayout::new(44100);
    assert_eq!(layout.find_table_index(0), 0);
    assert_eq!(layout.find_table_index(40), 0);
    assert_eq!(layout.find_table_index(41), 1);
    assert_eq!(layout.find_table_index(440), 4);
    assert_eq!(layout.find_table_index(20480), 9);
    assert_eq!(layout.find_table_index(20481), 9);
}

fn partial(bin: usize, mirror: usize, negative: bool, denominator: u64) -> Partial {
    Partial { bin, mirror, negative, denominator }
}

#[test]
fn sawtooth_spectrum() {
    let p = spectrum_partials(OscillatorType::Sawtooth, 3, 64);
    assert_eq!(p, vec![partial(1, 63, false, 1), partial(2, 62, false, 2), partial(3, 61, false, 3)]);
}

#[test]
fn square_spectrum_has_odd_harmonics() {
    let p = spectrum_partials(OscillatorType::Square, 6, 64);
    assert_eq!(p, vec![partial(1, 63, false, 1), partial(3, 61, false, 3), partial(5, 59, false, 5)]);
}

#[test]
fn triangle_spectrum_alternates_sign() {
    let p = spectrum_partials(OscillatorType::Triangle, 7, 64);
    assert_eq!(
        p,
        vec![
            partial(1, 63, false, 1),
            partial(3, 61, true, 9),
            partial(5, 59, false, 25),
            partial(7, 57, true, 49),
        ]
    );
}

#[test]
fn sine_spectrum_is_fundamental_only() {
    assert_eq!(spectrum_partials(OscillatorType::Sine, 735, 4096), vec![partial(1, 4095, false, 1)]);
    assert_eq!(spectrum_partials(OscillatorType::Sine, 0, 64), vec![partial(1, 63, false, 1)]);
}

#[test]
fn table_indices_wrap() {
    assert_eq!(table_index(70, 64), 6);
    assert_eq!(table_index(63, 64), 63);
    assert_eq!(cubic_taps(0, 64), (63, 0, 1, 2));
    assert_eq!(cubic_taps(62, 64), (61, 62, 63, 0));
    assert_eq!(cubic_taps(63, 64), (62, 63, 0, 1));
    assert_eq!(cubic_taps(10, 64), (9, 10, 11, 12));
}

#[test]
fn registry_builds_each_bank_once() {
    let mut r: BankRegistry<&str> = BankRegistry::new();
    assert_eq!(
        r.missing_kinds(44100),
        vec![OscillatorType::Sine, OscillatorType::Square, OscillatorType::Sawtooth, OscillatorType::Triangle]
    );
    assert!(!r.has_all_kinds(44100));
    r.insert(OscillatorType::Square, 44100, "square");
    r.insert(OscillatorType::Sine, 48000, "sine48");
    assert_eq!(r.missing_kinds(44100), vec![OscillatorType::Sine, OscillatorType::Sawtooth, OscillatorType::Triangle]);
    assert_eq!(r.find(OscillatorType::Square, 44100), Some(0));
    assert_eq!(*r.bank(0), "square");
    assert_eq!(r.find(OscillatorType::Square, 48000), None);
    for kind in r.missing_kinds(44100) {
        r.insert(kind, 44100, "built");
    }
    assert!(r.has_all_kinds(44100));
    assert!(r.missing_kinds(44100).is_empty());
    assert!(!r.has_all_kinds(48000));
}
