use corroza::analysis::{
    check_discontinuities, compute_expected_duration, find_sharp_change, generate_adsr,
    generate_fm_synth, parse_harmonics, phase_changes, try_parse_harmonics, Discontinuity,
};
use corroza::generator::adsr::AdsrPhase::{Attack, Complete, Decay, Release, Sustain};
use corroza::generator::adsr::{AdsrGenerator, AdsrPhase};
use corroza::generator::fm_synth::FmSynthParams;

fn level(x: f32) -> i32 {
    (x * 65536.0).round() as i32
}

fn value(sample: i32) -> f32 {
    sample as f32 / 65536.0
}

fn radians(x: f64) -> u64 {
    (x * 4294967296.0).round() as u64
}

fn adsr(
    initial: f32,
    attack: usize,
    decay: usize,
    sustain: f32,
    sustain_max: usize,
    release: usize,
) -> AdsrGenerator {
    AdsrGenerator::new(level(initial), attack, decay, level(sustain), sustain_max, release)
}

#[test]
fn test_parse_harmonics() {
    assert_eq!(parse_harmonics("2,5,9"), vec![2usize, 5, 9]);
    assert_eq!(parse_harmonics("1"), vec![1usize]);
    assert_eq!(parse_harmonics("1, 2, 3"), vec![1usize, 2, 3]);
}

#[test]
fn test_generate_fm_synth_produces_output() {
    let params = FmSynthParams::new(vec![2], vec![level(1.0)], radians(0.1), 65536);
    let mod_env = adsr(0.0, 10, 30, 0.5, 100, 10);
    let wav_env = adsr(0.0, 20, 20, 0.6, 100, 10);
    let silence_samples = 100;

    let samples = generate_fm_synth(params, mod_env, wav_env, silence_samples);

    assert!(
        samples.len() >= 2 * silence_samples + 50,
        "Should have at least {} samples of silence padding plus some audio",
        2 * silence_samples
    );

    for i in 0..silence_samples {
        assert_eq!(value(samples[i]), 0.0, "Sample {} at start should be silence", i);
    }

    for i in samples.len() - silence_samples..samples.len() {
        assert_eq!(value(samples[i]), 0.0, "Sample {} at end should be silence", i);
    }
}

#[test]
fn test_generate_fm_synth_middle_has_audio() {
    let params = FmSynthParams::new(vec![1], vec![level(1.0)], radians(0.1), 65536);
    let mod_env = adsr(0.0, 100, 100, 1.0, 1000, 100);
    let wav_env = adsr(0.0, 100, 100, 1.0, 1000, 100);
    let silence_samples = 200;

    let samples = generate_fm_synth(params, mod_env, wav_env, silence_samples);

    let middle_start = silence_samples + 200;
    let middle_end = samples.len() - silence_samples - 200;

    let has_non_zero = samples[middle_start..middle_end]
        .iter()
        .any(|&s| value(s).abs() > 0.01);

    assert!(has_non_zero, "Middle section should contain non-zero audio");
}

#[test]
fn test_find_sharp_change_detects_discontinuity() {
    let samples: Vec<i32> = [0.0f32, 0.01, 0.02, 0.5, 0.51, 0.52]
        .iter()
        .map(|&x| level(x))
        .collect();
    let result = find_sharp_change(&samples, level(0.1) as i64);
    assert!(result.is_some());
    let (idx, diff) = result.unwrap();
    assert_eq!(idx, 3);
    assert!((diff as f32 / 65536.0 - 0.48).abs() < 0.01);
}

#[test]
fn test_find_sharp_change_returns_none_for_smooth_signal() {
    let samples: Vec<i32> = (0..100).map(|i| level((i as f32 * 0.001).sin())).collect();
    let result = find_sharp_change(&samples, level(0.1) as i64);
    assert!(result.is_none());
}

#[test]
fn lists_of_harmonics() {
    assert_eq!(try_parse_harmonics("2,5,9"), Some(vec![2, 5, 9]));
    assert_eq!(try_parse_harmonics(" 7 "), Some(vec![7]));
    assert_eq!(try_parse_harmonics("+3,04"), Some(vec![3, 4]));
    assert_eq!(try_parse_harmonics(""), None);
    assert_eq!(try_parse_harmonics("1,,2"), None);
    assert_eq!(try_parse_harmonics("1,2,"), None);
    assert_eq!(try_parse_harmonics("1;2"), None);
    assert_eq!(try_parse_harmonics("1.5"), None);
    assert_eq!(try_parse_harmonics("-1"), None);
    assert_eq!(try_parse_harmonics("99999999999999999999999"), None);
    assert_eq!(
        try_parse_harmonics("18446744073709551615"),
        if usize::MAX as u128 >= 18446744073709551615 {
            Some(vec![usize::MAX])
        } else {
            None
        }
    );
}

#[test]
fn the_render_of_a_voice() {
    let params = FmSynthParams::new(vec![], vec![], radians(0.1), 0);
    // both envelopes take 40 samples, so the voice completes in its first frame
    let samples = generate_fm_synth(
        params,
        adsr(0.0, 10, 10, 0.5, 10, 10),
        adsr(0.0, 10, 10, 0.5, 10, 10),
        3,
    );
    assert_eq!(samples.len(), 3 + 64 + 3);
    assert_eq!(&samples[..3], &[0, 0, 0]);
    assert!(samples[3 + 2] != 0);
    assert_eq!(&samples[3 + 40..], &[0; 27][..]);
}

#[test]
fn a_render_gives_up_after_its_limit() {
    let params = FmSynthParams::new(vec![], vec![], radians(0.1), 0);
    let samples = generate_fm_synth(
        params,
        adsr(0.0, 10, 10, 0.5, 10000000, 10),
        adsr(0.0, 10, 10, 0.5, 10000000, 10),
        0,
    );
    // the first frame that takes the render beyond a million samples is the last
    assert_eq!(samples.len(), 1000000 + 64);
}

#[test]
fn the_first_sharp_change_is_found() {
    let samples = [0, 10, -10, 50, 0, 100];
    assert_eq!(find_sharp_change(&samples, 19), Some((2, 20)));
    assert_eq!(find_sharp_change(&samples, 20), Some((3, 60)));
    assert_eq!(find_sharp_change(&samples, 60), Some((5, 100)));
    assert_eq!(find_sharp_change(&samples, 100), None);
    assert_eq!(find_sharp_change(&samples, -1), Some((1, 10)));
    assert_eq!(find_sharp_change(&[], 0), None);
    assert_eq!(find_sharp_change(&[5], 0), None);
    assert_eq!(
        find_sharp_change(&[i32::MIN, i32::MAX], 0),
        Some((1, 4294967295))
    );
}

#[test]
fn discontinuities() {
    assert_eq!(check_discontinuities(&[]), Ok((0, 0)));
    assert_eq!(check_discontinuities(&[7, 7, 7]), Ok((0, 0)));
    assert_eq!(check_discontinuities(&[0, 5, 10, 3, 10]), Ok((7, 3)));
    assert_eq!(check_discontinuities(&[0, 9830, 0]), Ok((9830, 1)));
    assert_eq!(
        check_discontinuities(&[0, 100, 9931, 0, 50000]),
        Err(Discontinuity {
            index: 2,
            before: 100,
            after: 9931,
            difference: 9831
        })
    );
}

#[test]
fn expected_durations() {
    // release 300 in frames of 64 takes 5 frames
    assert_eq!(compute_expected_duration(300, 64, 640), 640 + 320);
    assert_eq!(compute_expected_duration(64, 64, 0), 64);
    assert_eq!(compute_expected_duration(0, 64, 10), 10);
    assert_eq!(compute_expected_duration(1, 7, 1), 8);
    assert_eq!(compute_expected_duration(usize::MAX, 1, 1), usize::MAX);
}

#[test]
fn the_plot_of_an_envelope() {
    let (samples, phases) = generate_adsr(100, 200, level(0.7), 300, 640, 64).unwrap();
    assert_eq!(samples.len(), phases.len());
    assert_eq!(samples.len(), compute_expected_duration(300, 64, 640));
    assert_eq!(samples[0], 0);
    assert_eq!(samples[99], 65536);
    assert_eq!(samples[299], level(0.7));
    assert_eq!(samples[639], level(0.7));
    assert_eq!(samples[640], level(0.7));
    assert!(samples[641] < level(0.7));
    assert_eq!(samples[939], 0);
    assert_eq!(phases[0], AdsrPhase::Attack);
    assert_eq!(phases[64], AdsrPhase::Decay);
    assert_eq!(phases[300], AdsrPhase::Sustain);
    assert_eq!(phases[639], AdsrPhase::Sustain);
    assert_eq!(phases[640], AdsrPhase::Release);
    assert_eq!(phases[959], AdsrPhase::Complete);
    assert!(check_discontinuities(&samples).is_ok());
}

#[test]
fn a_release_inside_a_frame_waits_for_the_next_one() {
    // sample 70 lies in the second frame, at whose start the release is triggered
    let (samples, phases) = generate_adsr(10, 10, level(0.5), 20, 70, 64).unwrap();
    assert_eq!(samples.len(), 128);
    assert_eq!(samples[63], level(0.5));
    assert_eq!(samples[64], level(0.5));
    assert_eq!(samples[83], 0);
    assert_eq!(phases[63], AdsrPhase::Sustain);
    assert_eq!(phases[64], AdsrPhase::Complete);
}

#[test]
fn no_plot_of_an_envelope_that_is_too_long() {
    assert!(generate_adsr(10, 10, level(0.5), 10, 200000, 64).is_none());
    assert!(generate_adsr(10, 10, level(0.5), 10, 99000, 64).is_some());
}

#[test]
fn the_places_where_the_phase_changes() {
    assert_eq!(phase_changes(&[]), Vec::<usize>::new());
    assert_eq!(phase_changes(&[Attack]), Vec::<usize>::new());
    assert_eq!(phase_changes(&[Attack, Attack, Attack]), Vec::<usize>::new());
    assert_eq!(
        phase_changes(&[Attack, Decay, Decay, Sustain, Release, Release, Complete]),
        vec![1, 3, 4, 6]
    );
    let (_, phases) = generate_adsr(100, 200, 45875, 300, 640, 64).unwrap();
    assert_eq!(phase_changes(&phases), vec![64, 256, 640, 896]);
}
