use corroza::generator::adsr::AdsrGenerator;
use corroza::generator::fm_synth::{FmSynthGenerator, FmSynthParams, HALF_TURN_RADIANS};
use corroza::generator::{GeneratorState, SignalGenerator};
use corroza::sine::sine;
use std::f32::consts::PI;

fn level(x: f32) -> i32 {
    (x * 65536.0).round() as i32
}

fn depth(x: f32) -> u32 {
    (x * 65536.0).round() as u32
}

fn radians(x: f64) -> u64 {
    (x * 4294967296.0).round() as u64
}

fn value(sample: i32) -> f32 {
    sample as f32 / 65536.0
}

fn angle(phase: u32) -> f32 {
    (phase as f64 / 4294967296.0 * 2.0 * std::f64::consts::PI) as f32
}

fn levels(xs: &[f32]) -> Vec<i32> {
    xs.iter().map(|&x| level(x)).collect()
}

fn adsr(
    initial: f32,
    attack: usize,
    decay: usize,
    sustain: f32,
    sustain_max: usize,
    release: usize,
) -> AdsrGenerator {
    AdsrGenerator::new(level(initial), attack, decay, level(sustain), sustain_max, release)
}

fn create_test_params() -> FmSynthParams {
    FmSynthParams::new(vec![2, 5], levels(&[1.0, 0.5]), radians(0.1), depth(1.0))
}

fn create_test_envs() -> (AdsrGenerator, AdsrGenerator) {
    let mod_env = adsr(0.0, 10, 30, 0.5, 100, 10);
    let wav_env = adsr(0.0, 20, 20, 0.6, 100, 10);
    (mod_env, wav_env)
}

#[test]
fn test_fm_synth_params_creation() {
    let params = FmSynthParams::new(
        vec![2, 5, 9],
        levels(&[1.0, 2.0, 1.0]),
        radians(0.1),
        depth(1.0),
    );
    assert_eq!(params.harmonics, vec![2, 5, 9]);
    assert_eq!(params.amps, levels(&[1.0, 2.0, 1.0]));
    assert!((params.phase_per_sample as f64 / 4294967296.0 - 0.1).abs() < 0.001);
    assert!((params.mod_depth as f32 / 65536.0 - 1.0).abs() < 0.001);
}

#[test]
fn test_fm_synth_basic_generation() {
    let params = create_test_params();
    let (mod_env, wav_env) = create_test_envs();
    let mut fm = FmSynthGenerator::new(params, mod_env, wav_env);

    let mut buffer = [0i32; 64];
    let state = fm.process(&mut buffer);

    // Should be running (envelopes not complete)
    assert_eq!(state, GeneratorState::Running);

    // Output should be bounded
    for &sample in buffer.iter() {
        assert!(
            value(sample) >= -1.0 && value(sample) <= 1.0,
            "Sample {} out of bounds",
            sample
        );
    }
}

#[test]
fn test_phase_accumulation() {
    let params = FmSynthParams::new(vec![1], levels(&[0.0]), radians(0.1), depth(1.0)); // No modulation
    let (mod_env, wav_env) = create_test_envs();
    let mut fm = FmSynthGenerator::new(params, mod_env, wav_env);

    let mut buffer = [0i32; 10];
    fm.process(&mut buffer);

    // Phase should have accumulated
    assert!(angle(fm.phase()) > 0.0);
    // Phase should be wrapped to [0, 2π)
    assert!(angle(fm.phase()) < 2.0 * PI);
}

#[test]
fn test_phase_wrapping() {
    // High phase_per_sample to cause rapid wrapping
    let params = FmSynthParams::new(vec![], vec![], radians(0.5), depth(1.0));
    let (mod_env, wav_env) = create_test_envs();
    let mut fm = FmSynthGenerator::new(params, mod_env, wav_env);

    let mut buffer = [0i32; 100];
    fm.process(&mut buffer);

    // Phase should always be in [0, 2π)
    assert!(angle(fm.phase()) >= 0.0);
    assert!(angle(fm.phase()) < 2.0 * PI);
}

#[test]
fn test_modulation_signal() {
    let params = FmSynthParams::new(vec![1], levels(&[1.0]), radians(0.1), depth(1.0));
    let (mod_env, wav_env) = create_test_envs();
    let fm = FmSynthGenerator::new(params, mod_env, wav_env);

    // At sample 0, modulation should be sin(0) = 0
    let mod_0 = fm.compute_modulation() as f32 / 65536.0;
    assert!(
        mod_0.abs() < 0.001,
        "Modulation at sample 0 should be ~0, got {}",
        mod_0
    );
}

#[test]
fn test_no_modulation() {
    // Empty harmonics means no modulation
    let params = FmSynthParams::new(vec![], vec![], radians(0.1), depth(1.0));
    let (mod_env, wav_env) = create_test_envs();
    let fm = FmSynthGenerator::new(params, mod_env, wav_env);

    assert_eq!(fm.compute_modulation(), 0);
}

#[test]
fn fm_synth_test_reset() {
    let params = create_test_params();
    let (mod_env, wav_env) = create_test_envs();
    let mut fm = FmSynthGenerator::new(params, mod_env, wav_env);

    // Process some samples
    let mut buffer = [0i32; 50];
    fm.process(&mut buffer);
    let phase_before = fm.phase();
    let count_before = fm.sample_count();
    assert!(angle(phase_before) > 0.0);
    assert!(count_before > 0);

    // Reset
    fm.reset();

    // Should be back to initial state
    assert_eq!(angle(fm.phase()), 0.0);
    assert_eq!(fm.sample_count(), 0);
    assert!(!fm.is_complete());
}

#[test]
fn test_is_complete() {
    // Very short envelopes
    let params = FmSynthParams::new(vec![], vec![], radians(0.1), depth(1.0));
    let mod_env = adsr(0.0, 1, 1, 0.5, 1, 1);
    let wav_env = adsr(0.0, 1, 1, 0.5, 1, 1);
    let mut fm = FmSynthGenerator::new(params, mod_env, wav_env);

    assert!(!fm.is_complete());

    // Process until complete
    let mut buffer = [0i32; 10];
    loop {
        let state = fm.process(&mut buffer);
        if state == GeneratorState::Complete {
            break;
        }
        // Safety limit
        if fm.sample_count() > 1000 {
            panic!("Generator didn't complete");
        }
    }

    assert!(fm.is_complete());
}

#[test]
fn test_output_continuity() {
    // Test that there are no discontinuities at frame boundaries
    // Use no modulation and constant amplitude envelopes
    let params = FmSynthParams::new(vec![], vec![], radians(0.05), depth(1.0));
    // Envelopes already in sustain at full amplitude
    let mod_env = adsr(1.0, 1, 1, 1.0, 10000, 1);
    let wav_env = adsr(1.0, 1, 1, 1.0, 10000, 1);
    let mut fm = FmSynthGenerator::new(params, mod_env, wav_env);

    let mut buffer1 = [0i32; 32];
    let mut buffer2 = [0i32; 32];

    fm.process(&mut buffer1);
    let last_sample_1 = value(buffer1[31]);
    fm.process(&mut buffer2);
    let first_sample_2 = value(buffer2[0]);

    // For a pure sine wave at constant amplitude, consecutive samples should be similar
    // The max theoretical change is about 2 * sin(π * 0.05) ≈ 0.31
    let diff = (last_sample_1 - first_sample_2).abs();
    assert!(
        diff < 0.5,
        "Discontinuity at frame boundary: {} vs {} (diff={})",
        last_sample_1,
        first_sample_2,
        diff
    );
}

#[test]
fn test_multiple_harmonics() {
    let params = FmSynthParams::new(
        vec![2, 3, 4],
        levels(&[0.5, 1.0, 0.3]),
        radians(0.05),
        depth(1.0),
    );
    let (mod_env, wav_env) = create_test_envs();
    let mut fm = FmSynthGenerator::new(params, mod_env, wav_env);

    let mut buffer = [0i32; 100];
    let state = fm.process(&mut buffer);

    assert_eq!(state, GeneratorState::Running);

    // Check that output is bounded
    for &sample in buffer.iter() {
        assert!(value(sample) >= -1.0 && value(sample) <= 1.0);
    }
}

#[test]
fn test_sample_count_progression() {
    let params = FmSynthParams::new(vec![], vec![], radians(0.1), depth(1.0));
    let (mod_env, wav_env) = create_test_envs();
    let mut fm = FmSynthGenerator::new(params, mod_env, wav_env);

    let mut buffer = [0i32; 10];
    assert_eq!(fm.sample_count(), 0);

    fm.process(&mut buffer);
    assert_eq!(fm.sample_count(), 10);

    fm.process(&mut buffer);
    assert_eq!(fm.sample_count(), 20);
}

#[test]
fn test_output_not_silent() {
    let params = FmSynthParams::new(vec![2, 5], levels(&[1.0, 0.5]), radians(0.1), depth(1.0));
    let mod_env = adsr(0.0, 100, 200, 0.8, 8000, 200);
    let wav_env = adsr(0.0, 100, 200, 0.8, 8000, 200);
    let mut fm = FmSynthGenerator::new(params, mod_env, wav_env);

    let mut buffer = vec![0i32; 16000];
    fm.process(&mut buffer);

    let sum: f32 = buffer.iter().map(|&s| value(s).abs()).sum();
    let mean_amp = sum / buffer.len() as f32;

    assert!(
        mean_amp > 0.1,
        "Mean amplitude {} is too low (expected > 0.1)",
        mean_amp
    );
}

#[test]
fn test_frame_boundary_continuity_low_modulation() {
    let params = FmSynthParams::new(vec![1], levels(&[1.0]), radians(0.05), depth(0.0));
    let mod_env = adsr(1.0, 10, 10, 1.0, 1000, 10);
    let wav_env = adsr(1.0, 10, 10, 1.0, 1000, 10);
    let mut fm = FmSynthGenerator::new(params, mod_env, wav_env);

    let frame_size = 64;
    let mut buffer1 = vec![0i32; frame_size];
    let mut buffer2 = vec![0i32; frame_size];

    fm.process(&mut buffer1);
    fm.process(&mut buffer2);

    let last_sample = value(buffer1[frame_size - 1]);
    let first_sample = value(buffer2[0]);
    let diff = (last_sample - first_sample).abs();

    assert!(
        diff < 0.1,
        "Frame boundary discontinuity: {} (expected < 0.1)",
        diff
    );
}

#[test]
fn test_output_size_respects_params() {
    let sample_rate = 16000;
    let frame_duration_ms = 10;
    let expected_samples = sample_rate * frame_duration_ms / 1000;

    let params = FmSynthParams::new(vec![], vec![], radians(0.1), depth(0.0));
    let mod_env = adsr(1.0, 10, 10, 1.0, 1000, 10);
    let wav_env = adsr(1.0, 10, 10, 1.0, 1000, 10);
    let mut fm = FmSynthGenerator::new(params, mod_env, wav_env);

    let mut buffer = vec![0i32; expected_samples];
    fm.process(&mut buffer);

    assert_eq!(
        buffer.len(),
        expected_samples,
        "Buffer size {} does not match expected {}",
        buffer.len(),
        expected_samples
    );
}

#[test]
fn test_no_clipping() {
    let params = FmSynthParams::new(
        vec![2, 5, 9],
        levels(&[2.0, 3.0, 2.0]),
        radians(0.1),
        depth(2.0),
    );
    let mod_env = adsr(0.0, 100, 200, 1.0, 8000, 200);
    let wav_env = adsr(0.0, 100, 200, 1.0, 8000, 200);
    let mut fm = FmSynthGenerator::new(params, mod_env, wav_env);

    let mut buffer = vec![0i32; 16000];
    fm.process(&mut buffer);

    for (i, &sample) in buffer.iter().enumerate() {
        assert!(
            value(sample) >= -1.0 && value(sample) <= 1.0,
            "Sample {} clips: {} (outside [-1.0, 1.0])",
            i,
            sample
        );
    }
}

#[test]
fn test_note_off_triggers_release() {
    let params = FmSynthParams::new(vec![1], levels(&[1.0]), radians(0.1), depth(1.0));
    let mod_env = adsr(0.0, 100, 100, 0.8, 10000, 100);
    let wav_env = adsr(0.0, 100, 100, 0.8, 10000, 100);
    let mut fm = FmSynthGenerator::new(params, mod_env, wav_env);

    let mut buffer = vec![0i32; 200];
    fm.process(&mut buffer);

    let amp_before_note_off =
        buffer.iter().map(|&s| value(s).abs()).sum::<f32>() / buffer.len() as f32;

    fm.note_off();

    let mut buffer2 = vec![0i32; 200];
    fm.process(&mut buffer2);

    let amp_after_note_off =
        buffer2.iter().map(|&s| value(s).abs()).sum::<f32>() / buffer2.len() as f32;

    assert!(
        amp_after_note_off < amp_before_note_off,
        "Amplitude should decrease after note_off: before={}, after={}",
        amp_before_note_off,
        amp_after_note_off
    );
}

#[test]
fn test_realistic_parameters_16k() {
    let sample_rate = 16000;
    let params = FmSynthParams::new(vec![2, 3], levels(&[0.5, 0.3]), radians(0.05), depth(1.0));

    let attack_samples = (0.01 * sample_rate as f32) as usize;
    let decay_samples = (0.1 * sample_rate as f32) as usize;
    let sustain_samples = (0.5 * sample_rate as f32) as usize;
    let release_samples = (0.2 * sample_rate as f32) as usize;

    let mod_env = adsr(
        0.0,
        attack_samples,
        decay_samples,
        0.6,
        sustain_samples,
        release_samples,
    );
    let wav_env = adsr(
        0.0,
        attack_samples,
        decay_samples,
        0.7,
        sustain_samples,
        release_samples,
    );

    let mut fm = FmSynthGenerator::new(params, mod_env, wav_env);

    let frame_size = 64;
    let total_frames = 500;
    let mut has_output = false;

    for _ in 0..total_frames {
        let mut buffer = vec![0i32; frame_size];
        let state = fm.process(&mut buffer);

        let frame_amp = buffer.iter().map(|&s| value(s).abs()).sum::<f32>() / frame_size as f32;
        if frame_amp > 0.01 {
            has_output = true;
        }

        if state == GeneratorState::Complete {
            break;
        }
    }

    assert!(has_output, "Generator produced no significant output");
}

#[test]
fn sine_is_close_to_the_sine() {
    let mut worst = 0.0f64;
    let mut phase: u64 = 0;
    while phase < 4294967296 {
        let exact = (phase as f64 / 4294967296.0 * 2.0 * std::f64::consts::PI).sin();
        let got = sine(phase as u32) as f64 / 65536.0;
        worst = worst.max((exact - got).abs());
        phase += 104729;
    }
    assert!(worst < 0.00005, "worst error {}", worst);
}

#[test]
fn sine_at_the_quarters() {
    assert_eq!(sine(0), 0);
    assert_eq!(sine(1 << 30), 65536);
    assert_eq!(sine(1 << 31), 0);
    assert_eq!(sine(3 << 30), -65536);
    assert_eq!(sine(1 << 29), 46341);
    assert_eq!(sine((1 << 30) / 3), 32767);
    assert_eq!(sine(8388608), 804);
    assert_eq!(sine(8388608 / 2), 402);
}

#[test]
fn sine_is_odd_and_bounded() {
    let mut phase: u64 = 1;
    while phase < 4294967296 {
        let p = phase as u32;
        assert_eq!(sine(p.wrapping_neg()), -sine(p));
        assert!((-65536..=65536).contains(&sine(p)));
        phase += 7919 * 131;
    }
}

#[test]
fn an_unmodulated_carrier_is_a_sine() {
    let params = FmSynthParams::new(vec![], vec![], radians(0.01), depth(1.0));
    let mut fm = FmSynthGenerator::new(
        params,
        adsr(1.0, 1, 1, 1.0, 100000, 1),
        adsr(1.0, 1, 1, 1.0, 100000, 1),
    );
    let mut buffer = vec![0i32; 500];
    fm.process(&mut buffer);
    let step = radians(0.01) as u32;
    for (n, &sample) in buffer.iter().enumerate() {
        assert_eq!(sample, sine(step.wrapping_mul(n as u32 + 1)));
        let exact = (2.0 * std::f64::consts::PI * 0.01 * (n as f64 + 1.0)).sin();
        assert!((sample as f64 / 65536.0 - exact).abs() < 0.0001);
    }
    assert_eq!(fm.phase(), step.wrapping_mul(500));
}

#[test]
fn modulation_follows_the_formula() {
    let params = FmSynthParams::new(
        vec![2, 5],
        levels(&[1.0, 0.5]),
        radians(0.1),
        depth(1.0),
    );
    let mut fm = FmSynthGenerator::new(
        params,
        adsr(1.0, 1, 1, 1.0, 100000, 1),
        adsr(1.0, 1, 1, 1.0, 100000, 1),
    );
    let mut buffer = [0i32; 1];
    let mut phase = 0.0f64;
    for n in 0..300 {
        let exact = (2.0 * 0.1 * n as f64).sin() + 0.5 * (5.0 * 0.1 * n as f64).sin();
        let got = fm.compute_modulation() as f64 / 65536.0;
        assert!((got - exact).abs() < 0.0005, "sample {}: {} vs {}", n, got, exact);
        fm.process(&mut buffer);
        phase = (phase + 0.1 * (1.0 + exact)).rem_euclid(1.0);
        let carrier = fm.phase() as f64 / 4294967296.0;
        let apart = (carrier - phase).abs();
        assert!(apart.min(1.0 - apart) < 0.0005 * (n as f64 + 1.0));
    }
}

#[test]
fn output_never_exceeds_full_scale() {
    let banks: [(Vec<usize>, Vec<i32>, u64, u32); 4] = [
        (
            vec![1, 2, 3],
            vec![i32::MAX, i32::MIN, i32::MAX],
            HALF_TURN_RADIANS - 1,
            u32::MAX,
        ),
        (vec![usize::MAX], vec![-65536], 1, 65536),
        (vec![0, 7], vec![1, -1], radians(3.14), 0),
        (vec![2, 5, 9], levels(&[1.0, 2.0, 1.0]), radians(1.5), depth(8.0)),
    ];
    for (harmonics, amps, phase_per_sample, mod_depth) in banks {
        let params = FmSynthParams {
            harmonics,
            amps,
            phase_per_sample,
            mod_depth,
        };
        let mut fm = FmSynthGenerator::new(
            params,
            adsr(0.3, 50, 20, 1.0, 300, 70),
            adsr(1.0, 7, 90, 0.9, 200, 150),
        );
        let mut buffer = vec![0i32; 37];
        let mut frames = 0;
        loop {
            let state = fm.process(&mut buffer);
            for &sample in buffer.iter() {
                assert!((-65536..=65536).contains(&sample));
            }
            frames += 1;
            if state == GeneratorState::Complete {
                break;
            }
            assert!(frames < 100);
        }
        assert!(fm.is_complete());
    }
}

#[test]
fn completes_only_when_both_envelopes_have() {
    let params = FmSynthParams::new(vec![], vec![], radians(0.1), depth(1.0));
    let mut fm = FmSynthGenerator::new(
        params,
        adsr(0.0, 1, 1, 0.5, 1, 1),
        adsr(0.0, 4, 4, 0.5, 4, 4),
    );
    assert_eq!(fm.envelope_mismatch(), Some((4, 16)));
    let mut buffer = [0i32; 8];
    assert_eq!(fm.process(&mut buffer), GeneratorState::Running);
    assert!(!fm.is_complete());
    assert_eq!(fm.process(&mut buffer), GeneratorState::Complete);
    assert!(fm.is_complete());
    assert_eq!(buffer[7], 0);
}

#[test]
fn envelopes_of_one_length_are_not_flagged() {
    let params = FmSynthParams::new(vec![], vec![], radians(0.1), depth(1.0));
    let fm = FmSynthGenerator::new(
        params,
        adsr(0.0, 5, 1, 0.5, 9, 1),
        adsr(0.3, 1, 9, 0.1, 1, 5),
    );
    assert_eq!(fm.envelope_mismatch(), None);
}

#[test]
fn frames_may_be_cut_anywhere() {
    let whole = {
        let mut fm = FmSynthGenerator::new(create_test_params(), adsr(0.0, 10, 30, 0.5, 40, 10), adsr(0.0, 20, 20, 0.6, 30, 10));
        let mut buffer = vec![0i32; 120];
        fm.process(&mut buffer);
        buffer
    };
    assert!(whole.iter().any(|&s| s != 0));
    for frame in [1usize, 7, 8, 30, 60] {
        let mut fm = FmSynthGenerator::new(create_test_params(), adsr(0.0, 10, 30, 0.5, 40, 10), adsr(0.0, 20, 20, 0.6, 30, 10));
        let mut all = Vec::new();
        let mut buffer = vec![0i32; frame];
        while all.len() + frame <= 120 {
            fm.process(&mut buffer);
            all.extend_from_slice(&buffer);
        }
        assert_eq!(&all[..], &whole[..all.len()]);
    }
}

#[test]
fn the_carrier_advances_by_the_exact_formula() {
    let banks: [(Vec<usize>, Vec<i32>, u64, u32); 3] = [
        (vec![2, 5], levels(&[1.0, 0.5]), radians(0.1), depth(1.0)),
        (vec![3, 7, 11], levels(&[-2.0, 3.5, 0.25]), radians(0.013), depth(2.5)),
        (vec![1], levels(&[40.0]), radians(3.0), depth(100.0)),
    ];
    for (harmonics, amps, base, mod_depth) in banks {
        let params = FmSynthParams::new(harmonics, amps, base, mod_depth);
        let mut fm = FmSynthGenerator::new(
            params,
            adsr(1.0, 1, 1, 1.0, 100000, 1),
            adsr(1.0, 1, 1, 1.0, 100000, 1),
        );
        let mut buffer = [0i32; 1];
        let mut negative = false;
        for _ in 0..2000 {
            let modulation = fm.compute_modulation();
            let before = fm.phase() as i128;
            fm.process(&mut buffer);
            // every division rounds toward zero, as `/` on signed integers does
            let deviation = (modulation * mod_depth as i128 / 65536) * 65536 / 65536;
            let advance = base as i128 + (base as i128 * deviation) / 65536;
            negative = negative || advance < 0;
            let expected = (before + advance).rem_euclid(4294967296);
            assert_eq!(fm.phase() as i128, expected);
            assert_eq!(buffer[0], sine(fm.phase()));
        }
        assert!(negative || mod_depth < 100000);
    }
}

#[test]
fn a_large_bank_of_modulators() {
    let count = 5000;
    let harmonics: Vec<usize> = (1..=count).collect();
    let amps: Vec<i32> = (0..count).map(|i| if i % 2 == 0 { i32::MAX } else { i32::MIN }).collect();
    let params = FmSynthParams::new(harmonics.clone(), amps.clone(), radians(0.37), u32::MAX);
    let mut fm = FmSynthGenerator::new(
        params,
        adsr(1.0, 1, 1, 1.0, 100000, 1),
        adsr(1.0, 1, 1, 1.0, 100000, 1),
    );
    let mut buffer = [0i32; 1];
    for n in 0..20u64 {
        let step = ((radians(0.37) as u128 * 683565276) / 4294967296) as u64;
        let mut sum: i128 = 0;
        for i in 0..count {
            let angle = (harmonics[i] as u64).wrapping_mul(n).wrapping_mul(step) as u32;
            sum += amps[i] as i128 * sine(angle) as i128;
        }
        assert_eq!(fm.compute_modulation(), sum / 65536);
        fm.process(&mut buffer);
        assert!((-65536..=65536).contains(&buffer[0]));
    }
}
