use corroza::pipeline::parser::{parse_transcription, Event, KeyDirection, Note, PitchClass, TimedEvents};
use corroza::pipeline::scheduler::{Pipeline, PipelineConfig};
use corroza::pipeline::voicemgr::VoiceConfig;

fn create_simple_event(delta: usize, note: Note, direction: KeyDirection) -> TimedEvents {
    TimedEvents {
        delta,
        events: vec![Event { note, direction }],
    }
}

fn c4() -> Note {
    Note {
        octave: 4,
        pitch_class: PitchClass::C,
    }
}

#[test]
fn test_pipeline_single_note() {
    let config = PipelineConfig {
        timestep_samples: 100,
        frame_size: 32,
        ..Default::default()
    };

    // Simple: note down at t=0, note up at t=100 timesteps
    let events = vec![
        create_simple_event(0, c4(), KeyDirection::Down),
        create_simple_event(100, c4(), KeyDirection::Up),
    ];

    let mut pipeline = Pipeline::new(config, events);

    // Should be active initially
    assert!(pipeline.is_active());

    // Process a few frames
    let mut buffer = vec![0i32; 32];
    for _ in 0..5 {
        pipeline.process_frame(&mut buffer);
    }

    // Should still have active voice
    assert!(pipeline.voice_count() > 0);
}

#[test]
fn test_pipeline_event_timing() {
    let config = PipelineConfig {
        timestep_samples: 100,
        frame_size: 32,
        ..Default::default()
    };

    let events = vec![
        create_simple_event(1, c4(), KeyDirection::Down),
        create_simple_event(2, c4(), KeyDirection::Up),
    ];

    let mut pipeline = Pipeline::new(config, events);

    // First event at 1 * 100 = 100 samples
    assert_eq!(pipeline.samples_to_next_event(), 100);

    // Process first frame (32 samples)
    let mut buffer = vec![0i32; 32];
    pipeline.process_frame(&mut buffer);

    // Should have decremented
    assert_eq!(pipeline.samples_to_next_event(), 68);
}

#[test]
fn default_pipeline() {
    let config = PipelineConfig::default();
    assert_eq!(config.sample_rate, 44100);
    assert_eq!(config.frame_size, 64);
    assert_eq!(config.timestep_samples, 1000);
    assert_eq!(config.base_frequency, 110 * 65536);
    assert_eq!(config.voice_config.release_samples, 13230);
}

#[test]
fn a_note_sounds_until_its_release_has_ended() {
    let config = PipelineConfig {
        timestep_samples: 100,
        frame_size: 50,
        ..Default::default()
    };
    let events = vec![
        create_simple_event(0, c4(), KeyDirection::Down),
        create_simple_event(100, c4(), KeyDirection::Up),
    ];
    let mut pipeline = Pipeline::new(config, events);
    let mut buffer = vec![0i32; 50];
    let mut samples: Vec<i32> = Vec::new();
    let mut frames = 0;
    while pipeline.is_active() {
        pipeline.process_frame(&mut buffer);
        samples.extend_from_slice(&buffer);
        frames += 1;
        if frames <= 200 {
            // the key is down for 100 timesteps of 100 samples
            assert_eq!(pipeline.voice_count(), 1);
        }
        assert!(frames < 1000);
    }
    // 10000 samples until the key goes up, then 13230 samples of release
    assert_eq!(samples.len(), 10000 + 13250);
    assert_eq!(pipeline.voice_count(), 0);
    for block in samples[50..10000].chunks(50) {
        assert!(block.iter().any(|&s| s != 0));
    }
    // the release falls from the level at the trigger to silence
    let loudest = |block: &[i32]| block.iter().map(|s| s.abs()).max().unwrap();
    let before = loudest(&samples[9000..10000]);
    let early = loudest(&samples[10000..11000]);
    let late = loudest(&samples[22000..23000]);
    assert!(before > 30000);
    assert!(early > late);
    assert!(late < 5000);
    assert_eq!(loudest(&samples[23230..]), 0);
}

#[test]
fn events_wait_for_the_start_of_a_frame() {
    let config = PipelineConfig {
        timestep_samples: 10,
        frame_size: 32,
        ..Default::default()
    };
    let events = vec![
        create_simple_event(1, c4(), KeyDirection::Down),
        create_simple_event(0, Note { octave: 4, pitch_class: PitchClass::E }, KeyDirection::Down),
        create_simple_event(5, c4(), KeyDirection::Up),
    ];
    let mut pipeline = Pipeline::new(config, events);
    let mut buffer = vec![0i32; 32];
    assert_eq!(pipeline.samples_to_next_event(), 10);
    pipeline.process_frame(&mut buffer);
    // nothing was due at the start of the first frame
    assert_eq!(buffer, vec![0; 32]);
    assert_eq!(pipeline.voice_count(), 0);
    assert_eq!(pipeline.samples_to_next_event(), 0);
    pipeline.process_frame(&mut buffer);
    // both entries were due at the start of the second frame
    assert_eq!(pipeline.voice_count(), 2);
    assert_eq!(pipeline.samples_to_next_event(), 18);
    pipeline.process_frame(&mut buffer);
    assert_eq!(pipeline.samples_to_next_event(), 0);
    assert!(pipeline.is_active());
    pipeline.process_frame(&mut buffer);
    assert_eq!(pipeline.samples_to_next_event(), usize::MAX);
    assert_eq!(pipeline.voice_count(), 2);
}

#[test]
fn a_chord_in_one_entry() {
    let timeline = parse_transcription("+0| 3cd, 3ed, 3gd\n+2| 3cu, 3eu, 3gu\n").unwrap();
    let mut voices = VoiceConfig::default();
    voices.attack_samples = 10;
    voices.decay_samples = 10;
    voices.release_samples = 20;
    let config = PipelineConfig {
        timestep_samples: 64,
        frame_size: 64,
        voice_config: voices,
        ..Default::default()
    };
    let mut pipeline = Pipeline::new(config, timeline);
    let samples = pipeline.generate_samples();
    assert!(!pipeline.is_active());
    assert_eq!(samples.len(), 3 * 64);
    assert!(samples.iter().all(|s| (-98304..=98304).contains(s)));
    assert!(samples[..128].iter().any(|&s| s.abs() > 65536));
    assert_eq!(&samples[148..], &[0; 44][..]);
}

#[test]
fn an_empty_timeline_renders_nothing() {
    let mut pipeline = Pipeline::new(PipelineConfig::default(), vec![]);
    assert!(!pipeline.is_active());
    assert_eq!(pipeline.samples_to_next_event(), 0);
    assert_eq!(pipeline.generate_samples(), Vec::<i32>::new());
    let image = pipeline.generate_wav().unwrap();
    assert_eq!(image.len(), 44);
}

#[test]
fn a_render_is_cut_off_at_its_budget() {
    // the key never goes up, so the voice would sustain for an hour
    let mut voices = VoiceConfig::default();
    voices.release_samples = 100;
    let config = PipelineConfig {
        timestep_samples: 10,
        frame_size: 100,
        voice_config: voices,
        ..Default::default()
    };
    let events = vec![create_simple_event(3, c4(), KeyDirection::Down)];
    let mut pipeline = Pipeline::new(config, events);
    let samples = pipeline.generate_samples();
    // (3 * 10 + 2 * 100) / 100 + 1000 frames, and 10 more to let it fade
    assert_eq!(samples.len(), (2 + 1000 + 10) * 100);
    assert_eq!(pipeline.voice_count(), 1);
}

#[test]
fn a_frame_size_of_zero_is_one() {
    let config = PipelineConfig {
        frame_size: 0,
        ..Default::default()
    };
    let pipeline = Pipeline::new(config, vec![]);
    assert_eq!(pipeline.frame_size(), 1);
    assert_eq!(pipeline.sample_rate(), 44100);
}

#[test]
fn a_wav_of_the_rendering() {
    let timeline = parse_transcription("+0| 4ad\n+1| 4au\n").unwrap();
    let mut voices = VoiceConfig::default();
    voices.attack_samples = 100;
    voices.decay_samples = 100;
    voices.release_samples = 100;
    let config = PipelineConfig {
        sample_rate: 16000,
        timestep_samples: 256,
        voice_config: voices.clone(),
        ..Default::default()
    };
    let samples = Pipeline::new(config.clone(), timeline.clone()).generate_samples();
    let image = Pipeline::new(config, timeline).generate_wav().unwrap();
    assert_eq!(samples.len(), 256 + 128);
    assert_eq!(image.len(), 44 + 2 * samples.len());
    assert_eq!(&image[0..4], b"RIFF");
    assert_eq!(u32::from_le_bytes([image[24], image[25], image[26], image[27]]), 16000);
    for (i, &s) in samples.iter().enumerate() {
        let got = i16::from_le_bytes([image[44 + 2 * i], image[45 + 2 * i]]);
        assert_eq!(got, corroza::wav::quantize(s));
    }
}

#[test]
fn a_key_goes_up_at_the_first_frame_on_or_after_its_sample() {
    let config = PipelineConfig {
        timestep_samples: 100,
        frame_size: 32,
        ..Default::default()
    };
    let held = vec![create_simple_event(0, c4(), KeyDirection::Down)];
    let played = vec![
        create_simple_event(0, c4(), KeyDirection::Down),
        create_simple_event(100, c4(), KeyDirection::Up),
    ];
    let mut never_released = Pipeline::new(config.clone(), held);
    let mut pipeline = Pipeline::new(config, played);
    let mut expected = vec![0i32; 32];
    let mut buffer = vec![0i32; 32];
    let mut loud = false;
    // frames 1 to 313 begin before sample 10000
    for call in 1..=313usize {
        never_released.process_frame(&mut expected);
        pipeline.process_frame(&mut buffer);
        assert_eq!(buffer, expected, "frame {}", call);
        assert!(pipeline.is_active());
        assert_eq!(pipeline.voice_count(), 1);
        assert_eq!(
            pipeline.samples_to_next_event(),
            10000usize.saturating_sub(32 * call)
        );
        loud = loud || buffer.iter().any(|&s| s.abs() > 655);
    }
    assert!(loud);
    // frame 314 begins on sample 10016, and the key goes up with it
    never_released.process_frame(&mut expected);
    pipeline.process_frame(&mut buffer);
    assert_eq!(pipeline.samples_to_next_event(), usize::MAX);
    assert!(buffer != expected);
    let mut frames = 314;
    while pipeline.is_active() {
        pipeline.process_frame(&mut buffer);
        frames += 1;
    }
    // the release of 13230 samples ends in frame 314 + 413
    assert_eq!(frames, 313 + 414);
    assert!(never_released.is_active());
}
