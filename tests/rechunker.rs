use ollisten::transcription::rechunker::{
    AnnotatedFrame, ConfigError, DecayInputs, FrameError, OutputChunk, RechunkerConfig,
    VoiceActivityRechunkerStreamV2, PROBABILITY_ONE,
};

const MS: u64 = 1_000_000;

fn ppm(p: f64) -> u32 {
    (p * PROBABILITY_ONE as f64).round() as u32
}

/// A mono frame of 100 ms at 16 kHz.
fn frame(p: f64) -> AnnotatedFrame {
    AnnotatedFrame { sample_count: 1600, channel_count: 1, sample_rate: 16_000, probability: ppm(p) }
}

fn rechunker(start: f64, start_window_ms: u64, end: f64, end_window_ms: u64, before_ms: u64, max_ms: u64, decay: f64) -> VoiceActivityRechunkerStreamV2 {
    VoiceActivityRechunkerStreamV2::new(
        ppm(start),
        start_window_ms * MS,
        ppm(end),
        end_window_ms * MS,
        before_ms * MS,
        max_ms * MS,
        ppm(decay),
    )
    .unwrap()
}

/// The adaptive end threshold, in millionths.
fn decaying_end_threshold(config: &RechunkerConfig, inputs: &DecayInputs) -> u32 {
    let end = config.end_threshold as f64 / PROBABILITY_ONE as f64;
    let decay = config.decay_factor as f64 / PROBABILITY_ONE as f64;
    let average = inputs.run_mass as f64 / (inputs.run_span as f64 * PROBABILITY_ONE as f64);
    let max = config.max_duration as f64 / 1e9;
    let k = decay * (average / end).ln() / max;
    let threshold = end * (k * inputs.elapsed as f64 / 1e9).exp();
    (threshold * PROBABILITY_ONE as f64).round().min(u32::MAX as f64).max(0.0) as u32
}

fn feed(r: &mut VoiceActivityRechunkerStreamV2, f: AnnotatedFrame) -> Option<OutputChunk> {
    let inputs = r.decay_inputs(f).unwrap();
    let threshold = if inputs.in_run { decaying_end_threshold(&r.config(), &inputs) } else { 0 };
    r.push(f, threshold).unwrap()
}

#[test]
fn frame_duration_is_derived_from_samples() {
    assert_eq!(frame(0.5).checked_duration(), Ok(100 * MS));
    let stereo = AnnotatedFrame { sample_count: 4410, channel_count: 2, sample_rate: 44_100, probability: 0 };
    assert_eq!(stereo.checked_duration(), Ok(50 * MS));
}

#[test]
fn frame_errors() {
    let mut f = frame(0.5);
    f.probability = PROBABILITY_ONE + 1;
    assert_eq!(f.checked_duration(), Err(FrameError::ProbabilityOutOfRange));
    let mut f = frame(0.5);
    f.sample_rate = 0;
    assert_eq!(f.checked_duration(), Err(FrameError::UnrepresentableDuration));
    let mut f = frame(0.5);
    f.channel_count = 0;
    assert_eq!(f.checked_duration(), Err(FrameError::UnrepresentableDuration));
    let mut f = frame(0.5);
    f.sample_count = 0;
    assert_eq!(f.checked_duration(), Err(FrameError::ZeroDuration));
    let f = AnnotatedFrame { sample_count: u64::MAX, channel_count: 1, sample_rate: 1, probability: 0 };
    assert_eq!(f.checked_duration(), Err(FrameError::UnrepresentableDuration));
}

#[test]
fn refused_frame_changes_nothing() {
    let mut r = rechunker(0.6, 250, 0.3, 100, 750, 10_000, 3.0);
    feed(&mut r, frame(0.1));
    let mut f = frame(0.9);
    f.sample_count = 0;
    assert_eq!(r.push(f, 0), Err(FrameError::ZeroDuration));
    assert_eq!(r.buffered_frames(), 1);
    assert!(!r.in_voice_run());
}

#[test]
fn config_errors() {
    let n = |a: u32, b: u64, c: u32, d: u64, e: u64, f: u64, g: u32| {
        VoiceActivityRechunkerStreamV2::new(a, b, c, d, e, f, g).err()
    };
    assert_eq!(n(PROBABILITY_ONE + 1, 1, 1, 1, 1, 1, 1), Some(ConfigError::StartThresholdOutOfRange));
    assert_eq!(n(1, 0, 1, 1, 1, 1, 1), Some(ConfigError::StartWindowZero));
    assert_eq!(n(1, 1, 0, 1, 1, 1, 1), Some(ConfigError::EndThresholdOutOfRange));
    assert_eq!(n(1, 1, PROBABILITY_ONE + 1, 1, 1, 1, 1), Some(ConfigError::EndThresholdOutOfRange));
    assert_eq!(n(1, 1, 1, 0, 1, 1, 1), Some(ConfigError::EndWindowZero));
    assert_eq!(n(1, 1, 1, 1, 0, 1, 1), Some(ConfigError::TimeBeforeSpeechZero));
    assert_eq!(n(1, 1, 1, 1, 1, 0, 1), Some(ConfigError::MaxDurationZero));
    assert_eq!(n(1, 1, 1, 1, 1, 1, 0), Some(ConfigError::DecayFactorZero));
    assert_eq!(n(0, 1, PROBABILITY_ONE, 1, 1, 1, 1), None);
}

#[test]
fn builders_replace_one_setting() {
    let r = rechunker(0.6, 250, 0.3, 100, 750, 10_000, 3.0);
    let r = r.with_start_threshold(ppm(0.5)).unwrap();
    let r = r.with_start_window(300 * MS).unwrap();
    let r = r.with_end_threshold(ppm(0.2)).unwrap();
    let r = r.with_end_window(200 * MS).unwrap();
    let r = r.with_time_before_speech(500 * MS).unwrap();
    let c = r.config();
    assert_eq!(c.start_threshold, ppm(0.5));
    assert_eq!(c.start_window, 300 * MS);
    assert_eq!(c.end_threshold, ppm(0.2));
    assert_eq!(c.end_window, 200 * MS);
    assert_eq!(c.time_before_speech, 500 * MS);
    assert_eq!(c.max_duration, 10_000 * MS);
    assert_eq!(r.with_end_window(0).err(), Some(ConfigError::EndWindowZero));
}

#[test]
fn setters_keep_the_stream_state() {
    let mut r = rechunker(0.6, 250, 0.3, 100, 750, 10_000, 3.0);
    for _ in 0..4 {
        feed(&mut r, frame(0.9));
    }
    assert!(r.in_voice_run());
    let before = r.decay_inputs(frame(0.9)).unwrap();
    let r = r.with_start_threshold(ppm(0.7)).unwrap();
    let r = r.with_time_before_speech(500 * MS).unwrap();
    assert!(r.in_voice_run());
    assert_eq!(r.buffered_frames(), 4);
    assert_eq!(r.buffered_duration(), 400 * MS as u128);
    assert_eq!(r.config().start_threshold, ppm(0.7));
    // The run's mass and time are kept; only the pre-roll term of the span moved.
    let after = r.decay_inputs(frame(0.9)).unwrap();
    assert_eq!(after.run_mass, before.run_mass);
    assert_eq!(after.elapsed, before.elapsed);
    assert_eq!(after.run_span + 250 * MS as u128, before.run_span);
}

#[test]
fn shorter_pre_roll_applies_at_next_idle_frame() {
    let mut r = rechunker(0.6, 250, 0.3, 100, 750, 10_000, 3.0);
    for _ in 0..5 {
        feed(&mut r, frame(0.1));
    }
    assert_eq!(r.buffered_frames(), 5);
    let mut r = r.with_time_before_speech(200 * MS).unwrap();
    assert_eq!(r.buffered_frames(), 5);
    feed(&mut r, frame(0.1));
    assert_eq!(r.buffered_frames(), 1);
}

#[test]
fn starting_frame_never_ends_the_run() {
    // A single frame of 300 ms fills the start window and outlasts the cap.
    let mut r = rechunker(0.6, 300, 0.3, 100, 750, 200, 3.0);
    let long = AnnotatedFrame { sample_count: 4800, channel_count: 1, sample_rate: 16_000, probability: ppm(0.9) };
    assert_eq!(r.push(long, u32::MAX), Ok(None));
    assert!(r.in_voice_run());
    let c = r.push(frame(0.9), 0).unwrap().unwrap();
    assert_eq!(c.frame_count, 2);
    assert_eq!(c.voice_duration, 400 * MS as u128);
}

#[test]
fn scenario_start_on_sustained_voice() {
    // Frames of 100 ms, start threshold 0.6 over 250 ms: a run starts only
    // once the window has spanned 250 ms, at the third frame.
    let mut r = rechunker(0.6, 250, 0.3, 100, 750, 10_000, 3.0);
    assert_eq!(feed(&mut r, frame(0.9)), None);
    assert!(!r.in_voice_run());
    assert_eq!(feed(&mut r, frame(0.9)), None);
    assert!(!r.in_voice_run());
    assert_eq!(feed(&mut r, frame(0.9)), None);
    assert!(r.in_voice_run());
    assert_eq!(feed(&mut r, frame(0.9)), None);
    assert!(r.in_voice_run());
    assert_eq!(r.buffered_frames(), 4);
}

#[test]
fn scenario_start_needs_window_average_above_threshold() {
    // Quiet lead-in: the window must be dominated by voice before a run starts.
    let mut r = rechunker(0.6, 250, 0.3, 100, 750, 10_000, 3.0);
    for _ in 0..3 {
        feed(&mut r, frame(0.1));
    }
    assert!(!r.in_voice_run());
    feed(&mut r, frame(0.9));
    // Window [0.1, 0.9] over 200 ms: average 0.5.
    assert!(!r.in_voice_run());
    feed(&mut r, frame(0.9));
    assert!(r.in_voice_run());
}

#[test]
fn scenario_drop_ends_run_with_one_chunk() {
    let mut r = rechunker(0.6, 250, 0.3, 100, 750, 10_000, 3.0);
    let mut chunks = Vec::new();
    let mut probabilities = vec![0.1, 0.1, 0.1];
    probabilities.extend([0.9; 6]);
    probabilities.extend([0.05; 4]);
    for p in probabilities {
        if let Some(c) = feed(&mut r, frame(p)) {
            chunks.push(c);
        }
    }
    assert_eq!(chunks.len(), 1);
    let c = chunks[0];
    // Three lead frames, six voice frames, and the quiet frame that ended it;
    // the run started with the second voice frame.
    assert_eq!(c.frame_count, 10);
    assert_eq!(c.duration, 1000 * MS as u128);
    assert_eq!(c.voice_duration, 600 * MS as u128);
    assert_eq!(c.channel_count, 1);
    assert_eq!(c.sample_rate, 16_000);
    assert!(!r.in_voice_run());
}

#[test]
fn scenario_exact_start_threshold_never_starts() {
    let mut r = rechunker(0.6, 250, 0.3, 100, 750, 10_000, 3.0);
    for _ in 0..20 {
        assert_eq!(feed(&mut r, frame(0.6)), None);
        assert!(!r.in_voice_run());
    }
    assert_eq!(r.finish(), None);
}

#[test]
fn scenario_duration_cap_forces_emission() {
    // A gentle decay keeps the threshold below the window average of 0.9.
    let mut r = rechunker(0.6, 250, 0.3, 100, 750, 500, 1.0);
    let mut emitted = None;
    let mut count = 0;
    while emitted.is_none() {
        let f = frame(0.9);
        let inputs = r.decay_inputs(f).unwrap();
        let threshold = decaying_end_threshold(&r.config(), &inputs);
        if inputs.in_run {
            // The window's average stays above the threshold in force.
            assert!(ppm(0.9) >= threshold);
        }
        emitted = r.push(f, threshold).unwrap();
        count += 1;
    }
    let c = emitted.unwrap();
    // Two frames before the run starts, then six frames to pass 500 ms.
    assert_eq!(count, 8);
    assert_eq!(c.voice_duration, 600 * MS as u128);
    assert!(c.voice_duration <= (500 + 100) * MS as u128);
}

#[test]
fn quiet_frames_after_run_give_no_more_chunks() {
    let mut r = rechunker(0.6, 250, 0.3, 100, 750, 10_000, 3.0);
    let mut chunks = 0;
    for p in [0.9, 0.9, 0.9, 0.9, 0.05, 0.05, 0.05, 0.05, 0.05] {
        if feed(&mut r, frame(p)).is_some() {
            chunks += 1;
            assert!(!r.in_voice_run());
            assert_eq!(r.buffered_frames(), 0);
        }
    }
    assert_eq!(chunks, 1);
    assert_eq!(r.finish(), None);
}

#[test]
fn end_threshold_below_average_keeps_run() {
    let mut r = rechunker(0.6, 250, 0.3, 100, 750, 10_000, 3.0);
    assert_eq!(r.push(frame(0.9), 0), Ok(None));
    assert_eq!(r.push(frame(0.9), 0), Ok(None));
    assert_eq!(r.push(frame(0.9), 0), Ok(None));
    assert!(r.in_voice_run());
    assert_eq!(r.push(frame(0.5), ppm(0.5)), Ok(None));
    let c = r.push(frame(0.5), ppm(0.5) + 1).unwrap().unwrap();
    assert_eq!(c.frame_count, 5);
}

#[test]
fn pre_roll_keeps_less_than_its_horizon() {
    let mut r = rechunker(0.6, 250, 0.3, 100, 250, 10_000, 3.0);
    feed(&mut r, frame(0.0));
    feed(&mut r, frame(0.0));
    assert_eq!(r.buffered_frames(), 2);
    feed(&mut r, frame(0.0));
    assert_eq!(r.buffered_frames(), 2);
    assert_eq!(r.buffered_duration(), 200 * MS as u128);
    for _ in 0..10 {
        feed(&mut r, frame(0.0));
        assert!(r.buffered_duration() < 250 * MS as u128);
    }
}

#[test]
fn finish_flushes_run_and_discards_pre_roll() {
    let mut r = rechunker(0.6, 250, 0.3, 100, 750, 10_000, 3.0);
    feed(&mut r, frame(0.1));
    assert_eq!(r.finish(), None);
    assert_eq!(r.buffered_frames(), 0);
    feed(&mut r, frame(0.1));
    feed(&mut r, frame(0.9));
    assert!(!r.in_voice_run());
    feed(&mut r, frame(0.9));
    assert!(r.in_voice_run());
    let c = r.finish().unwrap();
    assert_eq!(c.frame_count, 3);
    assert_eq!(c.voice_duration, 100 * MS as u128);
    assert_eq!(r.buffered_frames(), 0);
    assert!(!r.in_voice_run());
}

#[test]
fn decay_inputs_at_run_start() {
    let mut r = rechunker(0.6, 250, 0.3, 100, 750, 10_000, 3.0);
    let early = r.decay_inputs(frame(0.9)).unwrap();
    assert!(!early.in_run);
    r.push(frame(0.9), 0).unwrap();
    r.push(frame(0.9), 0).unwrap();
    let inputs = r.decay_inputs(frame(0.9)).unwrap();
    // The window keeps the last two frames, 200 ms at 0.9.
    assert_eq!(
        inputs,
        DecayInputs {
            in_run: true,
            run_mass: ppm(0.9) as u128 * 200 * MS as u128,
            run_span: 850 * MS as u128,
            elapsed: 100 * MS as u128,
        }
    );
    let idle = r.decay_inputs(frame(0.2)).unwrap();
    assert!(!idle.in_run);
    assert_eq!(idle.elapsed, 0);
}

#[test]
fn conservation_of_duration() {
    let mut r = rechunker(0.6, 250, 0.3, 100, 300, 1_000, 3.0);
    let pattern = [0.1, 0.2, 0.9, 0.95, 0.9, 0.05, 0.1, 0.1, 0.1, 0.1, 0.8, 0.9, 0.9, 0.9, 0.9];
    let mut total: u128 = 0;
    let mut emitted: u128 = 0;
    for round in 0..4 {
        for p in pattern {
            total += 100 * MS as u128;
            if let Some(c) = feed(&mut r, frame(p)) {
                emitted += c.duration;
            }
        }
        assert!(emitted + r.buffered_duration() <= total, "round {}", round);
    }
    let buffered = r.buffered_duration();
    let last = r.finish().map(|c| c.duration).unwrap_or(0);
    assert!(last == buffered || last == 0);
    assert!(emitted + last <= total);
}

#[test]
fn determinism_of_chunks() {
    let pattern = [0.1, 0.7, 0.9, 0.3, 0.05, 0.05, 0.9, 0.9, 0.9, 0.9, 0.2, 0.05];
    let run = || {
        let mut r = rechunker(0.6, 250, 0.3, 100, 750, 700, 3.0);
        let mut out = Vec::new();
        for _ in 0..5 {
            for p in pattern {
                out.push(feed(&mut r, frame(p)));
            }
        }
        out.push(r.finish());
        out
    };
    let a = run();
    assert_eq!(a, run());
    assert!(a.iter().any(|c| c.is_some()));
}

#[test]
fn push_all_matches_single_pushes() {
    let mut inputs = Vec::new();
    for (i, p) in [0.1, 0.9, 0.9, 0.9, 0.9, 0.05, 0.2, 0.9, 0.9, 0.9].iter().enumerate() {
        let threshold = if i == 5 { ppm(0.3) } else { ppm(0.1) };
        inputs.push((frame(*p), threshold));
    }
    let mut bad = frame(0.5);
    bad.sample_rate = 0;
    inputs.push((bad, 0));
    let mut a = rechunker(0.6, 250, 0.3, 100, 750, 10_000, 3.0);
    let mut b = rechunker(0.6, 250, 0.3, 100, 750, 10_000, 3.0);
    let out_a = a.push_all(&inputs);
    let out_b = b.push_all(&inputs);
    assert_eq!(out_a, out_b);
    let mut c = rechunker(0.6, 250, 0.3, 100, 750, 10_000, 3.0);
    let single: Vec<_> = inputs.iter().map(|(f, t)| c.push(*f, *t)).collect();
    assert_eq!(out_a, single);
    assert_eq!(out_a.iter().filter(|r| matches!(r, Ok(Some(_)))).count(), 1);
    assert_eq!(out_a.last(), Some(&Err(FrameError::UnrepresentableDuration)));
    assert_eq!(a.in_voice_run(), c.in_voice_run());
}
