use joya::audio::{
    level_wait, needs_resampling, LevelMeter, LevelReport, SampleQueue, Segment, Segmenter, DEAD_LEVEL,
    LOOKBACK_CHUNKS, QUIET_LEVEL, SILENCE_CHUNKS_FOR_RESET, SPEECH_THRESHOLD, VAD_CHUNK_SIZE,
};

fn speech(segment: &Segment) -> Option<i16> {
    match segment {
        Segment::Speech(frame) => Some(frame[0]),
        Segment::EndOfUtterance => None,
    }
}

fn firsts(segments: &[Segment]) -> Vec<Option<i16>> {
    segments.iter().map(speech).collect()
}

#[test]
fn thresholds_are_the_numbers_they_stand_for() {
    assert_eq!(f32::from_bits(SPEECH_THRESHOLD), 0.5);
    assert_eq!(f32::from_bits(DEAD_LEVEL), 0.002);
    assert_eq!(f32::from_bits(QUIET_LEVEL), 0.02);
    assert_eq!(VAD_CHUNK_SIZE, 512);
    assert_eq!(SILENCE_CHUNKS_FOR_RESET, 32);
    assert_eq!(LOOKBACK_CHUNKS, 8);
}

#[test]
fn speech_replays_the_newest_kept_frames() {
    let mut segmenter = Segmenter::new();
    for at in 0..10i16 {
        let heard = segmenter.push(0.1f32.to_bits(), vec![at]);
        assert!(heard.segments.is_empty());
        assert_eq!(heard.started, None);
        assert!(!heard.ended);
    }
    let heard = segmenter.push(0.5f32.to_bits(), vec![100]);
    assert_eq!(heard.started, Some(8));
    assert_eq!(
        firsts(&heard.segments),
        vec![
            Some(2),
            Some(3),
            Some(4),
            Some(5),
            Some(6),
            Some(7),
            Some(8),
            Some(9),
            Some(100)
        ]
    );
}

#[test]
fn a_probability_below_one_half_is_silence() {
    let mut segmenter = Segmenter::new();
    assert!(segmenter.push(0.49999f32.to_bits(), vec![1]).segments.is_empty());
    assert!(segmenter.push(f32::NAN.to_bits(), vec![2]).segments.is_empty());
    assert_eq!(firsts(&segmenter.push(0.9f32.to_bits(), vec![3]).segments), vec![
        Some(1),
        Some(2),
        Some(3)
    ]);
}

#[test]
fn a_short_pause_stays_in_the_utterance() {
    let mut segmenter = Segmenter::new();
    segmenter.push(1.0f32.to_bits(), vec![0]);
    for at in 1..32i16 {
        let heard = segmenter.push(0.0f32.to_bits(), vec![at]);
        assert_eq!(firsts(&heard.segments), vec![Some(at)]);
        assert!(!heard.ended);
    }
    let heard = segmenter.push(1.0f32.to_bits(), vec![32]);
    assert_eq!(firsts(&heard.segments), vec![Some(32)]);
    assert_eq!(heard.started, None);
}

#[test]
fn a_long_pause_ends_the_utterance() {
    let mut segmenter = Segmenter::new();
    segmenter.push(1.0f32.to_bits(), vec![0]);
    for at in 1..32i16 {
        segmenter.push(0.0f32.to_bits(), vec![at]);
    }
    let heard = segmenter.push(0.0f32.to_bits(), vec![32]);
    assert_eq!(firsts(&heard.segments), vec![Some(32), None]);
    assert!(heard.ended);
    // The pause is not replayed when the next utterance starts.
    let heard = segmenter.push(0.7f32.to_bits(), vec![33]);
    assert_eq!(firsts(&heard.segments), vec![Some(33)]);
    assert_eq!(heard.started, Some(0));
}

#[test]
fn frames_are_handed_on_once_and_in_order() {
    let mut segmenter = Segmenter::new();
    let mut handed_on = Vec::new();
    for at in 0..200i16 {
        // Speech in two places, more than a second apart.
        let probability = if at == 20 || at == 90 { 1.0f32 } else { 0.0f32 };
        for segment in segmenter.push(probability.to_bits(), vec![at]).segments {
            handed_on.extend(speech(&segment));
        }
    }
    let expected: Vec<i16> = (12..53).chain(82..123).collect();
    assert_eq!(handed_on, expected);
}

#[test]
fn only_other_rates_are_resampled() {
    assert!(!needs_resampling(16000));
    assert!(needs_resampling(44100));
    assert!(needs_resampling(48000));
}

#[test]
fn samples_leave_in_the_order_they_came() {
    let mut queue: SampleQueue<u32> = SampleQueue::new();
    queue.extend(vec![1, 2, 3]);
    queue.extend(vec![4, 5]);
    assert_eq!(queue.len(), 5);
    assert_eq!(queue.take(6), None);
    assert_eq!(queue.take(2), Some(vec![1, 2]));
    assert_eq!(queue.take_chunks(2), vec![vec![3, 4]]);
    assert_eq!(queue.len(), 1);
    let mut other: SampleQueue<u32> = SampleQueue::new();
    other.extend(vec![9]);
    queue.move_to(&mut other);
    assert_eq!(queue.len(), 0);
    assert_eq!(other.take(2), Some(vec![9, 5]));
}

fn observed(samples: &[f32]) -> LevelMeter {
    let mut meter = LevelMeter::new();
    meter.observe(&samples.iter().map(|sample| sample.to_bits()).collect());
    meter
}

#[test]
fn the_level_is_the_loudest_sample() {
    let mut meter = observed(&[0.01, -0.25, 0.2, f32::NAN]);
    match meter.report() {
        LevelReport::Live { peak, quiet } => {
            assert_eq!(f32::from_bits(peak), 0.25);
            assert!(!quiet);
        }
        other => panic!("{other:?}"),
    }
    // The next window starts from silence.
    meter.observe(&vec![0.015f32.to_bits()]);
    match meter.report() {
        LevelReport::Live { peak, quiet } => {
            assert_eq!(f32::from_bits(peak), 0.015);
            assert!(quiet);
        }
        other => panic!("{other:?}"),
    }
}

#[test]
fn a_dead_input_is_reported_until_it_is_live() {
    let mut meter = observed(&[0.0, 0.001, -0.0]);
    match meter.report() {
        LevelReport::AppearsDead { peak, again } => {
            assert_eq!(f32::from_bits(peak), 0.001);
            assert!(!again);
        }
        other => panic!("{other:?}"),
    }
    meter.observe(&vec![0]);
    assert!(matches!(meter.report(), LevelReport::AppearsDead { peak: 0, again: true }));
    meter.observe(&vec![0.5f32.to_bits()]);
    assert!(matches!(meter.report(), LevelReport::Live { .. }));
    meter.observe(&vec![0]);
    assert!(matches!(meter.report(), LevelReport::AppearsDead { again: false, .. }));
}

#[test]
fn the_level_is_due_twice_a_second() {
    assert_eq!(level_wait(0), Some(500));
    assert_eq!(level_wait(499), Some(1));
    assert_eq!(level_wait(500), None);
    assert_eq!(level_wait(u64::MAX), None);
}

#[test]
fn an_input_without_samples_is_reported() {
    let mut meter = LevelMeter::new();
    assert!(matches!(meter.report(), LevelReport::NoSamples { again: false }));
    assert!(matches!(meter.report(), LevelReport::NoSamples { again: true }));
}
