use xiaoai_agent::config::CaptureConfig;
use xiaoai_agent::vad::{
    energy, peak, sample, settings_fit, MeasuredBlock, SpeechCollector, SpeechEvent, VadSettings,
    BYTES_PER_SAMPLE,
};

fn test_config() -> VadSettings {
    VadSettings {
        sample_rate: 1_000,
        block_ms: 100,
        pre_roll_ms: 300,
        silence_ms: 200,
        min_speech_ms: 100,
        max_utterance_ms: 5_000,
        cooldown_ns: 0,
        threshold: 0.1_f64.to_bits(),
    }
}

fn pcm_block(sample: i16) -> Vec<u8> {
    (0..100).flat_map(|_| sample.to_le_bytes()).collect()
}

fn rms_norm(block: &[u8]) -> f64 {
    let (sum, count) = energy(block);
    if count == 0 {
        0.0
    } else {
        (sum as f64 / count as f64).sqrt() / 32768.0
    }
}

fn push_at(collector: &mut SpeechCollector, pcm: &[u8], now_ns: u64) -> Vec<SpeechEvent> {
    let blocks = collector
        .cut(pcm)
        .into_iter()
        .map(|pcm| MeasuredBlock {
            level: rms_norm(&pcm).to_bits(),
            pcm,
            now_ns,
        })
        .collect();
    collector.push(blocks)
}

fn push(collector: &mut SpeechCollector, pcm: &[u8]) -> Vec<SpeechEvent> {
    push_at(collector, pcm, 0)
}

#[test]
fn streams_only_after_speech_start_with_pre_roll() {
    let mut collector = SpeechCollector::new(test_config());
    assert!(push(&mut collector, &pcm_block(100)).is_empty());
    assert!(push(&mut collector, &pcm_block(200)).is_empty());

    let events = push(&mut collector, &pcm_block(10_000));
    assert_eq!(events.len(), 1);
    let SpeechEvent::SpeechStart(prefix) = &events[0] else {
        panic!("expected speech start");
    };
    assert_eq!(prefix.len(), 3 * 100 * BYTES_PER_SAMPLE);

    let events = push(&mut collector, &pcm_block(12_000));
    assert!(matches!(events.as_slice(), [SpeechEvent::SpeechChunk(_)]));
    assert!(matches!(
        push(&mut collector, &pcm_block(0)).as_slice(),
        [SpeechEvent::SpeechChunk(_)]
    ));
    let events = push(&mut collector, &pcm_block(0));
    assert!(matches!(
        events.as_slice(),
        [SpeechEvent::SpeechChunk(_), SpeechEvent::Utterance(_)]
    ));
}

#[test]
fn short_speech_is_streamed_then_rejected() {
    let mut config = test_config();
    config.min_speech_ms = 300;
    let mut collector = SpeechCollector::new(config);
    assert!(matches!(
        push(&mut collector, &pcm_block(10_000)).as_slice(),
        [SpeechEvent::SpeechStart(_)]
    ));
    assert!(matches!(
        push(&mut collector, &pcm_block(0)).as_slice(),
        [SpeechEvent::SpeechChunk(_)]
    ));
    assert!(matches!(
        push(&mut collector, &pcm_block(0)).as_slice(),
        [SpeechEvent::SpeechChunk(_), SpeechEvent::SpeechRejected]
    ));
}

#[test]
fn the_utterance_is_what_was_streamed() {
    let mut collector = SpeechCollector::new(test_config());
    let mut streamed = Vec::new();
    let mut utterance = None;
    for level in [100, 200, 300, 9_000, 9_500, 50, 0, 0] {
        for event in push(&mut collector, &pcm_block(level)) {
            match event {
                SpeechEvent::SpeechStart(pcm) => streamed = pcm,
                SpeechEvent::SpeechChunk(pcm) => streamed.extend(pcm),
                SpeechEvent::SpeechRejected => panic!("rejected"),
                SpeechEvent::Utterance(pcm) => utterance = Some(pcm),
            }
        }
        if utterance.is_some() {
            break;
        }
    }
    assert_eq!(utterance, Some(streamed));
    assert!(!collector.in_speech());
}

#[test]
fn an_utterance_ends_when_it_is_too_long() {
    let mut config = test_config();
    config.max_utterance_ms = 300;
    let mut collector = SpeechCollector::new(config);
    push(&mut collector, &pcm_block(9_000));
    assert_eq!(push(&mut collector, &pcm_block(9_000)).len(), 1);
    let events = push(&mut collector, &pcm_block(9_000));
    let [SpeechEvent::SpeechChunk(_), SpeechEvent::Utterance(pcm)] = events.as_slice() else {
        panic!("expected an utterance");
    };
    assert_eq!(pcm.len(), 600);
}

#[test]
fn blocks_are_passed_over_while_cooling_down() {
    let mut config = test_config();
    config.cooldown_ns = 1_000;
    let mut collector = SpeechCollector::new(config);
    push_at(&mut collector, &pcm_block(9_000), 10);
    push_at(&mut collector, &pcm_block(0), 20);
    assert_eq!(push_at(&mut collector, &pcm_block(0), 30).len(), 2);
    assert!(push_at(&mut collector, &pcm_block(9_000), 1_029).is_empty());
    assert_eq!(push_at(&mut collector, &pcm_block(9_000), 1_030).len(), 1);
}

#[test]
fn audio_is_cut_into_whole_blocks() {
    let mut collector = SpeechCollector::new(test_config());
    assert_eq!(collector.block_len(), 200);
    let signal: Vec<u8> = (0..450).map(|i| i as u8).collect();
    assert!(collector.cut(&signal[..150]).is_empty());
    let mut blocks = collector.cut(&signal[150..]);
    assert_eq!(blocks.len(), 2);
    blocks.extend(collector.cut(&[7; 150]));
    let mut all = signal.clone();
    all.extend([7; 150]);
    assert_eq!(blocks.concat(), all);
}

#[test]
fn the_noise_floor_is_taken_from_the_quiet_blocks() {
    let mut collector = SpeechCollector::new(test_config());
    let floor = collector.noise_floor();
    assert_eq!((floor.samples, floor.p50, floor.p95), (0, 0, 0));
    for level in [5_u64, 3, 1, 4, 2, 9, 8, 7, 6, 10, 11] {
        let block = pcm_block(0);
        collector.push_block(block, level, 0);
    }
    let floor = collector.noise_floor();
    assert_eq!((floor.samples, floor.p50, floor.p95), (11, 6, 11));
}

#[test]
fn samples_energy_and_peak() {
    assert_eq!(sample(0x00, 0x80), i16::MIN);
    assert_eq!(sample(0xff, 0xff), -1);
    assert_eq!(sample(0x34, 0x12), 0x1234);
    let pcm: Vec<u8> = [3_i16, -4, i16::MIN]
        .into_iter()
        .flat_map(i16::to_le_bytes)
        .collect();
    assert_eq!(energy(&pcm), (25 + 32768 * 32768, 3));
    assert_eq!(peak(&pcm), 32768);
    assert_eq!(energy(&pcm[..5]), (25, 2));
    assert_eq!(peak(&[]), 0);
}

#[test]
fn settings_that_cannot_be_worked_with_are_found() {
    assert!(settings_fit(&test_config()));
    let mut config = test_config();
    config.sample_rate = 0;
    assert!(!settings_fit(&config));
    let mut config = test_config();
    config.block_ms = u64::MAX;
    assert!(!settings_fit(&config));
    let mut config = test_config();
    config.max_utterance_ms = u64::MAX;
    assert!(!settings_fit(&config));
}

#[test]
fn blocks_last_at_least_ten_milliseconds() {
    let mut config = test_config();
    config.block_ms = 1;
    assert_eq!(SpeechCollector::new(config).block_len(), 20);
    config.sample_rate = 1;
    assert_eq!(SpeechCollector::new(config).block_len(), 2);
}

#[test]
fn default_capture_settings_can_be_used() {
    let config = CaptureConfig::default();
    assert_eq!(config.vad.threshold, 0.006_f64.to_bits());
    assert!(settings_fit(&config.vad));
    let collector = SpeechCollector::new(config.vad);
    assert_eq!(collector.block_len(), 3_200);
    assert!(!collector.in_speech());
}

fn signal() -> Vec<u8> {
    [0, 0, 9_000, 9_000, 0, 0, 0, 12_000, 0, 0, 9_000, 9_000, 9_000]
        .iter()
        .flat_map(|&sample| pcm_block(sample))
        .collect()
}

#[test]
fn what_is_heard_does_not_depend_on_the_pieces() {
    let whole = push(&mut SpeechCollector::new(test_config()), &signal());
    for size in [1, 7, 199, 200, 333, 1_000] {
        let mut collector = SpeechCollector::new(test_config());
        let mut events = Vec::new();
        for piece in signal().chunks(size) {
            events.extend(push(&mut collector, piece));
        }
        assert_eq!(format!("{events:?}"), format!("{whole:?}"));
    }
}

#[test]
fn a_run_is_told_in_order() {
    let mut streamed = Vec::new();
    let mut utterances = 0;
    let mut speaking = false;
    for event in push(&mut SpeechCollector::new(test_config()), &signal()) {
        match event {
            SpeechEvent::SpeechStart(pcm) => {
                assert!(!speaking);
                speaking = true;
                streamed = pcm;
            }
            SpeechEvent::SpeechChunk(pcm) => {
                assert!(speaking);
                streamed.extend(pcm);
            }
            SpeechEvent::SpeechRejected => {
                assert!(speaking);
                speaking = false;
            }
            SpeechEvent::Utterance(pcm) => {
                assert!(speaking);
                speaking = false;
                utterances += 1;
                assert_eq!(pcm, streamed);
            }
        }
    }
    assert!(utterances > 0 && speaking);
}
