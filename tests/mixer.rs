use lesynth::engine::{ChartType, SynthComputeEngine};
use lesynth::sine::{SineTable, SINE_STEPS};
use lesynth::units::UNIT;
use lesynth::voice::VoiceTable;

fn sine_table() -> SineTable {
    let n = SINE_STEPS as usize;
    let values: Vec<i64> = (0..n)
        .map(|k| ((k as f64) * 2.0 * std::f64::consts::PI / (n as f64)).sin())
        .map(|s| (s * UNIT as f64).round() as i64)
        .collect();
    SineTable::new(values).expect("a full sine cycle")
}

#[test]
fn two_voices_halfway_through_fade_in() {
    let mut voices = VoiceTable::new(64, 10);
    voices.note_on(10, vec![UNIT; 100]);
    voices.note_on(20, vec![UNIT; 100]);
    let mut samples = Vec::new();
    for _ in 0..6 {
        samples.push(voices.mix_frame());
    }
    // voice gain 0.8 / 2, fade-in gain 5 / 10, two voices, compensation 1.5
    assert_eq!(samples[5], 600_000);
    assert_eq!(samples[0], 0);
    assert_eq!(samples[1], 120_000);
}

#[test]
fn single_voice_reaches_full_gain() {
    let mut voices = VoiceTable::new(8, 4);
    voices.note_on(3, vec![UNIT, -UNIT]);
    let samples: Vec<i64> = (0..8).map(|_| voices.mix_frame()).collect();
    assert_eq!(samples, vec![0, -200_000, 400_000, -600_000, 800_000, -800_000, 800_000, -800_000]);
}

#[test]
fn release_during_fade_in_is_smooth() {
    let mut voices = VoiceTable::new(8, 10);
    voices.note_on(2, vec![UNIT; 50]);
    let mut samples = vec![voices.mix_frame(), voices.mix_frame(), voices.mix_frame()];
    voices.note_off(2);
    for _ in 0..20 {
        samples.push(voices.mix_frame());
    }
    let step = UNIT * 8 / 10 / 10;
    for w in samples.windows(2) {
        assert!((w[1] - w[0]).abs() <= step, "jump from {} to {}", w[0], w[1]);
    }
    assert_eq!(*samples.last().unwrap(), 0);
    assert_eq!(voices.active_count(), 0);
}

#[test]
fn voice_is_removed_after_fade_out() {
    let mut voices = VoiceTable::new(8, 3);
    voices.note_on(1, vec![UNIT; 5]);
    for _ in 0..5 {
        voices.mix_frame();
    }
    voices.note_off(1);
    assert_eq!(voices.active_keys(), vec![1]);
    let tail: Vec<i64> = (0..4).map(|_| voices.mix_frame()).collect();
    assert_eq!(tail, vec![800_000, 533_333, 266_666, 0]);
    assert!(voices.active_keys().is_empty());
}

#[test]
fn mix_never_exceeds_unit() {
    for count in 1..=10usize {
        for sign in [UNIT, -UNIT] {
            let mut voices = VoiceTable::new(16, 10);
            for key in 0..count {
                voices.note_on(key, vec![sign; 37]);
            }
            for _ in 0..60 {
                let s = voices.mix_frame();
                assert!(s.abs() <= UNIT);
            }
        }
    }
}

#[test]
fn loudness_compensation_steps() {
    // a tenth of full scale per voice: 0.08 in all, times 1, 1.5, 2, 2.4, 2.8, then 3
    let expected = [80_000i64, 120_000, 160_000, 192_000, 224_000, 240_000, 240_000];
    for (i, &want) in expected.iter().enumerate() {
        let count = i + 1;
        let mut voices = VoiceTable::new(16, 1);
        for key in 0..count {
            voices.note_on(key, vec![UNIT / 10; 4]);
        }
        voices.mix_frame();
        assert_eq!(voices.mix_frame(), want, "{} voices", count);
    }
}

#[test]
fn empty_table_and_empty_buffer_mix_to_zero() {
    let mut voices = VoiceTable::new(4, 5);
    assert_eq!(voices.mix_frame(), 0);
    voices.note_on(0, Vec::new());
    assert_eq!(voices.mix_frame(), 0);
    assert_eq!(voices.active_count(), 1);
}

#[test]
fn note_events_outside_the_range_are_ignored() {
    let mut voices = VoiceTable::new(4, 5);
    voices.note_on(4, vec![UNIT]);
    voices.note_off(9);
    assert_eq!(voices.active_count(), 0);
}

#[test]
fn cursor_wraps_around_the_buffer() {
    let mut voices = VoiceTable::new(2, 1);
    voices.note_on(0, vec![100_000, 200_000, 300_000]);
    let samples: Vec<i64> = (0..7).map(|_| voices.mix_frame()).collect();
    assert_eq!(samples, vec![0, 160_000, 240_000, 80_000, 160_000, 240_000, 80_000]);
}

#[test]
fn refresh_buffer_keeps_position() {
    let mut voices = VoiceTable::new(2, 1);
    voices.note_on(1, vec![100_000, 200_000, 300_000]);
    voices.mix_frame();
    voices.mix_frame();
    voices.refresh_buffer(1, vec![500_000, 600_000, 700_000]);
    assert_eq!(voices.mix_frame(), 560_000);
}

#[test]
fn plotted_mix_sums_and_clamps() {
    let mut voices = VoiceTable::new(4, 2);
    assert!(voices.plotted_mix().is_empty());
    voices.note_on(0, vec![600_000, 600_000, 100_000]);
    voices.note_on(2, vec![600_000, -100_000]);
    assert_eq!(voices.plotted_mix(), vec![UNIT, 500_000, 100_000]);
}

#[test]
fn start_note_uses_engine_buffer() {
    let periods: Vec<usize> = (0..30).map(|k| 10 + k).collect();
    let mut engine = SynthComputeEngine::new(4, 2, periods, sine_table());
    engine.fill_constant_curve(0, UNIT, ChartType::Amp, &None);
    let mut voices = VoiceTable::new(30, 4);
    engine.start_note(&mut voices, 24);
    engine.start_note(&mut voices, 30);
    assert_eq!(voices.active_keys(), vec![24]);
    let expected = engine.cache.buffers[24].clone().unwrap();
    assert_eq!(voices.voices[24].as_ref().unwrap().buffer, expected);
    let display = engine.update_plotted_mix(&voices);
    assert_eq!(display, expected);
}
