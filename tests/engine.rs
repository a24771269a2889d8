use lesynth::cache::{BufferState, KeyCache, PREVIEW_KEY};
use lesynth::engine::{
    ChartType, SchedulerAction, SynthComputeEngine, NUM_HARMONICS, NUM_KEYS, NUM_OF_BUCKETS_DEFAULT,
};
use lesynth::normalize::normalize;
use lesynth::params::CurveType;
use lesynth::sine::{SineTable, SINE_STEPS};
use lesynth::synthesis::{assemble, Harmonics};
use lesynth::units::UNIT;

fn sine_table() -> SineTable {
    let n = SINE_STEPS as usize;
    let values: Vec<i64> = (0..n)
        .map(|k| ((k as f64) * 2.0 * std::f64::consts::PI / (n as f64)).sin())
        .map(|s| (s * UNIT as f64).round() as i64)
        .collect();
    SineTable::new(values).expect("a full sine cycle")
}

fn small_periods(num_keys: usize) -> Vec<usize> {
    (0..num_keys).map(|k| 8 + (num_keys - k)).collect()
}

fn create_test_engine() -> SynthComputeEngine {
    SynthComputeEngine::new(
        NUM_HARMONICS,
        NUM_OF_BUCKETS_DEFAULT,
        small_periods(NUM_KEYS),
        sine_table(),
    )
}

fn single_harmonic(amp: Vec<i64>, phase: Vec<i64>, harmonics: usize) -> Harmonics {
    let buckets = amp.len();
    let mut amplitude = vec![vec![0i64; buckets]; harmonics];
    let mut phases = vec![vec![0i64; buckets]; harmonics];
    amplitude[0] = amp;
    phases[0] = phase;
    Harmonics {
        amplitude,
        phase: phases,
        ampl_enabled: vec![true; harmonics],
        phase_enabled: vec![true; harmonics],
    }
}

#[test]
fn test_engine_creation() {
    let engine = create_test_engine();
    assert_eq!(engine.amplitude.len(), NUM_HARMONICS);
    assert_eq!(engine.amplitude[0].len(), NUM_OF_BUCKETS_DEFAULT);
}

#[test]
fn test_fill_constant_curve_amplitude() {
    let mut engine = create_test_engine();
    let test_value = 750_000i64;
    engine.fill_constant_curve(0, test_value, ChartType::Amp, &None);
    for &value in &engine.amplitude[0] {
        assert_eq!(value, test_value);
    }
}

#[test]
fn test_fill_constant_curve_phase() {
    let mut engine = create_test_engine();
    let test_value = 3_140_000i64;
    engine.fill_constant_curve(0, test_value, ChartType::Phase, &None);
    for &value in &engine.harmonics.phase[0] {
        assert_eq!(value, test_value);
    }
}

#[test]
fn test_normalization_needed_flag() {
    let mut engine = create_test_engine();
    assert_eq!(engine.normalization_needed, false);
    engine.set_normalization_needed(true);
    assert_eq!(engine.normalization_needed, true);
    engine.set_normalization_needed(false);
    assert_eq!(engine.normalization_needed, false);
}

#[test]
fn test_normalize_amplitude_data_empty() {
    let mut engine = create_test_engine();
    engine.amplitude[0][0] = 500_000;
    engine.amplitude[1][0] = 300_000;
    engine.normalize_amplitude_data();
    assert_eq!(engine.harmonics.amplitude[0][0], 500_000);
    assert_eq!(engine.harmonics.amplitude[1][0], 300_000);
}

#[test]
fn test_normalize_amplitude_data_scaling() {
    let mut engine = create_test_engine();
    engine.amplitude[0][0] = 1_000_000;
    engine.amplitude[1][0] = 1_000_000;
    engine.normalize_amplitude_data();
    assert_eq!(engine.harmonics.amplitude[0][0], 500_000);
    assert_eq!(engine.harmonics.amplitude[1][0], 500_000);
}

#[test]
fn fill_constant_clamps_amplitude() {
    let mut engine = create_test_engine();
    assert!(engine.fill_constant_curve(2, 1_500_000, ChartType::Amp, &None));
    assert!(engine.amplitude[2].iter().all(|&v| v == UNIT));
    assert!(engine.fill_constant_curve(3, -200_000, ChartType::Amp, &None));
    assert!(engine.amplitude[3].iter().all(|&v| v == 0));
}

#[test]
fn fill_constant_phase_is_not_clamped() {
    let mut engine = create_test_engine();
    engine.fill_constant_curve(1, -7_000_000, ChartType::Phase, &None);
    assert!(engine.harmonics.phase[1].iter().all(|&v| v == -7_000_000));
}

#[test]
fn fill_constant_same_value_is_a_no_op() {
    let mut engine = create_test_engine();
    assert!(engine.fill_constant_curve(0, 400_000, ChartType::Amp, &None));
    engine.scheduler_step(false);
    let before: Vec<BufferState> = engine.cache.states.clone();
    assert!(!engine.fill_constant_curve(0, 400_000, ChartType::Amp, &None));
    assert_eq!(engine.cache.states, before);
}

#[test]
fn fill_constant_with_wobble_adds_terms() {
    let mut engine = create_test_engine();
    let wobble: Vec<i64> = (0..NUM_OF_BUCKETS_DEFAULT as i64).map(|b| b * 1000).collect();
    assert!(engine.fill_constant_curve(4, 200_000, ChartType::Amp, &Some(wobble)));
    assert_eq!(engine.amplitude[4][0], 200_000);
    assert_eq!(engine.amplitude[4][10], 210_000);
    // The same constant again still refills while a wobble is present.
    let wobble2: Vec<i64> = vec![0; NUM_OF_BUCKETS_DEFAULT];
    assert!(engine.fill_constant_curve(4, 200_000, ChartType::Amp, &Some(wobble2)));
    assert!(engine.amplitude[4].iter().all(|&v| v == 200_000));
}

#[test]
fn fill_sin_curve_adds_offset_terms_and_clamps() {
    let mut engine = create_test_engine();
    let terms: Vec<i64> = (0..NUM_OF_BUCKETS_DEFAULT as i64).map(|b| if b % 2 == 0 { 600_000 } else { -600_000 }).collect();
    engine.fill_sin_curve(5, 500_000, &terms, ChartType::Amp, &None);
    assert_eq!(engine.amplitude[5][0], UNIT);
    assert_eq!(engine.amplitude[5][1], 0);
    engine.fill_sin_curve(5, 500_000, &terms, ChartType::Phase, &None);
    assert_eq!(engine.harmonics.phase[5][0], 1_100_000);
    assert_eq!(engine.harmonics.phase[5][1], -100_000);
}

#[test]
fn fill_curve_dispatches_on_mode() {
    let mut engine = create_test_engine();
    let terms: Vec<i64> = vec![100_000; NUM_OF_BUCKETS_DEFAULT];
    assert!(engine.fill_curve(6, CurveType::Sine, 300_000, &terms, ChartType::Amp, &None));
    assert!(engine.amplitude[6].iter().all(|&v| v == 400_000));
    assert!(engine.fill_curve(6, CurveType::Constant, 300_000, &terms, ChartType::Amp, &None));
    assert!(engine.amplitude[6].iter().all(|&v| v == 300_000));
}

#[test]
fn edit_leaves_only_preview_clean() {
    let mut engine = create_test_engine();
    engine.fill_constant_curve(0, 900_000, ChartType::Amp, &None);
    for key in 0..NUM_KEYS {
        if key == PREVIEW_KEY {
            assert_eq!(engine.cache.states[key], BufferState::Clean);
        } else {
            assert_eq!(engine.cache.states[key], BufferState::Dirty);
        }
    }
    let period = engine.periods[PREVIEW_KEY];
    let preview = engine.cache.buffers[PREVIEW_KEY].clone().expect("preview published");
    assert_eq!(preview.len(), NUM_OF_BUCKETS_DEFAULT * period);
    assert!(preview.iter().any(|&s| s != 0));
    assert!(!engine.normalization_needed);
}

#[test]
fn normalize_scales_by_sum_of_peaks() {
    let table = vec![vec![1_000_000, 200_000], vec![500_000, 900_000]];
    let r = normalize(&table);
    // peaks 1.0 and 0.9 sum to 1.9
    assert_eq!(r[0][0], 1_000_000 * 1_000_000 / 1_900_000);
    assert_eq!(r[0][1], 200_000 * 1_000_000 / 1_900_000);
    assert_eq!(r[1][0], 500_000 * 1_000_000 / 1_900_000);
    assert_eq!(r[1][1], 900_000 * 1_000_000 / 1_900_000);
    let peak_sum: i64 = r.iter().map(|row| *row.iter().max().unwrap()).sum();
    assert!(peak_sum <= UNIT);
}

#[test]
fn normalize_is_idempotent() {
    let table = vec![vec![700_000, 100_000, 300_000], vec![600_000, 600_000, 0], vec![0, 0, 250_000]];
    let once = normalize(&table);
    let twice = normalize(&once);
    assert_eq!(once, twice);
    assert_ne!(once, table);
}

#[test]
fn normalize_keeps_quiet_tables() {
    let table = vec![vec![100_000, 400_000], vec![300_000, 0]];
    assert_eq!(normalize(&table), table);
}

#[test]
fn assemble_single_harmonic_quarter_period() {
    let sine = sine_table();
    let h = single_harmonic(vec![UNIT], vec![0], 4);
    let out = assemble(&h, &sine, 4);
    assert_eq!(out, vec![0, UNIT, 0, -UNIT]);
}

#[test]
fn assemble_applies_phase() {
    let sine = sine_table();
    // a phase of pi/2 turns the sine into a cosine
    let h = single_harmonic(vec![UNIT], vec![1_570_796], 4);
    let out = assemble(&h, &sine, 4);
    assert_eq!(out[0], UNIT);
    assert!(out[1].abs() <= 100);
    let mut disabled = single_harmonic(vec![UNIT], vec![1_570_796], 4);
    disabled.phase_enabled[0] = false;
    assert_eq!(assemble(&disabled, &sine, 4), vec![0, UNIT, 0, -UNIT]);
}

#[test]
fn assemble_length_is_buckets_times_period() {
    let sine = sine_table();
    let h = single_harmonic(vec![UNIT / 2, UNIT / 3, 0], vec![0, 0, 0], 8);
    for period in [1usize, 2, 7, 50, 101] {
        assert_eq!(assemble(&h, &sine, period).len(), 3 * period);
    }
}

#[test]
fn assemble_drops_harmonics_above_nyquist() {
    let sine = sine_table();
    let mut h = single_harmonic(vec![0, 0], vec![0, 0], 8);
    // harmonic index 5 sounds at six times the fundamental: above the limit of a period of 10
    h.amplitude[5] = vec![UNIT, UNIT];
    h.phase[5] = vec![1_570_796, 1_570_796];
    let out = assemble(&h, &sine, 10);
    assert_eq!(out.len(), 20);
    assert!(out.iter().all(|&s| s == 0));
    // with a period of 12 it is exactly at the limit and sounds
    let out = assemble(&h, &sine, 12);
    assert!(out.iter().any(|&s| s != 0));
}

#[test]
fn assemble_skips_disabled_amplitude() {
    let sine = sine_table();
    let mut h = single_harmonic(vec![UNIT], vec![0], 2);
    h.ampl_enabled[0] = false;
    assert_eq!(assemble(&h, &sine, 4), vec![0, 0, 0, 0]);
}

#[test]
fn assemble_clamps_the_sum() {
    let sine = sine_table();
    let mut h = single_harmonic(vec![UNIT], vec![0], 2);
    h.amplitude[1] = vec![UNIT];
    h.phase[1] = vec![-1_570_796];
    let out = assemble(&h, &sine, 8);
    assert!(out.iter().all(|&s| (-UNIT..=UNIT).contains(&s)));
    assert!(out.iter().any(|&s| s == UNIT));
}

#[test]
fn scheduler_serves_preview_key_first_then_lowest() {
    let mut engine = create_test_engine();
    match engine.scheduler_step(false) {
        SchedulerAction::Compute(job) => {
            assert_eq!(job.key, PREVIEW_KEY);
            assert_eq!(job.period, engine.periods[PREVIEW_KEY]);
            assert_eq!(engine.cache.states[PREVIEW_KEY], BufferState::Computing);
        }
        _ => panic!("expected a job"),
    }
    match engine.scheduler_step(false) {
        SchedulerAction::Compute(job) => assert_eq!(job.key, 0),
        _ => panic!("expected a job"),
    }
    match engine.scheduler_step(false) {
        SchedulerAction::Compute(job) => assert_eq!(job.key, 1),
        _ => panic!("expected a job"),
    }
}

#[test]
fn scheduler_pauses_on_cancel_and_idles_when_clean() {
    let mut engine = create_test_engine();
    assert!(matches!(engine.scheduler_step(true), SchedulerAction::Pause));
    assert!(engine.cache.states.iter().all(|&s| s == BufferState::Dirty));
    let sine = sine_table();
    loop {
        match engine.scheduler_step(false) {
            SchedulerAction::Compute(job) => {
                let buf = assemble(&job.harmonics, &sine, job.period);
                engine.cache.finish_computation(job.key, Some(buf));
            }
            SchedulerAction::Idle => break,
            SchedulerAction::Pause => panic!("no cancellation was requested"),
        }
    }
    assert!(engine.cache.states.iter().all(|&s| s == BufferState::Clean));
    assert!(engine.cache.buffers.iter().all(|b| b.is_some()));
}

#[test]
fn background_result_matches_synchronous_assembly() {
    let mut engine = create_test_engine();
    engine.fill_constant_curve(1, 600_000, ChartType::Amp, &None);
    engine.fill_constant_curve(2, 800_000, ChartType::Amp, &None);
    let sine = sine_table();
    let job = match engine.scheduler_step(false) {
        SchedulerAction::Compute(job) => job,
        _ => panic!("expected a job"),
    };
    let background = assemble(&job.harmonics, &sine, job.period);
    let synchronous = engine.assemble_buffer_for_key(job.key);
    assert_eq!(background, synchronous);
}

#[test]
fn cancelled_computation_returns_to_dirty() {
    let mut cache = KeyCache::new(30);
    assert_eq!(cache.next_dirty_key(), Some(PREVIEW_KEY));
    assert!(cache.begin_computation(3));
    assert!(!cache.begin_computation(3));
    cache.finish_computation(3, None);
    assert_eq!(cache.states[3], BufferState::Dirty);
    assert!(cache.buffers[3].is_none());
}

#[test]
fn result_of_invalidated_computation_is_dropped() {
    let mut cache = KeyCache::new(30);
    assert!(cache.begin_computation(5));
    cache.mark_all_dirty();
    cache.finish_computation(5, Some(vec![1, 2, 3]));
    assert_eq!(cache.states[5], BufferState::Dirty);
    assert!(cache.buffers[5].is_none());
    assert!(cache.begin_computation(5));
    cache.finish_computation(5, Some(vec![1, 2, 3]));
    assert_eq!(cache.states[5], BufferState::Clean);
    assert_eq!(cache.buffers[5], Some(vec![1, 2, 3]));
}

#[test]
fn state_counts_add_up() {
    let mut cache = KeyCache::new(30);
    assert!(cache.begin_computation(0));
    cache.publish(1, vec![0]);
    assert_eq!(cache.state_counts(), (1, 28, 1));
}

#[test]
fn get_buffer_prefers_cache_then_falls_back() {
    let mut engine = create_test_engine();
    assert!(engine.get_buffer_for_key(NUM_KEYS).is_empty());
    engine.fill_constant_curve(0, UNIT, ChartType::Amp, &None);
    // no buffer for key 3 yet: computed on the spot, not stored
    let fallback = engine.get_buffer_for_key(3);
    assert_eq!(fallback.len(), NUM_OF_BUCKETS_DEFAULT * engine.periods[3]);
    assert!(engine.cache.buffers[3].is_none());
    // a stale buffer is served while the key is Dirty
    engine.cache.publish(3, vec![7, 8, 9]);
    engine.cache.mark_all_dirty();
    assert_eq!(engine.get_buffer_for_key(3), vec![7, 8, 9]);
}

#[test]
fn sine_table_rejects_bad_input() {
    assert!(SineTable::new(vec![0; 10]).is_none());
    let mut values = vec![0i64; SINE_STEPS as usize];
    values[7] = UNIT + 1;
    assert!(SineTable::new(values).is_none());
}

#[test]
fn constant_fill_matching_first_point_keeps_a_sine_curve() {
    let mut engine = create_test_engine();
    let terms: Vec<i64> = (0..NUM_OF_BUCKETS_DEFAULT as i64).map(|b| b * 5_000).collect();
    engine.fill_sin_curve(7, 100_000, &terms, ChartType::Amp, &None);
    assert_eq!(engine.amplitude[7][0], 100_000);
    // the curve already starts at the constant and there is no wobble: nothing is written
    assert!(!engine.fill_constant_curve(7, 100_000, ChartType::Amp, &None));
    assert_eq!(engine.amplitude[7][1], 105_000);
}
