use lesynth::keyboard::{get_black_key_offset, get_white_key_index, is_black_key};
use lesynth::params::{CurveType, GranularityLevel};

#[test]
fn black_keys_of_an_octave() {
    let black: Vec<usize> = (0..24).filter(|&k| is_black_key(k)).collect();
    assert_eq!(black, vec![1, 3, 6, 8, 10, 13, 15, 18, 20, 22]);
}

#[test]
fn white_key_indices() {
    assert_eq!(get_white_key_index(0), 0);
    assert_eq!(get_white_key_index(2), 1);
    assert_eq!(get_white_key_index(4), 2);
    assert_eq!(get_white_key_index(5), 3);
    assert_eq!(get_white_key_index(11), 6);
    assert_eq!(get_white_key_index(12), 7);
    assert_eq!(get_white_key_index(48), 28);
    assert_eq!(get_white_key_index(13), 7);
}

#[test]
fn black_key_offsets() {
    assert_eq!(get_black_key_offset(1), 7);
    assert_eq!(get_black_key_offset(15), 17);
    assert_eq!(get_black_key_offset(6), 33);
    assert_eq!(get_black_key_offset(8), 43);
    assert_eq!(get_black_key_offset(22), 53);
    assert_eq!(get_black_key_offset(0), 0);
}

#[test]
fn test_curve_type_variants() {
    assert_eq!(CurveType::VARIANTS.len(), 2);
    assert_eq!(CurveType::VARIANTS[0], CurveType::Constant);
    assert_eq!(CurveType::VARIANTS[1], CurveType::Sine);
}

#[test]
fn test_curve_type_debug() {
    assert_eq!(format!("{:?}", CurveType::Constant), "Constant");
    assert_eq!(format!("{:?}", CurveType::Sine), "Sine");
}

#[test]
fn test_curve_type_clone() {
    let original = CurveType::Sine;
    let cloned = original.clone();
    assert_eq!(original, cloned);
}

#[test]
fn test_curve_type_equality() {
    assert_eq!(CurveType::Constant, CurveType::Constant);
    assert_ne!(CurveType::Constant, CurveType::Sine);
    assert_eq!(CurveType::Sine, CurveType::Sine);
}

#[test]
fn test_granularity_level_variants() {
    assert_eq!(GranularityLevel::VARIANTS.len(), 5);
    assert_eq!(GranularityLevel::VARIANTS[0], GranularityLevel::UltraLow);
    assert_eq!(GranularityLevel::VARIANTS[1], GranularityLevel::VeryLow);
    assert_eq!(GranularityLevel::VARIANTS[2], GranularityLevel::Low);
    assert_eq!(GranularityLevel::VARIANTS[3], GranularityLevel::Medium);
    assert_eq!(GranularityLevel::VARIANTS[4], GranularityLevel::High);
}

#[test]
fn granularity_level_steps() {
    assert_eq!(GranularityLevel::UltraLow.as_millionths(), 25_000);
    assert_eq!(GranularityLevel::VeryLow.as_millionths(), 50_000);
    assert_eq!(GranularityLevel::Low.as_millionths(), 100_000);
    assert_eq!(GranularityLevel::Medium.as_millionths(), 500_000);
    assert_eq!(GranularityLevel::High.as_millionths(), 1_000_000);
}

#[test]
fn test_granularity_level_default() {
    assert_eq!(GranularityLevel::default(), GranularityLevel::High);
}
