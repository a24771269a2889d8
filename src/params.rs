//! Parameter enumerations read by the curve generator.
use vstd::prelude::*;

verus! {

/// How a harmonic's curve is generated.
#[derive(PartialEq, Eq, Structural, Clone, Copy, Debug)]
pub enum CurveType {
    Constant,
    Sine,
}

impl CurveType {
    pub const VARIANTS: [CurveType; 2] = [CurveType::Constant, CurveType::Sine];
}

/// Step size offered for a curve's sliders.
#[derive(PartialEq, Eq, Structural, Clone, Copy, Debug)]
pub enum GranularityLevel {
    UltraLow,
    VeryLow,
    Low,
    Medium,
    High,
}

/// The step of each granularity level, in millionths: 0.025, 0.05, 0.1, 0.5 and 1.
pub open spec fn granularity_millionths(g: GranularityLevel) -> int {
    match g {
        GranularityLevel::UltraLow => 25_000,
        GranularityLevel::VeryLow => 50_000,
        GranularityLevel::Low => 100_000,
        GranularityLevel::Medium => 500_000,
        GranularityLevel::High => 1_000_000,
    }
}

impl GranularityLevel {
    pub const VARIANTS: [GranularityLevel; 5] = [
        GranularityLevel::UltraLow,
        GranularityLevel::VeryLow,
        GranularityLevel::Low,
        GranularityLevel::Medium,
        GranularityLevel::High,
    ];

    /// The step of this level, in millionths.
    pub fn as_millionths(&self) -> (r: u32)
        ensures
            r == granularity_millionths(*self),
    {
        match self {
            GranularityLevel::UltraLow => 25_000,
            GranularityLevel::VeryLow => 50_000,
            GranularityLevel::Low => 100_000,
            GranularityLevel::Medium => 500_000,
            GranularityLevel::High => 1_000_000,
        }
    }
}

impl Default for GranularityLevel {
    fn default() -> (r: Self)
        ensures
            r == GranularityLevel::High,
    {
        GranularityLevel::High
    }
}

} // verus!
