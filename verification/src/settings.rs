//! Settings whose values are discrete choices.
use vstd::prelude::*;

verus! {

/// Scroll direction of one axis.
#[derive(Debug, Clone, Copy, PartialEq, Eq, Structural)]
pub enum Direction {
    Traditional,
    Natural,
}

impl Default for Direction {
    fn default() -> (d: Self)
        ensures
            d == Direction::Traditional,
    {
        Direction::Traditional
    }
}

/// The curve that maps tick speed to acceleration.
#[derive(Debug, Clone, Copy, PartialEq, Eq, Structural)]
pub enum AccelerationCurve {
    Power,
    Bezier,
    MmfCapped,
}

impl Default for AccelerationCurve {
    fn default() -> (c: Self)
        ensures
            c == AccelerationCurve::Bezier,
    {
        AccelerationCurve::Bezier
    }
}

/// How the interval between wheel ticks is filtered.
#[derive(Debug, Clone, Copy, PartialEq, Eq, Structural)]
pub enum AnalyzerMode {
    MedianEma,
    RollingAverage,
}

impl Default for AnalyzerMode {
    fn default() -> (m: Self)
        ensures
            m == AnalyzerMode::MedianEma,
    {
        AnalyzerMode::MedianEma
    }
}

} // verus!
