use vstd::prelude::*;

verus! {

/// The tag a filter is listed under. Two filters of one kind carry equal
/// tags, whatever their parameters.
#[derive(Clone, Copy, Debug, PartialEq, Eq, Structural)]
pub enum FilterKind {
    /// Smoothing across neighbouring bins with a normalized bell kernel.
    Gaussian,
    /// The fixed perceptual gain curve, one weight per bin.
    AWeighting,
    /// A gain table interpolated between control points.
    EqCurve,
    /// One-pole smoothing over successive frames.
    Exponential,
    /// Smoothing with one constant for rising and one for falling values.
    AttackRelease,
    /// A peak envelope that decays geometrically.
    PeakHoldDecay,
}

} // verus!
