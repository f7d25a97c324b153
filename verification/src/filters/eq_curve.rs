use vstd::prelude::*;
use crate::filters::kind::FilterKind;
use crate::filters::spatial::{BinLayout, SpatialFilter};

verus! {

/// An equalizer curve given by control points, each a frequency and the gain
/// wanted there.
///
/// The filter keeps its control points and derives no gain table from them:
/// it hands every buffer on as it found it.
pub struct EqCurveFilter<V> {
    points: Vec<(V, V)>,
}

impl<V> EqCurveFilter<V> {
    /// The control points, in the order they were given.
    pub closed spec fn points_spec(&self) -> Seq<(V, V)> {
        self.points@
    }

    /// A curve through `points`.
    pub fn new(points: Vec<(V, V)>) -> (f: Self)
        ensures
            f.points_spec() == points@,
    {
        EqCurveFilter { points }
    }

    /// The control points, in the order they were given.
    pub fn points(&self) -> (r: &Vec<(V, V)>)
        ensures
            r@ == self.points_spec(),
    {
        &self.points
    }
}

impl<V> SpatialFilter for EqCurveFilter<V> {
    type Sample = V;

    open spec fn tagged(&self, kind: FilterKind) -> bool {
        kind == FilterKind::EqCurve
    }

    open spec fn relays(&self, layout: BinLayout<V>, after: Self) -> bool {
        after == *self
    }

    open spec fn maps(&self, before: Seq<V>, after: Seq<V>) -> bool {
        after == before
    }

    fn kind(&self) -> (k: FilterKind) {
        FilterKind::EqCurve
    }

    fn on_layout_change(&mut self, layout: &BinLayout<V>) {
    }

    fn process(&self, samples: &mut Vec<V>) {
    }
}

} // verus!
