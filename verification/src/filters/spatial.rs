use vstd::prelude::*;
use crate::filters::kind::FilterKind;

verus! {

/// The frequency axis of a display: one center frequency per bin, and the
/// bounds they were laid out between.
///
/// The layout is a record. Whoever builds one places the centers, in
/// rising order, between `min_freq` and `max_freq`, and keeps `log_min` and
/// `log_max` as the natural logarithms of the two bounds.
pub struct BinLayout<V> {
    pub centers: Vec<V>,
    pub min_freq: V,
    pub max_freq: V,
    pub log_min: V,
    pub log_max: V,
    pub spacing_log: bool,
}

impl<V> BinLayout<V> {
    /// The number of bins the layout describes.
    pub open spec fn num_bins_spec(&self) -> nat {
        self.centers@.len()
    }

    /// Lays out `num_bins` bins between the given bounds: `center_of` is
    /// asked for the center of every bin, from bin 0 on.
    pub fn build_layout<F: Fn(usize) -> V>(
        num_bins: usize,
        min_freq: V,
        max_freq: V,
        log_min: V,
        log_max: V,
        log: bool,
        center_of: &F,
    ) -> (layout: Self)
        requires
            forall|i: usize| call_requires(center_of, (i,)),
        ensures
            layout.num_bins_spec() == num_bins,
            forall|i: int|
                0 <= i < num_bins ==> call_ensures(
                    center_of,
                    (i as usize,),
                    #[trigger] layout.centers@[i],
                ),
            layout.min_freq == min_freq,
            layout.max_freq == max_freq,
            layout.log_min == log_min,
            layout.log_max == log_max,
            layout.spacing_log == log,
    {
        let mut centers: Vec<V> = Vec::new();
        let mut i: usize = 0;
        while i < num_bins
            invariant
                i <= num_bins,
                centers@.len() == i,
                forall|j: usize| call_requires(center_of, (j,)),
                forall|j: int|
                    0 <= j < i ==> call_ensures(center_of, (j as usize,), #[trigger] centers@[j]),
            decreases num_bins - i,
        {
            let f = center_of(i);
            centers.push(f);
            i += 1;
        }
        BinLayout { centers, min_freq, max_freq, log_min, log_max, spacing_log: log }
    }

    /// The number of bins the layout describes.
    pub fn num_bins(&self) -> (n: usize)
        ensures
            n == self.num_bins_spec(),
    {
        self.centers.len()
    }
}

/// A transform over the bins of one frame, keyed to bin position.
///
/// The three predicates say what an implementation promises of its
/// methods. Left as they are they promise nothing beyond the methods'
/// other clauses; an implementation that states them more narrowly has the
/// chain's contracts speak as narrowly of it.
pub trait SpatialFilter: Sized {
    /// The value one bin holds.
    type Sample;

    /// Whether `kind` is a tag this filter reports.
    open spec fn tagged(&self, kind: FilterKind) -> bool {
        true
    }

    /// Whether taking up `layout` turns this filter into `after`.
    open spec fn relays(&self, layout: BinLayout<Self::Sample>, after: Self) -> bool {
        true
    }

    /// Whether this filter turns the buffer `before` into `after`.
    open spec fn maps(&self, before: Seq<Self::Sample>, after: Seq<Self::Sample>) -> bool {
        true
    }

    /// The tag of this filter.
    fn kind(&self) -> (k: FilterKind)
        ensures
            self.tagged(k),
    ;

    /// Re-derives whatever the filter precomputes per bin.
    fn on_layout_change(&mut self, layout: &BinLayout<Self::Sample>)
        ensures
            old(self).relays(*layout, *final(self)),
    ;

    /// Transforms the buffer in place; its length stays.
    fn process(&self, samples: &mut Vec<Self::Sample>)
        ensures
            final(samples)@.len() == old(samples)@.len(),
            self.maps(old(samples)@, final(samples)@),
    ;
}

} // verus!
