use vstd::prelude::*;
use crate::binning::{bin_points, binned, zero_bins};
use crate::filters::manager::{
    cleared_all, relaid_all, spatial_run, temporal_run, FilterEntry, FilterManager,
};
use crate::filters::spatial::{BinLayout, SpatialFilter};
use crate::filters::temporal::TemporalFilter;
use crate::normalizer::{normalize, normalized};

verus! {

/// `n`, or 1 where `n` is 0: the nearest count that a display can have.
pub open spec fn at_least_one(n: usize) -> usize {
    if n == 0 {
        1
    } else {
        n
    }
}

/// `n`, or 1 where `n` is 0.
pub fn clamp_to_one(n: usize) -> (r: usize)
    ensures
        r == at_least_one(n),
{
    if n == 0 {
        1
    } else {
        n
    }
}

/// Whether `after` is `before` once the answer of a retuning has been
/// taken in: a layout replaces the present one and reaches every spatial
/// filter; no layout leaves both as they are.
pub open spec fn retuned<S: SpatialFilter, T: TemporalFilter<Sample = S::Sample>>(
    before: VisualizerConfig<S, T>,
    answer: Option<BinLayout<S::Sample>>,
    after: VisualizerConfig<S, T>,
) -> bool {
    match answer {
        Some(layout) => after.layout == layout && relaid_all(
            before.filter_manager.spatial(),
            layout,
            after.filter_manager.spatial(),
        ),
        None => after.layout == before.layout && after.filter_manager.spatial()
            == before.filter_manager.spatial(),
    }
}

/// What a visualizer is set up with: the audio format, the size of the
/// display, the frequency axis, and the filter chains.
pub struct VisualizerConfig<S: SpatialFilter, T: TemporalFilter<Sample = S::Sample>> {
    pub sample_rate: u32,
    pub window_size: usize,
    pub num_bins: usize,
    pub filter_manager: FilterManager<S, T>,
    pub layout: BinLayout<S::Sample>,
}

impl<S: SpatialFilter, T: TemporalFilter<Sample = S::Sample>> VisualizerConfig<S, T> {
    /// A configuration with empty filter chains. A window size or a bin
    /// count of 0 is raised to 1, and `build` lays out the axis for the bin
    /// count that results.
    pub fn new<F: FnOnce(usize) -> BinLayout<S::Sample>>(
        sample_rate: u32,
        window_size: usize,
        num_bins: usize,
        build: F,
    ) -> (c: Self)
        requires
            call_requires(build, (at_least_one(num_bins),)),
        ensures
            c.sample_rate == sample_rate,
            c.window_size == at_least_one(window_size),
            c.num_bins == at_least_one(num_bins),
            call_ensures(build, (c.num_bins,), c.layout),
            c.filter_manager.wf(),
            c.filter_manager.spatial() == Seq::<FilterEntry<S>>::empty(),
            c.filter_manager.temporal() == Seq::<FilterEntry<T>>::empty(),
            c.filter_manager.next_id_spec() == 0,
    {
        let num_bins = clamp_to_one(num_bins);
        let layout = build(num_bins);
        VisualizerConfig {
            sample_rate,
            window_size: clamp_to_one(window_size),
            num_bins,
            filter_manager: FilterManager::new(),
            layout,
        }
    }

    /// Sets the number of bins, raising 0 to 1; `build` lays out the axis
    /// for the new count, and every spatial filter takes the new layout up.
    pub fn set_num_bins<F: FnOnce(usize) -> BinLayout<S::Sample>>(
        &mut self,
        num_bins: usize,
        build: F,
    )
        requires
            old(self).filter_manager.wf(),
            call_requires(build, (at_least_one(num_bins),)),
        ensures
            final(self).filter_manager.wf(),
            final(self).num_bins == at_least_one(num_bins),
            call_ensures(build, (final(self).num_bins,), final(self).layout),
            relaid_all(
                old(self).filter_manager.spatial(),
                final(self).layout,
                final(self).filter_manager.spatial(),
            ),
            final(self).filter_manager.temporal() == old(self).filter_manager.temporal(),
            final(self).filter_manager.next_id_spec() == old(self).filter_manager.next_id_spec(),
            final(self).sample_rate == old(self).sample_rate,
            final(self).window_size == old(self).window_size,
    {
        self.num_bins = clamp_to_one(num_bins);
        self.layout = build(self.num_bins);
        self.filter_manager.refresh_layout(&self.layout);
    }

    /// Sets the window size, raising 0 to 1. A size equal to the present
    /// one changes nothing. Otherwise every temporal filter forgets its
    /// history, and `retune` is told the sample rate, the new window size
    /// and the bin count: where it answers with a layout, that layout
    /// replaces the present one and every spatial filter takes it up.
    pub fn set_window_size<F: FnOnce(u32, usize, usize) -> Option<BinLayout<S::Sample>>>(
        &mut self,
        window_size: usize,
        retune: F,
    )
        requires
            old(self).filter_manager.wf(),
            window_size != old(self).window_size ==> call_requires(
                retune,
                (old(self).sample_rate, at_least_one(window_size), old(self).num_bins),
            ),
        ensures
            final(self).filter_manager.wf(),
            final(self).sample_rate == old(self).sample_rate,
            final(self).num_bins == old(self).num_bins,
            final(self).filter_manager.next_id_spec() == old(self).filter_manager.next_id_spec(),
            window_size == old(self).window_size ==> *final(self) == *old(self),
            window_size != old(self).window_size ==> {
                &&& final(self).window_size == at_least_one(window_size)
                &&& cleared_all(
                    old(self).filter_manager.temporal(),
                    final(self).filter_manager.temporal(),
                )
                &&& exists|answer: Option<BinLayout<S::Sample>>|
                    {
                        &&& #[trigger] call_ensures(
                            retune,
                            (old(self).sample_rate, final(self).window_size, old(self).num_bins),
                            answer,
                        )
                        &&& retuned(*old(self), answer, *final(self))
                    }
            },
    {
        if window_size == self.window_size {
            return ;
        }
        self.window_size = clamp_to_one(window_size);
        self.filter_manager.reset_temporal_filters();
        let answer = retune(self.sample_rate, self.window_size, self.num_bins);
        let ghost seen = answer;
        if let Some(layout) = answer {
            self.layout = layout;
            self.filter_manager.refresh_layout(&self.layout);
        }
        assert(retuned(*old(self), seen, *self));
    }

    /// Appends `filter` to the spatial chain under a fresh id, once it has
    /// taken up the present layout, and returns that id.
    pub fn add_spatial_filter(&mut self, filter: S) -> (id: usize)
        requires
            old(self).filter_manager.wf(),
            old(self).filter_manager.next_id_spec() < usize::MAX,
        ensures
            final(self).filter_manager.wf(),
            id == old(self).filter_manager.next_id_spec(),
            final(self).filter_manager.next_id_spec() == id + 1,
            final(self).filter_manager.spatial().len() == old(self).filter_manager.spatial().len()
                + 1,
            final(self).filter_manager.spatial().drop_last() == old(self).filter_manager.spatial(),
            final(self).filter_manager.spatial().last().id == id,
            filter.relays(old(self).layout, final(self).filter_manager.spatial().last().filter),
            final(self).filter_manager.spatial().last().filter.tagged(
                final(self).filter_manager.spatial().last().kind,
            ),
            final(self).filter_manager.temporal() == old(self).filter_manager.temporal(),
            final(self).layout == old(self).layout,
            final(self).sample_rate == old(self).sample_rate,
            final(self).window_size == old(self).window_size,
            final(self).num_bins == old(self).num_bins,
    {
        let mut filter = filter;
        filter.on_layout_change(&self.layout);
        self.filter_manager.add_spatial_filter(filter)
    }

    /// Appends `filter` to the temporal chain under a fresh id, and returns
    /// that id.
    pub fn add_temporal_filter(&mut self, filter: T) -> (id: usize)
        requires
            old(self).filter_manager.wf(),
            old(self).filter_manager.next_id_spec() < usize::MAX,
        ensures
            final(self).filter_manager.wf(),
            id == old(self).filter_manager.next_id_spec(),
            final(self).filter_manager.next_id_spec() == id + 1,
            final(self).filter_manager.temporal().len() == old(
                self,
            ).filter_manager.temporal().len() + 1,
            final(self).filter_manager.temporal().drop_last() == old(
                self,
            ).filter_manager.temporal(),
            final(self).filter_manager.temporal().last().id == id,
            final(self).filter_manager.temporal().last().filter == filter,
            filter.tagged(final(self).filter_manager.temporal().last().kind),
            final(self).filter_manager.spatial() == old(self).filter_manager.spatial(),
            final(self).layout == old(self).layout,
            final(self).sample_rate == old(self).sample_rate,
            final(self).window_size == old(self).window_size,
            final(self).num_bins == old(self).num_bins,
    {
        self.filter_manager.add_temporal_filter(filter)
    }
}

/// A visualizer: the latest spectrum, if there is one, and the
/// configuration it is shown with.
pub struct Visualizer<S: SpatialFilter, T: TemporalFilter<Sample = S::Sample>> {
    pub spectrum: Option<Vec<(S::Sample, S::Sample)>>,
    pub config: VisualizerConfig<S, T>,
}

impl<S: SpatialFilter, T: TemporalFilter<Sample = S::Sample>> Visualizer<S, T> {
    /// The points of the latest spectrum, each a frequency and a magnitude.
    pub open spec fn spectrum_spec(&self) -> Option<Seq<(S::Sample, S::Sample)>> {
        match self.spectrum {
            Some(points) => Some(points@),
            None => None,
        }
    }

    /// A visualizer that has no spectrum yet.
    pub fn new(config: VisualizerConfig<S, T>) -> (v: Self)
        ensures
            v.config == config,
            v.spectrum_spec().is_none(),
    {
        Visualizer { spectrum: None, config }
    }

    /// Takes in a new block of samples and replaces the spectrum as a
    /// whole. `estimate` is given the first `window_size` samples of the
    /// block and the sample rate, and what it answers is the new spectrum:
    /// points of frequency and magnitude, or nothing where the estimate
    /// failed. A block shorter than the window leaves no spectrum.
    pub fn update_spectrum<
        E: FnOnce(Vec<S::Sample>, u32) -> Option<Vec<(S::Sample, S::Sample)>>,
    >(&mut self, samples: &[S::Sample], estimate: E) where S::Sample: Copy
        requires
            forall|window: Vec<S::Sample>, rate: u32| call_requires(estimate, (window, rate)),
        ensures
            final(self).config == old(self).config,
            samples@.len() < old(self).config.window_size ==> final(self).spectrum.is_none(),
            samples@.len() >= old(self).config.window_size ==> exists|window: Vec<S::Sample>|
                window@ == samples@.take(old(self).config.window_size as int)
                    && #[trigger] call_ensures(
                    estimate,
                    (window, old(self).config.sample_rate),
                    final(self).spectrum,
                ),
    {
        let size = self.config.window_size;
        if samples.len() < size {
            self.spectrum = None;
            return ;
        }
        let mut window: Vec<S::Sample> = Vec::new();
        let mut i: usize = 0;
        while i < size
            invariant
                i <= size <= samples@.len(),
                window@ == samples@.take(i as int),
            decreases size - i,
        {
            window.push(samples[i]);
            assert(samples@.take(i + 1) =~= samples@.take(i as int).push(samples@[i as int]));
            i += 1;
        }
        self.spectrum = estimate(window, self.config.sample_rate);
    }

    /// The points of the latest spectrum, if there is one.
    pub fn spectrum(&self) -> (r: Option<&Vec<(S::Sample, S::Sample)>>)
        ensures
            match r {
                Some(points) => self.spectrum_spec() == Some(points@),
                None => self.spectrum_spec().is_none(),
            },
    {
        self.spectrum.as_ref()
    }

    /// The latest spectrum binned into `num_bins` bins, as `bin_points` does
    /// it; without a spectrum, `num_bins` bins of `zero`.
    pub fn binned_spectrum<P: Fn(S::Sample) -> Option<usize>, A: Fn(S::Sample, S::Sample) -> S::Sample>(
        &self,
        num_bins: usize,
        zero: S::Sample,
        place: &P,
        accumulate: &A,
    ) -> (bins: Vec<S::Sample>) where S::Sample: Copy
        requires
            forall|f: S::Sample| call_requires(place, (f,)),
            forall|b: S::Sample, m: S::Sample| call_requires(accumulate, (b, m)),
        ensures
            bins@.len() == num_bins,
            binned(place, accumulate, self.spectrum_spec(), num_bins, zero, bins@),
    {
        match &self.spectrum {
            Some(points) => bin_points(points, num_bins, zero, place, accumulate),
            None => zero_bins(num_bins, zero),
        }
    }

    /// The data of one display frame, one value for each configured bin:
    /// the latest spectrum binned, run through the spatial chain, then
    /// through the temporal chain, then made ready for display.
    ///
    /// `place` and `accumulate` do for the binning what they do for
    /// `bin_points`; `root`, `larger`, `scale_for` and `scaled` do for the
    /// last step what they do for `normalize`.
    pub fn visualization_data<
        P: Fn(S::Sample) -> Option<usize>,
        A: Fn(S::Sample, S::Sample) -> S::Sample,
        R: Fn(S::Sample) -> S::Sample,
        M: Fn(S::Sample, S::Sample) -> S::Sample,
        L: FnOnce(S::Sample) -> S::Sample,
        C: Fn(S::Sample, S::Sample) -> S::Sample,
    >(
        &mut self,
        zero: S::Sample,
        place: &P,
        accumulate: &A,
        root: &R,
        larger: &M,
        scale_for: L,
        scaled: &C,
    ) -> (frame: Vec<S::Sample>) where S::Sample: Copy
        requires
            old(self).config.filter_manager.wf(),
            forall|f: S::Sample| call_requires(place, (f,)),
            forall|b: S::Sample, m: S::Sample| call_requires(accumulate, (b, m)),
            forall|b: S::Sample| call_requires(root, (b,)),
            forall|p: S::Sample, b: S::Sample| call_requires(larger, (p, b)),
            forall|p: S::Sample| call_requires(scale_for, (p,)),
            forall|b: S::Sample, s: S::Sample| call_requires(scaled, (b, s)),
        ensures
            final(self).config.filter_manager.wf(),
            final(self).spectrum_spec() == old(self).spectrum_spec(),
            final(self).config.sample_rate == old(self).config.sample_rate,
            final(self).config.window_size == old(self).config.window_size,
            final(self).config.num_bins == old(self).config.num_bins,
            final(self).config.layout == old(self).config.layout,
            final(self).config.filter_manager.spatial() == old(self).config.filter_manager.spatial(),
            final(self).config.filter_manager.next_id_spec() == old(
                self,
            ).config.filter_manager.next_id_spec(),
            frame@.len() == old(self).config.num_bins,
            exists|across: Seq<Seq<S::Sample>>, over: Seq<Seq<S::Sample>>|
                {
                    &&& binned(
                        place,
                        accumulate,
                        old(self).spectrum_spec(),
                        old(self).config.num_bins,
                        zero,
                        across.first(),
                    )
                    &&& #[trigger] spatial_run(old(self).config.filter_manager.spatial(), across)
                    &&& #[trigger] temporal_run(
                        old(self).config.filter_manager.temporal(),
                        final(self).config.filter_manager.temporal(),
                        over,
                    )
                    &&& over.first() == across.last()
                    &&& normalized(root, larger, scale_for, scaled, over.last(), zero, frame@)
                },
    {
        let mut bins = self.binned_spectrum(self.config.num_bins, zero, place, accumulate);
        self.config.filter_manager.apply_filters(&mut bins);
        normalize(&mut bins, zero, root, larger, scale_for, scaled);
        bins
    }
}

} // verus!
