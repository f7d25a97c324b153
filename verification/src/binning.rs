use vstd::prelude::*;

verus! {

/// The bin that a spectral point lands in, given the place `raw` that its
/// frequency has on the axis: `raw` itself, or the last bin where `raw`
/// lies beyond it. With no bins there is no place to land in.
pub open spec fn slot_of(raw: usize, num_bins: usize) -> Option<usize> {
    if num_bins == 0 {
        None
    } else if raw < num_bins {
        Some(raw)
    } else {
        Some((num_bins - 1) as usize)
    }
}

/// The bin that a spectral point lands in, given the place `raw` that its
/// frequency has on the axis.
pub fn bin_slot(raw: usize, num_bins: usize) -> (r: Option<usize>)
    ensures
        r == slot_of(raw, num_bins),
{
    if num_bins == 0 {
        None
    } else if raw < num_bins {
        Some(raw)
    } else {
        Some(num_bins - 1)
    }
}

/// Whether `next` is the bin buffer `bins` once a spectral point of
/// magnitude `mag` has been taken in, given the answer `answer` that was
/// had for the place of its frequency: a point without a place, or without
/// a bin to land in, leaves the buffer as it is; any other has `accumulate`
/// take the bin it lands in and the magnitude to the bin's new value.
pub open spec fn point_taken<V, A: Fn(V, V) -> V>(
    accumulate: &A,
    bins: Seq<V>,
    answer: Option<usize>,
    mag: V,
    next: Seq<V>,
) -> bool {
    match answer {
        None => next == bins,
        Some(raw) => match slot_of(raw, bins.len() as usize) {
            None => next == bins,
            Some(slot) => next == bins.update(slot as int, next[slot as int]) && call_ensures(
                accumulate,
                (bins[slot as int], mag),
                next[slot as int],
            ),
        },
    }
}

/// Whether, in the run `stages`, spectral point `p` was taken in.
pub open spec fn point_step<V, P: Fn(V) -> Option<usize>, A: Fn(V, V) -> V>(
    place: &P,
    accumulate: &A,
    points: Seq<(V, V)>,
    stages: Seq<Seq<V>>,
    p: int,
) -> bool {
    exists|answer: Option<usize>|
        #[trigger] call_ensures(place, (points[p].0,), answer) && point_taken(
            accumulate,
            stages[p],
            answer,
            points[p].1,
            stages[p + 1],
        )
}

/// Whether `stages` records the binning of `points` into `num_bins` bins:
/// it holds the buffer before the first point, all `zero`, and after each
/// point.
pub open spec fn binning_run<V, P: Fn(V) -> Option<usize>, A: Fn(V, V) -> V>(
    place: &P,
    accumulate: &A,
    points: Seq<(V, V)>,
    num_bins: usize,
    zero: V,
    stages: Seq<Seq<V>>,
) -> bool {
    &&& stages.len() == points.len() + 1
    &&& stages[0] == Seq::new(num_bins as nat, |i: int| zero)
    &&& forall|p: int|
        0 <= p < points.len() ==> #[trigger] point_step(place, accumulate, points, stages, p)
}

/// Whether `bins` is what binning `points` gives: the last buffer of a
/// binning run over them.
pub open spec fn binned_points<V, P: Fn(V) -> Option<usize>, A: Fn(V, V) -> V>(
    place: &P,
    accumulate: &A,
    points: Seq<(V, V)>,
    num_bins: usize,
    zero: V,
    bins: Seq<V>,
) -> bool {
    exists|stages: Seq<Seq<V>>|
        #[trigger] binning_run(place, accumulate, points, num_bins, zero, stages) && stages.last()
            == bins
}

/// Whether `bins` is what binning the spectrum `spectrum` gives: all `zero`
/// without a spectrum, else what binning its points gives.
pub open spec fn binned<V, P: Fn(V) -> Option<usize>, A: Fn(V, V) -> V>(
    place: &P,
    accumulate: &A,
    spectrum: Option<Seq<(V, V)>>,
    num_bins: usize,
    zero: V,
    bins: Seq<V>,
) -> bool {
    match spectrum {
        None => bins == Seq::new(num_bins as nat, |i: int| zero),
        Some(points) => binned_points(place, accumulate, points, num_bins, zero, bins),
    }
}

/// Binning a spectrum of one point changes at most one bin: the bin that
/// the point lands in holds what `accumulate` makes of `zero` and the
/// point's magnitude, and every other bin holds `zero`. A point that
/// `place` has no place for leaves every bin at `zero`.
pub proof fn lemma_single_point<V, P: Fn(V) -> Option<usize>, A: Fn(V, V) -> V>(
    place: &P,
    accumulate: &A,
    freq: V,
    mag: V,
    num_bins: usize,
    zero: V,
    bins: Seq<V>,
)
    requires
        binned_points(place, accumulate, seq![(freq, mag)], num_bins, zero, bins),
    ensures
        exists|answer: Option<usize>|
            #[trigger] call_ensures(place, (freq,), answer) && point_taken(
                accumulate,
                Seq::new(num_bins as nat, |i: int| zero),
                answer,
                mag,
                bins,
            ),
{
    let points = seq![(freq, mag)];
    let stages = choose|stages: Seq<Seq<V>>|
        #[trigger] binning_run(place, accumulate, points, num_bins, zero, stages) && stages.last()
            == bins;
    assert(point_step(place, accumulate, points, stages, 0));
    assert(stages[1] == bins);
    assert(points[0].0 == freq && points[0].1 == mag);
}

/// A buffer of `num_bins` bins, each `zero`.
pub fn zero_bins<V: Copy>(num_bins: usize, zero: V) -> (bins: Vec<V>)
    ensures
        bins@ == Seq::new(num_bins as nat, |i: int| zero),
{
    let mut bins: Vec<V> = Vec::new();
    while bins.len() < num_bins
        invariant
            bins@.len() <= num_bins,
            forall|i: int| 0 <= i < bins@.len() ==> bins@[i] == zero,
        decreases num_bins - bins@.len(),
    {
        bins.push(zero);
    }
    assert(bins@ =~= Seq::new(num_bins as nat, |i: int| zero));
    bins
}

/// Bins spectral points, each a frequency and a magnitude, into
/// `num_bins` bins that start at `zero`.
///
/// The points are taken in order. `place` is asked where a frequency lies
/// on the axis; a point it has no place for is dropped. A place beyond the
/// last bin counts as the last bin. `accumulate` is given the bin's value
/// and the point's magnitude, and what it answers becomes the bin's value.
pub fn bin_points<V: Copy, P: Fn(V) -> Option<usize>, A: Fn(V, V) -> V>(
    points: &Vec<(V, V)>,
    num_bins: usize,
    zero: V,
    place: &P,
    accumulate: &A,
) -> (bins: Vec<V>)
    requires
        forall|f: V| call_requires(place, (f,)),
        forall|b: V, m: V| call_requires(accumulate, (b, m)),
    ensures
        bins@.len() == num_bins,
        binned_points(place, accumulate, points@, num_bins, zero, bins@),
{
    let mut bins = zero_bins(num_bins, zero);
    let ghost mut stages: Seq<Seq<V>> = seq![bins@];
    let mut p: usize = 0;
    while p < points.len()
        invariant
            p <= points@.len(),
            bins@.len() == num_bins,
            forall|f: V| call_requires(place, (f,)),
            forall|b: V, m: V| call_requires(accumulate, (b, m)),
            stages.len() == p + 1,
            stages[0] == Seq::new(num_bins as nat, |i: int| zero),
            stages.last() == bins@,
            forall|q: int|
                0 <= q < p ==> #[trigger] point_step(place, accumulate, points@, stages, q),
        decreases points@.len() - p,
    {
        let ghost found = stages;
        let (freq, mag) = points[p];
        let answer = place(freq);
        if let Some(raw) = answer {
            if let Some(slot) = bin_slot(raw, num_bins) {
                let y = accumulate(bins[slot], mag);
                bins.set(slot, y);
            }
        }
        proof {
            stages = found.push(bins@);
            assert(point_taken(accumulate, found[p as int], answer, mag, bins@));
            assert(point_step(place, accumulate, points@, stages, p as int));
            assert forall|q: int| 0 <= q < p + 1 implies #[trigger] point_step(
                place,
                accumulate,
                points@,
                stages,
                q,
            ) by {
                if q < p {
                    assert(point_step(place, accumulate, points@, found, q));
                    assert(found[q] == stages[q]);
                    assert(found[q + 1] == stages[q + 1]);
                }
            }
        }
        p += 1;
    }
    assert(binning_run(place, accumulate, points@, num_bins, zero, stages) && stages.last()
        == bins@);
    bins
}

} // verus!
