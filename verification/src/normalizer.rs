use vstd::prelude::*;

verus! {

/// Whether `roots` holds, bin by bin, what `root` makes of `before`.
pub open spec fn rooted<V, R: Fn(V) -> V>(root: &R, before: Seq<V>, roots: Seq<V>) -> bool {
    &&& roots.len() == before.len()
    &&& forall|i: int|
        0 <= i < before.len() ==> call_ensures(root, (before[i],), #[trigger] roots[i])
}

/// Whether `peaks` holds the running peak over `roots`: `zero` before the
/// first bin, and after each bin what `larger` makes of the peak so far and
/// that bin.
pub open spec fn peaks_over<V, M: Fn(V, V) -> V>(
    larger: &M,
    roots: Seq<V>,
    zero: V,
    peaks: Seq<V>,
) -> bool {
    &&& peaks.len() == roots.len() + 1
    &&& peaks[0] == zero
    &&& forall|i: int|
        0 <= i < roots.len() ==> call_ensures(larger, (peaks[i], roots[i]), #[trigger] peaks[i + 1])
}

/// Whether `after` holds, bin by bin, what `scaled` makes of `roots` and the
/// one factor `scale`.
pub open spec fn scaled_by<V, C: Fn(V, V) -> V>(
    scaled: &C,
    roots: Seq<V>,
    scale: V,
    after: Seq<V>,
) -> bool {
    &&& after.len() == roots.len()
    &&& forall|i: int|
        0 <= i < roots.len() ==> call_ensures(scaled, (roots[i], scale), #[trigger] after[i])
}

/// Whether `after` is the power buffer `before` made ready for display:
/// every bin was taken from power to magnitude by `root`; the peak of the
/// magnitudes was found with `larger`, starting from `zero`; `scale_for`
/// answered one factor for that peak; and `scaled` applied the factor to
/// every magnitude.
pub open spec fn normalized<V, R: Fn(V) -> V, M: Fn(V, V) -> V, S: FnOnce(V) -> V, C: Fn(V, V) -> V>(
    root: &R,
    larger: &M,
    scale_for: S,
    scaled: &C,
    before: Seq<V>,
    zero: V,
    after: Seq<V>,
) -> bool {
    exists|roots: Seq<V>, peaks: Seq<V>, scale: V|
        {
            &&& #[trigger] rooted(root, before, roots)
            &&& #[trigger] peaks_over(larger, roots, zero, peaks)
            &&& call_ensures(scale_for, (peaks.last(),), scale)
            &&& #[trigger] scaled_by(scaled, roots, scale, after)
        }
}

/// Makes a buffer of power values ready for display, in place.
///
/// First every bin goes from power to magnitude: `root` is given the bin.
/// Then the peak of the magnitudes is found: `larger` is given the peak so
/// far, which starts at `zero`, and the next magnitude. Then `scale_for` is
/// given the peak and answers the one factor of this frame. Last, `scaled`
/// is given each magnitude and the factor, and what it answers becomes the
/// bin's value.
pub fn normalize<V: Copy, R: Fn(V) -> V, M: Fn(V, V) -> V, S: FnOnce(V) -> V, C: Fn(V, V) -> V>(
    bins: &mut Vec<V>,
    zero: V,
    root: &R,
    larger: &M,
    scale_for: S,
    scaled: &C,
)
    requires
        forall|b: V| call_requires(root, (b,)),
        forall|p: V, b: V| call_requires(larger, (p, b)),
        forall|p: V| call_requires(scale_for, (p,)),
        forall|b: V, s: V| call_requires(scaled, (b, s)),
    ensures
        final(bins)@.len() == old(bins)@.len(),
        normalized(root, larger, scale_for, scaled, old(bins)@, zero, final(bins)@),
{
    let mut peak = zero;
    let ghost mut peaks: Seq<V> = seq![zero];
    let mut i: usize = 0;
    while i < bins.len()
        invariant
            i <= bins@.len(),
            bins@.len() == old(bins)@.len(),
            forall|b: V| call_requires(root, (b,)),
            forall|p: V, b: V| call_requires(larger, (p, b)),
            forall|j: int|
                0 <= j < i ==> call_ensures(root, (old(bins)@[j],), #[trigger] bins@[j]),
            forall|j: int| i <= j < bins@.len() ==> bins@[j] == old(bins)@[j],
            peaks.len() == i + 1,
            peaks[0] == zero,
            peaks.last() == peak,
            forall|j: int|
                0 <= j < i ==> call_ensures(larger, (peaks[j], bins@[j]), #[trigger] peaks[j + 1]),
        decreases bins@.len() - i,
    {
        let ghost found = peaks;
        let magnitude = root(bins[i]);
        bins.set(i, magnitude);
        peak = larger(peak, magnitude);
        proof {
            peaks = found.push(peak);
            assert forall|j: int| 0 <= j < i + 1 implies call_ensures(
                larger,
                (peaks[j], bins@[j]),
                #[trigger] peaks[j + 1],
            ) by {
                if j < i {
                    assert(call_ensures(larger, (found[j], bins@[j]), found[j + 1]));
                }
            }
        }
        i += 1;
    }
    let ghost roots = bins@;
    let scale = scale_for(peak);
    let mut k: usize = 0;
    while k < bins.len()
        invariant
            k <= bins@.len(),
            bins@.len() == roots.len(),
            forall|b: V, s: V| call_requires(scaled, (b, s)),
            forall|j: int|
                0 <= j < k ==> call_ensures(scaled, (roots[j], scale), #[trigger] bins@[j]),
            forall|j: int| k <= j < bins@.len() ==> bins@[j] == roots[j],
        decreases bins@.len() - k,
    {
        let shown = scaled(bins[k], scale);
        bins.set(k, shown);
        k += 1;
    }
    assert(rooted(root, old(bins)@, roots));
    assert(peaks_over(larger, roots, zero, peaks));
    assert(scaled_by(scaled, roots, scale, bins@));
}

} // verus!
