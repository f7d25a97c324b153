use vstd::prelude::*;

verus! {

/// Derives one weight per bin from the bins' center frequencies:
/// `weight_of` is asked once for every center, in order.
pub fn derive_weights<V: Copy, F: Fn(V) -> V>(centers: &Vec<V>, weight_of: &F) -> (weights: Vec<V>)
    requires
        forall|f: V| call_requires(weight_of, (f,)),
    ensures
        weights@.len() == centers@.len(),
        forall|i: int|
            0 <= i < centers@.len() ==> call_ensures(
                weight_of,
                (centers@[i],),
                #[trigger] weights@[i],
            ),
{
    let mut weights: Vec<V> = Vec::new();
    let mut i: usize = 0;
    while i < centers.len()
        invariant
            i <= centers@.len(),
            weights@.len() == i,
            forall|f: V| call_requires(weight_of, (f,)),
            forall|j: int|
                0 <= j < i ==> call_ensures(weight_of, (centers@[j],), #[trigger] weights@[j]),
        decreases centers@.len() - i,
    {
        let w = weight_of(centers[i]);
        weights.push(w);
        i += 1;
    }
    weights
}

/// Weighs every bin with the weight kept for it: `scale` is given the bin's
/// value and its weight, and what it answers becomes the bin's value.
///
/// A table that was derived for another number of bins fits no bin of this
/// buffer: the buffer is then left as it is.
pub fn apply_weights<V: Copy, F: Fn(V, V) -> V>(samples: &mut Vec<V>, weights: &Vec<V>, scale: &F)
    requires
        forall|x: V, w: V| call_requires(scale, (x, w)),
    ensures
        final(samples)@.len() == old(samples)@.len(),
        weights@.len() != old(samples)@.len() ==> final(samples)@ == old(samples)@,
        weights@.len() == old(samples)@.len() ==> forall|i: int|
            0 <= i < old(samples)@.len() ==> call_ensures(
                scale,
                (old(samples)@[i], weights@[i]),
                #[trigger] final(samples)@[i],
            ),
{
    if weights.len() != samples.len() {
        return ;
    }
    let mut i: usize = 0;
    while i < samples.len()
        invariant
            i <= samples@.len(),
            samples@.len() == old(samples)@.len(),
            weights@.len() == samples@.len(),
            forall|x: V, w: V| call_requires(scale, (x, w)),
            forall|j: int|
                0 <= j < i ==> call_ensures(
                    scale,
                    (old(samples)@[j], weights@[j]),
                    #[trigger] samples@[j],
                ),
            forall|j: int| i <= j < samples@.len() ==> samples@[j] == old(samples)@[j],
        decreases samples@.len() - i,
    {
        let y = scale(samples[i], weights[i]);
        samples.set(i, y);
        i += 1;
    }
}

} // verus!
