use vstd::prelude::*;
use crate::filters::kind::FilterKind;

verus! {

/// A transform with memory: each bin is smoothed against what the same bin
/// held in earlier frames.
///
/// The three predicates say what an implementation promises of its
/// methods. Left as they are they promise nothing beyond the methods'
/// other clauses; an implementation that states them more narrowly has the
/// chain's contracts speak as narrowly of it.
pub trait TemporalFilter: Sized {
    /// The value one bin holds.
    type Sample;

    /// Whether `kind` is a tag this filter reports.
    open spec fn tagged(&self, kind: FilterKind) -> bool {
        true
    }

    /// Whether this filter, on the frame `before`, leaves the frame as
    /// `after` and itself as `next`.
    open spec fn steps(
        &self,
        before: Seq<Self::Sample>,
        next: Self,
        after: Seq<Self::Sample>,
    ) -> bool {
        true
    }

    /// Whether forgetting its history turns this filter into `after`.
    open spec fn resets(&self, after: Self) -> bool {
        true
    }

    /// The tag of this filter.
    fn kind(&self) -> (k: FilterKind)
        ensures
            self.tagged(k),
    ;

    /// Transforms the frame in place and remembers it; the frame's length
    /// stays.
    fn process(&mut self, samples: &mut Vec<Self::Sample>)
        ensures
            final(samples)@.len() == old(samples)@.len(),
            old(self).steps(old(samples)@, *final(self), final(samples)@),
    ;

    /// Forgets the history.
    fn reset(&mut self)
        ensures
            old(self).resets(*final(self)),
    ;
}

/// The per-bin history `state` as a frame of `len` bins finds it: what it
/// holds for the bins it knows, and `zero` for the bins it has not seen.
pub open spec fn fitted<V>(state: Seq<V>, len: nat, zero: V) -> Seq<V> {
    Seq::new(
        len,
        |i: int|
            if i < state.len() {
                state[i]
            } else {
                zero
            },
    )
}

/// A history that already has the frame's length is fitted as it is: a
/// frame of unchanged length finds what its predecessor left.
pub proof fn lemma_fitted_same_len<V>(state: Seq<V>, zero: V)
    ensures
        fitted(state, state.len(), zero) == state,
{
    assert(fitted(state, state.len(), zero) =~= state);
}

/// Fitting a history to a frame keeps what it holds for the bins that stay,
/// and starts the bins that are new at `zero`.
pub proof fn lemma_fitted_bins<V>(state: Seq<V>, len: nat, zero: V)
    ensures
        fitted(state, len, zero).len() == len,
        forall|i: int| 0 <= i < len && i < state.len() ==> fitted(state, len, zero)[i] == state[i],
        forall|i: int| state.len() <= i < len ==> fitted(state, len, zero)[i] == zero,
{
}

/// Fits the per-bin history to a frame of `len` bins: bins that are gone
/// are dropped from its end, bins that are new start at `zero`.
pub fn fit_state<V: Copy>(state: &mut Vec<V>, len: usize, zero: V)
    ensures
        final(state)@ == fitted(old(state)@, len as nat, zero),
{
    state.truncate(len);
    while state.len() < len
        invariant
            state@.len() <= len,
            old(state)@.len() <= state@.len() || state@.len() == len,
            forall|i: int|
                0 <= i < state@.len() ==> state@[i] == fitted(old(state)@, len as nat, zero)[i],
        decreases len - state@.len(),
    {
        state.push(zero);
    }
    assert(state@ =~= fitted(old(state)@, len as nat, zero));
}

/// Sets every bin of the history to `zero`; its length stays.
pub fn clear_state<V: Copy>(state: &mut Vec<V>, zero: V)
    ensures
        final(state)@ == Seq::new(old(state)@.len(), |i: int| zero),
{
    let mut i: usize = 0;
    while i < state.len()
        invariant
            i <= state@.len(),
            state@.len() == old(state)@.len(),
            forall|j: int| 0 <= j < i ==> state@[j] == zero,
        decreases state@.len() - i,
    {
        state.set(i, zero);
        i += 1;
    }
    assert(state@ =~= Seq::new(old(state)@.len(), |i: int| zero));
}

/// Smooths one frame against the history, bin by bin: `step` is given the
/// bin's new value and the value the history holds for it, and what it
/// answers becomes both the bin's value and its history. The history is
/// first fitted to the frame's length.
pub fn smooth_frame<V: Copy, F: Fn(V, V) -> V>(
    state: &mut Vec<V>,
    samples: &mut Vec<V>,
    zero: V,
    step: &F,
)
    requires
        forall|x: V, held: V| call_requires(step, (x, held)),
    ensures
        final(samples)@.len() == old(samples)@.len(),
        final(state)@ == final(samples)@,
        forall|i: int|
            0 <= i < old(samples)@.len() ==> call_ensures(
                step,
                (old(samples)@[i], fitted(old(state)@, old(samples)@.len(), zero)[i]),
                #[trigger] final(samples)@[i],
            ),
{
    fit_state(state, samples.len(), zero);
    let mut i: usize = 0;
    while i < samples.len()
        invariant
            i <= samples@.len(),
            samples@.len() == old(samples)@.len(),
            state@.len() == samples@.len(),
            forall|x: V, held: V| call_requires(step, (x, held)),
            forall|j: int| 0 <= j < i ==> state@[j] == samples@[j],
            forall|j: int|
                0 <= j < i ==> call_ensures(
                    step,
                    (old(samples)@[j], fitted(old(state)@, old(samples)@.len(), zero)[j]),
                    #[trigger] samples@[j],
                ),
            forall|j: int| i <= j < samples@.len() ==> samples@[j] == old(samples)@[j],
            forall|j: int|
                i <= j < samples@.len() ==> state@[j] == fitted(
                    old(state)@,
                    old(samples)@.len(),
                    zero,
                )[j],
        decreases samples@.len() - i,
    {
        let y = step(samples[i], state[i]);
        state.set(i, y);
        samples.set(i, y);
        i += 1;
    }
    assert(state@ =~= samples@);
}

} // verus!
