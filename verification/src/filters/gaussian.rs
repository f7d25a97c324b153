use vstd::prelude::*;

verus! {

/// The number of taps of a kernel that reaches `radius` bins to either side
/// of its center.
pub open spec fn kernel_len_spec(radius: usize) -> int {
    2 * radius + 1
}

/// The bin that tap `k` of a kernel of radius `radius` reads when the kernel
/// is centered on bin `i`: tap `radius` reads bin `i` itself.
pub open spec fn tap_source(i: usize, k: usize, radius: usize) -> int {
    i + k - radius
}

/// The number of taps of a kernel that reaches `radius` bins to either side
/// of its center, or `None` where that number does not fit the machine word.
pub fn kernel_len(radius: usize) -> (r: Option<usize>)
    ensures
        match r {
            Some(n) => n == kernel_len_spec(radius),
            None => kernel_len_spec(radius) > usize::MAX,
        },
{
    if radius <= (usize::MAX - 1) / 2 {
        Some(2 * radius + 1)
    } else {
        None
    }
}

/// The bin that tap `k` reads when a kernel of radius `radius` is centered on
/// bin `i` of a buffer of `len` bins. A tap that would read beyond either
/// edge of the buffer reads nothing: the kernel neither wraps around nor
/// repeats the edge.
pub fn tap_index(i: usize, k: usize, radius: usize, len: usize) -> (r: Option<usize>)
    ensures
        match r {
            Some(s) => s == tap_source(i, k, radius) && s < len,
            None => tap_source(i, k, radius) < 0 || tap_source(i, k, radius) >= len,
        },
{
    if k >= radius {
        let right: usize = k - radius;
        if i < len && right < len - i {
            Some(i + right)
        } else {
            None
        }
    } else {
        let left: usize = radius - k;
        if left <= i && i - left < len {
            Some(i - left)
        } else {
            None
        }
    }
}

/// How many bins tap `k` of a kernel of radius `radius` lies from the
/// kernel's center.
pub open spec fn tap_distance(k: int, radius: usize) -> int {
    if k >= radius {
        k - radius
    } else {
        radius - k
    }
}

/// Whether `raw` holds the kernel's taps before they are normalized: for
/// every tap what `bell` answers for its distance from the center.
pub open spec fn raw_taps<V, B: Fn(usize) -> V>(bell: &B, radius: usize, raw: Seq<V>) -> bool {
    &&& raw.len() == kernel_len_spec(radius)
    &&& forall|k: int|
        0 <= k < raw.len() ==> call_ensures(
            bell,
            (tap_distance(k, radius) as usize,),
            #[trigger] raw[k],
        )
}

/// Whether `sums` holds the running total of `raw`: `zero` before the first
/// tap, and after each tap what `sum` makes of the total so far and that
/// tap.
pub open spec fn running_total<V, A: Fn(V, V) -> V>(
    sum: &A,
    raw: Seq<V>,
    zero: V,
    sums: Seq<V>,
) -> bool {
    &&& sums.len() == raw.len() + 1
    &&& sums[0] == zero
    &&& forall|k: int|
        0 <= k < raw.len() ==> call_ensures(sum, (sums[k], raw[k]), #[trigger] sums[k + 1])
}

/// Whether `kernel` holds, tap by tap, what `divide` makes of `raw` and the
/// one total `total`.
pub open spec fn divided_by<V, D: Fn(V, V) -> V>(
    divide: &D,
    raw: Seq<V>,
    total: V,
    kernel: Seq<V>,
) -> bool {
    &&& kernel.len() == raw.len()
    &&& forall|k: int|
        0 <= k < raw.len() ==> call_ensures(divide, (raw[k], total), #[trigger] kernel[k])
}

/// Whether `kernel` is the normalized kernel of radius `radius`: its taps
/// are what `bell` answers for their distances from the center, each
/// divided by the total of them all.
pub open spec fn kernel_built<V, B: Fn(usize) -> V, A: Fn(V, V) -> V, D: Fn(V, V) -> V>(
    bell: &B,
    sum: &A,
    divide: &D,
    radius: usize,
    zero: V,
    kernel: Seq<V>,
) -> bool {
    exists|raw: Seq<V>, sums: Seq<V>|
        {
            &&& #[trigger] raw_taps(bell, radius, raw)
            &&& #[trigger] running_total(sum, raw, zero, sums)
            &&& divided_by(divide, raw, sums.last(), kernel)
        }
}

/// Builds the normalized kernel of radius `radius`, or nothing where its
/// number of taps does not fit the machine word.
///
/// `bell` is asked for every tap, from the leftmost on, and is given the
/// tap's distance from the center. `sum` totals the answers, starting from
/// `zero`. `divide` is then given each answer and the total, and what it
/// answers is the tap.
pub fn build_kernel<V: Copy, B: Fn(usize) -> V, A: Fn(V, V) -> V, D: Fn(V, V) -> V>(
    radius: usize,
    zero: V,
    bell: &B,
    sum: &A,
    divide: &D,
) -> (r: Option<Vec<V>>)
    requires
        forall|d: usize| call_requires(bell, (d,)),
        forall|t: V, x: V| call_requires(sum, (t, x)),
        forall|x: V, t: V| call_requires(divide, (x, t)),
    ensures
        match r {
            Some(kernel) => kernel@.len() == kernel_len_spec(radius) && kernel_built(
                bell,
                sum,
                divide,
                radius,
                zero,
                kernel@,
            ),
            None => kernel_len_spec(radius) > usize::MAX,
        },
{
    let len = match kernel_len(radius) {
        Some(len) => len,
        None => {
            return None;
        },
    };
    let mut kernel: Vec<V> = Vec::new();
    let mut total = zero;
    let ghost mut sums: Seq<V> = seq![zero];
    let mut k: usize = 0;
    while k < len
        invariant
            k <= len,
            len == kernel_len_spec(radius),
            kernel@.len() == k,
            forall|d: usize| call_requires(bell, (d,)),
            forall|t: V, x: V| call_requires(sum, (t, x)),
            forall|j: int|
                0 <= j < k ==> call_ensures(
                    bell,
                    (tap_distance(j, radius) as usize,),
                    #[trigger] kernel@[j],
                ),
            sums.len() == k + 1,
            sums[0] == zero,
            sums.last() == total,
            forall|j: int|
                0 <= j < k ==> call_ensures(sum, (sums[j], kernel@[j]), #[trigger] sums[j + 1]),
        decreases len - k,
    {
        let ghost found = sums;
        let distance: usize = if k >= radius {
            k - radius
        } else {
            radius - k
        };
        let value = bell(distance);
        kernel.push(value);
        total = sum(total, value);
        proof {
            sums = found.push(total);
            assert forall|j: int| 0 <= j < k + 1 implies call_ensures(
                sum,
                (sums[j], kernel@[j]),
                #[trigger] sums[j + 1],
            ) by {
                if j < k {
                    assert(call_ensures(sum, (found[j], kernel@[j]), found[j + 1]));
                }
            }
        }
        k += 1;
    }
    let ghost raw = kernel@;
    let mut n: usize = 0;
    while n < len
        invariant
            n <= len,
            kernel@.len() == len,
            raw.len() == len,
            forall|x: V, t: V| call_requires(divide, (x, t)),
            forall|j: int|
                0 <= j < n ==> call_ensures(divide, (raw[j], total), #[trigger] kernel@[j]),
            forall|j: int| n <= j < len ==> kernel@[j] == raw[j],
        decreases len - n,
    {
        let tap = divide(kernel[n], total);
        kernel.set(n, tap);
        n += 1;
    }
    assert(raw_taps(bell, radius, raw));
    assert(running_total(sum, raw, zero, sums));
    assert(divided_by(divide, raw, sums.last(), kernel@));
    Some(kernel)
}

/// Whether, in the running sums `sums` for output bin `i`, tap `k` did its
/// part: a tap that reads a bin of the buffer had `accumulate` take the sum
/// so far, that bin and the tap's weight to the next sum; a tap that reads
/// beyond an edge left the sum as it was.
pub open spec fn tap_step<V, F: Fn(V, V, V) -> V>(
    accumulate: &F,
    samples: Seq<V>,
    kernel: Seq<V>,
    radius: usize,
    i: int,
    sums: Seq<V>,
    k: int,
) -> bool {
    let source = i + k - radius;
    if 0 <= source < samples.len() {
        call_ensures(accumulate, (sums[k], samples[source], kernel[k]), sums[k + 1])
    } else {
        sums[k + 1] == sums[k]
    }
}

/// Whether `sums` holds the running sums for output bin `i`: `zero` before
/// the first tap, and after each tap what that tap made of the sum before.
pub open spec fn tap_sums<V, F: Fn(V, V, V) -> V>(
    accumulate: &F,
    samples: Seq<V>,
    kernel: Seq<V>,
    radius: usize,
    zero: V,
    i: int,
    sums: Seq<V>,
) -> bool {
    &&& sums.len() == kernel.len() + 1
    &&& sums[0] == zero
    &&& forall|k: int|
        0 <= k < kernel.len() ==> #[trigger] tap_step(accumulate, samples, kernel, radius, i, sums, k)
}

/// Whether `value` is what output bin `i` holds after a pass over
/// `samples`: the last of the running sums for that bin.
pub open spec fn tap_total_is<V, F: Fn(V, V, V) -> V>(
    accumulate: &F,
    samples: Seq<V>,
    kernel: Seq<V>,
    radius: usize,
    zero: V,
    i: int,
    value: V,
) -> bool {
    exists|sums: Seq<V>|
        #[trigger] tap_sums(accumulate, samples, kernel, radius, zero, i, sums)
            && sums.last() == value
}

/// Whether `after` is `before` convolved once with `kernel`: every bin of
/// `after` is the last of the running sums for that bin, taken over
/// `before`.
pub open spec fn convolved<V, F: Fn(V, V, V) -> V>(
    accumulate: &F,
    before: Seq<V>,
    kernel: Seq<V>,
    radius: usize,
    zero: V,
    after: Seq<V>,
) -> bool {
    &&& after.len() == before.len()
    &&& forall|i: int|
        0 <= i < before.len() ==> #[trigger] tap_total_is(
            accumulate,
            before,
            kernel,
            radius,
            zero,
            i,
            after[i],
        )
}

/// The running sum for output bin `i`, taken over all taps of `kernel`.
fn tap_total<V: Copy, F: Fn(V, V, V) -> V>(
    samples: &Vec<V>,
    kernel: &Vec<V>,
    radius: usize,
    zero: V,
    accumulate: &F,
    i: usize,
) -> (total: V)
    requires
        forall|a: V, x: V, w: V| call_requires(accumulate, (a, x, w)),
    ensures
        tap_total_is(accumulate, samples@, kernel@, radius, zero, i as int, total),
{
    let mut acc = zero;
    let ghost mut sums: Seq<V> = seq![zero];
    let mut k: usize = 0;
    while k < kernel.len()
        invariant
            k <= kernel@.len(),
            forall|a: V, x: V, w: V| call_requires(accumulate, (a, x, w)),
            sums.len() == k + 1,
            sums[0] == zero,
            sums.last() == acc,
            forall|j: int|
                0 <= j < k ==> #[trigger] tap_step(
                    accumulate,
                    samples@,
                    kernel@,
                    radius,
                    i as int,
                    sums,
                    j,
                ),
        decreases kernel@.len() - k,
    {
        let ghost found = sums;
        if let Some(source) = tap_index(i, k, radius, samples.len()) {
            acc = accumulate(acc, samples[source], kernel[k]);
        }
        proof {
            sums = found.push(acc);
            assert forall|j: int| 0 <= j < k + 1 implies #[trigger] tap_step(
                accumulate,
                samples@,
                kernel@,
                radius,
                i as int,
                sums,
                j,
            ) by {
                if j < k {
                    assert(tap_step(accumulate, samples@, kernel@, radius, i as int, found, j));
                }
            }
        }
        k += 1;
    }
    assert(tap_sums(accumulate, samples@, kernel@, radius, zero, i as int, sums));
    acc
}

/// Convolves the buffer once with `kernel`, whose tap `radius` sits on the
/// bin being computed. Every bin is computed from the buffer as it was
/// before the pass. For each bin the taps are taken in order: `accumulate`
/// is given the sum so far, the bin the tap reads and the tap's weight. Taps
/// that reach beyond an edge contribute nothing.
pub fn convolve_pass<V: Copy, F: Fn(V, V, V) -> V>(
    samples: &mut Vec<V>,
    kernel: &Vec<V>,
    radius: usize,
    zero: V,
    accumulate: &F,
)
    requires
        forall|a: V, x: V, w: V| call_requires(accumulate, (a, x, w)),
    ensures
        convolved(accumulate, old(samples)@, kernel@, radius, zero, final(samples)@),
{
    let mut out: Vec<V> = Vec::new();
    let mut i: usize = 0;
    while i < samples.len()
        invariant
            i <= samples@.len(),
            samples@ == old(samples)@,
            out@.len() == i,
            forall|a: V, x: V, w: V| call_requires(accumulate, (a, x, w)),
            forall|j: int|
                0 <= j < i ==> #[trigger] tap_total_is(
                    accumulate,
                    samples@,
                    kernel@,
                    radius,
                    zero,
                    j,
                    out@[j],
                ),
        decreases samples@.len() - i,
    {
        let ghost found = out@;
        let total = tap_total(samples, kernel, radius, zero, accumulate, i);
        out.push(total);
        proof {
            assert forall|j: int| 0 <= j < i + 1 implies #[trigger] tap_total_is(
                accumulate,
                samples@,
                kernel@,
                radius,
                zero,
                j,
                out@[j],
            ) by {
                if j < i {
                    assert(tap_total_is(accumulate, samples@, kernel@, radius, zero, j, found[j]));
                }
            }
        }
        i += 1;
    }
    *samples = out;
}

/// Smooths the buffer with `num_passes` passes of `convolve_pass`, each on
/// what the pass before left. A filter that is not enabled leaves the
/// buffer as it is.
pub fn smooth_bins<V: Copy, F: Fn(V, V, V) -> V>(
    samples: &mut Vec<V>,
    kernel: &Vec<V>,
    radius: usize,
    num_passes: usize,
    enabled: bool,
    zero: V,
    accumulate: &F,
)
    requires
        forall|a: V, x: V, w: V| call_requires(accumulate, (a, x, w)),
    ensures
        final(samples)@.len() == old(samples)@.len(),
        !enabled || num_passes == 0 ==> final(samples)@ == old(samples)@,
        enabled ==> exists|passes: Seq<Seq<V>>|
            {
                &&& #[trigger] passes.len() == num_passes + 1
                &&& passes.first() == old(samples)@
                &&& passes.last() == final(samples)@
                &&& forall|p: int|
                    0 <= p < num_passes ==> convolved(
                        accumulate,
                        #[trigger] passes[p],
                        kernel@,
                        radius,
                        zero,
                        passes[p + 1],
                    )
            },
{
    if !enabled {
        return ;
    }
    let ghost mut passes: Seq<Seq<V>> = seq![samples@];
    let mut p: usize = 0;
    while p < num_passes
        invariant
            p <= num_passes,
            forall|a: V, x: V, w: V| call_requires(accumulate, (a, x, w)),
            samples@.len() == old(samples)@.len(),
            passes.len() == p + 1,
            passes.first() == old(samples)@,
            passes.last() == samples@,
            forall|q: int|
                0 <= q < p ==> convolved(
                    accumulate,
                    #[trigger] passes[q],
                    kernel@,
                    radius,
                    zero,
                    passes[q + 1],
                ),
        decreases num_passes - p,
    {
        let ghost found = passes;
        convolve_pass(samples, kernel, radius, zero, accumulate);
        proof {
            passes = found.push(samples@);
            assert forall|q: int| 0 <= q < p + 1 implies convolved(
                accumulate,
                #[trigger] passes[q],
                kernel@,
                radius,
                zero,
                passes[q + 1],
            ) by {
                if q < p {
                    assert(convolved(accumulate, found[q], kernel@, radius, zero, found[q + 1]));
                }
            }
        }
        p += 1;
    }
    assert(passes.len() == num_passes + 1);
}

} // verus!
