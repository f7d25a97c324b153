use vstd::prelude::*;

verus! {

/// What is played at frame `pos` of a recording: the sample recorded there,
/// or `silence` once the recording is over.
pub open spec fn sample_at<V>(samples: Seq<V>, pos: int, silence: V) -> V {
    if 0 <= pos < samples.len() {
        samples[pos]
    } else {
        silence
    }
}

/// The number of frames that `len` interleaved values make up at `channels`
/// values a frame; values left over at the end make up a last, short frame.
pub open spec fn frames_in(len: int, channels: int) -> int {
    (len + channels - 1) / channels
}

/// The number of values in frame `f` of `len` interleaved values at
/// `channels` values a frame: `channels`, but for a last, short frame.
pub open spec fn frame_width(len: int, channels: int, f: int) -> int {
    if (f + 1) * channels <= len {
        channels
    } else {
        len - f * channels
    }
}

/// Whether `sums` holds the running total of frame `f`: `zero` before the
/// frame's first value, and after each value what `sum` makes of the total
/// so far and that value.
pub open spec fn frame_total<V, A: Fn(V, V) -> V>(
    sum: &A,
    interleaved: Seq<V>,
    channels: int,
    zero: V,
    f: int,
    sums: Seq<V>,
) -> bool {
    &&& sums.len() == frame_width(interleaved.len() as int, channels, f) + 1
    &&& sums[0] == zero
    &&& forall|c: int|
        0 <= c < sums.len() - 1 ==> call_ensures(
            sum,
            (sums[c], interleaved[f * channels + c]),
            #[trigger] sums[c + 1],
        )
}

/// Whether `value` is frame `f` mixed down to one sample: what `average`
/// makes of the frame's total and the number of channels.
pub open spec fn mixed<V, A: Fn(V, V) -> V, D: Fn(V, usize) -> V>(
    sum: &A,
    average: &D,
    interleaved: Seq<V>,
    channels: usize,
    zero: V,
    f: int,
    value: V,
) -> bool {
    exists|sums: Seq<V>|
        #[trigger] frame_total(sum, interleaved, channels as int, zero, f, sums) && call_ensures(
            average,
            (sums.last(), channels),
            value,
        )
}

/// Mixes interleaved frames of `channels` values down to one sample a
/// frame. The values of a frame are totalled in order: `sum` is given the
/// total so far, which starts at `zero`, and the next value. `average` is
/// then given the total and the number of channels, and what it answers is
/// the frame's sample. Values left over at the end count as a last frame.
pub fn mix_down<V: Copy, A: Fn(V, V) -> V, D: Fn(V, usize) -> V>(
    interleaved: &[V],
    channels: usize,
    zero: V,
    sum: &A,
    average: &D,
) -> (mono: Vec<V>)
    requires
        channels > 0,
        forall|t: V, x: V| call_requires(sum, (t, x)),
        forall|t: V, n: usize| call_requires(average, (t, n)),
    ensures
        mono@.len() == frames_in(interleaved@.len() as int, channels as int),
        forall|f: int|
            0 <= f < mono@.len() ==> #[trigger] mixed(
                sum,
                average,
                interleaved@,
                channels,
                zero,
                f,
                mono@[f],
            ),
{
    let mut mono: Vec<V> = Vec::new();
    let mut j: usize = 0;
    while j < interleaved.len()
        invariant
            channels > 0,
            j <= interleaved@.len(),
            forall|t: V, x: V| call_requires(sum, (t, x)),
            forall|t: V, n: usize| call_requires(average, (t, n)),
            (mono@.len() - 1) * channels < j <= mono@.len() * channels || (mono@.len() == 0 && j
                == 0),
            j == mono@.len() * channels || j == interleaved@.len(),
            forall|f: int|
                0 <= f < mono@.len() ==> #[trigger] mixed(
                    sum,
                    average,
                    interleaved@,
                    channels,
                    zero,
                    f,
                    mono@[f],
                ),
        decreases interleaved@.len() - j,
    {
        let ghost frame = mono@.len() as int;
        let ghost done = mono@;
        let ghost start = j as int;
        let mut total = zero;
        let ghost mut sums: Seq<V> = seq![zero];
        let mut within: usize = 0;
        while within < channels && j < interleaved.len()
            invariant
                channels > 0,
                within <= channels,
                j <= interleaved@.len(),
                start == frame * channels,
                j == start + within,
                forall|t: V, x: V| call_requires(sum, (t, x)),
                sums.len() == within + 1,
                sums[0] == zero,
                sums.last() == total,
                forall|c: int|
                    0 <= c < within ==> call_ensures(
                        sum,
                        (sums[c], interleaved@[start + c]),
                        #[trigger] sums[c + 1],
                    ),
            decreases interleaved@.len() - j,
        {
            let ghost found = sums;
            total = sum(total, interleaved[j]);
            proof {
                sums = found.push(total);
                assert forall|c: int| 0 <= c < within + 1 implies call_ensures(
                    sum,
                    (sums[c], interleaved@[start + c]),
                    #[trigger] sums[c + 1],
                ) by {
                    if c < within {
                        assert(call_ensures(sum, (found[c], interleaved@[start + c]), found[c + 1]));
                    }
                }
            }
            j += 1;
            within += 1;
        }
        let sample = average(total, channels);
        mono.push(sample);
        proof {
            let len = interleaved@.len() as int;
            assert(frame_width(len, channels as int, frame) == within) by (nonlinear_arith)
                requires
                    start == frame * channels,
                    j == start + within,
                    0 < within <= channels,
                    within == channels || j == len,
                    j <= len,
                    frame_width(len, channels as int, frame) == if (frame + 1) * channels <= len {
                        channels as int
                    } else {
                        len - frame * channels
                    },
            ;
            assert(frame_total(sum, interleaved@, channels as int, zero, frame, sums));
            assert(mixed(sum, average, interleaved@, channels, zero, frame, sample));
            assert((frame + 1 - 1) * channels < j <= (frame + 1) * channels) by (nonlinear_arith)
                requires
                    j == frame * channels + within,
                    0 < within <= channels,
            ;
            assert(j == (frame + 1) * channels || j == len) by (nonlinear_arith)
                requires
                    j == frame * channels + within,
                    within == channels || j == len,
            ;
            assert forall|f: int| 0 <= f < mono@.len() implies #[trigger] mixed(
                sum,
                average,
                interleaved@,
                channels,
                zero,
                f,
                mono@[f],
            ) by {
                if f < frame {
                    assert(mixed(sum, average, interleaved@, channels, zero, f, done[f]));
                }
            }
        }
    }
    assert(frames_in(interleaved@.len() as int, channels as int) == mono@.len()) by (nonlinear_arith)
        requires
            channels > 0,
            j == interleaved@.len(),
            (mono@.len() - 1) * channels < j <= mono@.len() * channels || (mono@.len() == 0 && j
                == 0),
    ;
    mono
}

/// The place in a mono recording that playback has reached, counted in
/// frames played.
pub struct Playhead {
    pos: usize,
}

impl Playhead {
    /// The number of frames played so far. It stops counting at the largest
    /// machine word, far beyond the end of any recording.
    pub closed spec fn position_spec(&self) -> usize {
        self.pos
    }

    /// A playhead at the start of the recording.
    pub fn new() -> (p: Self)
        ensures
            p.position_spec() == 0,
    {
        Playhead { pos: 0 }
    }

    /// The number of frames played so far.
    pub fn position(&self) -> (r: usize)
        ensures
            r == self.position_spec(),
    {
        self.pos
    }

    /// Plays on into one output block of interleaved frames, `channels`
    /// values each: every value of a frame is the recording's next sample,
    /// or `silence` once the recording is over, and the playhead moves on by
    /// one for every frame.
    pub fn fill_block<V: Copy>(
        &mut self,
        samples: &[V],
        output: &mut [V],
        channels: usize,
        silence: V,
    )
        requires
            channels > 0,
        ensures
            final(output)@.len() == old(output)@.len(),
            forall|j: int|
                0 <= j < old(output)@.len() ==> #[trigger] final(output)@[j] == sample_at(
                    samples@,
                    old(self).position_spec() + j / (channels as int),
                    silence,
                ),
            final(self).position_spec() == if old(self).position_spec() + frames_in(
                old(output)@.len() as int,
                channels as int,
            ) <= usize::MAX {
                (old(self).position_spec() + frames_in(old(output)@.len() as int, channels as int)) as usize
            } else {
                usize::MAX
            },
    {
        let mut j: usize = 0;
        let ghost mut frame: int = 0;
        while j < output.len()
            invariant
                channels > 0,
                j <= output@.len(),
                output@.len() == old(output)@.len(),
                frame >= 0,
                (frame - 1) * channels < j <= frame * channels || (frame == 0 && j == 0),
                j == frame * channels || j == output@.len(),
                self.pos == if old(self).pos + frame <= usize::MAX {
                    old(self).pos + frame
                } else {
                    usize::MAX as int
                },
                forall|k: int|
                    0 <= k < j ==> #[trigger] output@[k] == sample_at(
                        samples@,
                        old(self).pos + k / (channels as int),
                        silence,
                    ),
            decreases output@.len() - j,
        {
            let sample = if self.pos < samples.len() {
                samples[self.pos]
            } else {
                silence
            };
            assert(sample == sample_at(samples@, old(self).pos + frame, silence));
            let mut within: usize = 0;
            while within < channels && j < output.len()
                invariant
                    channels > 0,
                    within <= channels,
                    j <= output@.len(),
                    output@.len() == old(output)@.len(),
                    frame >= 0,
                    j == frame * channels + within,
                    sample == sample_at(samples@, old(self).pos + frame, silence),
                    forall|k: int|
                        0 <= k < j ==> #[trigger] output@[k] == sample_at(
                            samples@,
                            old(self).pos + k / (channels as int),
                            silence,
                        ),
                decreases output@.len() - j,
            {
                assert(j as int / (channels as int) == frame) by (nonlinear_arith)
                    requires
                        j == frame * channels + within,
                        0 <= within < channels,
                        frame >= 0,
                ;
                output[j] = sample;
                j += 1;
                within += 1;
            }
            proof {
                assert((frame + 1 - 1) * channels < j <= (frame + 1) * channels) by (nonlinear_arith)
                    requires
                        j == frame * channels + within,
                        0 < within <= channels,
                ;
                assert(j == (frame + 1) * channels || j == output@.len()) by (nonlinear_arith)
                    requires
                        j == frame * channels + within,
                        within == channels || j == output@.len(),
                ;
                frame = frame + 1;
            }
            if self.pos < usize::MAX {
                self.pos += 1;
            }
        }
        assert(frames_in(output@.len() as int, channels as int) == frame) by (nonlinear_arith)
            requires
                channels > 0,
                frame >= 0,
                j == output@.len(),
                (frame - 1) * channels < j <= frame * channels || (frame == 0 && j == 0),
        ;
    }

    /// The latest window of `window_size` samples that has been played, as
    /// the range of its places in a recording of `len` samples; nothing
    /// while fewer samples than a window have been played, and nothing once
    /// playback has run past the end of the recording.
    pub fn window(&self, len: usize, window_size: usize) -> (r: Option<(usize, usize)>)
        ensures
            match r {
                Some((start, end)) => window_size <= self.position_spec() <= len && start
                    == self.position_spec() - window_size && end == self.position_spec(),
                None => self.position_spec() < window_size || self.position_spec() > len,
            },
    {
        if self.pos >= window_size && self.pos <= len {
            Some((self.pos - window_size, self.pos))
        } else {
            None
        }
    }
}

} // verus!
