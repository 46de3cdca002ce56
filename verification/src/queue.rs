use vstd::prelude::*;

use crate::frames::is_block;

verus! {

/// Slot `c` of frame `f` in an interleaved sequence of frames of
/// `channels` samples lies before every slot of a later frame, and only
/// one (frame, slot) pair lands on each position.
proof fn lemma_frame_slots(f: int, c: int, g: int, d: int, channels: int)
    requires
        0 <= f,
        0 <= g,
        0 <= c < channels,
        0 <= d < channels,
    ensures
        f < g ==> f * channels + c < g * channels + d,
        f * channels + c == g * channels + d ==> f == g && c == d,
        f * channels + c < (f + 1) * channels,
{
    assert(f < g ==> f * channels + c < g * channels + d) by (nonlinear_arith)
        requires
            0 <= c < channels,
            0 <= d < channels,
    ;
    assert(f * channels + c == g * channels + d ==> f == g && c == d) by (nonlinear_arith)
        requires
            0 <= f,
            0 <= g,
            0 <= c < channels,
            0 <= d < channels,
    ;
    assert(f * channels + c < (f + 1) * channels) by (nonlinear_arith)
        requires
            0 <= c < channels,
    ;
}

/// The first `frames` frames of the rows of `block`, one sample per channel
/// after the other, frame by frame.
pub open spec fn interleaved<S>(block: Seq<Vec<S>>, channels: int, frames: int) -> Seq<S> {
    Seq::new(
        (frames * channels) as nat,
        |i: int| block[i % channels]@[i / channels],
    )
}

/// Splits interleaved `samples` into one row per channel; a trailing
/// incomplete frame is left out.
pub fn deinterleave<S: Copy>(samples: &Vec<S>, channels: usize) -> (rows: Vec<Vec<S>>)
    requires
        channels >= 1,
    ensures
        is_block(&rows, channels as int, samples@.len() as int / channels as int),
        forall|c: int, f: int|
            0 <= c < channels && 0 <= f < samples@.len() as int / channels as int ==> #[trigger] rows@[c]@[f]
                == samples@[f * channels + c],
{
    let n = samples.len();
    let frames = n / channels;
    proof {
        assert(frames * channels <= samples@.len()) by (nonlinear_arith)
            requires
                frames == samples@.len() as int / channels as int,
                channels >= 1,
        ;
    }
    let mut rows: Vec<Vec<S>> = Vec::new();
    let mut c: usize = 0;
    while c < channels
        invariant
            channels >= 1,
            n == samples@.len(),
            frames == samples@.len() as int / channels as int,
            frames * channels <= samples@.len(),
            c <= channels,
            rows@.len() == c,
            forall|k: int| 0 <= k < c ==> (#[trigger] rows@[k])@.len() == frames,
            forall|k: int, f: int|
                0 <= k < c && 0 <= f < frames ==> #[trigger] rows@[k]@[f] == samples@[f * channels
                    + k],
        decreases channels - c,
    {
        let mut row: Vec<S> = Vec::new();
        let mut f: usize = 0;
        while f < frames
            invariant
                channels >= 1,
                c < channels,
                n == samples@.len(),
                frames * channels <= samples@.len(),
                f <= frames,
                row@.len() == f,
                forall|g: int| 0 <= g < f ==> row@[g] == samples@[g * channels + c],
            decreases frames - f,
        {
            proof {
                lemma_frame_slots(f as int, c as int, f as int, c as int, channels as int);
                assert((f + 1) * channels <= frames * channels) by (nonlinear_arith)
                    requires
                        f < frames,
                        channels >= 1,
                ;
            }
            let v = samples[f * channels + c];
            row.push(v);
            f += 1;
        }
        rows.push(row);
        c += 1;
    }
    rows
}

/// Interleaved samples waiting to be handed out one by one; `pos` is the
/// next one.
pub struct SampleQueue<S> {
    pub samples: Vec<S>,
    pub pos: usize,
}

impl<S: Copy> SampleQueue<S> {
    pub open spec fn wf(&self) -> bool {
        self.pos <= self.samples@.len()
    }

    /// The samples not handed out yet, in order.
    pub open spec fn pending(&self) -> Seq<S> {
        self.samples@.subrange(self.pos as int, self.samples@.len() as int)
    }

    /// An empty queue.
    pub fn new() -> (q: Self)
        ensures
            q.wf(),
            q.pending() == Seq::<S>::empty(),
    {
        let q = SampleQueue { samples: Vec::new(), pos: 0 };
        assert(q.pending() =~= Seq::<S>::empty());
        q
    }

    /// Hands out the next sample, if any.
    pub fn next_sample(&mut self) -> (r: Option<S>)
        requires
            old(self).wf(),
        ensures
            final(self).wf(),
            old(self).pending().len() == 0 ==> r is None && *final(self) == *old(self),
            old(self).pending().len() > 0 ==> r == Some(old(self).pending()[0])
                && final(self).pending() == old(self).pending().drop_first()
                && final(self).samples == old(self).samples,
    {
        if self.pos < self.samples.len() {
            let sample = self.samples[self.pos];
            self.pos += 1;
            assert(self.pending() =~= old(self).pending().drop_first());
            Some(sample)
        } else {
            None
        }
    }

    /// Drops every sample.
    pub fn clear(&mut self)
        ensures
            final(self).wf(),
            final(self).samples@ == Seq::<S>::empty(),
            final(self).pos == 0,
    {
        self.samples.clear();
        self.pos = 0;
    }

    /// Replaces the contents by the first `frames` frames of the first
    /// `channels` rows of `block`, interleaved, and hands out the first of
    /// them; `None` when `frames` is 0.
    pub fn refill(&mut self, block: &Vec<Vec<S>>, channels: usize, frames: usize) -> (r: Option<S>)
        requires
            channels >= 1,
            channels <= block@.len(),
            forall|c: int| 0 <= c < channels ==> frames <= (#[trigger] block@[c])@.len(),
        ensures
            final(self).wf(),
            final(self).samples@ == interleaved(block@, channels as int, frames as int),
            final(self).samples@.len() == frames * channels,
            forall|c: int, f: int|
                0 <= c < channels && 0 <= f < frames ==> #[trigger] final(self).samples@[f * channels
                    + c] == block@[c]@[f],
            frames == 0 ==> r is None && final(self).pos == 0,
            frames > 0 ==> r == Some(block@[0]@[0]) && final(self).pos == 1,
    {
        self.samples.clear();
        self.pos = 0;
        let mut f: usize = 0;
        while f < frames
            invariant
                channels >= 1,
                channels <= block@.len(),
                forall|c: int| 0 <= c < channels ==> frames <= (#[trigger] block@[c])@.len(),
                f <= frames,
                self.pos == 0,
                self.samples@.len() == f * channels,
                forall|g: int, d: int|
                    0 <= g < f && 0 <= d < channels ==> self.samples@[g * channels + d]
                        == #[trigger] block@[d]@[g],
            decreases frames - f,
        {
            let mut c: usize = 0;
            while c < channels
                invariant
                    channels >= 1,
                    channels <= block@.len(),
                    forall|k: int| 0 <= k < channels ==> frames <= (#[trigger] block@[k])@.len(),
                    f < frames,
                    c <= channels,
                    self.pos == 0,
                    self.samples@.len() == f * channels + c,
                    forall|g: int, d: int|
                        0 <= g < f && 0 <= d < channels ==> self.samples@[g * channels + d]
                            == #[trigger] block@[d]@[g],
                    forall|d: int| 0 <= d < c ==> self.samples@[f * channels + d] == #[trigger] block@[d]@[f as int],
                decreases channels - c,
            {
                let v = block[c][f];
                self.samples.push(v);
                proof {
                    assert forall|g: int, d: int|
                        0 <= g < f && 0 <= d < channels implies self.samples@[g * channels + d]
                            == #[trigger] block@[d]@[g] by {
                        lemma_frame_slots(g, d, f as int, c as int, channels as int);
                    }
                }
                c += 1;
            }
            proof {
                assert((f + 1) * channels == f * channels + channels) by (nonlinear_arith);
                assert forall|g: int, d: int|
                    0 <= g < f + 1 && 0 <= d < channels implies self.samples@[g * channels + d]
                        == #[trigger] block@[d]@[g] by {
                    if g == f {
                    }
                }
            }
            f += 1;
        }
        proof {
            let n = frames as int;
            let ch = channels as int;
            assert forall|i: int| 0 <= i < n * ch implies self.samples@[i] == block@[i % ch]@[i / ch] by {
                let g = i / ch;
                let d = i % ch;
                assert(i == g * ch + d && 0 <= d < ch && 0 <= g < n) by (nonlinear_arith)
                    requires
                        g == i / ch,
                        d == i % ch,
                        ch >= 1,
                        0 <= i < n * ch,
                ;
            }
            assert(self.samples@ =~= interleaved(block@, ch, n));
            lemma_deinterleave_undoes_interleave(block@, ch, n);
            assert(n * ch >= 0) by (nonlinear_arith)
                requires
                    n >= 0,
                    ch >= 1,
            ;
        }
        if frames > 0 {
            proof {
                assert(frames * channels >= 1) by (nonlinear_arith)
                    requires
                        frames >= 1,
                        channels >= 1,
                ;
                assert(self.samples@[0 * channels + 0] == block@[0]@[0]);
            }
            let sample = self.samples[0];
            self.pos = 1;
            Some(sample)
        } else {
            None
        }
    }
}

/// Interleaving lays out exactly `frames` frames of `channels` samples,
/// sample `c` of frame `f` at position `f * channels + c` holding frame `f`
/// of row `c`; so splitting them again, as `deinterleave` does, gives the
/// rows back.
pub proof fn lemma_deinterleave_undoes_interleave<S>(block: Seq<Vec<S>>, channels: int, frames: int)
    requires
        channels >= 1,
        frames >= 0,
    ensures
        interleaved(block, channels, frames).len() == frames * channels,
        interleaved(block, channels, frames).len() as int / channels == frames,
        forall|c: int, f: int|
            0 <= c < channels && 0 <= f < frames ==> #[trigger] interleaved(block, channels, frames)[f
                * channels + c] == block[c]@[f],
{
    assert((frames * channels) / channels == frames) by (nonlinear_arith)
        requires
            channels >= 1,
            frames >= 0,
    ;
    assert(frames * channels >= 0) by (nonlinear_arith)
        requires
            channels >= 1,
            frames >= 0,
    ;
    assert forall|c: int, f: int| 0 <= c < channels && 0 <= f < frames implies #[trigger] interleaved(
        block,
        channels,
        frames,
    )[f * channels + c] == block[c]@[f] by {
        let i = f * channels + c;
        assert(0 <= i < frames * channels && i / channels == f && i % channels == c)
            by (nonlinear_arith)
            requires
                i == f * channels + c,
                0 <= c < channels,
                0 <= f < frames,
        ;
    }
}

} // verus!
