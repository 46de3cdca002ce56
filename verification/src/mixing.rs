use vstd::prelude::*;


verus! {

/// `mix` accepts every argument tuple.
pub open spec fn mix_total<S, M: Fn(S, S, S, S) -> S>(mix: M) -> bool {
    forall|a: S, wa: S, b: S, wb: S| call_requires(mix, (a, wa, b, wb))
}

/// `faded` is `from` with each of its first `frames` samples replaced by a
/// result of `mix` on that sample weighted by `window[n]` and the sample of
/// `to` weighted by `window[frames + n]`.
pub open spec fn crossfaded<S, M: Fn(S, S, S, S) -> S>(
    mix: M,
    faded: Seq<S>,
    from: Seq<S>,
    to: Seq<S>,
    window: Seq<S>,
    frames: int,
) -> bool {
    &&& faded.len() == from.len()
    &&& forall|n: int|
        0 <= n < frames ==> call_ensures(
            mix,
            (from[n], window[n], to[n], window[frames + n]),
            #[trigger] faded[n],
        )
    &&& forall|n: int| frames <= n < from.len() ==> faded[n] == from[n]
}

/// `new_out` is `old_out` after one overlap-add step at `start` of a block
/// of `2 * hop` frames: once output has started, the first half of `block`
/// is mixed into the frames from `start` on (the old frames weighted by the
/// falling half of `window`, the block by its rising half) and the second
/// half is copied after them; before that, the whole block is copied.
pub open spec fn overlap_added<S, M: Fn(S, S, S, S) -> S>(
    mix: M,
    new_out: Seq<S>,
    old_out: Seq<S>,
    block: Seq<S>,
    window: Seq<S>,
    start: int,
    hop: int,
    started: bool,
) -> bool {
    &&& new_out.len() == old_out.len()
    &&& forall|i: int|
        0 <= i < old_out.len() && !(start <= i < start + 2 * hop) ==> new_out[i] == old_out[i]
    &&& if started {
        &&& forall|n: int|
            0 <= n < hop ==> call_ensures(
                mix,
                (old_out[start + n], window[hop + n], block[n], window[n]),
                #[trigger] new_out[start + n],
            )
        &&& forall|n: int| hop <= n < 2 * hop ==> #[trigger] new_out[start + n] == block[n]
    } else {
        forall|n: int| 0 <= n < 2 * hop ==> #[trigger] new_out[start + n] == block[n]
    }
}

/// Replaces each of the first `frames` samples of `row` by `mix` of it
/// weighted by `window[n]` and `other[n]` weighted by `window[frames + n]`.
pub fn crossfade_row<S: Copy, M: Fn(S, S, S, S) -> S>(
    row: &mut Vec<S>,
    other: &Vec<S>,
    window: &Vec<S>,
    frames: usize,
    mix: &M,
)
    requires
        frames <= old(row)@.len(),
        frames <= other@.len(),
        2 * frames <= window@.len(),
        mix_total(*mix),
    ensures
        crossfaded(*mix, final(row)@, old(row)@, other@, window@, frames as int),
{
    let ghost orig = row@;
    let wlen = window.len();
    let mut n: usize = 0;
    while n < frames
        invariant
            wlen == window@.len(),
            frames <= orig.len(),
            frames <= other@.len(),
            2 * frames <= window@.len(),
            mix_total(*mix),
            row@.len() == orig.len(),
            n <= frames,
            forall|k: int|
                0 <= k < n ==> call_ensures(
                    *mix,
                    (orig[k], window@[k], other@[k], window@[frames + k]),
                    #[trigger] row@[k],
                ),
            forall|k: int| n <= k < orig.len() ==> row@[k] == orig[k],
        decreases frames - n,
    {
        let v = mix(row[n], window[n], other[n], window[frames + n]);
        row[n] = v;
        n += 1;
    }
}

/// Crossfades the first `frames` frames of each of the first `channels`
/// rows of `block` into the same row of `other`, as `crossfade_row` does.
pub fn crossfade_block<S: Copy, M: Fn(S, S, S, S) -> S>(
    block: &mut Vec<Vec<S>>,
    channels: usize,
    other: &Vec<Vec<S>>,
    window: &Vec<S>,
    frames: usize,
    mix: &M,
)
    requires
        channels <= old(block)@.len(),
        channels <= other@.len(),
        forall|c: int| 0 <= c < channels ==> frames <= (#[trigger] old(block)@[c])@.len(),
        forall|c: int| 0 <= c < channels ==> frames <= (#[trigger] other@[c])@.len(),
        2 * frames <= window@.len(),
        mix_total(*mix),
    ensures
        final(block)@.len() == old(block)@.len(),
        forall|c: int|
            0 <= c < channels ==> crossfaded(
                *mix,
                (#[trigger] final(block)@[c])@,
                old(block)@[c]@,
                other@[c]@,
                window@,
                frames as int,
            ),
        forall|c: int| channels <= c < old(block)@.len() ==> final(block)@[c] == old(block)@[c],
{
    let ghost orig = block@;
    let mut i: usize = 0;
    while i < channels
        invariant
            channels <= orig.len(),
            channels <= other@.len(),
            block@.len() == orig.len(),
            i <= channels,
            forall|c: int| 0 <= c < channels ==> frames <= (#[trigger] orig[c])@.len(),
            forall|c: int| 0 <= c < channels ==> frames <= (#[trigger] other@[c])@.len(),
            2 * frames <= window@.len(),
            mix_total(*mix),
            forall|c: int|
                0 <= c < i ==> crossfaded(
                    *mix,
                    (#[trigger] block@[c])@,
                    orig[c]@,
                    other@[c]@,
                    window@,
                    frames as int,
                ),
            forall|c: int| i <= c < orig.len() ==> block@[c] == orig[c],
        decreases channels - i,
    {
        assert(block@[i as int] == orig[i as int]);
        assert(frames <= orig[i as int]@.len());
        assert(frames <= other@[i as int]@.len());
        crossfade_row(&mut block[i], &other[i], window, frames, mix);
        i += 1;
    }
}

/// One overlap-add step on `row` at `start` with `block` of `2 * hop`
/// frames, as `overlap_added` states.
pub fn overlap_add_row<S: Copy, M: Fn(S, S, S, S) -> S>(
    row: &mut Vec<S>,
    start: usize,
    block: &Vec<S>,
    window: &Vec<S>,
    hop: usize,
    started: bool,
    mix: &M,
)
    requires
        start + 2 * hop <= old(row)@.len(),
        2 * hop <= block@.len(),
        2 * hop <= window@.len(),
        mix_total(*mix),
    ensures
        overlap_added(*mix, final(row)@, old(row)@, block@, window@, start as int, hop as int, started),
{
    let ghost orig = row@;
    let len = row.len();
    if started {
        let mut n: usize = 0;
        while n < hop
            invariant
                len == orig.len(),
                start + 2 * hop <= orig.len(),
                2 * hop <= block@.len(),
                2 * hop <= window@.len(),
                mix_total(*mix),
                row@.len() == orig.len(),
                n <= hop,
                forall|k: int|
                    0 <= k < n ==> call_ensures(
                        *mix,
                        (orig[start + k], window@[hop + k], block@[k], window@[k]),
                        #[trigger] row@[start + k],
                    ),
                forall|i: int| 0 <= i < orig.len() && !(start <= i < start + n) ==> row@[i] == orig[i],
            decreases hop - n,
        {
            let out_idx = start + n;
            let v = mix(row[out_idx], window[hop + n], block[n], window[n]);
            row[out_idx] = v;
            n += 1;
        }
        let ghost mixed = row@;
        let mut m: usize = 0;
        while m < hop
            invariant
                len == orig.len(),
                start + 2 * hop <= orig.len(),
                2 * hop <= block@.len(),
                row@.len() == orig.len(),
                mixed.len() == orig.len(),
                forall|k: int|
                    0 <= k < hop ==> call_ensures(
                        *mix,
                        (orig[start + k], window@[hop + k], block@[k], window@[k]),
                        #[trigger] mixed[start + k],
                    ),
                forall|i: int| 0 <= i < orig.len() && !(start <= i < start + hop) ==> mixed[i] == orig[i],
                m <= hop,
                forall|k: int| 0 <= k < m ==> #[trigger] row@[start + hop + k] == block@[hop + k],
                forall|i: int|
                    0 <= i < orig.len() && !(start + hop <= i < start + hop + m) ==> row@[i]
                        == mixed[i],
            decreases hop - m,
        {
            let v = block[hop + m];
            row[start + hop + m] = v;
            m += 1;
        }
        assert forall|n: int| 0 <= n < hop implies call_ensures(
            *mix,
            (orig[start + n], window@[hop + n], block@[n], window@[n]),
            #[trigger] row@[start + n],
        ) by {
            assert(row@[start + n] == mixed[start + n]);
        }
        assert forall|n: int| hop <= n < 2 * hop implies #[trigger] row@[start + n] == block@[n] by {
            assert(row@[start + hop + (n - hop)] == block@[hop + (n - hop)]);
        }
    } else {
        let mut n: usize = 0;
        while n < 2 * hop
            invariant
                len == orig.len(),
                start + 2 * hop <= orig.len(),
                2 * hop <= block@.len(),
                row@.len() == orig.len(),
                n <= 2 * hop,
                forall|k: int| 0 <= k < n ==> #[trigger] row@[start + k] == block@[k],
                forall|i: int| 0 <= i < orig.len() && !(start <= i < start + n) ==> row@[i] == orig[i],
            decreases 2 * hop - n,
        {
            let v = block[n];
            row[start + n] = v;
            n += 1;
        }
    }
}

/// `overlap_add_row` on each of the first `channels` rows of `out` with the
/// same row of `block`.
pub fn overlap_add_block<S: Copy, M: Fn(S, S, S, S) -> S>(
    out: &mut Vec<Vec<S>>,
    channels: usize,
    start: usize,
    block: &Vec<Vec<S>>,
    window: &Vec<S>,
    hop: usize,
    started: bool,
    mix: &M,
)
    requires
        channels <= old(out)@.len(),
        channels <= block@.len(),
        forall|c: int| 0 <= c < channels ==> start + 2 * hop <= (#[trigger] old(out)@[c])@.len(),
        forall|c: int| 0 <= c < channels ==> 2 * hop <= (#[trigger] block@[c])@.len(),
        2 * hop <= window@.len(),
        mix_total(*mix),
    ensures
        final(out)@.len() == old(out)@.len(),
        forall|c: int|
            0 <= c < channels ==> overlap_added(
                *mix,
                (#[trigger] final(out)@[c])@,
                old(out)@[c]@,
                block@[c]@,
                window@,
                start as int,
                hop as int,
                started,
            ),
        forall|c: int| channels <= c < old(out)@.len() ==> final(out)@[c] == old(out)@[c],
{
    let ghost orig = out@;
    let mut i: usize = 0;
    while i < channels
        invariant
            channels <= orig.len(),
            channels <= block@.len(),
            out@.len() == orig.len(),
            i <= channels,
            forall|c: int| 0 <= c < channels ==> start + 2 * hop <= (#[trigger] orig[c])@.len(),
            forall|c: int| 0 <= c < channels ==> 2 * hop <= (#[trigger] block@[c])@.len(),
            2 * hop <= window@.len(),
            mix_total(*mix),
            forall|c: int|
                0 <= c < i ==> overlap_added(
                    *mix,
                    (#[trigger] out@[c])@,
                    orig[c]@,
                    block@[c]@,
                    window@,
                    start as int,
                    hop as int,
                    started,
                ),
            forall|c: int| i <= c < orig.len() ==> out@[c] == orig[c],
        decreases channels - i,
    {
        assert(out@[i as int] == orig[i as int]);
        assert(start + 2 * hop <= orig[i as int]@.len());
        assert(2 * hop <= block@[i as int]@.len());
        overlap_add_row(&mut out[i], start, &block[i], window, hop, started, mix);
        i += 1;
    }
}

} // verus!
