use vstd::prelude::*;

verus! {

/// `block` holds `channels` rows of `frames` samples each.
pub open spec fn is_block<S>(block: &Vec<Vec<S>>, channels: int, frames: int) -> bool {
    &&& block@.len() == channels
    &&& forall|c: int| 0 <= c < channels ==> (#[trigger] block@[c])@.len() == frames
}

/// `frames` samples of `row` read from position `offset` on, where the
/// positions before the start of `row` read as `silence`.
pub open spec fn peeked<S>(row: Seq<S>, offset: int, frames: int, silence: S) -> Seq<S> {
    Seq::new(frames as nat, |i: int| if offset + i < 0 { silence } else { row[offset + i] })
}

/// `row` with the `part.len()` samples from `start` on replaced by `part`.
pub open spec fn spliced<S>(row: Seq<S>, start: int, part: Seq<S>) -> Seq<S> {
    row.subrange(0, start) + part + row.subrange(start + part.len(), row.len() as int)
}

/// Removes the first `count` samples of `row`.
pub fn drop_front<S: Copy>(row: &mut Vec<S>, count: usize)
    requires
        count <= old(row)@.len(),
    ensures
        final(row)@ == old(row)@.subrange(count as int, old(row)@.len() as int),
{
    let ghost orig = row@;
    let len = row.len();
    let keep = len - count;
    let mut i: usize = 0;
    while i < keep
        invariant
            len == orig.len(),
            keep == len - count,
            row@.len() == len,
            i <= keep,
            forall|j: int| 0 <= j < i ==> row@[j] == orig[j + count],
            forall|j: int| i <= j < len ==> row@[j] == orig[j],
        decreases keep - i,
    {
        let v = row[i + count];
        row[i] = v;
        i += 1;
    }
    row.truncate(keep);
    assert(row@ =~= orig.subrange(count as int, len as int));
}

/// Appends `count` copies of `value` to `row`.
pub fn push_repeated<S: Copy>(row: &mut Vec<S>, count: usize, value: S)
    ensures
        final(row)@ == old(row)@ + Seq::new(count as nat, |i: int| value),
{
    let ghost orig = row@;
    let mut i: usize = 0;
    while i < count
        invariant
            i <= count,
            row@ =~= orig + Seq::new(i as nat, |k: int| value),
        decreases count - i,
    {
        row.push(value);
        i += 1;
    }
}

/// Sets the `count` samples of `row` from `start` on to `value`.
pub fn fill_range<S: Copy>(row: &mut Vec<S>, start: usize, count: usize, value: S)
    requires
        start + count <= old(row)@.len(),
    ensures
        final(row)@ == spliced(old(row)@, start as int, Seq::new(count as nat, |i: int| value)),
{
    let ghost orig = row@;
    let len = row.len();
    let mut i: usize = 0;
    while i < count
        invariant
            start + count <= orig.len(),
            len == orig.len(),
            row@.len() == orig.len(),
            i <= count,
            forall|j: int| 0 <= j < start ==> row@[j] == orig[j],
            forall|j: int| start <= j < start + i ==> row@[j] == value,
            forall|j: int| start + i <= j < orig.len() ==> row@[j] == orig[j],
        decreases count - i,
    {
        row[start + i] = value;
        i += 1;
    }
    assert(row@ =~= spliced(orig, start as int, Seq::new(count as nat, |i: int| value)));
}

/// Copies `count` samples of `src` from `src_start` on into `row` from
/// `start` on.
pub fn copy_range<S: Copy>(row: &mut Vec<S>, start: usize, src: &Vec<S>, src_start: usize, count: usize)
    requires
        start + count <= old(row)@.len(),
        src_start + count <= src@.len(),
    ensures
        final(row)@ == spliced(
            old(row)@,
            start as int,
            src@.subrange(src_start as int, src_start + count),
        ),
{
    let ghost orig = row@;
    let len = row.len();
    let mut i: usize = 0;
    while i < count
        invariant
            start + count <= orig.len(),
            src_start + count <= src@.len(),
            src_start + count <= src.len(),
            len == orig.len(),
            row@.len() == orig.len(),
            i <= count,
            forall|j: int| 0 <= j < start ==> row@[j] == orig[j],
            forall|j: int| start <= j < start + i ==> row@[j] == src@[src_start + j - start],
            forall|j: int| start + i <= j < orig.len() ==> row@[j] == orig[j],
        decreases count - i,
    {
        let v = src[src_start + i];
        row[start + i] = v;
        i += 1;
    }
    assert(row@ =~= spliced(
        orig,
        start as int,
        src@.subrange(src_start as int, src_start + count),
    ));
}

/// Writes into the first `dest_frames` samples of each of the first
/// `channels` rows of `dest` the frames of `input` from `read_offset_frames`
/// on; frames before the start of `input` are written as `silence`.
pub fn peek_audio_with_zero_prepend<S: Copy>(
    input: &Vec<Vec<S>>,
    channels: usize,
    read_offset_frames: isize,
    dest: &mut Vec<Vec<S>>,
    dest_frames: usize,
    silence: S,
)
    requires
        read_offset_frames > isize::MIN,
        channels <= input@.len(),
        channels <= old(dest)@.len(),
        forall|c: int| 0 <= c < channels ==> dest_frames <= (#[trigger] old(dest)@[c])@.len(),
        forall|c: int|
            0 <= c < channels ==> read_offset_frames + dest_frames <= (#[trigger] input@[c])@.len(),
    ensures
        final(dest)@.len() == old(dest)@.len(),
        forall|c: int|
            0 <= c < channels ==> (#[trigger] final(dest)@[c])@ == peeked(
                input@[c]@,
                read_offset_frames as int,
                dest_frames as int,
                silence,
            ) + old(dest)@[c]@.subrange(dest_frames as int, old(dest)@[c]@.len() as int),
        forall|c: int| channels <= c < old(dest)@.len() ==> final(dest)@[c] == old(dest)@[c],
{
    let ghost orig = dest@;
    let mut write_offset: usize = 0;
    let mut num_frames_to_read: usize = dest_frames;
    let mut actual_read_offset: isize = read_offset_frames;

    if read_offset_frames < 0 {
        let num_zero_frames_appended: usize = (-read_offset_frames) as usize;
        let num_zero_frames_appended: usize = if num_zero_frames_appended < num_frames_to_read {
            num_zero_frames_appended
        } else {
            num_frames_to_read
        };
        actual_read_offset = 0;
        num_frames_to_read -= num_zero_frames_appended;
        write_offset = num_zero_frames_appended;

        let mut ch: usize = 0;
        while ch < channels
            invariant
                channels <= orig.len(),
                dest@.len() == orig.len(),
                ch <= channels,
                write_offset <= dest_frames,
                forall|c: int| 0 <= c < channels ==> dest_frames <= (#[trigger] orig[c])@.len(),
                forall|c: int|
                    0 <= c < ch ==> (#[trigger] dest@[c])@ == spliced(
                        orig[c]@,
                        0,
                        Seq::new(write_offset as nat, |i: int| silence),
                    ),
                forall|c: int| ch <= c < orig.len() ==> dest@[c] == orig[c],
            decreases channels - ch,
        {
            assert(dest@[ch as int] == orig[ch as int]);
            assert(dest_frames <= orig[ch as int]@.len());
            fill_range(&mut dest[ch], 0, write_offset, silence);
            ch += 1;
        }
    }
    let ghost mid = dest@;
    assert(mid.len() == orig.len());
    assert(forall|c: int| 0 <= c < channels ==> (#[trigger] mid[c])@.len() == orig[c]@.len());

    if num_frames_to_read > 0 {
        let start: usize = actual_read_offset as usize;
        let mut i: usize = 0;
        while i < channels
            invariant
                channels <= orig.len(),
                channels <= input@.len(),
                dest@.len() == orig.len(),
                mid.len() == orig.len(),
                i <= channels,
                write_offset + num_frames_to_read == dest_frames,
                forall|c: int| 0 <= c < channels ==> dest_frames <= (#[trigger] mid[c])@.len(),
                forall|c: int|
                    0 <= c < channels ==> start + num_frames_to_read <= (#[trigger] input@[c])@.len(),
                forall|c: int|
                    0 <= c < i ==> (#[trigger] dest@[c])@ == spliced(
                        mid[c]@,
                        write_offset as int,
                        input@[c]@.subrange(start as int, start + num_frames_to_read),
                    ),
                forall|c: int| i <= c < orig.len() ==> dest@[c] == mid[c],
            decreases channels - i,
        {
            assert(dest@[i as int] == mid[i as int]);
            assert(dest_frames <= mid[i as int]@.len());
            assert(start + num_frames_to_read <= input@[i as int]@.len());
            copy_range(&mut dest[i], write_offset, &input[i], start, num_frames_to_read);
            i += 1;
        }
    }
    assert forall|c: int| 0 <= c < channels implies (#[trigger] dest@[c])@ == peeked(
        input@[c]@,
        read_offset_frames as int,
        dest_frames as int,
        silence,
    ) + orig[c]@.subrange(dest_frames as int, orig[c]@.len() as int) by {
        assert(dest@[c]@ =~= peeked(
            input@[c]@,
            read_offset_frames as int,
            dest_frames as int,
            silence,
        ) + orig[c]@.subrange(dest_frames as int, orig[c]@.len() as int));
    }
}

/// `frames` samples of `silence`.
pub open spec fn silent<S>(frames: int, silence: S) -> Seq<S> {
    Seq::new(frames as nat, |i: int| silence)
}

/// A block of `channels` rows of `frames` samples of `silence`.
pub fn silent_block<S: Copy>(channels: usize, frames: usize, silence: S) -> (block: Vec<Vec<S>>)
    ensures
        is_block(&block, channels as int, frames as int),
        forall|c: int| 0 <= c < channels ==> (#[trigger] block@[c])@ == silent(frames as int, silence),
{
    let mut block: Vec<Vec<S>> = Vec::new();
    let mut c: usize = 0;
    while c < channels
        invariant
            c <= channels,
            block@.len() == c,
            forall|k: int| 0 <= k < c ==> (#[trigger] block@[k])@ == silent(frames as int, silence),
        decreases channels - c,
    {
        let mut row: Vec<S> = Vec::new();
        push_repeated(&mut row, frames, silence);
        assert(row@ =~= silent(frames as int, silence));
        block.push(row);
        c += 1;
    }
    block
}

/// Removes the first `count` frames of each of the first `channels` rows.
pub fn drop_front_block<S: Copy>(block: &mut Vec<Vec<S>>, channels: usize, count: usize)
    requires
        channels <= old(block)@.len(),
        forall|c: int| 0 <= c < channels ==> count <= (#[trigger] old(block)@[c])@.len(),
    ensures
        final(block)@.len() == old(block)@.len(),
        forall|c: int|
            0 <= c < channels ==> (#[trigger] final(block)@[c])@ == old(block)@[c]@.subrange(
                count as int,
                old(block)@[c]@.len() as int,
            ),
        forall|c: int| channels <= c < old(block)@.len() ==> final(block)@[c] == old(block)@[c],
{
    let ghost orig = block@;
    let mut i: usize = 0;
    while i < channels
        invariant
            channels <= orig.len(),
            block@.len() == orig.len(),
            i <= channels,
            forall|c: int| 0 <= c < channels ==> count <= (#[trigger] orig[c])@.len(),
            forall|c: int|
                0 <= c < i ==> (#[trigger] block@[c])@ == orig[c]@.subrange(
                    count as int,
                    orig[c]@.len() as int,
                ),
            forall|c: int| i <= c < orig.len() ==> block@[c] == orig[c],
        decreases channels - i,
    {
        assert(block@[i as int] == orig[i as int]);
        assert(count <= orig[i as int]@.len());
        drop_front(&mut block[i], count);
        i += 1;
    }
}

/// Appends `count` samples of `value` to each of the first `channels` rows.
pub fn push_repeated_block<S: Copy>(block: &mut Vec<Vec<S>>, channels: usize, count: usize, value: S)
    requires
        channels <= old(block)@.len(),
    ensures
        final(block)@.len() == old(block)@.len(),
        forall|c: int|
            0 <= c < channels ==> (#[trigger] final(block)@[c])@ == old(block)@[c]@ + silent(
                count as int,
                value,
            ),
        forall|c: int| channels <= c < old(block)@.len() ==> final(block)@[c] == old(block)@[c],
{
    let ghost orig = block@;
    let mut i: usize = 0;
    while i < channels
        invariant
            channels <= orig.len(),
            block@.len() == orig.len(),
            i <= channels,
            forall|c: int|
                0 <= c < i ==> (#[trigger] block@[c])@ == orig[c]@ + silent(count as int, value),
            forall|c: int| i <= c < orig.len() ==> block@[c] == orig[c],
        decreases channels - i,
    {
        assert(block@[i as int] == orig[i as int]);
        push_repeated(&mut block[i], count, value);
        assert(block@[i as int]@ =~= orig[i as int]@ + silent(count as int, value));
        i += 1;
    }
}

/// Empties each of the first `channels` rows.
pub fn clear_block<S>(block: &mut Vec<Vec<S>>, channels: usize)
    requires
        channels <= old(block)@.len(),
    ensures
        final(block)@.len() == old(block)@.len(),
        forall|c: int| 0 <= c < channels ==> (#[trigger] final(block)@[c])@ == Seq::<S>::empty(),
        forall|c: int| channels <= c < old(block)@.len() ==> final(block)@[c] == old(block)@[c],
{
    let ghost orig = block@;
    let mut i: usize = 0;
    while i < channels
        invariant
            channels <= orig.len(),
            block@.len() == orig.len(),
            i <= channels,
            forall|c: int| 0 <= c < i ==> (#[trigger] block@[c])@ == Seq::<S>::empty(),
            forall|c: int| i <= c < orig.len() ==> block@[c] == orig[c],
        decreases channels - i,
    {
        block[i].clear();
        i += 1;
    }
}

/// Sets the `count` frames from `start` on of each of the first `channels`
/// rows to `value`.
pub fn fill_block<S: Copy>(block: &mut Vec<Vec<S>>, channels: usize, start: usize, count: usize, value: S)
    requires
        channels <= old(block)@.len(),
        forall|c: int| 0 <= c < channels ==> start + count <= (#[trigger] old(block)@[c])@.len(),
    ensures
        final(block)@.len() == old(block)@.len(),
        forall|c: int|
            0 <= c < channels ==> (#[trigger] final(block)@[c])@ == spliced(
                old(block)@[c]@,
                start as int,
                silent(count as int, value),
            ),
        forall|c: int| channels <= c < old(block)@.len() ==> final(block)@[c] == old(block)@[c],
{
    let ghost orig = block@;
    let mut i: usize = 0;
    while i < channels
        invariant
            channels <= orig.len(),
            block@.len() == orig.len(),
            i <= channels,
            forall|c: int| 0 <= c < channels ==> start + count <= (#[trigger] orig[c])@.len(),
            forall|c: int|
                0 <= c < i ==> (#[trigger] block@[c])@ == spliced(
                    orig[c]@,
                    start as int,
                    silent(count as int, value),
                ),
            forall|c: int| i <= c < orig.len() ==> block@[c] == orig[c],
        decreases channels - i,
    {
        assert(block@[i as int] == orig[i as int]);
        assert(start + count <= orig[i as int]@.len());
        fill_range(&mut block[i], start, count, value);
        i += 1;
    }
}

/// Copies, for each of the first `channels` rows, `count` frames of `src`
/// from `src_start` on into `block` from `start` on.
pub fn copy_block<S: Copy>(
    block: &mut Vec<Vec<S>>,
    channels: usize,
    start: usize,
    src: &Vec<Vec<S>>,
    src_start: usize,
    count: usize,
)
    requires
        channels <= old(block)@.len(),
        channels <= src@.len(),
        forall|c: int| 0 <= c < channels ==> start + count <= (#[trigger] old(block)@[c])@.len(),
        forall|c: int| 0 <= c < channels ==> src_start + count <= (#[trigger] src@[c])@.len(),
    ensures
        final(block)@.len() == old(block)@.len(),
        forall|c: int|
            0 <= c < channels ==> (#[trigger] final(block)@[c])@ == spliced(
                old(block)@[c]@,
                start as int,
                src@[c]@.subrange(src_start as int, src_start + count),
            ),
        forall|c: int| channels <= c < old(block)@.len() ==> final(block)@[c] == old(block)@[c],
{
    let ghost orig = block@;
    let mut i: usize = 0;
    while i < channels
        invariant
            channels <= orig.len(),
            channels <= src@.len(),
            block@.len() == orig.len(),
            i <= channels,
            forall|c: int| 0 <= c < channels ==> start + count <= (#[trigger] orig[c])@.len(),
            forall|c: int| 0 <= c < channels ==> src_start + count <= (#[trigger] src@[c])@.len(),
            forall|c: int|
                0 <= c < i ==> (#[trigger] block@[c])@ == spliced(
                    orig[c]@,
                    start as int,
                    src@[c]@.subrange(src_start as int, src_start + count),
                ),
            forall|c: int| i <= c < orig.len() ==> block@[c] == orig[c],
        decreases channels - i,
    {
        assert(block@[i as int] == orig[i as int]);
        assert(start + count <= orig[i as int]@.len());
        assert(src_start + count <= src@[i as int]@.len());
        copy_range(&mut block[i], start, &src[i], src_start, count);
        i += 1;
    }
}

/// Appends, to each of the first `channels` rows, the first `count` frames
/// of the same row of `src`.
pub fn append_block<S: Copy>(block: &mut Vec<Vec<S>>, channels: usize, src: &Vec<Vec<S>>, count: usize)
    requires
        channels <= old(block)@.len(),
        channels <= src@.len(),
        forall|c: int| 0 <= c < channels ==> count <= (#[trigger] src@[c])@.len(),
    ensures
        final(block)@.len() == old(block)@.len(),
        forall|c: int|
            0 <= c < channels ==> (#[trigger] final(block)@[c])@ == old(block)@[c]@ + src@[c]@.subrange(
                0,
                count as int,
            ),
        forall|c: int| channels <= c < old(block)@.len() ==> final(block)@[c] == old(block)@[c],
{
    let ghost orig = block@;
    let mut i: usize = 0;
    while i < channels
        invariant
            channels <= orig.len(),
            channels <= src@.len(),
            block@.len() == orig.len(),
            i <= channels,
            forall|c: int| 0 <= c < channels ==> count <= (#[trigger] src@[c])@.len(),
            forall|c: int|
                0 <= c < i ==> (#[trigger] block@[c])@ == orig[c]@ + src@[c]@.subrange(
                    0,
                    count as int,
                ),
            forall|c: int| i <= c < orig.len() ==> block@[c] == orig[c],
        decreases channels - i,
    {
        assert(block@[i as int] == orig[i as int]);
        assert(count <= src@[i as int]@.len());
        let ghost before = block@[i as int]@;
        let mut f: usize = 0;
        while f < count
            invariant
                i < channels,
                channels <= orig.len(),
                channels <= src@.len(),
                block@.len() == orig.len(),
                count <= src@[i as int]@.len(),
                f <= count,
                before == orig[i as int]@,
                block@[i as int]@ == before + src@[i as int]@.subrange(0, f as int),
                forall|c: int|
                    0 <= c < i ==> (#[trigger] block@[c])@ == orig[c]@ + src@[c]@.subrange(
                        0,
                        count as int,
                    ),
                forall|c: int| i < c < orig.len() ==> block@[c] == orig[c],
            decreases count - f,
        {
            let v = src[i][f];
            block[i].push(v);
            assert(block@[i as int]@ =~= before + src@[i as int]@.subrange(0, f + 1));
            f += 1;
        }
        i += 1;
    }
}

/// Reading inside the row gives its frames unchanged.
pub proof fn lemma_peek_within_row<S>(row: Seq<S>, offset: int, frames: int, silence: S)
    requires
        0 <= offset,
        0 <= frames,
        offset + frames <= row.len(),
    ensures
        peeked(row, offset, frames, silence) == row.subrange(offset, offset + frames),
{
    assert(peeked(row, offset, frames, silence) =~= row.subrange(offset, offset + frames));
}

/// Reading wholly before the start of the row gives silence only.
pub proof fn lemma_peek_before_row<S>(row: Seq<S>, offset: int, frames: int, silence: S)
    requires
        0 <= frames,
        offset + frames <= 0,
    ensures
        peeked(row, offset, frames, silence) == silent(frames, silence),
{
    assert(peeked(row, offset, frames, silence) =~= silent(frames, silence));
}

} // verus!
