# rodio-wsola

Time stretching for rodio sources by WSOLA (waveform similarity
overlap-add): playback speed changes, pitch does not.

- `src/` is the verified library. It keeps the frame state of the
  stretcher for samples of any `Copy` type: the block layout derived from
  the window and search lengths (`layout.rs`), block reads with silence
  before the input (`frames.rs`), the input buffer, the choice of the next
  block and the overlap-add schedule (`state.rs`), crossfade and
  overlap-add over a caller's weighted sum (`mixing.rs`), the helpers of
  the similarity search (`search.rs`) and the interleaved sample queue
  (`queue.rs`). Every public function has a contract that Verus proves.
- `app/` is the rodio `Source` built on it: it reads samples from the
  wrapped source and does the floating-point work (Hann windows, the
  similarity search, the playback clock).
- `tests/` exercises the library on integer samples.
