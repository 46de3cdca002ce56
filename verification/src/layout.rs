use vstd::prelude::*;

verus! {

/// Upper bound on every frame count and frame index that the state keeps,
/// so that sums of a few of them never overflow `isize` on any target.
pub const MAX_FRAMES: usize = 0x1000_0000;

/// Sizes of the blocks that one WSOLA iteration works on, derived from the
/// number of candidate blocks of the search interval and the length of the
/// overlap-add window, both in frames.
#[derive(Clone, Copy, Debug)]
pub struct WsolaLayout {
    pub num_candidate_blocks: usize,
    pub ola_window_size: usize,
    pub ola_hop_size: usize,
    pub search_block_center_offset: usize,
    pub search_block_size: usize,
    pub wsola_output_size: usize,
}

impl WsolaLayout {
    /// The relations between the sizes that `new` establishes.
    pub open spec fn wf(&self) -> bool {
        &&& self.num_candidate_blocks <= MAX_FRAMES
        &&& 2 <= self.ola_window_size <= MAX_FRAMES
        &&& self.ola_window_size % 2 == 0
        &&& self.ola_hop_size == self.ola_window_size / 2
        &&& self.search_block_center_offset == self.num_candidate_blocks / 2 + (
        self.ola_window_size / 2 - 1)
        &&& self.search_block_size == self.num_candidate_blocks + (self.ola_window_size - 1)
        &&& self.wsola_output_size == self.ola_window_size + self.ola_hop_size
    }

    /// Layout for `num_candidate_blocks` candidate positions and a window of
    /// `ola_window_frames` frames, rounded up to an even length.
    pub fn new(num_candidate_blocks: usize, ola_window_frames: usize) -> (l: Self)
        requires
            num_candidate_blocks <= MAX_FRAMES,
            1 <= ola_window_frames < MAX_FRAMES,
        ensures
            l.wf(),
            l.num_candidate_blocks == num_candidate_blocks,
            l.ola_window_size == ola_window_frames + ola_window_frames % 2,
    {
        let mut ola_window_size = ola_window_frames;
        let parity = ola_window_size & 1;
        assert(parity == ola_window_frames % 2) by (bit_vector)
            requires
                parity == ola_window_frames & 1,
        ;
        ola_window_size += parity;
        let ola_hop_size = ola_window_size / 2;
        let search_block_center_offset = num_candidate_blocks / 2 + (ola_window_size / 2 - 1);
        let search_block_size = num_candidate_blocks + (ola_window_size - 1);
        let wsola_output_size = ola_window_size + ola_hop_size;
        WsolaLayout {
            num_candidate_blocks,
            ola_window_size,
            ola_hop_size,
            search_block_center_offset,
            search_block_size,
            wsola_output_size,
        }
    }
}

} // verus!
