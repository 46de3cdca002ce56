use vstd::prelude::*;

use crate::frames::{
    append_block, clear_block, copy_block, drop_front_block, fill_block, is_block,
    push_repeated_block, silent, silent_block, spliced,
};
use crate::frames::{peek_audio_with_zero_prepend, peeked};
use crate::layout::{WsolaLayout, MAX_FRAMES};
use crate::mixing::{crossfade_block, crossfaded, mix_total, overlap_add_block, overlap_added};
use crate::search::{exclude_interval, exclude_interval_spec};

verus! {

/// The frame state of a WSOLA time stretcher: the buffered input, the
/// blocks that one iteration reads and writes, the overlap-added output and
/// the positions of the target and search blocks in the input buffer.
///
/// Every channel is one row of each block. Positions are counted in frames
/// from the first frame that the input buffer still holds.
pub struct WsolaCore<S> {
    pub channels: usize,
    pub sample_rate: u32,
    pub layout: WsolaLayout,
    pub search_block_index: isize,
    pub target_block_index: isize,
    pub num_complete_frames: usize,
    pub wsola_output_started: bool,
    pub ola_window: Vec<S>,
    pub transition_window: Vec<S>,
    pub wsola_output: Vec<Vec<S>>,
    pub optimal_block: Vec<Vec<S>>,
    pub search_block: Vec<Vec<S>>,
    pub target_block: Vec<Vec<S>>,
    pub input_buffer: Vec<Vec<S>>,
    pub input_buffer_final_frames: usize,
    pub input_buffer_added_silence: usize,
    pub optimal_index: isize,
    pub silence: S,
}

pub open spec fn max_int(a: int, b: int) -> int {
    if a >= b {
        a
    } else {
        b
    }
}

pub open spec fn min_int(a: int, b: int) -> int {
    if a <= b {
        a
    } else {
        b
    }
}

/// `a - b`, or 0 where that is negative.
pub open spec fn saturating_sub(a: int, b: int) -> int {
    if a >= b {
        a - b
    } else {
        0
    }
}

impl<S: Copy> WsolaCore<S> {
    /// Number of frames that the input buffer holds.
    pub open spec fn frames(&self) -> int {
        self.input_buffer@[0]@.len() as int
    }

    /// The relations between the fields that every operation keeps.
    pub open spec fn wf(&self) -> bool {
        let w = self.layout.ola_window_size as int;
        let ch = self.channels as int;
        &&& self.layout.wf()
        &&& self.channels >= 1
        &&& self.ola_window@.len() == w
        &&& self.transition_window@.len() == 2 * w
        &&& is_block(&self.input_buffer, ch, self.frames())
        &&& self.frames() <= MAX_FRAMES
        &&& is_block(&self.wsola_output, ch, self.layout.wsola_output_size as int)
        &&& is_block(&self.optimal_block, ch, w)
        &&& is_block(&self.target_block, ch, w)
        &&& is_block(&self.search_block, ch, self.layout.search_block_size as int)
        &&& self.num_complete_frames <= w
        &&& -MAX_FRAMES <= self.target_block_index <= MAX_FRAMES
        &&& -2 * MAX_FRAMES <= self.search_block_index <= MAX_FRAMES
        &&& -MAX_FRAMES <= self.optimal_index <= MAX_FRAMES
        &&& self.input_buffer_final_frames <= MAX_FRAMES
    }

    /// Frames that the input buffer lacks before an iteration whose search
    /// block starts at `search_index` can run: enough for the target block
    /// and for the search block, and never less than none.
    pub open spec fn needed_frames(&self, search_index: int) -> int {
        max_int(
            max_int(
                self.target_block_index + self.layout.ola_window_size - self.frames(),
                search_index + self.layout.search_block_size - self.frames(),
            ),
            0,
        )
    }

    /// The target block lies inside the search block.
    pub open spec fn target_within_search(&self) -> bool {
        &&& self.target_block_index >= self.search_block_index
        &&& self.target_block_index + self.layout.ola_window_size <= self.search_block_index
            + self.layout.search_block_size
    }

    /// The candidate positions that the search skips: those around the
    /// position in the search block that continues the previous output.
    pub open spec fn exclusion(&self) -> (isize, isize) {
        exclude_interval_spec(
            self.target_block_index - self.layout.ola_hop_size - self.search_block_index,
        )
    }

    /// `post` is this state after the optimal block was chosen: where the
    /// target block lies in the search block it is taken as it is;
    /// otherwise the target and search blocks are read from the input,
    /// `find` picks a candidate position in the search block (one past the
    /// last counts as the last), and the block read there is crossfaded into
    /// the target block. The next target block starts one hop after it.
    pub open spec fn chose_optimal_block<F, M>(&self, post: Self, find: F, mix: M) -> bool where
        F: Fn(&Vec<Vec<S>>, &Vec<Vec<S>>, (isize, isize)) -> usize,
        M: Fn(S, S, S, S) -> S,
     {
        let w = self.layout.ola_window_size as int;
        let ch = self.channels as int;
        &&& post == (WsolaCore {
            optimal_block: post.optimal_block,
            target_block: post.target_block,
            search_block: post.search_block,
            optimal_index: post.optimal_index,
            target_block_index: (post.optimal_index + self.layout.ola_hop_size) as isize,
            ..*self
        })
        &&& post.optimal_block@.len() == ch
        &&& if self.target_within_search() {
            &&& post.optimal_index == self.target_block_index
            &&& post.target_block == self.target_block
            &&& post.search_block == self.search_block
            &&& forall|c: int|
                0 <= c < ch ==> (#[trigger] post.optimal_block@[c])@ == peeked(
                    self.input_buffer@[c]@,
                    self.target_block_index as int,
                    w,
                    self.silence,
                )
        } else {
            &&& post.target_block@.len() == ch
            &&& post.search_block@.len() == ch
            &&& forall|c: int|
                0 <= c < ch ==> (#[trigger] post.target_block@[c])@ == peeked(
                    self.input_buffer@[c]@,
                    self.target_block_index as int,
                    w,
                    self.silence,
                )
            &&& forall|c: int|
                0 <= c < ch ==> (#[trigger] post.search_block@[c])@ == peeked(
                    self.input_buffer@[c]@,
                    self.search_block_index as int,
                    self.layout.search_block_size as int,
                    self.silence,
                )
            &&& exists|r: usize|
                #[trigger] call_ensures(find, (&post.search_block, &post.target_block, self.exclusion()), r)
                    && post.optimal_index == min_int(
                    r as int,
                    self.layout.num_candidate_blocks - 1,
                ) + self.search_block_index
            &&& forall|c: int|
                0 <= c < ch ==> crossfaded(
                    mix,
                    (#[trigger] post.optimal_block@[c])@,
                    peeked(self.input_buffer@[c]@, post.optimal_index as int, w, self.silence),
                    post.target_block@[c]@,
                    self.transition_window@,
                    w,
                )
        }
    }

    /// `post` is this state after an iteration with the search block at
    /// `search_index` that dropped `removed` input frames: the frames before
    /// both blocks are dropped and both positions move back by as many, the
    /// optimal block is chosen on that state, and it is overlap-added into
    /// the output at the completed frames, which grow by one hop.
    pub open spec fn iteration_step<F, M>(
        &self,
        post: Self,
        search_index: int,
        removed: int,
        find: F,
        mix: M,
    ) -> bool where
        F: Fn(&Vec<Vec<S>>, &Vec<Vec<S>>, (isize, isize)) -> usize,
        M: Fn(S, S, S, S) -> S,
     {
        let rebased = WsolaCore {
            input_buffer: post.input_buffer,
            input_buffer_final_frames: post.input_buffer_final_frames,
            target_block_index: (self.target_block_index - removed) as isize,
            search_block_index: (search_index - removed) as isize,
            ..*self
        };
        let chosen = WsolaCore {
            wsola_output: self.wsola_output,
            num_complete_frames: self.num_complete_frames,
            wsola_output_started: self.wsola_output_started,
            ..post
        };
        &&& removed == max_int(
            min_int(self.target_block_index as int, search_index as int),
            0,
        )
        &&& post.input_buffer@.len() == self.input_buffer@.len()
        &&& forall|c: int|
            0 <= c < self.channels ==> (#[trigger] post.input_buffer@[c])@
                == self.input_buffer@[c]@.subrange(removed, self.frames())
        &&& post.input_buffer_final_frames == saturating_sub(
            self.input_buffer_final_frames as int,
            removed,
        )
        &&& rebased.chose_optimal_block(chosen, find, mix)
        &&& post.wsola_output@.len() == self.wsola_output@.len()
        &&& forall|c: int|
            0 <= c < self.channels ==> overlap_added(
                mix,
                (#[trigger] post.wsola_output@[c])@,
                self.wsola_output@[c]@,
                post.optimal_block@[c]@,
                self.ola_window@,
                self.num_complete_frames as int,
                self.layout.ola_hop_size as int,
                self.wsola_output_started,
            )
        &&& post.num_complete_frames == self.num_complete_frames
            + self.layout.ola_hop_size
        &&& post.wsola_output_started
    }

    /// `find` accepts every argument tuple.
    pub open spec fn finder_total<F: Fn(&Vec<Vec<S>>, &Vec<Vec<S>>, (isize, isize)) -> usize>(
        find: F,
    ) -> bool {
        forall|sb: &Vec<Vec<S>>, tb: &Vec<Vec<S>>, ex: (isize, isize)|
            call_requires(find, (sb, tb, ex))
    }

    /// A fresh state for `channels` channels: empty input, silent blocks,
    /// nothing rendered yet.
    pub fn new(
        channels: usize,
        sample_rate: u32,
        layout: WsolaLayout,
        ola_window: Vec<S>,
        transition_window: Vec<S>,
        silence: S,
    ) -> (st: Self)
        requires
            channels >= 1,
            layout.wf(),
            ola_window@.len() == layout.ola_window_size,
            transition_window@.len() == 2 * layout.ola_window_size,
        ensures
            st.wf(),
            st.channels == channels,
            st.sample_rate == sample_rate,
            st.layout == layout,
            st.ola_window == ola_window,
            st.transition_window == transition_window,
            st.silence == silence,
            st.search_block_index == 0,
            st.target_block_index == 0,
            st.optimal_index == 0,
            st.num_complete_frames == 0,
            !st.wsola_output_started,
            st.input_buffer_final_frames == 0,
            st.input_buffer_added_silence == 0,
            st.frames() == 0,
            forall|c: int|
                0 <= c < channels ==> {
                    &&& (#[trigger] st.wsola_output@[c])@ == silent(
                        layout.wsola_output_size as int,
                        silence,
                    )
                    &&& st.optimal_block@[c]@ == silent(layout.ola_window_size as int, silence)
                    &&& st.target_block@[c]@ == silent(layout.ola_window_size as int, silence)
                    &&& st.search_block@[c]@ == silent(layout.search_block_size as int, silence)
                },
    {
        let wsola_output = silent_block(channels, layout.wsola_output_size, silence);
        let optimal_block = silent_block(channels, layout.ola_window_size, silence);
        let search_block = silent_block(channels, layout.search_block_size, silence);
        let target_block = silent_block(channels, layout.ola_window_size, silence);
        let input_buffer = silent_block(channels, 0, silence);
        assert(input_buffer@[0]@ =~= Seq::<S>::empty());
        WsolaCore {
            channels,
            sample_rate,
            layout,
            search_block_index: 0,
            target_block_index: 0,
            num_complete_frames: 0,
            wsola_output_started: false,
            ola_window,
            transition_window,
            wsola_output,
            optimal_block,
            search_block,
            target_block,
            input_buffer,
            input_buffer_final_frames: 0,
            input_buffer_added_silence: 0,
            optimal_index: 0,
            silence,
        }
    }

    /// Drops the buffered input and the pending output and returns to the
    /// start position, keeping the layout and windows.
    pub fn reset(&mut self)
        requires
            old(self).wf(),
        ensures
            final(self).wf(),
            *final(self) == (WsolaCore {
                input_buffer: final(self).input_buffer,
                wsola_output: final(self).wsola_output,
                input_buffer_final_frames: 0,
                input_buffer_added_silence: 0,
                search_block_index: 0,
                target_block_index: 0,
                num_complete_frames: 0,
                wsola_output_started: false,
                ..*old(self)
            }),
            final(self).input_buffer@.len() == old(self).input_buffer@.len(),
            final(self).wsola_output@.len() == old(self).wsola_output@.len(),
            forall|c: int|
                0 <= c < old(self).channels ==> {
                    &&& (#[trigger] final(self).input_buffer@[c])@ == Seq::<S>::empty()
                    &&& final(self).wsola_output@[c]@ == silent(
                        old(self).layout.wsola_output_size as int,
                        old(self).silence,
                    )
                },
    {
        let channels = self.channels;
        let size = self.layout.wsola_output_size;
        let silence = self.silence;
        clear_block(&mut self.input_buffer, channels);
        fill_block(&mut self.wsola_output, channels, 0, size, silence);
        proof {
            assert forall|c: int| 0 <= c < channels implies (#[trigger] self.wsola_output@[c])@
                == silent(size as int, silence) by {
                assert(self.wsola_output@[c]@ =~= silent(size as int, silence));
            }
        }
        self.input_buffer_final_frames = 0;
        self.input_buffer_added_silence = 0;
        self.search_block_index = 0;
        self.target_block_index = 0;
        self.num_complete_frames = 0;
        self.wsola_output_started = false;
    }

    /// Number of frames that the input buffer holds.
    pub fn input_buffer_frames(&self) -> (n: usize)
        requires
            self.wf(),
        ensures
            n == self.frames(),
    {
        self.input_buffer[0].len()
    }

    /// Drops the first `frames` frames of the input buffer, and as many of
    /// the frames marked as final input.
    pub fn seek_buffer(&mut self, frames: usize)
        requires
            old(self).wf(),
            frames <= old(self).frames(),
        ensures
            final(self).wf(),
            *final(self) == (WsolaCore {
                input_buffer: final(self).input_buffer,
                input_buffer_final_frames: saturating_sub(
                    old(self).input_buffer_final_frames as int,
                    frames as int,
                ) as usize,
                ..*old(self)
            }),
            final(self).input_buffer@.len() == old(self).input_buffer@.len(),
            forall|c: int|
                0 <= c < old(self).channels ==> (#[trigger] final(self).input_buffer@[c])@
                    == old(self).input_buffer@[c]@.subrange(frames as int, old(self).frames()),
            final(self).frames() == old(self).frames() - frames,
    {
        if self.input_buffer_final_frames > 0 {
            self.input_buffer_final_frames = if self.input_buffer_final_frames >= frames {
                self.input_buffer_final_frames - frames
            } else {
                0
            };
        }
        let channels = self.channels;
        drop_front_block(&mut self.input_buffer, channels, frames);
    }

    /// Marks everything buffered so far as the final input, unless that was
    /// done before.
    pub fn set_final(&mut self)
        requires
            old(self).wf(),
        ensures
            final(self).wf(),
            *final(self) == (WsolaCore {
                input_buffer_final_frames: if old(self).input_buffer_final_frames == 0 {
                    old(self).frames() as usize
                } else {
                    old(self).input_buffer_final_frames
                },
                ..*old(self)
            }),
    {
        if self.input_buffer_final_frames == 0 {
            self.input_buffer_final_frames = self.input_buffer_frames();
        }
    }

    /// Whether the target block lies inside the search block.
    pub fn target_is_within_search_region(&self) -> (r: bool)
        requires
            self.wf(),
        ensures
            r == (self.target_block_index >= self.search_block_index
                && self.target_block_index + self.layout.ola_window_size
                <= self.search_block_index + self.layout.search_block_size),
    {
        self.target_block_index >= self.search_block_index && self.target_block_index
            + self.layout.ola_window_size as isize <= self.search_block_index
            + self.layout.search_block_size as isize
    }

    /// Frames the input buffer lacks for an iteration whose search block
    /// starts at `search_index`.
    pub fn frames_needed(&self, search_index: isize) -> (r: isize)
        requires
            self.wf(),
            -MAX_FRAMES <= search_index <= MAX_FRAMES,
        ensures
            r == self.needed_frames(search_index as int),
    {
        let frames = self.input_buffer_frames() as isize;
        let target_needed = self.target_block_index + self.layout.ola_window_size as isize - frames;
        let search_needed = search_index + self.layout.search_block_size as isize - frames;
        let most = if target_needed >= search_needed {
            target_needed
        } else {
            search_needed
        };
        if most >= 0 {
            most
        } else {
            0
        }
    }

    /// Whether the input buffer holds every frame that an iteration whose
    /// search block starts at `search_index` reads.
    pub fn can_perform_wsola(&self, search_index: isize) -> (r: bool)
        requires
            self.wf(),
            -MAX_FRAMES <= search_index <= MAX_FRAMES,
        ensures
            r == (self.needed_frames(search_index as int) <= 0),
    {
        self.frames_needed(search_index) <= 0
    }

    /// Pads the input buffer with silence up to what an iteration whose
    /// search block starts at `search_index` reads.
    pub fn add_input_buffer_final_silence(&mut self, search_index: isize)
        requires
            old(self).wf(),
            -MAX_FRAMES <= search_index <= MAX_FRAMES,
            old(self).frames() + old(self).needed_frames(search_index as int) <= MAX_FRAMES,
            old(self).input_buffer_added_silence + old(self).needed_frames(search_index as int)
                <= usize::MAX,
        ensures
            final(self).wf(),
            *final(self) == (WsolaCore {
                input_buffer: final(self).input_buffer,
                input_buffer_added_silence: (old(self).input_buffer_added_silence
                    + old(self).needed_frames(search_index as int)) as usize,
                ..*old(self)
            }),
            final(self).input_buffer@.len() == old(self).input_buffer@.len(),
            forall|c: int|
                0 <= c < old(self).channels ==> (#[trigger] final(self).input_buffer@[c])@
                    == old(self).input_buffer@[c]@ + silent(
                    old(self).needed_frames(search_index as int),
                    old(self).silence,
                ),
            final(self).needed_frames(search_index as int) == 0,
    {
        let needed = self.frames_needed(search_index);
        if needed <= 0 {
            proof {
                let c = self.channels;
                assert forall|k: int| 0 <= k < c implies (#[trigger] self.input_buffer@[k])@
                    == self.input_buffer@[k]@ + silent(0, self.silence) by {
                    assert(self.input_buffer@[k]@ =~= self.input_buffer@[k]@ + silent(
                        0,
                        self.silence,
                    ));
                }
            }
            return ;
        }
        let needed_usize = needed as usize;
        let channels = self.channels;
        let silence = self.silence;
        push_repeated_block(&mut self.input_buffer, channels, needed_usize, silence);
        self.input_buffer_added_silence += needed_usize;
    }

    /// Appends the first `count` frames of each row of `chunk` to the input
    /// buffer.
    pub fn push_input(&mut self, chunk: &Vec<Vec<S>>, count: usize)
        requires
            old(self).wf(),
            old(self).channels <= chunk@.len(),
            forall|c: int| 0 <= c < old(self).channels ==> count <= (#[trigger] chunk@[c])@.len(),
            old(self).frames() + count <= MAX_FRAMES,
        ensures
            final(self).wf(),
            *final(self) == (WsolaCore { input_buffer: final(self).input_buffer, ..*old(self) }),
            final(self).input_buffer@.len() == old(self).input_buffer@.len(),
            forall|c: int|
                0 <= c < old(self).channels ==> (#[trigger] final(self).input_buffer@[c])@
                    == old(self).input_buffer@[c]@ + chunk@[c]@.subrange(0, count as int),
            final(self).frames() == old(self).frames() + count,
    {
        let channels = self.channels;
        append_block(&mut self.input_buffer, channels, chunk, count);
    }

    /// Drops the input frames before both the target and the search block
    /// and moves both positions back by as many frames; returns how many
    /// frames were dropped.
    pub fn remove_old_input_frames(&mut self) -> (removed: usize)
        requires
            old(self).wf(),
            min_int(old(self).target_block_index as int, old(self).search_block_index as int)
                <= old(self).frames(),
        ensures
            final(self).wf(),
            removed == max_int(
                min_int(
                    old(self).target_block_index as int,
                    old(self).search_block_index as int,
                ),
                0,
            ),
            *final(self) == (WsolaCore {
                input_buffer: final(self).input_buffer,
                input_buffer_final_frames: saturating_sub(
                    old(self).input_buffer_final_frames as int,
                    removed as int,
                ) as usize,
                target_block_index: (old(self).target_block_index - removed) as isize,
                search_block_index: (old(self).search_block_index - removed) as isize,
                ..*old(self)
            }),
            final(self).input_buffer@.len() == old(self).input_buffer@.len(),
            forall|c: int|
                0 <= c < old(self).channels ==> (#[trigger] final(self).input_buffer@[c])@
                    == old(self).input_buffer@[c]@.subrange(removed as int, old(self).frames()),
            forall|i: int|
                -MAX_FRAMES <= i <= MAX_FRAMES ==> #[trigger] final(self).needed_frames(i - removed)
                    == old(self).needed_frames(i),
    {
        let earliest_used_index = if self.target_block_index <= self.search_block_index {
            self.target_block_index
        } else {
            self.search_block_index
        };
        if earliest_used_index <= 0 {
            proof {
                let c = self.channels;
                assert forall|k: int| 0 <= k < c implies (#[trigger] self.input_buffer@[k])@
                    == self.input_buffer@[k]@.subrange(0, self.frames()) by {
                    assert(self.input_buffer@[k]@ =~= self.input_buffer@[k]@.subrange(
                        0,
                        self.frames(),
                    ));
                }
            }
            return 0;
        }
        let frames = earliest_used_index as usize;
        self.seek_buffer(frames);
        self.target_block_index -= earliest_used_index;
        self.search_block_index -= earliest_used_index;
        frames
    }

    /// Stops overlap-adding and places the search block where the target
    /// block is centred in it, then drops the input frames before both;
    /// returns how many frames were dropped.
    pub fn resync_to_target(&mut self) -> (removed: usize)
        requires
            old(self).wf(),
            old(self).target_block_index - old(self).layout.search_block_center_offset
                <= old(self).frames(),
        ensures
            final(self).wf(),
            removed == max_int(
                old(self).target_block_index - old(self).layout.search_block_center_offset,
                0,
            ),
            *final(self) == (WsolaCore {
                input_buffer: final(self).input_buffer,
                input_buffer_final_frames: saturating_sub(
                    old(self).input_buffer_final_frames as int,
                    removed as int,
                ) as usize,
                wsola_output_started: false,
                target_block_index: (old(self).target_block_index - removed) as isize,
                search_block_index: (old(self).target_block_index
                    - old(self).layout.search_block_center_offset - removed) as isize,
                ..*old(self)
            }),
            final(self).input_buffer@.len() == old(self).input_buffer@.len(),
            forall|c: int|
                0 <= c < old(self).channels ==> (#[trigger] final(self).input_buffer@[c])@
                    == old(self).input_buffer@[c]@.subrange(removed as int, old(self).frames()),
    {
        self.wsola_output_started = false;
        self.search_block_index = self.target_block_index
            - self.layout.search_block_center_offset as isize;
        self.remove_old_input_frames()
    }

    /// Copies up to `dest_size` input frames from the target block position
    /// on into the rows of `dest` and drops as many frames from the front of
    /// the input buffer; returns how many frames were copied.
    pub fn read_input_buffer(&mut self, dest_size: usize, dest: &mut Vec<Vec<S>>) -> (copied: usize)
        requires
            old(self).wf(),
            old(self).channels <= old(dest)@.len(),
            forall|c: int|
                0 <= c < old(self).channels ==> min_int(
                    dest_size as int,
                    saturating_sub(
                        old(self).frames(),
                        max_int(old(self).target_block_index as int, 0),
                    ),
                ) <= (#[trigger] old(dest)@[c])@.len(),
        ensures
            final(self).wf(),
            copied == min_int(
                dest_size as int,
                saturating_sub(old(self).frames(), max_int(old(self).target_block_index as int, 0)),
            ),
            *final(self) == (WsolaCore {
                input_buffer: final(self).input_buffer,
                input_buffer_final_frames: saturating_sub(
                    old(self).input_buffer_final_frames as int,
                    copied as int,
                ) as usize,
                ..*old(self)
            }),
            final(self).input_buffer@.len() == old(self).input_buffer@.len(),
            forall|c: int|
                0 <= c < old(self).channels ==> (#[trigger] final(self).input_buffer@[c])@
                    == old(self).input_buffer@[c]@.subrange(copied as int, old(self).frames()),
            final(dest)@.len() == old(dest)@.len(),
            copied > 0 ==> forall|c: int|
                0 <= c < old(self).channels ==> (#[trigger] final(dest)@[c])@ == spliced(
                    old(dest)@[c]@,
                    0,
                    old(self).input_buffer@[c]@.subrange(
                        max_int(old(self).target_block_index as int, 0),
                        max_int(old(self).target_block_index as int, 0) + copied,
                    ),
                ),
            copied == 0 ==> *final(dest) == *old(dest),
            forall|c: int|
                old(self).channels <= c < old(dest)@.len() ==> final(dest)@[c] == old(dest)@[c],
    {
        let target_idx: usize = if self.target_block_index >= 0 {
            self.target_block_index as usize
        } else {
            0
        };
        let frames = self.input_buffer_frames();
        let available: usize = if frames >= target_idx {
            frames - target_idx
        } else {
            0
        };
        let frames_to_copy = if dest_size <= available {
            dest_size
        } else {
            available
        };
        if frames_to_copy == 0 {
            proof {
                let c = self.channels;
                assert forall|k: int| 0 <= k < c implies (#[trigger] self.input_buffer@[k])@
                    == self.input_buffer@[k]@.subrange(0, self.frames()) by {
                    assert(self.input_buffer@[k]@ =~= self.input_buffer@[k]@.subrange(
                        0,
                        self.frames(),
                    ));
                }
            }
            return 0;
        }
        let channels = self.channels;
        copy_block(dest, channels, 0, &self.input_buffer, target_idx, frames_to_copy);
        self.seek_buffer(frames_to_copy);
        frames_to_copy
    }

    /// Moves up to `requested_frames` completed output frames into the rows
    /// of `dest` from `dest_offset` on, shifts the remaining output to the
    /// front and fills its end with silence; returns how many frames moved.
    pub fn write_completed_frames_to(
        &mut self,
        requested_frames: usize,
        dest: &mut Vec<Vec<S>>,
        dest_offset: usize,
    ) -> (written: usize)
        requires
            old(self).wf(),
            old(self).channels <= old(dest)@.len(),
            forall|c: int|
                0 <= c < old(self).channels ==> dest_offset + min_int(
                    old(self).num_complete_frames as int,
                    requested_frames as int,
                ) <= (#[trigger] old(dest)@[c])@.len(),
        ensures
            final(self).wf(),
            written == min_int(old(self).num_complete_frames as int, requested_frames as int),
            *final(self) == (WsolaCore {
                wsola_output: final(self).wsola_output,
                num_complete_frames: (old(self).num_complete_frames - written) as usize,
                ..*old(self)
            }),
            final(self).wsola_output@.len() == old(self).wsola_output@.len(),
            forall|c: int|
                0 <= c < old(self).channels ==> (#[trigger] final(self).wsola_output@[c])@
                    == old(self).wsola_output@[c]@.subrange(
                    written as int,
                    old(self).layout.wsola_output_size as int,
                ) + silent(written as int, old(self).silence),
            final(dest)@.len() == old(dest)@.len(),
            forall|c: int|
                0 <= c < old(self).channels ==> (#[trigger] final(dest)@[c])@ == spliced(
                    old(dest)@[c]@,
                    dest_offset as int,
                    old(self).wsola_output@[c]@.subrange(0, written as int),
                ),
            forall|c: int|
                old(self).channels <= c < old(dest)@.len() ==> final(dest)@[c] == old(dest)@[c],
    {
        let rendered_frames = if self.num_complete_frames <= requested_frames {
            self.num_complete_frames
        } else {
            requested_frames
        };
        if rendered_frames == 0 {
            proof {
                let c = self.channels;
                let size = self.layout.wsola_output_size as int;
                assert forall|k: int| 0 <= k < c implies (#[trigger] self.wsola_output@[k])@
                    == self.wsola_output@[k]@.subrange(0, size) + silent(0, self.silence) by {
                    assert(self.wsola_output@[k]@ =~= self.wsola_output@[k]@.subrange(0, size)
                        + silent(0, self.silence));
                }
                assert forall|k: int| 0 <= k < c implies (#[trigger] dest@[k])@ == spliced(
                    dest@[k]@,
                    dest_offset as int,
                    self.wsola_output@[k]@.subrange(0, 0),
                ) by {
                    assert(dest@[k]@ =~= spliced(
                        dest@[k]@,
                        dest_offset as int,
                        self.wsola_output@[k]@.subrange(0, 0),
                    ));
                }
            }
            return 0;
        }
        let channels = self.channels;
        let silence = self.silence;
        copy_block(dest, channels, dest_offset, &self.wsola_output, 0, rendered_frames);
        drop_front_block(&mut self.wsola_output, channels, rendered_frames);
        push_repeated_block(&mut self.wsola_output, channels, rendered_frames, silence);
        self.num_complete_frames -= rendered_frames;
        rendered_frames
    }

    /// Whether rendering can go on: final input lies past the target block,
    /// an iteration whose search block starts at `search_index` can run, or
    /// completed output is waiting.
    pub fn frames_available(&self, search_index: isize) -> (r: bool)
        requires
            self.wf(),
            -MAX_FRAMES <= search_index <= MAX_FRAMES,
        ensures
            r == ((self.input_buffer_final_frames > max_int(self.target_block_index as int, 0)
                && self.input_buffer_final_frames > 0) || self.needed_frames(search_index as int)
                <= 0 || self.num_complete_frames > 0),
    {
        let target: usize = if self.target_block_index >= 0 {
            self.target_block_index as usize
        } else {
            0
        };
        (self.input_buffer_final_frames > target && self.input_buffer_final_frames > 0)
            || self.can_perform_wsola(search_index) || self.num_complete_frames > 0
    }

    /// Chooses the block to overlap-add next and the target position after
    /// it, as `chose_optimal_block` states.
    pub fn get_optimal_block<F, M>(&mut self, find: &F, mix: &M) where
        F: Fn(&Vec<Vec<S>>, &Vec<Vec<S>>, (isize, isize)) -> usize,
        M: Fn(S, S, S, S) -> S,

        requires
            old(self).wf(),
            old(self).target_block_index + old(self).layout.ola_window_size <= old(self).frames(),
            old(self).search_block_index + old(self).layout.search_block_size <= old(self).frames(),
            -MAX_FRAMES <= old(self).search_block_index,
            !old(self).target_within_search() ==> old(self).layout.num_candidate_blocks >= 1,
            Self::finder_total(*find),
            mix_total(*mix),
        ensures
            final(self).wf(),
            old(self).chose_optimal_block(*final(self), *find, *mix),
    {
        let channels = self.channels;
        let w = self.layout.ola_window_size;
        let silence = self.silence;
        if self.target_is_within_search_region() {
            let target = self.target_block_index;
            peek_audio_with_zero_prepend(
                &self.input_buffer,
                channels,
                target,
                &mut self.optimal_block,
                w,
                silence,
            );
            proof {
                assert forall|c: int| 0 <= c < channels implies (#[trigger] self.optimal_block@[c])@
                    == peeked(old(self).input_buffer@[c]@, target as int, w as int, silence) by {
                    assert(self.optimal_block@[c]@ =~= peeked(
                        old(self).input_buffer@[c]@,
                        target as int,
                        w as int,
                        silence,
                    ));
                }
            }
            self.optimal_index = target;
        } else {
            let target = self.target_block_index;
            let search = self.search_block_index;
            let sbs = self.layout.search_block_size;
            peek_audio_with_zero_prepend(
                &self.input_buffer,
                channels,
                target,
                &mut self.target_block,
                w,
                silence,
            );
            peek_audio_with_zero_prepend(
                &self.input_buffer,
                channels,
                search,
                &mut self.search_block,
                sbs,
                silence,
            );
            proof {
                assert forall|c: int| 0 <= c < channels implies (#[trigger] self.target_block@[c])@
                    == peeked(old(self).input_buffer@[c]@, target as int, w as int, silence) by {
                    assert(self.target_block@[c]@ =~= peeked(
                        old(self).input_buffer@[c]@,
                        target as int,
                        w as int,
                        silence,
                    ));
                }
                assert forall|c: int| 0 <= c < channels implies (#[trigger] self.search_block@[c])@
                    == peeked(old(self).input_buffer@[c]@, search as int, sbs as int, silence) by {
                    assert(self.search_block@[c]@ =~= peeked(
                        old(self).input_buffer@[c]@,
                        search as int,
                        sbs as int,
                        silence,
                    ));
                }
            }
            let last_optimal = target - self.layout.ola_hop_size as isize - search;
            let excluded = exclude_interval(last_optimal);
            let found = find(&self.search_block, &self.target_block, excluded);
            let nc = self.layout.num_candidate_blocks;
            let candidate = if found < nc {
                found
            } else {
                nc - 1
            };
            let optimal = candidate as isize + search;
            peek_audio_with_zero_prepend(
                &self.input_buffer,
                channels,
                optimal,
                &mut self.optimal_block,
                w,
                silence,
            );
            let ghost peeked_block = self.optimal_block@;
            proof {
                assert forall|c: int| 0 <= c < channels implies (#[trigger] peeked_block[c])@
                    == peeked(old(self).input_buffer@[c]@, optimal as int, w as int, silence) by {
                    assert(peeked_block[c]@ =~= peeked(
                        old(self).input_buffer@[c]@,
                        optimal as int,
                        w as int,
                        silence,
                    ));
                }
            }
            crossfade_block(
                &mut self.optimal_block,
                channels,
                &self.target_block,
                &self.transition_window,
                w,
                mix,
            );
            self.optimal_index = optimal;
        }
        self.target_block_index = self.optimal_index + self.layout.ola_hop_size as isize;
    }

    /// One WSOLA iteration with the search block at `search_index`, if the
    /// input buffer holds every frame it reads: drops the input frames that
    /// no block needs any more, chooses the optimal block and overlap-adds
    /// it into the output, which then holds one more hop of completed
    /// frames. Returns how many input frames were dropped, or `None` when
    /// frames are missing, in which case nothing changes. An iteration that
    /// has to search needs at least one candidate block.
    pub fn run_one_wsola_iteration<F, M>(&mut self, search_index: isize, find: &F, mix: &M) -> (r:
        Option<usize>) where
        F: Fn(&Vec<Vec<S>>, &Vec<Vec<S>>, (isize, isize)) -> usize,
        M: Fn(S, S, S, S) -> S,

        requires
            old(self).wf(),
            -MAX_FRAMES <= search_index <= MAX_FRAMES,
            old(self).num_complete_frames <= old(self).layout.ola_hop_size,
            old(self).needed_frames(search_index as int) <= 0 && !(old(self).target_block_index
                >= search_index && old(self).target_block_index + old(self).layout.ola_window_size
                <= search_index + old(self).layout.search_block_size)
                ==> old(self).layout.num_candidate_blocks >= 1,
            Self::finder_total(*find),
            mix_total(*mix),
        ensures
            final(self).wf(),
            (r is None) == (old(self).needed_frames(search_index as int) > 0),
            r is None ==> *final(self) == *old(self),
            r matches Some(removed) ==> old(self).iteration_step(
                *final(self),
                search_index as int,
                removed as int,
                *find,
                *mix,
            ),
    {
        if !self.can_perform_wsola(search_index) {
            return None;
        }
        self.search_block_index = search_index;
        let removed = self.remove_old_input_frames();
        self.get_optimal_block(find, mix);
        let channels = self.channels;
        let start = self.num_complete_frames;
        let hop = self.layout.ola_hop_size;
        let started = self.wsola_output_started;
        overlap_add_block(
            &mut self.wsola_output,
            channels,
            start,
            &self.optimal_block,
            &self.ola_window,
            hop,
            started,
            mix,
        );
        self.num_complete_frames += hop;
        self.wsola_output_started = true;
        Some(removed)
    }

    /// Whether the state was made for `channels` channels at `sample_rate`.
    pub fn has_format(&self, channels: usize, sample_rate: u32) -> (r: bool)
        ensures
            r == (self.channels == channels && self.sample_rate == sample_rate),
    {
        self.channels == channels && self.sample_rate == sample_rate
    }
}

/// Buffering `count` more input frames lowers the frames an iteration
/// still lacks by `count`, down to none; nothing else changes them.
pub proof fn lemma_more_input_lowers_need<S: Copy>(
    pre: WsolaCore<S>,
    post: WsolaCore<S>,
    count: int,
    search_index: int,
)
    requires
        pre.wf(),
        0 <= count,
        post.frames() == pre.frames() + count,
        post.target_block_index == pre.target_block_index,
        post.layout == pre.layout,
    ensures
        post.needed_frames(search_index) == max_int(pre.needed_frames(search_index) - count, 0),
{
}

/// What choosing the optimal block does, read off the input: the target
/// block is taken unsearched exactly when it lies inside the search block,
/// and then every channel of the optimal block holds the input frames from
/// the target position on (silence before the input). Otherwise every
/// channel of the target and search blocks holds the input frames from their
/// positions, the search is handed those blocks and the interval of 160
/// positions centred where the previous block continues (target position
/// minus one hop, relative to the search block), the optimal position is
/// the search block position plus the search result clamped to the last
/// candidate, and every channel of the optimal block is the input read
/// there, crossfaded sample by sample into the target block. Either way the
/// next target starts one hop after the optimal position.
pub proof fn lemma_optimal_block_choice<S: Copy, F, M>(
    pre: WsolaCore<S>,
    post: WsolaCore<S>,
    find: F,
    mix: M,
) where
    F: Fn(&Vec<Vec<S>>, &Vec<Vec<S>>, (isize, isize)) -> usize,
    M: Fn(S, S, S, S) -> S,

    requires
        pre.chose_optimal_block(post, find, mix),
    ensures
        post.target_block_index == (post.optimal_index + pre.layout.ola_hop_size) as isize,
        post.input_buffer == pre.input_buffer,
        post.optimal_block@.len() == pre.channels,
        pre.search_block_index <= pre.target_block_index && pre.target_block_index
            + pre.layout.ola_window_size <= pre.search_block_index + pre.layout.search_block_size
            ==> {
            &&& post.optimal_index == pre.target_block_index
            &&& forall|c: int|
                0 <= c < pre.channels ==> (#[trigger] post.optimal_block@[c])@.len()
                    == pre.layout.ola_window_size
            &&& forall|c: int, n: int|
                0 <= c < pre.channels && 0 <= n < pre.layout.ola_window_size ==> #[trigger] post.optimal_block@[c]@[n]
                    == if pre.target_block_index + n < 0 {
                    pre.silence
                } else {
                    pre.input_buffer@[c]@[pre.target_block_index + n]
                }
        },
        !(pre.search_block_index <= pre.target_block_index && pre.target_block_index
            + pre.layout.ola_window_size <= pre.search_block_index + pre.layout.search_block_size)
            ==> {
            let last = pre.target_block_index - pre.layout.ola_hop_size - pre.search_block_index;
            let w = pre.layout.ola_window_size as int;
            &&& exists|r: usize|
                #[trigger] call_ensures(
                    find,
                    (&post.search_block, &post.target_block, ((last - 80) as isize, (last + 80) as isize)),
                    r,
                ) && post.optimal_index == pre.search_block_index + if r
                    < pre.layout.num_candidate_blocks {
                    r as int
                } else {
                    pre.layout.num_candidate_blocks - 1
                }
            &&& post.target_block@.len() == pre.channels
            &&& post.search_block@.len() == pre.channels
            &&& forall|c: int|
                0 <= c < pre.channels ==> {
                    &&& (#[trigger] post.optimal_block@[c])@.len() == w
                    &&& post.target_block@[c]@.len() == w
                    &&& post.search_block@[c]@.len() == pre.layout.search_block_size
                }
            &&& forall|c: int, n: int|
                0 <= c < pre.channels && 0 <= n < w ==> #[trigger] post.target_block@[c]@[n] == if pre.target_block_index
                    + n < 0 {
                    pre.silence
                } else {
                    pre.input_buffer@[c]@[pre.target_block_index + n]
                }
            &&& forall|c: int, n: int|
                0 <= c < pre.channels && 0 <= n < pre.layout.search_block_size ==> #[trigger] post.search_block@[c]@[n]
                    == if pre.search_block_index + n < 0 {
                    pre.silence
                } else {
                    pre.input_buffer@[c]@[pre.search_block_index + n]
                }
            &&& forall|c: int, n: int|
                0 <= c < pre.channels && 0 <= n < w ==> call_ensures(
                    mix,
                    (
                        if post.optimal_index + n < 0 {
                            pre.silence
                        } else {
                            pre.input_buffer@[c]@[post.optimal_index + n]
                        },
                        pre.transition_window@[n],
                        post.target_block@[c]@[n],
                        pre.transition_window@[w + n],
                    ),
                    #[trigger] post.optimal_block@[c]@[n],
                )
        },
{
    let w = pre.layout.ola_window_size as int;
    if pre.search_block_index <= pre.target_block_index && pre.target_block_index + w
        <= pre.search_block_index + pre.layout.search_block_size {
        assert(pre.target_within_search());
        assert forall|c: int, n: int|
            0 <= c < pre.channels && 0 <= n < w implies #[trigger] post.optimal_block@[c]@[n] == if pre.target_block_index
                + n < 0 {
            pre.silence
        } else {
            pre.input_buffer@[c]@[pre.target_block_index + n]
        } by {
            assert(post.optimal_block@[c]@ == peeked(
                pre.input_buffer@[c]@,
                pre.target_block_index as int,
                w,
                pre.silence,
            ));
        }
    } else {
        assert(!pre.target_within_search());
        let r = choose|r: usize|
            #[trigger] call_ensures(find, (&post.search_block, &post.target_block, pre.exclusion()), r)
                && post.optimal_index == min_int(r as int, pre.layout.num_candidate_blocks - 1)
                + pre.search_block_index;
        assert(call_ensures(find, (&post.search_block, &post.target_block, pre.exclusion()), r));
        assert forall|c: int, n: int|
            0 <= c < pre.channels && 0 <= n < w implies #[trigger] post.target_block@[c]@[n] == if pre.target_block_index
                + n < 0 {
            pre.silence
        } else {
            pre.input_buffer@[c]@[pre.target_block_index + n]
        } by {
            assert(post.target_block@[c]@ == peeked(
                pre.input_buffer@[c]@,
                pre.target_block_index as int,
                w,
                pre.silence,
            ));
        }
        assert forall|c: int, n: int|
            0 <= c < pre.channels && 0 <= n < pre.layout.search_block_size implies #[trigger] post.search_block@[c]@[n]
                == if pre.search_block_index + n < 0 {
            pre.silence
        } else {
            pre.input_buffer@[c]@[pre.search_block_index + n]
        } by {
            assert(post.search_block@[c]@ == peeked(
                pre.input_buffer@[c]@,
                pre.search_block_index as int,
                pre.layout.search_block_size as int,
                pre.silence,
            ));
        }
        assert forall|c: int, n: int|
            0 <= c < pre.channels && 0 <= n < w implies call_ensures(
            mix,
            (
                if post.optimal_index + n < 0 {
                    pre.silence
                } else {
                    pre.input_buffer@[c]@[post.optimal_index + n]
                },
                pre.transition_window@[n],
                post.target_block@[c]@[n],
                pre.transition_window@[w + n],
            ),
            #[trigger] post.optimal_block@[c]@[n],
        ) by {
            assert(crossfaded(
                mix,
                post.optimal_block@[c]@,
                peeked(pre.input_buffer@[c]@, post.optimal_index as int, w, pre.silence),
                post.target_block@[c]@,
                pre.transition_window@,
                w,
            ));
        }
    }
}

/// What one iteration does, read off the state before it: the input frames
/// before both the target position and the new search position are dropped
/// (none when either is not past the start), the target block is taken
/// unsearched exactly when it lies inside the search block at
/// `search_index`, and otherwise the search is handed the interval of 160
/// positions centred on the target position minus one hop minus
/// `search_index` and the optimal position becomes the search position
/// (after the drop) plus its clamped result. The next target starts one hop
/// after the optimal position. Each channel of the output changes only in
/// the two hops from the completed frames on: once output has started the
/// first hop mixes the old output (weighted by the falling half of the
/// window) with the optimal block (weighted by the rising half) and the
/// second hop is the rest of the optimal block; before that the whole
/// optimal block is copied. One more hop of output is then complete.
pub proof fn lemma_iteration_step<S: Copy, F, M>(
    pre: WsolaCore<S>,
    post: WsolaCore<S>,
    search_index: int,
    removed: int,
    find: F,
    mix: M,
) where
    F: Fn(&Vec<Vec<S>>, &Vec<Vec<S>>, (isize, isize)) -> usize,
    M: Fn(S, S, S, S) -> S,

    requires
        pre.wf(),
        -MAX_FRAMES <= search_index <= MAX_FRAMES,
        pre.iteration_step(post, search_index, removed, find, mix),
    ensures
        removed == if pre.target_block_index <= search_index {
            if pre.target_block_index > 0 {
                pre.target_block_index as int
            } else {
                0
            }
        } else {
            if search_index > 0 {
                search_index
            } else {
                0
            }
        },
        forall|c: int|
            0 <= c < pre.channels ==> (#[trigger] post.input_buffer@[c])@ == pre.input_buffer@[c]@.subrange(
                removed,
                pre.input_buffer@[0]@.len() as int,
            ),
        post.search_block_index == search_index - removed,
        search_index <= pre.target_block_index && pre.target_block_index
            + pre.layout.ola_window_size <= search_index + pre.layout.search_block_size
            ==> post.optimal_index == pre.target_block_index - removed,
        !(search_index <= pre.target_block_index && pre.target_block_index
            + pre.layout.ola_window_size <= search_index + pre.layout.search_block_size) ==> {
            let last = pre.target_block_index - pre.layout.ola_hop_size - search_index;
            exists|r: usize|
                #[trigger] call_ensures(
                    find,
                    (&post.search_block, &post.target_block, ((last - 80) as isize, (last + 80) as isize)),
                    r,
                ) && post.optimal_index == search_index - removed + if r
                    < pre.layout.num_candidate_blocks {
                    r as int
                } else {
                    pre.layout.num_candidate_blocks - 1
                }
        },
        post.target_block_index == (post.optimal_index + pre.layout.ola_hop_size) as isize,
        post.num_complete_frames == pre.num_complete_frames + pre.layout.ola_hop_size,
        post.wsola_output_started,
        forall|c: int|
            0 <= c < pre.channels ==> (#[trigger] post.wsola_output@[c])@.len()
                == pre.wsola_output@[c]@.len(),
        forall|c: int, i: int|
            0 <= c < pre.channels && 0 <= i < pre.wsola_output@[c]@.len() && !(
            pre.num_complete_frames <= i < pre.num_complete_frames + pre.layout.ola_window_size)
                ==> #[trigger] post.wsola_output@[c]@[i] == pre.wsola_output@[c]@[i],
        pre.wsola_output_started ==> forall|c: int, n: int|
            0 <= c < pre.channels && 0 <= n < pre.layout.ola_hop_size ==> call_ensures(
                mix,
                (
                    pre.wsola_output@[c]@[pre.num_complete_frames + n],
                    pre.ola_window@[pre.layout.ola_hop_size + n],
                    post.optimal_block@[c]@[n],
                    pre.ola_window@[n],
                ),
                #[trigger] post.wsola_output@[c]@[pre.num_complete_frames + n],
            ),
        pre.wsola_output_started ==> forall|c: int, n: int|
            0 <= c < pre.channels && pre.layout.ola_hop_size <= n < pre.layout.ola_window_size
                ==> #[trigger] post.wsola_output@[c]@[pre.num_complete_frames + n]
                == post.optimal_block@[c]@[n],
        !pre.wsola_output_started ==> forall|c: int, n: int|
            0 <= c < pre.channels && 0 <= n < pre.layout.ola_window_size
                ==> #[trigger] post.wsola_output@[c]@[pre.num_complete_frames + n]
                == post.optimal_block@[c]@[n],
{
    let rebased = WsolaCore {
        input_buffer: post.input_buffer,
        input_buffer_final_frames: post.input_buffer_final_frames,
        target_block_index: (pre.target_block_index - removed) as isize,
        search_block_index: (search_index - removed) as isize,
        ..pre
    };
    let chosen = WsolaCore {
        wsola_output: pre.wsola_output,
        num_complete_frames: pre.num_complete_frames,
        wsola_output_started: pre.wsola_output_started,
        ..post
    };
    lemma_optimal_block_choice(rebased, chosen, find, mix);
    assert(rebased.target_block_index == pre.target_block_index - removed);
    assert(rebased.search_block_index == search_index - removed);
    if !(search_index <= pre.target_block_index && pre.target_block_index
        + pre.layout.ola_window_size <= search_index + pre.layout.search_block_size) {
        let last = rebased.target_block_index - rebased.layout.ola_hop_size
            - rebased.search_block_index;
        assert(last == pre.target_block_index - pre.layout.ola_hop_size - search_index);
        let r = choose|r: usize|
            #[trigger] call_ensures(
                find,
                (&chosen.search_block, &chosen.target_block, ((last - 80) as isize, (last + 80) as isize)),
                r,
            ) && chosen.optimal_index == rebased.search_block_index + if r
                < rebased.layout.num_candidate_blocks {
                r as int
            } else {
                rebased.layout.num_candidate_blocks - 1
            };
        assert(call_ensures(
            find,
            (&post.search_block, &post.target_block, ((last - 80) as isize, (last + 80) as isize)),
            r,
        ));
    }
    assert forall|c: int, n: int|
        pre.wsola_output_started && 0 <= c < pre.channels && pre.layout.ola_hop_size <= n
            < pre.layout.ola_window_size implies #[trigger] post.wsola_output@[c]@[pre.num_complete_frames
        + n] == post.optimal_block@[c]@[n] by {
        assert(overlap_added(
            mix,
            post.wsola_output@[c]@,
            pre.wsola_output@[c]@,
            post.optimal_block@[c]@,
            pre.ola_window@,
            pre.num_complete_frames as int,
            pre.layout.ola_hop_size as int,
            pre.wsola_output_started,
        ));
    }
    assert forall|c: int, n: int|
        !pre.wsola_output_started && 0 <= c < pre.channels && 0 <= n < pre.layout.ola_window_size
            implies #[trigger] post.wsola_output@[c]@[pre.num_complete_frames + n]
        == post.optimal_block@[c]@[n] by {
        assert(overlap_added(
            mix,
            post.wsola_output@[c]@,
            pre.wsola_output@[c]@,
            post.optimal_block@[c]@,
            pre.ola_window@,
            pre.num_complete_frames as int,
            pre.layout.ola_hop_size as int,
            pre.wsola_output_started,
        ));
    }
    assert forall|c: int, n: int|
        pre.wsola_output_started && 0 <= c < pre.channels && 0 <= n < pre.layout.ola_hop_size
            implies call_ensures(
        mix,
        (
            pre.wsola_output@[c]@[pre.num_complete_frames + n],
            pre.ola_window@[pre.layout.ola_hop_size + n],
            post.optimal_block@[c]@[n],
            pre.ola_window@[n],
        ),
        #[trigger] post.wsola_output@[c]@[pre.num_complete_frames + n],
    ) by {
        assert(overlap_added(
            mix,
            post.wsola_output@[c]@,
            pre.wsola_output@[c]@,
            post.optimal_block@[c]@,
            pre.ola_window@,
            pre.num_complete_frames as int,
            pre.layout.ola_hop_size as int,
            pre.wsola_output_started,
        ));
    }
    assert forall|c: int, i: int|
        0 <= c < pre.channels && 0 <= i < pre.wsola_output@[c]@.len() && !(pre.num_complete_frames
            <= i < pre.num_complete_frames + pre.layout.ola_window_size) implies #[trigger] post.wsola_output@[c]@[i]
        == pre.wsola_output@[c]@[i] by {
        assert(overlap_added(
            mix,
            post.wsola_output@[c]@,
            pre.wsola_output@[c]@,
            post.optimal_block@[c]@,
            pre.ola_window@,
            pre.num_complete_frames as int,
            pre.layout.ola_hop_size as int,
            pre.wsola_output_started,
        ));
    }
}

} // verus!
