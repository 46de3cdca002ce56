//! Frame bookkeeping of a WSOLA (waveform similarity overlap-add) time
//! stretcher: block layout, input and output buffers, block extraction,
//! the overlap-add schedule and the interleaved sample queue.
//!
//! Samples are of any `Copy` type `S`; the numeric work on them (windows,
//! similarity search, weighted sums) is handed in by the caller.
mod frames;
mod layout;
mod mixing;
mod queue;
mod search;
mod state;

pub use frames::{
    append_block, clear_block, copy_block, drop_front_block, fill_block, is_block,
    lemma_peek_before_row, lemma_peek_within_row, peek_audio_with_zero_prepend, peeked,
    push_repeated_block, silent, silent_block, spliced,
};
pub use layout::{WsolaLayout, MAX_FRAMES};
pub use mixing::{crossfade_block, crossfaded, mix_total, overlap_add_block, overlap_added};
pub use queue::{deinterleave, interleaved, lemma_deinterleave_undoes_interleave, SampleQueue};
pub use search::{
    exclude_interval, exclude_interval_spec, is_excluded, search_limits,
    EXCLUDE_INTERVAL_LENGTH_FRAMES, SEARCH_DECIMATION,
};
pub use state::{lemma_more_input_lowers_need, lemma_iteration_step, lemma_optimal_block_choice, max_int, min_int, saturating_sub, WsolaCore};
