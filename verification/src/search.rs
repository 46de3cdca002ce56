use vstd::prelude::*;

use crate::layout::MAX_FRAMES;

verus! {

/// Length of the interval of candidate positions around the previous
/// optimal block that the search skips.
pub const EXCLUDE_INTERVAL_LENGTH_FRAMES: isize = 160;

/// Step between the candidate positions of the coarse search.
pub const SEARCH_DECIMATION: usize = 5;

/// The interval of candidate positions centred on `last_optimal` that the
/// search skips, both ends included.
pub open spec fn exclude_interval_spec(last_optimal: int) -> (isize, isize) {
    (
        (last_optimal - EXCLUDE_INTERVAL_LENGTH_FRAMES / 2) as isize,
        (last_optimal + EXCLUDE_INTERVAL_LENGTH_FRAMES / 2) as isize,
    )
}

/// The skipped interval centred on `last_optimal`.
pub fn exclude_interval(last_optimal: isize) -> (r: (isize, isize))
    requires
        -4 * MAX_FRAMES <= last_optimal <= 4 * MAX_FRAMES,
    ensures
        r == exclude_interval_spec(last_optimal as int),
        r.0 == last_optimal - 80,
        r.1 == last_optimal + 80,
{
    (
        last_optimal - EXCLUDE_INTERVAL_LENGTH_FRAMES / 2,
        last_optimal + EXCLUDE_INTERVAL_LENGTH_FRAMES / 2,
    )
}

/// Whether candidate position `n` lies in `interval`, both ends included.
pub fn is_excluded(n: isize, interval: (isize, isize)) -> (r: bool)
    ensures
        r == (interval.0 <= n && n <= interval.1),
{
    n >= interval.0 && n <= interval.1
}

/// The candidate positions that the fine search visits around the result
/// `optimal_index` of the coarse search with step `decimation`: from
/// `decimation` before it (but not before the first) to `decimation` after
/// it (but not after the last of `num_candidate_blocks`).
pub fn search_limits(optimal_index: usize, decimation: usize, num_candidate_blocks: usize) -> (r: (
    usize,
    usize,
))
    requires
        num_candidate_blocks >= 1,
        optimal_index + decimation <= usize::MAX,
    ensures
        r.0 == if optimal_index >= decimation {
            optimal_index - decimation
        } else {
            0
        },
        r.1 == if optimal_index + decimation <= num_candidate_blocks - 1 {
            optimal_index + decimation
        } else {
            num_candidate_blocks - 1
        },
{
    let lim_low = if optimal_index >= decimation {
        optimal_index - decimation
    } else {
        0
    };
    let upper = optimal_index + decimation;
    let lim_high = if upper <= num_candidate_blocks - 1 {
        upper
    } else {
        num_candidate_blocks - 1
    };
    (lim_low, lim_high)
}

} // verus!
