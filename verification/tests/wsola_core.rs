use std::cell::Cell;

use rodio_wsola::{
    deinterleave, exclude_interval, fill_block, is_excluded, peek_audio_with_zero_prepend,
    search_limits, SampleQueue, WsolaCore, WsolaLayout, EXCLUDE_INTERVAL_LENGTH_FRAMES,
    SEARCH_DECIMATION,
};

fn mix(a: i64, wa: i64, b: i64, wb: i64) -> i64 {
    a * wa + b * wb
}

/// Layout with 4 candidate blocks and a 4 frame window: hop 2, search
/// block 7 frames, search centre 3, output 6 frames.
fn small_core(channels: usize) -> WsolaCore<i64> {
    let layout = WsolaLayout::new(4, 4);
    WsolaCore::new(
        channels,
        48000,
        layout,
        vec![1, 2, 3, 4],
        vec![10, 20, 30, 40, 50, 60, 70, 80],
        0,
    )
}

fn ramp(from: i64, to: i64) -> Vec<i64> {
    (from..=to).collect()
}

#[test]
fn layout_for_default_parameters_at_44100() {
    // 40 ms search interval and 12 ms window at 44.1 kHz.
    let l = WsolaLayout::new(1764, 529);
    assert_eq!(l.num_candidate_blocks, 1764);
    assert_eq!(l.ola_window_size, 530);
    assert_eq!(l.ola_hop_size, 265);
    assert_eq!(l.search_block_center_offset, 882 + 264);
    assert_eq!(l.search_block_size, 1764 + 529);
    assert_eq!(l.wsola_output_size, 795);
}

#[test]
fn layout_keeps_even_window() {
    let l = WsolaLayout::new(5, 8);
    assert_eq!(l.ola_window_size, 8);
    assert_eq!(l.ola_hop_size, 4);
    assert_eq!(l.search_block_center_offset, 2 + 3);
    assert_eq!(l.search_block_size, 12);
    assert_eq!(l.wsola_output_size, 12);
}

#[test]
fn peek_inside_input() {
    let input = vec![ramp(1, 8), ramp(11, 18)];
    let mut dest = vec![vec![0i64; 5]; 2];
    peek_audio_with_zero_prepend(&input, 2, 2, &mut dest, 4, 0);
    assert_eq!(dest[0], vec![3, 4, 5, 6, 0]);
    assert_eq!(dest[1], vec![13, 14, 15, 16, 0]);
}

#[test]
fn peek_before_input_prepends_silence() {
    let input = vec![ramp(1, 8)];
    let mut dest = vec![vec![9i64; 4]];
    peek_audio_with_zero_prepend(&input, 1, -2, &mut dest, 4, 0);
    assert_eq!(dest[0], vec![0, 0, 1, 2]);
    let mut all_silent = vec![vec![9i64; 4]];
    peek_audio_with_zero_prepend(&input, 1, -7, &mut all_silent, 4, 0);
    assert_eq!(all_silent[0], vec![0, 0, 0, 0]);
}

#[test]
fn fresh_core_is_empty_and_silent() {
    let core = small_core(2);
    assert_eq!(core.input_buffer_frames(), 0);
    assert_eq!(core.wsola_output, vec![vec![0i64; 6]; 2]);
    assert_eq!(core.optimal_block, vec![vec![0i64; 4]; 2]);
    assert_eq!(core.search_block, vec![vec![0i64; 7]; 2]);
    assert_eq!(core.num_complete_frames, 0);
    assert!(!core.wsola_output_started);
    assert!(core.has_format(2, 48000));
    assert!(!core.has_format(1, 48000));
    assert!(!core.has_format(2, 44100));
}

#[test]
fn frames_needed_counts_missing_frames() {
    let mut core = small_core(1);
    // target block needs 4 frames, search block at -3 needs 4.
    assert_eq!(core.frames_needed(-3), 4);
    assert_eq!(core.frames_needed(5), 12);
    assert!(!core.can_perform_wsola(-3));
    core.push_input(&vec![ramp(1, 3)], 3);
    assert_eq!(core.frames_needed(-3), 1);
    core.push_input(&vec![ramp(4, 10)], 1);
    assert_eq!(core.input_buffer_frames(), 4);
    assert_eq!(core.input_buffer[0], vec![1, 2, 3, 4]);
    assert_eq!(core.frames_needed(-3), 0);
    assert!(core.can_perform_wsola(-3));
}

#[test]
fn seek_buffer_drops_front_and_final_frames() {
    let mut core = small_core(2);
    core.push_input(&vec![ramp(1, 6), ramp(11, 16)], 6);
    core.set_final();
    assert_eq!(core.input_buffer_final_frames, 6);
    core.push_input(&vec![ramp(7, 7), ramp(17, 17)], 1);
    core.set_final();
    assert_eq!(core.input_buffer_final_frames, 6);
    core.seek_buffer(4);
    assert_eq!(core.input_buffer[0], vec![5, 6, 7]);
    assert_eq!(core.input_buffer[1], vec![15, 16, 17]);
    assert_eq!(core.input_buffer_final_frames, 2);
    core.seek_buffer(3);
    assert_eq!(core.input_buffer_final_frames, 0);
    assert_eq!(core.input_buffer_frames(), 0);
}

#[test]
fn final_silence_fills_what_an_iteration_needs() {
    let mut core = small_core(1);
    core.push_input(&vec![ramp(1, 3)], 3);
    core.add_input_buffer_final_silence(1);
    // search block at 1 needs 8 frames.
    assert_eq!(core.input_buffer[0], vec![1, 2, 3, 0, 0, 0, 0, 0]);
    assert_eq!(core.input_buffer_added_silence, 5);
    assert!(core.can_perform_wsola(1));
    core.add_input_buffer_final_silence(1);
    assert_eq!(core.input_buffer_frames(), 8);
    assert_eq!(core.input_buffer_added_silence, 5);
}

#[test]
fn iterations_overlap_add_blocks_inside_search_region() {
    let mut core = small_core(1);
    core.push_input(&vec![ramp(1, 20)], 20);
    let never = |_: &Vec<Vec<i64>>, _: &Vec<Vec<i64>>, _: (isize, isize)| -> usize {
        panic!("no search inside the search region")
    };
    assert_eq!(core.run_one_wsola_iteration(-3, &never, &mix), Some(0));
    assert_eq!(core.optimal_index, 0);
    assert_eq!(core.target_block_index, 2);
    assert_eq!(core.search_block_index, -3);
    assert_eq!(core.wsola_output[0], vec![1, 2, 3, 4, 0, 0]);
    assert_eq!(core.num_complete_frames, 2);
    assert!(core.wsola_output_started);

    let mut dest = vec![vec![0i64; 10]];
    assert_eq!(core.write_completed_frames_to(10, &mut dest, 0), 2);
    assert_eq!(dest[0][0..3], [1, 2, 0]);
    assert_eq!(core.wsola_output[0], vec![3, 4, 0, 0, 0, 0]);
    assert_eq!(core.num_complete_frames, 0);

    assert_eq!(core.run_one_wsola_iteration(-1, &never, &mix), Some(0));
    assert_eq!(core.optimal_block[0], vec![3, 4, 5, 6]);
    // 3*3 + 3*1, 4*4 + 4*2, then the second half copied.
    assert_eq!(core.wsola_output[0], vec![12, 24, 5, 6, 0, 0]);
    assert_eq!(core.target_block_index, 4);
    assert_eq!(core.num_complete_frames, 2);

    assert_eq!(core.write_completed_frames_to(1, &mut dest, 2), 1);
    assert_eq!(dest[0][0..4], [1, 2, 12, 0]);
    assert_eq!(core.num_complete_frames, 1);
    assert_eq!(core.wsola_output[0], vec![24, 5, 6, 0, 0, 0]);
}

#[test]
fn iteration_drops_frames_no_block_reads() {
    let mut core = small_core(1);
    core.push_input(&vec![ramp(1, 20)], 20);
    let never = |_: &Vec<Vec<i64>>, _: &Vec<Vec<i64>>, _: (isize, isize)| -> usize { 0 };
    core.run_one_wsola_iteration(-3, &never, &mix);
    let mut dest = vec![vec![0i64; 2]];
    core.write_completed_frames_to(2, &mut dest, 0);
    core.run_one_wsola_iteration(-1, &never, &mix);
    core.write_completed_frames_to(2, &mut dest, 0);
    // target at 4, search at 1: one frame goes.
    assert_eq!(core.run_one_wsola_iteration(1, &never, &mix), Some(1));
    assert_eq!(core.input_buffer[0], ramp(2, 20));
    assert_eq!(core.search_block_index, 0);
    assert_eq!(core.optimal_block[0], vec![5, 6, 7, 8]);
    assert_eq!(core.target_block_index, 5);
}

#[test]
fn iteration_waits_for_missing_input() {
    let mut core = small_core(1);
    core.push_input(&vec![ramp(1, 5)], 5);
    let never = |_: &Vec<Vec<i64>>, _: &Vec<Vec<i64>>, _: (isize, isize)| -> usize { 0 };
    let before_target = core.target_block_index;
    assert_eq!(core.run_one_wsola_iteration(0, &never, &mix), None);
    assert_eq!(core.target_block_index, before_target);
    assert_eq!(core.search_block_index, 0);
    assert_eq!(core.num_complete_frames, 0);
    assert!(!core.wsola_output_started);
}

#[test]
fn search_outside_region_crossfades_found_block() {
    let mut core = small_core(1);
    core.push_input(&vec![ramp(1, 20)], 20);
    let never = |_: &Vec<Vec<i64>>, _: &Vec<Vec<i64>>, _: (isize, isize)| -> usize { 0 };
    core.run_one_wsola_iteration(-3, &never, &mix);
    let mut dest = vec![vec![0i64; 2]];
    core.write_completed_frames_to(2, &mut dest, 0);

    let seen = Cell::new((0isize, 0isize));
    let find = |search: &Vec<Vec<i64>>, target: &Vec<Vec<i64>>, excl: (isize, isize)| -> usize {
        assert_eq!(search[0], vec![0, 0, 0, 0, 1, 2, 3]);
        assert_eq!(target[0], vec![3, 4, 5, 6]);
        seen.set(excl);
        1
    };
    assert_eq!(core.run_one_wsola_iteration(-4, &find, &mix), Some(0));
    // previous optimal continues at 2 - 2 + 4 = 4 in the search block.
    assert_eq!(seen.get(), (4 - 80, 4 + 80));
    assert_eq!(core.optimal_index, -3);
    // [0, 0, 0, 1] crossfaded into [3, 4, 5, 6].
    assert_eq!(core.optimal_block[0], vec![150, 240, 350, 520]);
    assert_eq!(core.target_block_index, -1);
    assert_eq!(core.wsola_output[0], vec![3 * 3 + 150, 4 * 4 + 480, 350, 520, 0, 0]);
}

#[test]
fn search_result_past_last_candidate_counts_as_last() {
    let mut core = small_core(1);
    core.push_input(&vec![ramp(1, 20)], 20);
    let never = |_: &Vec<Vec<i64>>, _: &Vec<Vec<i64>>, _: (isize, isize)| -> usize { 0 };
    core.run_one_wsola_iteration(-3, &never, &mix);
    let mut dest = vec![vec![0i64; 2]];
    core.write_completed_frames_to(2, &mut dest, 0);
    let far = |_: &Vec<Vec<i64>>, _: &Vec<Vec<i64>>, _: (isize, isize)| -> usize { 1000 };
    core.run_one_wsola_iteration(-4, &far, &mix);
    assert_eq!(core.optimal_index, 3 - 4);
}

#[test]
fn resync_restarts_output_around_target() {
    let mut core = small_core(1);
    core.push_input(&vec![ramp(1, 20)], 20);
    let never = |_: &Vec<Vec<i64>>, _: &Vec<Vec<i64>>, _: (isize, isize)| -> usize { 0 };
    core.run_one_wsola_iteration(-3, &never, &mix);
    core.target_block_index = 7;
    assert_eq!(core.resync_to_target(), 4);
    assert!(!core.wsola_output_started);
    assert_eq!(core.target_block_index, 3);
    assert_eq!(core.search_block_index, 0);
    assert_eq!(core.input_buffer[0], ramp(5, 20));
}

#[test]
fn read_input_buffer_passes_frames_through() {
    let mut core = small_core(2);
    core.push_input(&vec![ramp(1, 10), ramp(11, 20)], 10);
    let mut dest = vec![vec![0i64; 4]; 2];
    assert_eq!(core.read_input_buffer(4, &mut dest), 4);
    assert_eq!(dest, vec![vec![1, 2, 3, 4], vec![11, 12, 13, 14]]);
    assert_eq!(core.input_buffer[0], ramp(5, 10));
    core.target_block_index = 4;
    assert_eq!(core.read_input_buffer(4, &mut dest), 2);
    assert_eq!(dest[0], vec![9, 10, 3, 4]);
    assert_eq!(core.input_buffer[0], ramp(7, 10));
    core.target_block_index = 9;
    assert_eq!(core.read_input_buffer(4, &mut dest), 0);
}

#[test]
fn frames_available_cases() {
    let mut core = small_core(1);
    assert!(!core.frames_available(0));
    core.push_input(&vec![ramp(1, 3)], 3);
    core.set_final();
    assert!(core.frames_available(0));
    core.seek_buffer(3);
    assert!(!core.frames_available(0));
    core.push_input(&vec![ramp(1, 7)], 7);
    assert!(core.frames_available(0));
}

#[test]
fn reset_returns_to_start() {
    let mut core = small_core(1);
    core.push_input(&vec![ramp(1, 20)], 20);
    core.set_final();
    let never = |_: &Vec<Vec<i64>>, _: &Vec<Vec<i64>>, _: (isize, isize)| -> usize { 0 };
    core.run_one_wsola_iteration(-3, &never, &mix);
    core.reset();
    assert_eq!(core.input_buffer_frames(), 0);
    assert_eq!(core.wsola_output[0], vec![0; 6]);
    assert_eq!(core.num_complete_frames, 0);
    assert_eq!(core.target_block_index, 0);
    assert_eq!(core.search_block_index, 0);
    assert_eq!(core.input_buffer_final_frames, 0);
    assert!(!core.wsola_output_started);
}

#[test]
fn remove_old_input_frames_rebases_positions() {
    let mut core = small_core(1);
    core.push_input(&vec![ramp(1, 10)], 10);
    core.target_block_index = 5;
    core.search_block_index = 3;
    let needed_before = core.frames_needed(3);
    assert_eq!(core.remove_old_input_frames(), 3);
    assert_eq!(core.target_block_index, 2);
    assert_eq!(core.search_block_index, 0);
    assert_eq!(core.input_buffer[0], ramp(4, 10));
    assert_eq!(core.frames_needed(0), needed_before);
    core.search_block_index = -2;
    assert_eq!(core.remove_old_input_frames(), 0);
}

#[test]
fn sample_queue_hands_out_interleaved_frames() {
    let mut q: SampleQueue<i64> = SampleQueue::new();
    assert_eq!(q.next_sample(), None);
    let block = vec![vec![1, 2, 3], vec![11, 12, 13]];
    assert_eq!(q.refill(&block, 2, 2), Some(1));
    assert_eq!(q.next_sample(), Some(11));
    assert_eq!(q.next_sample(), Some(2));
    assert_eq!(q.next_sample(), Some(12));
    assert_eq!(q.next_sample(), None);
    assert_eq!(q.refill(&block, 2, 0), None);
    assert_eq!(q.next_sample(), None);
    q.refill(&block, 2, 3);
    q.clear();
    assert_eq!(q.next_sample(), None);
}

#[test]
fn deinterleave_drops_partial_frame() {
    let rows = deinterleave(&vec![1i64, 11, 2, 12, 3], 2);
    assert_eq!(rows, vec![vec![1, 2], vec![11, 12]]);
    let mut q: SampleQueue<i64> = SampleQueue::new();
    q.refill(&rows, 2, 2);
    assert_eq!(q.samples, vec![1, 11, 2, 12]);
}

#[test]
fn search_helpers() {
    assert_eq!(SEARCH_DECIMATION, 5);
    assert_eq!(EXCLUDE_INTERVAL_LENGTH_FRAMES, 160);
    assert_eq!(exclude_interval(100), (20, 180));
    assert!(is_excluded(20, (20, 180)));
    assert!(is_excluded(180, (20, 180)));
    assert!(!is_excluded(181, (20, 180)));
    assert_eq!(search_limits(3, 5, 100), (0, 8));
    assert_eq!(search_limits(50, 5, 100), (45, 55));
    assert_eq!(search_limits(97, 5, 100), (92, 99));
}

#[test]
fn fill_block_silences_frames() {
    let mut block = vec![ramp(1, 5), ramp(11, 15)];
    fill_block(&mut block, 2, 1, 3, 0);
    assert_eq!(block, vec![vec![1, 0, 0, 0, 5], vec![11, 0, 0, 0, 15]]);
}

#[test]
fn layout_with_no_candidate_block() {
    let l = WsolaLayout::new(0, 4);
    assert_eq!(l.num_candidate_blocks, 0);
    assert_eq!(l.ola_window_size, 4);
    assert_eq!(l.search_block_size, 3);
    assert_eq!(l.search_block_center_offset, 1);
    assert_eq!(l.wsola_output_size, 6);
}

#[test]
fn no_candidate_block_still_passes_input_through() {
    let layout = WsolaLayout::new(0, 4);
    let mut core = WsolaCore::new(1, 48000, layout, vec![1i64, 2, 3, 4], vec![1; 8], 0);
    core.push_input(&vec![ramp(1, 6)], 6);
    let mut dest = vec![vec![0i64; 4]];
    assert_eq!(core.read_input_buffer(4, &mut dest), 4);
    assert_eq!(dest[0], vec![1, 2, 3, 4]);
    assert_eq!(core.input_buffer[0], vec![5, 6]);
    let never = |_: &Vec<Vec<i64>>, _: &Vec<Vec<i64>>, _: (isize, isize)| -> usize { 0 };
    // Too little input: the iteration does not run, so no search is needed.
    assert_eq!(core.run_one_wsola_iteration(5, &never, &mix), None);
    core.seek_buffer(2);
    assert_eq!(core.input_buffer_frames(), 0);
}
