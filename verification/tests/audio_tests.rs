use beatcraft_editor::audio::{
    contiguous_loaded_end, merge_ranges, plan_chunks, record_decoded, spectrogram_column_total,
    spectrogram_step, stream_seek_target, AudioMode, AudioThread, AudioThreadCommand, SpectrogramStep,
    TaskAction, FULL_CHUNK_SAMPLES, FullQueue,
};

#[test]
fn merge_ranges_joins_overlapping_and_touching() {
    let mut ranges = vec![(10, 20), (0, 5), (5, 8), (15, 30), (40, 50)];
    merge_ranges(&mut ranges);
    assert_eq!(ranges, vec![(0, 8), (10, 30), (40, 50)]);
}

#[test]
fn merge_ranges_keeps_separated_list() {
    let mut ranges = vec![(0, 2), (4, 6)];
    merge_ranges(&mut ranges);
    assert_eq!(ranges, vec![(0, 2), (4, 6)]);
    merge_ranges(&mut ranges);
    assert_eq!(ranges, vec![(0, 2), (4, 6)]);
}

#[test]
fn merge_ranges_empty() {
    let mut ranges: Vec<(usize, usize)> = Vec::new();
    merge_ranges(&mut ranges);
    assert!(ranges.is_empty());
}

#[test]
fn contiguous_end_inside_and_outside() {
    let ranges = [(0, 100), (200, 300)];
    assert_eq!(contiguous_loaded_end(&ranges, 50), 100);
    assert_eq!(contiguous_loaded_end(&ranges, 250), 300);
    assert_eq!(contiguous_loaded_end(&ranges, 150), 150);
    assert_eq!(contiguous_loaded_end(&ranges, 100), 100);
}

#[test]
fn plan_chunks_fills_free_buffers() {
    let chunks = plan_chunks(20000, 0, 4);
    assert_eq!(chunks, vec![FULL_CHUNK_SAMPLES, FULL_CHUNK_SAMPLES, 20000 - 2 * FULL_CHUNK_SAMPLES]);
    let total: usize = chunks.iter().sum();
    assert_eq!(total, 20000);
}

#[test]
fn plan_chunks_limited_by_buffers() {
    let chunks = plan_chunks(100000, 10, 2);
    assert_eq!(chunks, vec![FULL_CHUNK_SAMPLES, FULL_CHUNK_SAMPLES]);
    assert!(plan_chunks(10, 10, 3).is_empty());
    assert!(plan_chunks(100, 0, 0).is_empty());
}

#[test]
fn record_decoded_merges_block() {
    let mut ranges = vec![(0, 10)];
    let end = record_decoded(&mut ranges, 10, 5);
    assert_eq!(end, 15);
    assert_eq!(ranges, vec![(0, 15)]);
    let end = record_decoded(&mut ranges, 100, 20);
    assert_eq!(end, 120);
    assert_eq!(ranges, vec![(0, 15), (100, 120)]);
}

#[test]
fn stream_seek_only_when_not_loaded() {
    let ranges = [(0, 100)];
    assert_eq!(stream_seek_target(&ranges, 50), None);
    assert_eq!(stream_seek_target(&ranges, 150), Some(150));
}

#[test]
fn spectrogram_step_waits_or_computes() {
    assert_eq!(spectrogram_step(100, 2, 0, 10, 64, false), SpectrogramStep::Wait { finish: false });
    assert_eq!(spectrogram_step(100, 2, 0, 10, 64, true), SpectrogramStep::Wait { finish: true });
    assert_eq!(
        spectrogram_step(1000, 2, 3, 10, 64, false),
        SpectrogramStep::Column { first_frame: 30, tex_start: 96, height: 32 }
    );
}

#[test]
fn spectrogram_columns() {
    assert_eq!(spectrogram_column_total(None, 10), None);
    assert_eq!(spectrogram_column_total(Some(0), 10), None);
    assert_eq!(spectrogram_column_total(Some(100), 0), None);
    assert_eq!(spectrogram_column_total(Some(5), 10), Some(1));
    assert_eq!(spectrogram_column_total(Some(105), 10), Some(10));
}

#[test]
fn audio_thread_rounds() {
    let mut t: AudioThread<(), u32> = AudioThread::new(());
    assert!(t.tasks.is_empty());
    t.handle_command(AudioThreadCommand::AddTask(1));
    t.handle_command(AudioThreadCommand::AddTask(2));
    t.handle_command(AudioThreadCommand::AddTask(3));
    let round = t.take_tasks();
    assert_eq!(round, vec![1, 2, 3]);
    assert!(t.tasks.is_empty());
    t.handle_command(AudioThreadCommand::AddTask(4));
    t.settle_round(round, &vec![TaskAction::Keep, TaskAction::Remove, TaskAction::Keep]);
    assert_eq!(t.tasks, vec![4, 1, 3]);
    assert_ne!(AudioMode::Stream, AudioMode::Full);
}

#[test]
fn window_snap_pairs_only_exact_pairs() {
    use_window_snap();
}

fn use_window_snap() {
    let keys = [(0, 10), (1, 10), (0, 10), (0, 20), (0, 20), (0, 20), (1, 30), (1, 10)];
    let pairs = beatcraft_editor::window_snap::window_snap_pairs(&keys);
    // colour 0 at beat 10: notes 0 and 2; colour 1 at beat 10: notes 1 and 7;
    // colour 0 at beat 20 has three notes, colour 1 at beat 30 only one.
    assert_eq!(pairs, vec![(0, 2), (1, 7)]);
    assert!(beatcraft_editor::window_snap::window_snap_pairs(&[]).is_empty());
}

#[test]
fn full_queue_update_frees_and_refills() {
    let mut q = FullQueue {
        played_samples: 100,
        playback_position: 100 + 8192 + 50,
        free_buffers: vec![1, 2],
        queued_sizes: vec![8192, 50],
    };
    // buffer 3 finished playing; 20000 samples decoded in all
    let uploads = q.update(&[3], 20000);
    assert_eq!(q.played_samples, 100 + 8192);
    let start = 100 + 8192 + 50;
    assert_eq!(uploads, vec![(3, start, 8192), (2, start + 8192, 20000 - start - 8192)]);
    assert_eq!(q.free_buffers, vec![1]);
    assert_eq!(q.queued_sizes, vec![50, 8192, 20000 - start - 8192]);
    assert_eq!(q.playback_position, 20000);
    assert_eq!(q.played_samples + q.queued_sizes.iter().sum::<usize>(), q.playback_position);
    assert_eq!(q.free_buffers.len() + q.queued_sizes.len(), 4);
}

#[test]
fn full_queue_update_without_new_samples() {
    let mut q = FullQueue { played_samples: 0, playback_position: 10, free_buffers: vec![7], queued_sizes: vec![10] };
    let uploads = q.update(&[], 10);
    assert!(uploads.is_empty());
    assert_eq!(q.free_buffers, vec![7]);
    assert_eq!(q.queued_sizes, vec![10]);
}

#[test]
fn merge_ranges_keeps_separate_empty_ranges() {
    let mut r = vec![(5, 5), (1, 2), (2, 2), (7, 9), (7, 7)];
    merge_ranges(&mut r);
    assert_eq!(r, vec![(1, 2), (5, 5), (7, 9)]);
}
