use gendel::gpu::batch_size;
use gendel::partition::make_bands;
use gendel::progress::ProgressTracker;

#[test]
fn test_make_bands_even_split() {
    let bands = make_bands(100, 4);
    assert_eq!(bands.len(), 4);
    for (k, band) in bands.iter().enumerate() {
        assert_eq!(band.index, k);
        assert_eq!(band.row_offset, k * 25);
        assert_eq!(band.row_count, 25);
    }
}

#[test]
fn test_make_bands_last_band_absorbs_remainder() {
    let bands = make_bands(10, 3);
    assert_eq!(bands.len(), 3);
    assert_eq!(bands[0].row_offset, 0);
    assert_eq!(bands[0].row_count, 3);
    assert_eq!(bands[1].row_offset, 3);
    assert_eq!(bands[1].row_count, 3);
    assert_eq!(bands[2].row_offset, 6);
    assert_eq!(bands[2].row_count, 4);
}

#[test]
fn test_make_bands_collapses_when_workers_outnumber_rows() {
    let bands = make_bands(5, 10);
    assert_eq!(bands.len(), 1);
    assert_eq!(bands[0].index, 0);
    assert_eq!(bands[0].row_offset, 0);
    assert_eq!(bands[0].row_count, 5);
}

#[test]
fn test_make_bands_cover_all_rows() {
    for workers in [1usize, 2, 3, 7, 100, 150] {
        let bands = make_bands(100, workers);
        let mut next_row: usize = 0;
        for (k, band) in bands.iter().enumerate() {
            assert_eq!(band.index, k);
            assert_eq!(band.row_offset, next_row);
            assert!(band.row_count >= 1);
            next_row += band.row_count;
        }
        assert_eq!(next_row, 100);
    }
}

#[test]
fn test_progress_percent_rounds_to_nearest() {
    let mut tracker = ProgressTracker::new(200);
    assert_eq!(tracker.percent(), 0);
    tracker.record(50);
    assert_eq!(tracker.percent(), 25);
    tracker.record(150);
    assert_eq!(tracker.percent(), 100);

    let mut thirds = ProgressTracker::new(3);
    thirds.record(1);
    assert_eq!(thirds.percent(), 33);
    thirds.record(1);
    assert_eq!(thirds.percent(), 67);
}

#[test]
fn test_progress_tolerates_unordered_and_excess_signals() {
    // The same increments in another order reach the same total, and
    // signals past the denominator never push the display over 100.
    let mut forward = ProgressTracker::new(100);
    forward.record(70);
    forward.record(30);
    let mut backward = ProgressTracker::new(100);
    backward.record(30);
    backward.record(70);
    assert_eq!(forward.completed, backward.completed);
    assert_eq!(forward.percent(), 100);
    backward.record(1000);
    assert_eq!(backward.percent(), 100);
}

#[test]
fn test_batch_size_covers_range_in_bounded_rounds() {
    // Small renders fall back to the floor of one full block.
    assert_eq!(batch_size(1), 256);
    assert_eq!(batch_size(10000), 256);
    // 2560000 pixels split exactly into 100 launches of 25600.
    assert_eq!(batch_size(2560000), 25600);
    // The whole range is always covered within about 100 launches.
    for total in [1usize, 255, 256, 9999, 123456, 2560001] {
        let batch = batch_size(total);
        assert!(batch >= 256);
        let rounds = total.div_ceil(batch);
        assert!(rounds <= 100);
    }
}
