use gendel::cpu::render_cpu;
use gendel::fixed::FIXED_ONE;
use gendel::gpu::{render_gpu, GpuBatchDispatcher};
use gendel::params::{pixel_byte_at, RenderError, RenderParameters};
use gendel::progress::ProgressTracker;

/// A square view of the plane: `dim` pixels a side, centered on
/// `(center_re, center_im)`, spanning `span` plane units in each direction.
fn square_view(dim: usize, center_re: i64, center_im: i64, span: i64, iterations: i32, workers: usize) -> RenderParameters {
    let step: i64 = span / (dim as i64);
    RenderParameters {
        image_width: dim,
        image_height: dim,
        real_start: center_re - span / 2,
        i_start: center_im + span / 2,
        real_step: step,
        i_step: step,
        iteration_cap: iterations,
        worker_count: workers,
    }
}

/// The straightforward render: every pixel evaluated one by one, in
/// row-major order, without any partitioning.
fn render_pixel_by_pixel(params: &RenderParameters) -> Vec<u8> {
    let mut out: Vec<u8> = Vec::new();
    for row in 0..params.image_height {
        for col in 0..params.image_width {
            out.push(pixel_byte_at(params, row, col));
        }
    }
    out
}

#[test]
fn test_mandelbrot_cpu_default() {
    let options = square_view(64, -FIXED_ONE / 2, 0, 3 * FIXED_ONE, 50, 4);
    let image = render_cpu(&options).unwrap();
    assert_eq!(image.len(), options.image_width * options.image_height);

    let expected_image = render_pixel_by_pixel(&options);
    assert_eq!(image, expected_image, "Image does not match expected output.");
}

#[test]
fn test_mandelbrot_cpu_broad() {
    for real_step in [167772i64, 335544, 671089, 1342177] {
        for i_step in [167772i64, 335544, 671089, 1342177] {
            let options = RenderParameters {
                image_width: 100,
                image_height: 100,
                real_start: -2 * FIXED_ONE,
                i_start: 1 * FIXED_ONE,
                real_step,
                i_step,
                iteration_cap: 300,
                worker_count: 6,
            };
            let image = render_cpu(&options).unwrap();
            assert_eq!(image.len(), options.image_width * options.image_height);

            let expected_image = render_pixel_by_pixel(&options);
            assert_eq!(
                image, expected_image,
                "Image does not match expected output for real_step: {}, i_step: {}",
                real_step, i_step
            );
        }
    }
}

#[test]
fn test_mandelbrot_gpu_default() {
    let options = square_view(64, -FIXED_ONE / 2, 0, 3 * FIXED_ONE, 50, 1);
    let image = render_gpu(&options).unwrap();
    assert_eq!(image.len(), options.image_width * options.image_height);

    let expected_image = render_cpu(&options).unwrap();
    assert_eq!(image, expected_image, "GPU image does not match expected output.");
}

#[test]
fn test_mandelbrot_gpu_broad() {
    for real_step in [167772i64, 335544, 671089, 1342177] {
        for i_step in [167772i64, 335544, 671089, 1342177] {
            let options = RenderParameters {
                image_width: 100,
                image_height: 100,
                real_start: -2 * FIXED_ONE,
                i_start: 1 * FIXED_ONE,
                real_step,
                i_step,
                iteration_cap: 300,
                worker_count: 1,
            };
            let image = render_gpu(&options).unwrap();
            assert_eq!(image.len(), options.image_width * options.image_height);

            let expected_image = render_cpu(&options).unwrap();
            assert_eq!(
                image, expected_image,
                "Image does not match expected output for real_step: {}, i_step: {}",
                real_step, i_step
            );
        }
    }
}

#[test]
fn test_worker_count_does_not_change_the_image() {
    // A 100x100 view centered on (-0.5, 0) with a span of 3 units and 50
    // iterations renders byte-identically for every worker count, the
    // height itself and more workers than rows included.
    let reference = square_view(100, -FIXED_ONE / 2, 0, 3 * FIXED_ONE, 50, 1);
    let expected = render_cpu(&reference).unwrap();
    for workers in [2usize, 5, 100, 110] {
        let mut options = reference;
        options.worker_count = workers;
        let image = render_cpu(&options).unwrap();
        assert_eq!(image, expected);
    }
}

#[test]
fn test_rendering_twice_gives_identical_output() {
    let options = square_view(48, -FIXED_ONE / 2, 0, 3 * FIXED_ONE, 60, 3);
    let first = render_cpu(&options).unwrap();
    let second = render_cpu(&options).unwrap();
    assert_eq!(first, second);
    let gpu_first = render_gpu(&options).unwrap();
    let gpu_second = render_gpu(&options).unwrap();
    assert_eq!(gpu_first, gpu_second);
    assert_eq!(first, gpu_first);
}

#[test]
fn test_single_pixel_image_matches_direct_evaluation() {
    let mut options = RenderParameters {
        image_width: 1,
        image_height: 1,
        real_start: 0,
        i_start: 0,
        real_step: FIXED_ONE,
        i_step: FIXED_ONE,
        iteration_cap: 25,
        worker_count: 1,
    };
    let stable = render_cpu(&options).unwrap();
    assert_eq!(stable, vec![pixel_byte_at(&options, 0, 0)]);
    assert_eq!(stable, vec![0u8]);

    options.real_start = 3 * FIXED_ONE;
    let escaped = render_cpu(&options).unwrap();
    assert_eq!(escaped, vec![pixel_byte_at(&options, 0, 0)]);
    assert_eq!(escaped, vec![255u8]);
    assert_eq!(escaped, render_gpu(&options).unwrap());
}

#[test]
fn test_known_three_by_three_mask() {
    // Columns sample the reals -2, 0, 2 and rows the imaginaries 2, 0, -2:
    // every sampled point sits at or past the escape radius except the
    // origin in the middle of the mask.
    let options = RenderParameters {
        image_width: 3,
        image_height: 3,
        real_start: -2 * FIXED_ONE,
        i_start: 2 * FIXED_ONE,
        real_step: 2 * FIXED_ONE,
        i_step: 2 * FIXED_ONE,
        iteration_cap: 50,
        worker_count: 2,
    };
    let expected = vec![255u8, 255, 255, 255, 0, 255, 255, 255, 255];
    assert_eq!(render_cpu(&options).unwrap(), expected);
    assert_eq!(render_gpu(&options).unwrap(), expected);
}

#[test]
fn test_rows_descend_the_imaginary_axis() {
    // The first row sits at i_start and later rows lie below it: the
    // column of pixels samples (0, 0) and then (0, -2).
    let options = RenderParameters {
        image_width: 1,
        image_height: 2,
        real_start: 0,
        i_start: 0,
        real_step: FIXED_ONE,
        i_step: 2 * FIXED_ONE,
        iteration_cap: 50,
        worker_count: 1,
    };
    assert_eq!(render_cpu(&options).unwrap(), vec![0u8, 255]);
}

#[test]
fn test_invalid_parameters_fail_fast() {
    let good = square_view(8, 0, 0, 3 * FIXED_ONE, 10, 2);
    for (width, height, workers) in [(0usize, 8usize, 2usize), (8, 0, 2), (8, 8, 0), (0, 0, 0)] {
        let mut options = good;
        options.image_width = width;
        options.image_height = height;
        options.worker_count = workers;
        assert_eq!(render_cpu(&options).unwrap_err(), RenderError::InvalidParameters);
        assert_eq!(render_gpu(&options).unwrap_err(), RenderError::InvalidParameters);
    }
}

#[test]
fn test_dispatcher_reports_progress_batch_by_batch() {
    let options = square_view(100, -FIXED_ONE / 2, 0, 3 * FIXED_ONE, 30, 1);
    let mut dispatcher = GpuBatchDispatcher::new(&options).unwrap();
    let total = dispatcher.total_pixels();
    assert_eq!(total, 10000);
    let mut tracker = ProgressTracker::new(total as u64);
    let mut rounds: usize = 0;
    let mut last_done: usize = 0;
    while !dispatcher.is_done() {
        dispatcher.step();
        let done = dispatcher.pixels_completed();
        assert!(done > last_done);
        tracker.record((done - last_done) as u64);
        last_done = done;
        rounds += 1;
    }
    assert!(rounds <= 100);
    assert_eq!(tracker.percent(), 100);
    let image = dispatcher.finish();
    assert_eq!(image, render_cpu(&options).unwrap());
}
