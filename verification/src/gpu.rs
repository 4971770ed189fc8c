//! The batched GPU-style pipeline.
//!
//! One buffer of `image_width * image_height` bytes is owned by the
//! dispatcher for the whole render; nothing may be assumed about its initial
//! contents, so every pixel must be written. The dispatcher issues one
//! launch per batch of flattened pixel indices, synchronizing between
//! launches to report progress at a bounded cadence. Each kernel thread
//! ([`compute_mandelbrot`]) decodes its own flattened index into a row and a
//! column, bounds-checks it, and writes its one byte in place; no two
//! threads touch the same byte, and the buffer comes back already in
//! row-major order, with no reassembly step.

use vstd::prelude::*;

use crate::complex::Complex;
use crate::params::{coord_im_at, coord_re_at, pixel_value, RenderError, RenderParameters};
use vstd::arithmetic::div_mod::{
    lemma_div_pos_is_pos, lemma_fundamental_div_mod, lemma_mod_bound,
};
use vstd::arithmetic::mul::{
    lemma_mul_inequality, lemma_mul_is_distributive_add_other_way, lemma_mul_nonnegative,
};

verus! {

broadcast use vstd::arithmetic::mul::lemma_mul_is_commutative;

/// Flattened pixel indices covered by one kernel launch: enough blocks of
/// 256 threads to cover the whole range in about 100 launches, and never
/// less than one full block (25600 = 256 * 100).
pub open spec fn spec_batch_size(total: int) -> int
    recommends
        total >= 1,
{
    256 * ((total - 1) / 25600 + 1)
}

/// The launch size always covers the whole index range within the target
/// of 100 dispatch rounds.
pub proof fn lemma_batches_cover_in_target_rounds(total: int)
    requires
        total >= 1,
    ensures
        total <= 100 * spec_batch_size(total),
{
    lemma_fundamental_div_mod(total - 1, 25600);
    lemma_mod_bound(total - 1, 25600);
}

/// Picks the launch size for a render of `total` pixels.
pub fn batch_size(total: usize) -> (size: usize)
    requires
        total >= 1,
    ensures
        size == spec_batch_size(total as int),
        size >= 256,
{
    proof {
        lemma_fundamental_div_mod((total - 1) as int, 25600);
        lemma_div_pos_is_pos((total - 1) as int, 25600);
    }
    let blocks: usize = (total - 1) / 25600 + 1;
    256 * blocks
}

/// One kernel thread: decodes `batch_offset + thread_id` into a pixel,
/// bounds-checks it against the image, and writes that pixel's byte in
/// place — out-of-range threads return without writing.
pub fn compute_mandelbrot(
    image: &mut Vec<u8>,
    thread_id: usize,
    batch_offset: usize,
    image_width: usize,
    image_height: usize,
    real_start: i64,
    i_start: i64,
    real_step: i64,
    i_step: i64,
    iteration_cap: i32,
)
    requires
        image_width >= 1,
        image_height >= 1,
        old(image)@.len() == image_width * image_height,
        batch_offset + thread_id <= usize::MAX,
        i64::MIN <= real_start + (image_width - 1) * real_step <= i64::MAX,
        i64::MIN <= i_start - (image_height - 1) * i_step <= i64::MAX,
    ensures
        batch_offset + thread_id < image_width * image_height ==> final(image)@ == old(
            image,
        )@.update(
            (batch_offset + thread_id) as int,
            pixel_value(
                real_start as int,
                i_start as int,
                real_step as int,
                i_step as int,
                iteration_cap,
                (batch_offset + thread_id) as int / (image_width as int),
                (batch_offset + thread_id) as int % (image_width as int),
            ),
        ),
        batch_offset + thread_id >= image_width * image_height ==> final(image)@ == old(image)@,
{
    let pos: usize = batch_offset + thread_id;
    let i: usize = pos / image_width;
    let j: usize = pos % image_width;
    proof {
        lemma_fundamental_div_mod(pos as int, image_width as int);
        lemma_mod_bound(pos as int, image_width as int);
        lemma_div_pos_is_pos(pos as int, image_width as int);
    }
    if i >= image_height {
        proof {
            lemma_mul_inequality(image_height as int, i as int, image_width as int);
            assert((image_height as int) * (image_width as int) <= (i as int) * (
            image_width as int));
            assert(pos >= image_width * image_height);
        }
        return ;
    }
    proof {
        lemma_mul_inequality(i as int, image_height as int - 1, image_width as int);
        lemma_mul_is_distributive_add_other_way(image_width as int, image_height as int - 1, 1);
        assert((image_height as int - 1) * (image_width as int) + 1 * (image_width as int) == (
        image_height as int) * (image_width as int));
        assert(pos < image_width * image_height);
    }
    let x: i64 = coord_re_at(real_start, real_step, image_width, j);
    let y: i64 = coord_im_at(i_start, i_step, image_height, i);
    let point = Complex::new(x, y);
    let value: u8 = if point.is_stable(iteration_cap) {
        0
    } else {
        255
    };
    image[pos] = value;
}

/// Owns the render-scoped buffer and issues one bounded launch after the
/// other, keeping the prefix of flattened pixel indices below its cursor
/// finished at every synchronization point.
pub struct GpuBatchDispatcher {
    params: RenderParameters,
    buffer: Vec<u8>,
    cursor: usize,
    batch_size: usize,
}

impl GpuBatchDispatcher {
    /// The render this dispatcher was opened for.
    pub closed spec fn spec_params(self) -> RenderParameters {
        self.params
    }

    /// Flattened pixel indices rendered and synchronized so far.
    pub closed spec fn spec_pixels_done(self) -> int {
        self.cursor as int
    }

    /// The dispatcher's invariant: the buffer spans the whole image, the
    /// launch size is the chosen one, and every pixel before the cursor
    /// already holds its canonical byte.
    pub closed spec fn wf(self) -> bool {
        &&& self.params.dims_valid()
        &&& self.params.in_machine_bounds()
        &&& self.buffer@.len() == self.params.pixel_total()
        &&& self.batch_size == spec_batch_size(self.params.pixel_total())
        &&& self.batch_size >= 1
        &&& 0 <= self.cursor <= self.params.pixel_total()
        &&& forall|g: int|
            0 <= g < self.cursor ==> #[trigger] self.buffer@[g] == self.params.image_spec()[g]
    }

    /// Whether every pixel has been rendered.
    pub open spec fn spec_done(self) -> bool {
        self.spec_pixels_done() == self.spec_params().pixel_total()
    }

    /// Allocates the device-scoped buffer and fixes the launch size;
    /// parameters without a pixel or without a worker are rejected before
    /// anything is launched.
    #[verifier::loop_isolation(false)]
    pub fn new(params: &RenderParameters) -> (result: Result<GpuBatchDispatcher, RenderError>)
        requires
            !params.dims_valid() || params.in_machine_bounds(),
        ensures
            match result {
                Ok(dispatcher) => params.dims_valid() && dispatcher.wf()
                    && dispatcher.spec_params() == *params && dispatcher.spec_pixels_done() == 0,
                Err(e) => e == RenderError::InvalidParameters && !params.dims_valid(),
            },
    {
        if params.image_width == 0 || params.image_height == 0 || params.worker_count == 0 {
            return Err(RenderError::InvalidParameters);
        }
        proof {
            vstd::arithmetic::mul::lemma_mul_strictly_positive(
                params.image_width as int,
                params.image_height as int,
            );
        }
        let total: usize = params.image_width * params.image_height;
        let mut buffer: Vec<u8> = Vec::new();
        let mut i: usize = 0;
        while i < total
            invariant
                0 <= i <= total,
                buffer@.len() == i,
            decreases total - i,
        {
            buffer.push(0u8);
            i = i + 1;
        }
        let size: usize = batch_size(total);
        Ok(GpuBatchDispatcher { params: *params, buffer, cursor: 0, batch_size: size })
    }

    /// One dispatch round: launches a kernel thread for every flattened
    /// index of the next batch — the kernel itself discards the indices past
    /// the end of the image — then synchronizes, moving the cursor so that
    /// progress can be reported.
    #[verifier::loop_isolation(false)]
    pub fn step(&mut self)
        requires
            old(self).wf(),
            !old(self).spec_done(),
        ensures
            final(self).wf(),
            final(self).spec_params() == old(self).spec_params(),
            final(self).spec_pixels_done() == if old(self).spec_pixels_done() + spec_batch_size(
                old(self).spec_params().pixel_total(),
            ) <= old(self).spec_params().pixel_total() {
                old(self).spec_pixels_done() + spec_batch_size(
                    old(self).spec_params().pixel_total(),
                )
            } else {
                old(self).spec_params().pixel_total()
            },
            old(self).spec_pixels_done() < final(self).spec_pixels_done(),
    {
        let total: usize = self.params.image_width * self.params.image_height;
        let remaining: usize = total - self.cursor;
        let count: usize = if self.batch_size < remaining {
            self.batch_size
        } else {
            remaining
        };
        let launch_offset: usize = self.cursor;
        let mut tid: usize = 0;
        while tid < count
            invariant
                0 <= tid <= count,
                self.params == old(self).params,
                self.cursor == old(self).cursor,
                self.batch_size == old(self).batch_size,
                self.buffer@.len() == total,
                forall|g: int|
                    0 <= g < self.cursor + tid ==> #[trigger] self.buffer@[g]
                        == self.params.image_spec()[g],
            decreases count - tid,
        {
            compute_mandelbrot(
                &mut self.buffer,
                tid,
                launch_offset,
                self.params.image_width,
                self.params.image_height,
                self.params.real_start,
                self.params.i_start,
                self.params.real_step,
                self.params.i_step,
                self.params.iteration_cap,
            );
            tid = tid + 1;
        }
        self.cursor = self.cursor + count;
    }

    /// Whether the dispatcher has covered the whole index range.
    pub fn is_done(&self) -> (done: bool)
        requires
            self.wf(),
        ensures
            done == self.spec_done(),
    {
        self.cursor == self.params.image_width * self.params.image_height
    }

    /// Pixels finished so far, for progress display.
    pub fn pixels_completed(&self) -> (done: usize)
        ensures
            done == self.spec_pixels_done(),
    {
        self.cursor
    }

    /// Pixels of the whole render, the denominator of the progress display.
    pub fn total_pixels(&self) -> (total: usize)
        requires
            self.wf(),
        ensures
            total == self.spec_params().pixel_total(),
    {
        self.params.image_width * self.params.image_height
    }

    /// Retrieves the finished buffer, already in row-major order.
    pub fn finish(self) -> (image: Vec<u8>)
        requires
            self.wf(),
            self.spec_done(),
        ensures
            image@ == self.spec_params().image_spec(),
            image@.len() == self.spec_params().pixel_total(),
    {
        proof {
            lemma_mul_nonnegative(
                self.params.image_width as int,
                self.params.image_height as int,
            );
            assert(self.buffer@ =~= self.params.image_spec());
        }
        self.buffer
    }
}

/// The whole GPU pipeline: open a dispatcher, launch batch after batch
/// until the index range is covered, and retrieve the buffer. The buffer is
/// pinned to the same canonical image as the CPU pipeline's, so the two
/// backends agree byte for byte.
pub fn render_gpu(params: &RenderParameters) -> (result: Result<Vec<u8>, RenderError>)
    requires
        !params.dims_valid() || params.in_machine_bounds(),
    ensures
        match result {
            Ok(image) => params.dims_valid() && image@ == params.image_spec() && image@.len()
                == params.pixel_total(),
            Err(e) => e == RenderError::InvalidParameters && !params.dims_valid(),
        },
{
    let mut dispatcher = match GpuBatchDispatcher::new(params) {
        Ok(dispatcher) => dispatcher,
        Err(e) => {
            return Err(e);
        },
    };
    while !dispatcher.is_done()
        invariant
            dispatcher.wf(),
            dispatcher.spec_params() == *params,
            params.dims_valid(),
            params.in_machine_bounds(),
        decreases params.pixel_total() - dispatcher.spec_pixels_done(),
    {
        dispatcher.step();
    }
    Ok(dispatcher.finish())
}

} // verus!
