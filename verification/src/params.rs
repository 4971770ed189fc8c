//! Render parameters and the canonical image they describe.
//!
//! A render is fully determined by its parameters: the plane coordinates of
//! the top-left pixel, the per-pixel steps, the pixel dimensions and the
//! iteration cap. [`RenderParameters::image_spec`] is the one row-major
//! pixel buffer every backend must produce: byte `0` where the point is
//! stable, `255` where it escapes.

use vstd::prelude::*;

use crate::complex::Complex;

verus! {

/// Everything a render needs, fixed before any worker or batch starts.
/// Plane coordinates and steps are in the fixed-point encoding of
/// [`crate::fixed`].
#[derive(Clone, Copy, Debug, PartialEq, Eq, Structural)]
pub struct RenderParameters {
    /// Width of the image in pixels.
    pub image_width: usize,
    /// Height of the image in pixels.
    pub image_height: usize,
    /// Real coordinate of the leftmost pixel column.
    pub real_start: i64,
    /// Imaginary coordinate of the topmost pixel row.
    pub i_start: i64,
    /// Real distance between neighbouring columns.
    pub real_step: i64,
    /// Imaginary distance between neighbouring rows.
    pub i_step: i64,
    /// Iteration cap handed to the escape-time evaluator.
    pub iteration_cap: i32,
    /// Number of CPU workers the row range is split across.
    pub worker_count: usize,
}

/// Why a render refuses to start.
#[derive(Clone, Copy, Debug, PartialEq, Eq, Structural)]
pub enum RenderError {
    /// An image dimension or the worker count is zero: the render fails
    /// fast, before any worker or batch is launched.
    InvalidParameters,
}

/// The byte rendered for one pixel, from the scalars a backend carries:
/// `0` when the pixel's point is classified stable, `255` when it escapes.
pub open spec fn pixel_value(
    real_start: int,
    i_start: int,
    real_step: int,
    i_step: int,
    iteration_cap: i32,
    row: int,
    col: int,
) -> u8 {
    if (Complex {
        real: (real_start + col * real_step) as i64,
        imaginary: (i_start - row * i_step) as i64,
    }).spec_stable(iteration_cap) {
        0
    } else {
        255
    }
}

impl RenderParameters {
    /// The dimensions a render rejects up front when absent: at least one
    /// pixel in each direction and at least one worker.
    pub open spec fn dims_valid(self) -> bool {
        &&& self.image_width >= 1
        &&& self.image_height >= 1
        &&& self.worker_count >= 1
    }

    /// Number of pixels of the full image.
    pub open spec fn pixel_total(self) -> int {
        self.image_width * self.image_height
    }

    /// Real coordinate of a pixel column.
    pub open spec fn coord_re(self, col: int) -> int {
        self.real_start + col * self.real_step
    }

    /// Imaginary coordinate of a pixel row.
    pub open spec fn coord_im(self, row: int) -> int {
        self.i_start - row * self.i_step
    }

    /// What the machine forces on a render: the pixel buffer must be
    /// addressable, and the coordinates of the far image corner must still
    /// be representable (every interior pixel's coordinates then are too,
    /// the mapping being affine in row and column).
    pub open spec fn in_machine_bounds(self) -> bool {
        &&& self.pixel_total() <= usize::MAX
        &&& i64::MIN <= self.coord_re(self.image_width - 1) <= i64::MAX
        &&& i64::MIN <= self.coord_im(self.image_height - 1) <= i64::MAX
    }

    /// Parameters a render can be carried out for.
    pub open spec fn wf(self) -> bool {
        self.dims_valid() && self.in_machine_bounds()
    }

    /// The byte rendered for the pixel at `row`, `col`.
    pub open spec fn pixel_at(self, row: int, col: int) -> u8 {
        pixel_value(
            self.real_start as int,
            self.i_start as int,
            self.real_step as int,
            self.i_step as int,
            self.iteration_cap,
            row,
            col,
        )
    }

    /// The canonical row-major pixel buffer of this render: pixel `(row,
    /// col)` sits at index `row * image_width + col`.
    pub open spec fn image_spec(self) -> Seq<u8> {
        Seq::new(
            (self.image_width * self.image_height) as nat,
            |g: int|
                self.pixel_at(g / (self.image_width as int), g % (self.image_width as int)),
        )
    }
}

/// An affine map over an index range is bracketed by its two endpoint
/// values, whichever way the step leans.
proof fn lemma_affine_in_range(a: int, s: int, c: int, n: int)
    by (nonlinear_arith)
    requires
        0 <= c < n,
    ensures
        s >= 0 ==> a <= a + c * s <= a + (n - 1) * s,
        s < 0 ==> a + (n - 1) * s <= a + c * s <= a,
{
}

/// Real coordinate of pixel column `col`.
pub fn coord_re_at(real_start: i64, real_step: i64, width: usize, col: usize) -> (x: i64)
    requires
        col < width,
        i64::MIN <= real_start + (width - 1) * real_step <= i64::MAX,
    ensures
        x == real_start + col * real_step,
{
    proof {
        lemma_affine_in_range(real_start as int, real_step as int, col as int, width as int);
    }
    let wide: i128 = (real_start as i128) + (col as i128) * (real_step as i128);
    wide as i64
}

/// The descending counterpart of [`lemma_affine_in_range`].
proof fn lemma_affine_desc_in_range(a: int, s: int, c: int, n: int)
    by (nonlinear_arith)
    requires
        0 <= c < n,
    ensures
        s >= 0 ==> a - (n - 1) * s <= a - c * s <= a,
        s < 0 ==> a <= a - c * s <= a - (n - 1) * s,
{
}

/// Imaginary coordinate of pixel row `row`, descending from the top of the
/// image.
pub fn coord_im_at(i_start: i64, i_step: i64, height: usize, row: usize) -> (y: i64)
    requires
        row < height,
        i64::MIN <= i_start - (height - 1) * i_step <= i64::MAX,
    ensures
        y == i_start - row * i_step,
{
    proof {
        lemma_affine_desc_in_range(i_start as int, i_step as int, row as int, height as int);
    }
    let wide: i128 = (i_start as i128) - (row as i128) * (i_step as i128);
    wide as i64
}

/// Renders one pixel: maps it to its plane point and classifies the point.
pub fn pixel_byte_at(params: &RenderParameters, row: usize, col: usize) -> (b: u8)
    requires
        params.in_machine_bounds(),
        row < params.image_height,
        col < params.image_width,
    ensures
        b == params.pixel_at(row as int, col as int),
{
    let x: i64 = coord_re_at(params.real_start, params.real_step, params.image_width, col);
    let y: i64 = coord_im_at(params.i_start, params.i_step, params.image_height, row);
    let point = Complex::new(x, y);
    if point.is_stable(params.iteration_cap) {
        0
    } else {
        255
    }
}

/// The canonical image ignores the worker count: splitting the same render
/// across any number of workers describes the same buffer.
pub proof fn lemma_worker_count_irrelevant(p1: RenderParameters, p2: RenderParameters)
    requires
        p1.image_width == p2.image_width,
        p1.image_height == p2.image_height,
        p1.real_start == p2.real_start,
        p1.i_start == p2.i_start,
        p1.real_step == p2.real_step,
        p1.i_step == p2.i_step,
        p1.iteration_cap == p2.iteration_cap,
    ensures
        p1.image_spec() == p2.image_spec(),
{
    assert(p1.image_spec() =~= p2.image_spec());
}

/// A render is a function of its parameters alone: any two buffers pinned to
/// the same parameters' canonical image are byte-identical. This is what
/// makes repeated renders idempotent and the CPU and GPU pipelines agree
/// exactly, both being proved equal to [`RenderParameters::image_spec`].
pub proof fn lemma_render_deterministic(p: RenderParameters, first: Seq<u8>, second: Seq<u8>)
    requires
        first == p.image_spec(),
        second == p.image_spec(),
    ensures
        first == second,
{
}

} // verus!
