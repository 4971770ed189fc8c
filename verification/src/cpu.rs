//! The banded CPU pipeline.
//!
//! Each worker owns one band of rows and renders it into a private buffer
//! with [`render_band`]; the coordinator collects the finished `(band index,
//! buffer)` pairs — in whatever order the workers complete — and
//! [`assemble_slices`] reorders them by band index and concatenates them
//! into the canonical row-major buffer. [`render_cpu`] is the whole
//! pipeline run band by band; its result is pinned to
//! [`RenderParameters::image_spec`], so the buffer depends on the parameters
//! alone and not on the worker count or on completion order.

use vstd::prelude::*;

use crate::params::{pixel_byte_at, RenderError, RenderParameters};
use crate::partition::{
    band_count, band_offset, band_rows, lemma_bands_partition_rows, lemma_row_has_band,
    make_bands, rows_before, Band,
};
use vstd::arithmetic::div_mod::{
    lemma_div_pos_is_pos, lemma_fundamental_div_mod, lemma_fundamental_div_mod_converse,
    lemma_mod_bound,
};
use vstd::arithmetic::mul::{
    lemma_mul_inequality, lemma_mul_is_distributive_add_other_way, lemma_mul_nonnegative,
};

verus! {

broadcast use vstd::arithmetic::mul::lemma_mul_is_commutative;

/// Renders the `row_count` rows starting at `row_offset` into a fresh
/// buffer: byte `t` of the buffer is the pixel `t / image_width` rows below
/// the band's first row, at column `t % image_width`.
#[verifier::loop_isolation(false)]
pub fn render_band(params: &RenderParameters, row_offset: usize, row_count: usize) -> (buf: Vec<
    u8,
>)
    requires
        params.in_machine_bounds(),
        params.image_width >= 1,
        row_offset + row_count <= params.image_height,
    ensures
        buf@.len() == row_count * params.image_width,
        forall|t: int|
            0 <= t < buf@.len() ==> #[trigger] buf@[t] == params.pixel_at(
                row_offset + t / (params.image_width as int),
                t % (params.image_width as int),
            ),
{
    let width: usize = params.image_width;
    let ghost w = width as int;
    let mut buf: Vec<u8> = Vec::new();
    let mut r: usize = 0;
    while r < row_count
        invariant
            0 <= r <= row_count,
            buf@.len() == r * w,
            forall|t: int|
                0 <= t < buf@.len() ==> #[trigger] buf@[t] == params.pixel_at(
                    row_offset + t / w,
                    t % w,
                ),
        decreases row_count - r,
    {
        let mut c: usize = 0;
        while c < width
            invariant
                0 <= r < row_count,
                0 <= c <= width,
                buf@.len() == r * w + c,
                forall|t: int|
                    0 <= t < buf@.len() ==> #[trigger] buf@[t] == params.pixel_at(
                        row_offset + t / w,
                        t % w,
                    ),
            decreases width - c,
        {
            let b: u8 = pixel_byte_at(params, row_offset + r, c);
            proof {
                lemma_fundamental_div_mod_converse(r * w + c, w, r as int, c as int);
            }
            buf.push(b);
            c = c + 1;
        }
        proof {
            lemma_mul_is_distributive_add_other_way(w, r as int, 1);
            assert(r * w + 1 * w == (r + 1) * w);
        }
        r = r + 1;
    }
    buf
}

/// Some completed slice carries band index `k`.
pub open spec fn covers_band(slices: Seq<(usize, Vec<u8>)>, k: int) -> bool {
    exists|j: int| 0 <= j < slices.len() && (#[trigger] slices[j]).0 == k
}

/// Reorders completed band buffers by band index — completion order is
/// arbitrary — and concatenates them: byte `t` of the slice carrying band
/// index `k` ends up at image index `band_offset(k) * image_width + t`.
#[verifier::loop_isolation(false)]
pub fn assemble_slices(
    slices: &Vec<(usize, Vec<u8>)>,
    image_width: usize,
    image_height: usize,
    worker_count: usize,
) -> (image: Vec<u8>)
    requires
        image_width >= 1,
        image_height >= 1,
        worker_count >= 1,
        slices@.len() == band_count(image_height as int, worker_count as int),
        forall|j: int|
            0 <= j < slices@.len() ==> (#[trigger] slices@[j]).0 < band_count(
                image_height as int,
                worker_count as int,
            ) && slices@[j].1@.len() == band_rows(
                image_height as int,
                worker_count as int,
                slices@[j].0 as int,
            ) * image_width,
        forall|j1: int, j2: int|
            0 <= j1 < j2 < slices@.len() ==> (#[trigger] slices@[j1]).0 != (
            #[trigger] slices@[j2]).0,
        forall|k: int|
            0 <= k < band_count(image_height as int, worker_count as int) ==> #[trigger]
            covers_band(slices@, k),
    ensures
        image@.len() == image_height * image_width,
        forall|j: int, t: int|
            #![trigger slices@[j].1@[t]]
            0 <= j < slices@.len() && 0 <= t < slices@[j].1@.len() ==> image@[band_offset(
                image_height as int,
                worker_count as int,
                slices@[j].0 as int,
            ) * image_width + t] == slices@[j].1@[t],
{
    let ghost h = image_height as int;
    let ghost wc = worker_count as int;
    let ghost w = image_width as int;
    let ghost n = band_count(h, wc);
    proof {
        lemma_bands_partition_rows(h, wc);
    }
    let count: usize = slices.len();
    let mut image: Vec<u8> = Vec::new();
    let mut k: usize = 0;
    while k < count
        invariant
            0 <= k <= n,
            image@.len() == rows_before(h, wc, k as int) * w,
            forall|jj: int|
                0 <= jj < slices@.len() && ((#[trigger] slices@[jj]).0 as int) < k
                    ==> band_offset(h, wc, slices@[jj].0 as int) * w + slices@[jj].1@.len()
                    <= image@.len(),
            forall|jj: int, tt: int|
                #![trigger slices@[jj].1@[tt]]
                0 <= jj < slices@.len() && (slices@[jj].0 as int) < k && 0 <= tt
                    < slices@[jj].1@.len() ==> image@[band_offset(h, wc, slices@[jj].0 as int)
                    * w + tt] == slices@[jj].1@[tt],
        decreases count - k,
    {
        // Find the slice that carries band index k; the coverage
        // precondition guarantees there is one.
        let mut j: usize = 0;
        while j < count && slices[j].0 != k
            invariant
                0 <= j <= count,
                forall|i: int| 0 <= i < j ==> (#[trigger] slices@[i]).0 != k as int,
            decreases count - j,
        {
            j = j + 1;
        }
        if j == count {
            proof {
                assert(covers_band(slices@, k as int));
                let j0 = choose|i: int|
                    0 <= i < slices@.len() && (#[trigger] slices@[i]).0 == k as int;
                assert(false);
            }
        }
        let band_len: usize = slices[j].1.len();
        let ghost start = band_offset(h, wc, k as int) * w;
        let mut t: usize = 0;
        while t < band_len
            invariant
                0 <= j < count,
                slices@[j as int].0 == k,
                0 <= t <= band_len,
                band_len == slices@[j as int].1@.len(),
                image@.len() == start + t,
                forall|tt: int|
                    0 <= tt < t ==> #[trigger] image@[start + tt] == slices@[j as int].1@[tt],
                forall|jj: int|
                    0 <= jj < slices@.len() && ((#[trigger] slices@[jj]).0 as int) < k
                        ==> band_offset(h, wc, slices@[jj].0 as int) * w + slices@[jj].1@.len()
                        <= start,
                forall|jj: int, tt: int|
                    #![trigger slices@[jj].1@[tt]]
                    0 <= jj < slices@.len() && (slices@[jj].0 as int) < k && 0 <= tt
                        < slices@[jj].1@.len() ==> image@[band_offset(h, wc, slices@[jj].0 as int)
                        * w + tt] == slices@[jj].1@[tt],
            decreases band_len - t,
        {
            let value: u8 = slices[j].1[t];
            image.push(value);
            t = t + 1;
        }
        proof {
            lemma_mul_is_distributive_add_other_way(
                w,
                band_offset(h, wc, k as int),
                band_rows(h, wc, k as int),
            );
            assert(rows_before(h, wc, k + 1) == band_offset(h, wc, k as int) + band_rows(
                h,
                wc,
                k as int,
            ));
            assert(image@.len() == rows_before(h, wc, k + 1) * w);
            assert forall|jj: int|
                0 <= jj < slices@.len() && ((#[trigger] slices@[jj]).0 as int) < k + 1
                    implies band_offset(h, wc, slices@[jj].0 as int) * w + slices@[jj].1@.len()
                <= image@.len() by {
                if slices@[jj].0 == k {
                    lemma_slice_index_unique(slices@, jj, j as int);
                }
            }
            assert forall|jj: int, tt: int|
                0 <= jj < slices@.len() && (slices@[jj].0 as int) < k + 1 && 0 <= tt
                    < slices@[jj].1@.len() implies image@[band_offset(h, wc, slices@[jj].0 as int)
                * w + tt] == (#[trigger] slices@[jj].1@[tt]) by {
                if slices@[jj].0 == k {
                    lemma_slice_index_unique(slices@, jj, j as int);
                    assert(image@[start + tt] == slices@[j as int].1@[tt]);
                }
            }
        }
        k = k + 1;
    }
    image
}

/// Two positions of the slice vector carrying the same band index are the
/// same position.
proof fn lemma_slice_index_unique(slices: Seq<(usize, Vec<u8>)>, j1: int, j2: int)
    requires
        0 <= j1 < slices.len(),
        0 <= j2 < slices.len(),
        slices[j1].0 == slices[j2].0,
        forall|a: int, b: int|
            0 <= a < b < slices.len() ==> (#[trigger] slices[a]).0 != (#[trigger] slices[b]).0,
    ensures
        j1 == j2,
{
    if j1 < j2 {
        assert(slices[j1].0 != slices[j2].0);
    } else if j2 < j1 {
        assert(slices[j2].0 != slices[j1].0);
    }
}

/// The whole CPU pipeline, band by band: partition the rows, render every
/// band, reassemble. The buffer is pinned to the canonical image, so it has
/// exactly `image_width * image_height` bytes and does not depend on the
/// worker count; parameters without a pixel or without a worker are
/// rejected before anything is rendered.
#[verifier::loop_isolation(false)]
pub fn render_cpu(params: &RenderParameters) -> (result: Result<Vec<u8>, RenderError>)
    requires
        !params.dims_valid() || params.in_machine_bounds(),
    ensures
        match result {
            Ok(image) => params.dims_valid() && image@ == params.image_spec() && image@.len()
                == params.pixel_total(),
            Err(e) => e == RenderError::InvalidParameters && !params.dims_valid(),
        },
{
    if params.image_width == 0 || params.image_height == 0 || params.worker_count == 0 {
        return Err(RenderError::InvalidParameters);
    }
    let ghost h = params.image_height as int;
    let ghost wc = params.worker_count as int;
    let ghost w = params.image_width as int;
    proof {
        lemma_bands_partition_rows(h, wc);
    }
    let bands: Vec<Band> = make_bands(params.image_height, params.worker_count);
    let band_total: usize = bands.len();
    let mut slices: Vec<(usize, Vec<u8>)> = Vec::new();
    let mut k: usize = 0;
    while k < band_total
        invariant
            0 <= k <= band_total,
            slices@.len() == k,
            forall|j: int|
                0 <= j < k ==> (#[trigger] slices@[j]).0 == j && slices@[j].1@.len() == band_rows(
                    h,
                    wc,
                    j,
                ) * w && (forall|t: int|
                    0 <= t < slices@[j].1@.len() ==> (#[trigger] slices@[j].1@[t])
                        == params.pixel_at(band_offset(h, wc, j) + t / w, t % w)),
        decreases band_total - k,
    {
        let band: Band = bands[k];
        let buf: Vec<u8> = render_band(params, band.row_offset, band.row_count);
        slices.push((k, buf));
        k = k + 1;
    }
    proof {
        assert forall|kk: int|
            0 <= kk < band_count(params.image_height as int, params.worker_count as int)
            implies #[trigger] covers_band(slices@, kk) by {
            assert(0 <= kk < slices@.len() && (slices@[kk]).0 == kk);
        }
    }
    let image: Vec<u8> = assemble_slices(
        &slices,
        params.image_width,
        params.image_height,
        params.worker_count,
    );
    proof {
        lemma_mul_nonnegative(w, h);
        assert forall|g: int| 0 <= g < image@.len() implies image@[g]
            == params.image_spec()[g] by {
            lemma_fundamental_div_mod(g, w);
            lemma_mod_bound(g, w);
            lemma_div_pos_is_pos(g, w);
            let row = g / w;
            let col = g % w;
            if row >= h {
                lemma_mul_inequality(h, row, w);
                assert(false);
            }
            let k = lemma_row_has_band(h, wc, row);
            let off = band_offset(h, wc, k);
            let rows = band_rows(h, wc, k);
            let t = (row - off) * w + col;
            lemma_mul_nonnegative(row - off, w);
            lemma_mul_inequality(row - off, rows - 1, w);
            lemma_mul_is_distributive_add_other_way(w, off, row - off);
            assert((off + (row - off)) * w == off * w + (row - off) * w);
            lemma_mul_is_distributive_add_other_way(w, rows - 1, 1);
            assert((rows - 1) * w + 1 * w == rows * w);
            assert(0 <= t < slices@[k].1@.len());
            lemma_fundamental_div_mod_converse(t, w, row - off, col);
            assert(image@[off * w + t] == slices@[k].1@[t]);
            assert(image@[g] == params.pixel_at(row, col));
        }
        assert(image@ =~= params.image_spec());
    }
    Ok(image)
}

} // verus!
