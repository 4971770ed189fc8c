//! Work partitioning.
//!
//! The CPU pipeline splits the image's row range into contiguous bands, one
//! per worker: every band gets `image_height / worker_count` rows and the
//! last band absorbs the remainder. When there are more workers than rows,
//! the whole image collapses into a single band so that no worker is left
//! with zero rows. [`lemma_bands_partition_rows`] is the partitioning
//! invariant: the bands cover `[0, image_height)` exactly, contiguously,
//! with no gaps, no overlaps and no empty band.

use vstd::prelude::*;

use vstd::arithmetic::div_mod::{
    lemma_div_non_zero, lemma_div_pos_is_pos, lemma_fundamental_div_mod, lemma_mod_bound,
};
use vstd::arithmetic::mul::{lemma_mul_is_distributive_add_other_way, lemma_mul_inequality};

verus! {

/// A contiguous, non-overlapping slice of image rows owned by one worker.
#[derive(Clone, Copy, Debug, PartialEq, Eq, Structural)]
pub struct Band {
    /// Position of the band within the image, counted from the top.
    pub index: usize,
    /// First image row of the band.
    pub row_offset: usize,
    /// Number of rows of the band.
    pub row_count: usize,
}

/// How many bands a render uses: one per worker, collapsed to a single band
/// when workers outnumber rows.
pub open spec fn band_count(image_height: int, worker_count: int) -> int {
    if worker_count > image_height {
        1
    } else {
        worker_count
    }
}

/// Rows of every band but the last.
pub open spec fn base_rows(image_height: int, worker_count: int) -> int {
    if worker_count > image_height {
        image_height
    } else {
        image_height / worker_count
    }
}

/// Rows of band `k`: the last band also absorbs the remainder of the
/// division.
pub open spec fn band_rows(image_height: int, worker_count: int, k: int) -> int {
    if k == band_count(image_height, worker_count) - 1 {
        base_rows(image_height, worker_count) + if worker_count > image_height {
            0
        } else {
            image_height % worker_count
        }
    } else {
        base_rows(image_height, worker_count)
    }
}

/// First image row of band `k`.
pub open spec fn band_offset(image_height: int, worker_count: int, k: int) -> int {
    k * base_rows(image_height, worker_count)
}

/// Rows assembled once all bands before `k` are in place; the whole image
/// once every band is.
pub open spec fn rows_before(image_height: int, worker_count: int, k: int) -> int {
    if k >= band_count(image_height, worker_count) {
        image_height
    } else {
        band_offset(image_height, worker_count, k)
    }
}

/// `b` is band `k` of the partition.
pub open spec fn is_band_for(b: Band, image_height: int, worker_count: int, k: int) -> bool {
    &&& b.index == k
    &&& b.row_offset == band_offset(image_height, worker_count, k)
    &&& b.row_count == band_rows(image_height, worker_count, k)
}

/// The partitioning invariant: the bands of one image tile its row range
/// `[0, image_height)` contiguously and completely, and none is empty.
pub proof fn lemma_bands_partition_rows(image_height: int, worker_count: int)
    requires
        image_height >= 1,
        worker_count >= 1,
    ensures
        band_offset(image_height, worker_count, 0) == 0,
        rows_before(image_height, worker_count, 0) == 0,
        forall|k: int|
            0 <= k < band_count(image_height, worker_count) ==> #[trigger] rows_before(
                image_height,
                worker_count,
                k + 1,
            ) == rows_before(image_height, worker_count, k) + band_rows(
                image_height,
                worker_count,
                k,
            ),
        band_offset(image_height, worker_count, band_count(image_height, worker_count) - 1)
            + band_rows(
            image_height,
            worker_count,
            band_count(image_height, worker_count) - 1,
        ) == image_height,
        forall|k: int|
            0 <= k < band_count(image_height, worker_count) ==> 1 <= #[trigger] band_rows(
                image_height,
                worker_count,
                k,
            ),
        forall|k: int|
            0 <= k < band_count(image_height, worker_count) ==> #[trigger] band_offset(
                image_height,
                worker_count,
                k,
            ) + band_rows(image_height, worker_count, k) <= image_height,
{
    let h = image_height;
    let wc = worker_count;
    let n = band_count(h, wc);
    let b = base_rows(h, wc);
    if wc > h {
        assert forall|k: int| 0 <= k < n implies #[trigger] rows_before(h, wc, k + 1)
            == rows_before(h, wc, k) + band_rows(h, wc, k) by {}
    } else {
        lemma_fundamental_div_mod(h, wc);
        lemma_div_non_zero(h, wc);
        assert(wc * b + h % wc == h);
        assert(band_offset(h, wc, n - 1) + band_rows(h, wc, n - 1) == h) by {
            lemma_mul_is_distributive_add_other_way(b, n - 1, 1);
            assert((n - 1) * b + 1 * b == n * b);
        }
        assert forall|k: int| 0 <= k < n implies #[trigger] band_offset(h, wc, k) + band_rows(
            h,
            wc,
            k,
        ) <= h by {
            lemma_mul_is_distributive_add_other_way(b, k, 1);
            assert(k * b + 1 * b == (k + 1) * b);
            lemma_mul_inequality(k + 1, n, b);
        }
        assert forall|k: int| 0 <= k < n implies #[trigger] rows_before(h, wc, k + 1)
            == rows_before(h, wc, k) + band_rows(h, wc, k) by {
            lemma_mul_is_distributive_add_other_way(b, k, 1);
            assert(k * b + 1 * b == (k + 1) * b);
            if k + 1 >= n {
                assert(k == n - 1);
            }
        }
    }
}

/// No row is left out: every image row lies in some band (and the bands
/// being contiguous and non-overlapping, in exactly one).
pub proof fn lemma_row_has_band(image_height: int, worker_count: int, row: int) -> (k: int)
    requires
        image_height >= 1,
        worker_count >= 1,
        0 <= row < image_height,
    ensures
        0 <= k < band_count(image_height, worker_count),
        band_offset(image_height, worker_count, k) <= row,
        row < band_offset(image_height, worker_count, k) + band_rows(
            image_height,
            worker_count,
            k,
        ),
{
    let h = image_height;
    let wc = worker_count;
    lemma_bands_partition_rows(h, wc);
    if wc > h {
        0
    } else {
        let b = h / wc;
        lemma_div_non_zero(h, wc);
        let k0 = row / b;
        lemma_fundamental_div_mod(row, b);
        lemma_mod_bound(row, b);
        lemma_div_pos_is_pos(row, b);
        if k0 < wc - 1 {
            assert(row < k0 * b + b);
            k0
        } else {
            lemma_mul_inequality(wc - 1, k0, b);
            wc - 1
        }
    }
}

/// Splits the image's row range into one band per worker, the last band
/// absorbing the remainder; a worker count beyond the row count collapses to
/// a single band covering the whole image.
pub fn make_bands(image_height: usize, worker_count: usize) -> (bands: Vec<Band>)
    requires
        image_height >= 1,
        worker_count >= 1,
    ensures
        bands@.len() == band_count(image_height as int, worker_count as int),
        forall|k: int|
            0 <= k < bands@.len() ==> is_band_for(
                #[trigger] bands@[k],
                image_height as int,
                worker_count as int,
                k,
            ),
{
    let mut bands: Vec<Band> = Vec::new();
    if worker_count > image_height {
        bands.push(Band { index: 0, row_offset: 0, row_count: image_height });
        return bands;
    }
    let base: usize = image_height / worker_count;
    let remainder: usize = image_height % worker_count;
    proof {
        lemma_bands_partition_rows(image_height as int, worker_count as int);
    }
    let mut k: usize = 0;
    while k < worker_count
        invariant
            worker_count <= image_height,
            image_height >= 1,
            worker_count >= 1,
            base == image_height as int / worker_count as int,
            remainder == image_height as int % worker_count as int,
            0 <= k <= worker_count,
            bands@.len() == k,
            forall|j: int|
                0 <= j < k ==> is_band_for(
                    #[trigger] bands@[j],
                    image_height as int,
                    worker_count as int,
                    j,
                ),
        decreases worker_count - k,
    {
        proof {
            lemma_bands_partition_rows(image_height as int, worker_count as int);
            lemma_mul_inequality(k as int, worker_count as int, base as int);
            lemma_fundamental_div_mod(image_height as int, worker_count as int);
        }
        let row_offset: usize = k * base;
        let row_count: usize = if k == worker_count - 1 {
            base + remainder
        } else {
            base
        };
        bands.push(Band { index: k, row_offset, row_count });
        k = k + 1;
    }
    bands
}

} // verus!
