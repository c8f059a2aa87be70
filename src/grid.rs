//! Whole images: rows of an `ndarray` grid measured top to bottom.

use vstd::prelude::*;
use ndarray::Array2;
use vstd::string::StringExecFns;
use crate::edges::white_flags;
use crate::deltas::{run_deltas, all_above_one};
use crate::rows::{row_deltas, pixel_deltas_from_row, lemma_row_deltas_above_one, lemma_unmasked_row};
use crate::error::DeltaError;

verus! {

/// A two-dimensional grid of 8-bit intensities, stored row by row.
#[verifier::external_body]
pub struct Grid {
    cells: Array2<u8>,
}

/// What a grid holds, row by row.
pub uninterp spec fn grid_cells(g: Grid) -> Seq<Seq<u8>>;

/// The shape of a grid, as (rows, columns).
pub uninterp spec fn grid_shape(g: Grid) -> (usize, usize);

/// The product of the non-zero lengths of a shape.
pub open spec fn nonzero_product(shape: (usize, usize)) -> int {
    (if shape.0 == 0 { 1 } else { shape.0 as int }) * (if shape.1 == 0 { 1 } else { shape.1 as int })
}

/// `values` read as `rows` rows of `cols` values each.
pub open spec fn row_major(values: Seq<u8>, rows: nat, cols: nat) -> Seq<Seq<u8>> {
    Seq::new(rows, |i: int| values.subrange(i * cols, i * cols + cols))
}

/// The grid holds one row per row of its shape, each with one value per
/// column, and its size fits `isize`.
pub open spec fn grid_wf(g: Grid) -> bool {
    &&& grid_cells(g).len() == grid_shape(g).0
    &&& forall|i: int| 0 <= i < grid_cells(g).len() ==> #[trigger] grid_cells(g)[i].len() == grid_shape(g).1
    &&& nonzero_product(grid_shape(g)) <= isize::MAX
}

impl Grid {
    /// Relies on ndarray::ArrayBase::from_shape_vec with a plain (rows, columns)
    /// shape: it succeeds when the product of the non-zero lengths fits `isize`
    /// and the values fill the shape exactly, and then reads them row by row.
    #[verifier::external_body]
    fn wrap_shape_vec(shape: (usize, usize), values: Vec<u8>) -> (r: Option<Grid>)
        ensures
            r is Some <==> (nonzero_product(shape) <= isize::MAX && shape.0 * shape.1 == values@.len()),
            r is Some ==> grid_shape(r->Some_0) == shape,
            r is Some ==> grid_cells(r->Some_0) == row_major(values@, shape.0 as nat, shape.1 as nat),
    {
        Array2::from_shape_vec(shape, values).ok().map(|cells| Grid { cells })
    }

    /// Relies on ndarray::ArrayBase::zeros: a grid of the given shape holding
    /// zeros (it panics when the size overflows `isize`).
    #[verifier::external_body]
    fn wrap_zeros(shape: (usize, usize)) -> (r: Grid)
        requires
            nonzero_product(shape) <= isize::MAX,
        ensures
            grid_shape(r) == shape,
            grid_cells(r) == Seq::new(shape.0 as nat, |i: int| Seq::new(shape.1 as nat, |j: int| 0u8)),
    {
        Grid { cells: Array2::zeros(shape) }
    }

    /// Relies on ndarray::ArrayBase::dim: the (rows, columns) of the grid, whose
    /// rows each hold one value per column and whose size fits `isize`.
    #[verifier::external_body]
    fn dims(&self) -> (r: (usize, usize))
        ensures
            r == grid_shape(*self),
            r.0 == grid_cells(*self).len(),
            forall|i: int| 0 <= i < r.0 ==> #[trigger] grid_cells(*self)[i].len() == r.1,
            nonzero_product(r) <= isize::MAX,
    {
        self.cells.dim()
    }

    /// Relies on ndarray::ArrayBase::row and ArrayBase::to_vec: the values of row
    /// `i`, left to right (`row` panics on a row out of range).
    #[verifier::external_body]
    fn row_values(&self, i: usize) -> (r: Vec<u8>)
        requires
            i < grid_cells(*self).len(),
        ensures
            r@ == grid_cells(*self)[i as int],
    {
        self.cells.row(i).to_vec()
    }

    /// A grid of the given (rows, columns) shape that holds `values` row by row.
    /// Fails when the values do not fill the shape exactly, or when the product
    /// of its non-zero lengths does not fit `isize`.
    pub fn from_shape_vec(shape: (usize, usize), values: Vec<u8>) -> (r: Result<Grid, DeltaError>)
        ensures
            r is Ok <==> (nonzero_product(shape) <= isize::MAX && shape.0 * shape.1 == values@.len()),
            r is Ok ==> grid_shape(r->Ok_0) == shape,
            r is Ok ==> grid_cells(r->Ok_0) == row_major(values@, shape.0 as nat, shape.1 as nat),
            r is Err ==> r->Err_0 is DecodeFailure,
    {
        match Grid::wrap_shape_vec(shape, values) {
            Some(g) => Ok(g),
            None => Err(DeltaError::DecodeFailure {
                reason: String::from_str("the values do not fill the shape"),
            }),
        }
    }

    /// A grid of the given (rows, columns) shape that holds zeros.
    pub fn zeros(shape: (usize, usize)) -> (r: Grid)
        requires
            nonzero_product(shape) <= isize::MAX,
        ensures
            grid_shape(r) == shape,
            grid_wf(r),
            forall|i: int, j: int|
                0 <= i < shape.0 && 0 <= j < shape.1 ==> grid_cells(r)[i][j] == 0,
    {
        Grid::wrap_zeros(shape)
    }

    /// The (rows, columns) of the grid.
    pub fn shape(&self) -> (r: (usize, usize))
        ensures
            r == grid_shape(*self),
            grid_wf(*self),
    {
        self.dims()
    }
}

/// The deltas of the first `n` rows of an image under a mask, row after row.
pub open spec fn grid_deltas_upto(img: Seq<Seq<u8>>, mask: Seq<Seq<u8>>, n: nat) -> Seq<usize>
    decreases n,
{
    if n == 0 {
        seq![]
    } else {
        grid_deltas_upto(img, mask, (n - 1) as nat) + row_deltas(
            white_flags(img[n - 1]),
            white_flags(mask[n - 1]),
        )
    }
}

/// The deltas of an image under a mask of the same shape.
pub open spec fn grid_deltas(img: Seq<Seq<u8>>, mask: Seq<Seq<u8>>) -> Seq<usize> {
    grid_deltas_upto(img, mask, img.len())
}

/// The deltas of the first `n` rows of an image with nothing masked.
pub open spec fn unmasked_deltas_upto(img: Seq<Seq<u8>>, n: nat) -> Seq<usize>
    decreases n,
{
    if n == 0 {
        seq![]
    } else {
        unmasked_deltas_upto(img, (n - 1) as nat) + run_deltas(white_flags(img[n - 1]))
    }
}

/// The deltas of an image with nothing masked: each row is one run.
pub open spec fn unmasked_deltas(img: Seq<Seq<u8>>) -> Seq<usize> {
    unmasked_deltas_upto(img, img.len())
}

/// What extracting the deltas of `image` under `mask` gives: a shape mismatch
/// naming both shapes, or the deltas of every row.
pub open spec fn extraction_outcome(
    image: Grid,
    mask: Grid,
    r: Result<Vec<usize>, DeltaError>,
) -> bool {
    if grid_shape(image) != grid_shape(mask) {
        r is Err && r->Err_0 == (DeltaError::ShapeMismatch {
            image: grid_shape(image),
            mask: grid_shape(mask),
        })
    } else {
        r is Ok && r->Ok_0@ == grid_deltas(grid_cells(image), grid_cells(mask))
    }
}

/// Every delta of the first `n` rows exceeds one column.
proof fn lemma_grid_deltas_above_one(img: Seq<Seq<u8>>, mask: Seq<Seq<u8>>, n: nat)
    ensures
        all_above_one(grid_deltas_upto(img, mask, n)),
    decreases n,
{
    if n > 0 {
        lemma_grid_deltas_above_one(img, mask, (n - 1) as nat);
        let row = white_flags(img[n - 1]);
        let mrow = white_flags(mask[n - 1]);
        lemma_row_deltas_above_one(row, mrow, crate::rows::boundaries(mrow).len());
        let prev = grid_deltas_upto(img, mask, (n - 1) as nat);
        let all = grid_deltas_upto(img, mask, n);
        assert forall|k: int| 0 <= k < all.len() implies all[k] > 1 by {
            if k >= prev.len() {
                assert(all[k] == row_deltas(row, mrow)[k - prev.len()]);
            }
        }
    }
}

/// The deltas of every row of `image`, top to bottom, each row split by the
/// white columns of the same row of `mask`; white pixels are the foreground.
/// Fails, before any row is measured, when the two grids differ in shape.
pub fn all_pixel_deltas(image: Grid, mask: Grid) -> (r: Result<Vec<usize>, DeltaError>)
    ensures
        extraction_outcome(image, mask, r),
        r is Ok ==> all_above_one(r->Ok_0@),
{
    let image_shape = image.dims();
    let mask_shape = mask.dims();
    if image_shape.0 != mask_shape.0 || image_shape.1 != mask_shape.1 {
        return Err(DeltaError::ShapeMismatch { image: image_shape, mask: mask_shape });
    }
    let mut diffs: Vec<usize> = Vec::new();
    let mut i: usize = 0;
    while i < image_shape.0
        invariant
            image_shape == grid_shape(image),
            image_shape == grid_shape(mask),
            grid_wf(image),
            grid_wf(mask),
            i <= image_shape.0,
            diffs@ == grid_deltas_upto(grid_cells(image), grid_cells(mask), i as nat),
        decreases image_shape.0 - i,
    {
        let row = image.row_values(i);
        let row_mask = mask.row_values(i);
        assert(row@.len() == image_shape.1);
        assert(row_mask@.len() == image_shape.1);
        let mut row_diffs = pixel_deltas_from_row(row, row_mask);
        diffs.append(&mut row_diffs);
        i = i + 1;
    }
    proof {
        lemma_grid_deltas_above_one(grid_cells(image), grid_cells(mask), i as nat);
    }
    Ok(diffs)
}

/// An image under a mask that masks nothing gives the deltas of the unmasked
/// image: each row measured as one run.
pub proof fn lemma_background_rows(img: Seq<Seq<u8>>, mask: Seq<Seq<u8>>, n: nat)
    requires
        n <= img.len(),
        img.len() == mask.len(),
        forall|i: int| 0 <= i < img.len() ==> #[trigger] img[i].len() == mask[i].len(),
        forall|i: int| 0 <= i < img.len() ==> mask[i].len() <= usize::MAX,
        forall|i: int, j: int|
            0 <= i < mask.len() && 0 <= j < mask[i].len() ==> mask[i][j] != u8::MAX,
    ensures
        grid_deltas_upto(img, mask, n) == unmasked_deltas_upto(img, n),
    decreases n,
{
    if n > 0 {
        lemma_background_rows(img, mask, (n - 1) as nat);
        let m = mask[n - 1];
        assert forall|j: int| 0 <= j < white_flags(m).len() implies !white_flags(m)[j] by {
            assert(m[j] != u8::MAX);
        }
        lemma_unmasked_row(white_flags(img[n - 1]), white_flags(m));
    }
}

/// The deltas of `image` under `mask`; with no mask given, nothing is masked.
pub fn deltas_from_grids(image: Grid, mask: Option<Grid>) -> (r: Result<
    Vec<usize>,
    DeltaError,
>)
    ensures
        mask is Some ==> extraction_outcome(image, mask->Some_0, r),
        mask is None ==> r is Ok && r->Ok_0@ == unmasked_deltas(grid_cells(image)),
        r is Ok ==> all_above_one(r->Ok_0@),
{
    match mask {
        Some(m) => all_pixel_deltas(image, m),
        None => {
            let background = Grid::zeros(image.dims());
            proof {
                lemma_background_rows(
                    grid_cells(image),
                    grid_cells(background),
                    grid_cells(image).len(),
                );
            }
            all_pixel_deltas(image, background)
        },
    }
}

} // verus!
