//! Whole images of foreground flags: rows of an `ndarray` grid of `bool`
//! measured top to bottom.

use vstd::prelude::*;
use ndarray::Array2;
use vstd::string::StringExecFns;
use crate::deltas::all_above_one;
use crate::rows::{row_deltas, masked_row_deltas, lemma_row_deltas_above_one, boundaries};
use crate::grid::nonzero_product;
use crate::error::DeltaError;

verus! {

/// A two-dimensional grid of foreground flags, stored row by row.
#[verifier::external_body]
pub struct FlagGrid {
    cells: Array2<bool>,
}

/// What a grid of flags holds, row by row.
pub uninterp spec fn flag_cells(g: FlagGrid) -> Seq<Seq<bool>>;

/// The shape of a grid of flags, as (rows, columns).
pub uninterp spec fn flag_shape(g: FlagGrid) -> (usize, usize);

/// `values` read as `rows` rows of `cols` flags each.
pub open spec fn flag_rows(values: Seq<bool>, rows: nat, cols: nat) -> Seq<Seq<bool>> {
    Seq::new(rows, |i: int| values.subrange(i * cols, i * cols + cols))
}

/// The grid holds one row per row of its shape, each with one flag per column.
pub open spec fn flag_grid_wf(g: FlagGrid) -> bool {
    &&& flag_cells(g).len() == flag_shape(g).0
    &&& forall|i: int| 0 <= i < flag_cells(g).len() ==> #[trigger] flag_cells(g)[i].len() == flag_shape(g).1
}

impl FlagGrid {
    /// Relies on ndarray::ArrayBase::from_shape_vec with a plain (rows, columns)
    /// shape: it succeeds when the product of the non-zero lengths fits `isize`
    /// and the flags fill the shape exactly, and then reads them row by row.
    #[verifier::external_body]
    fn wrap_shape_vec(shape: (usize, usize), values: Vec<bool>) -> (r: Option<FlagGrid>)
        ensures
            r is Some <==> (nonzero_product(shape) <= isize::MAX && shape.0 * shape.1 == values@.len()),
            r is Some ==> flag_shape(r->Some_0) == shape,
            r is Some ==> flag_cells(r->Some_0) == flag_rows(values@, shape.0 as nat, shape.1 as nat),
    {
        Array2::from_shape_vec(shape, values).ok().map(|cells| FlagGrid { cells })
    }

    /// Relies on ndarray::ArrayBase::dim: the (rows, columns) of the grid, whose
    /// rows each hold one flag per column.
    #[verifier::external_body]
    fn dims(&self) -> (r: (usize, usize))
        ensures
            r == flag_shape(*self),
            r.0 == flag_cells(*self).len(),
            forall|i: int| 0 <= i < r.0 ==> #[trigger] flag_cells(*self)[i].len() == r.1,
    {
        self.cells.dim()
    }

    /// Relies on ndarray::ArrayBase::row and ArrayBase::to_vec: the flags of row
    /// `i`, left to right (`row` panics on a row out of range).
    #[verifier::external_body]
    fn row_values(&self, i: usize) -> (r: Vec<bool>)
        requires
            i < flag_cells(*self).len(),
        ensures
            r@ == flag_cells(*self)[i as int],
    {
        self.cells.row(i).to_vec()
    }

    /// A grid of the given (rows, columns) shape that holds `values` row by row.
    /// Fails when the flags do not fill the shape exactly, or when the product
    /// of its non-zero lengths does not fit `isize`.
    pub fn from_shape_vec(shape: (usize, usize), values: Vec<bool>) -> (r: Result<FlagGrid, DeltaError>)
        ensures
            r is Ok <==> (nonzero_product(shape) <= isize::MAX && shape.0 * shape.1 == values@.len()),
            r is Ok ==> flag_shape(r->Ok_0) == shape,
            r is Ok ==> flag_cells(r->Ok_0) == flag_rows(values@, shape.0 as nat, shape.1 as nat),
            r is Err ==> r->Err_0 is DecodeFailure,
    {
        match FlagGrid::wrap_shape_vec(shape, values) {
            Some(g) => Ok(g),
            None => Err(DeltaError::DecodeFailure {
                reason: String::from_str("the values do not fill the shape"),
            }),
        }
    }
}

/// The deltas of the first `n` rows of a grid of flags under a mask, row after row.
pub open spec fn flag_deltas_upto(img: Seq<Seq<bool>>, mask: Seq<Seq<bool>>, n: nat) -> Seq<usize>
    decreases n,
{
    if n == 0 {
        seq![]
    } else {
        flag_deltas_upto(img, mask, (n - 1) as nat) + row_deltas(img[n - 1], mask[n - 1])
    }
}

/// What extracting the deltas of a grid of flags under a mask gives: a shape
/// mismatch naming both shapes, or the deltas of every row.
pub open spec fn flag_outcome(
    image: FlagGrid,
    mask: FlagGrid,
    r: Result<Vec<usize>, DeltaError>,
) -> bool {
    if flag_shape(image) != flag_shape(mask) {
        r is Err && r->Err_0 == (DeltaError::ShapeMismatch {
            image: flag_shape(image),
            mask: flag_shape(mask),
        })
    } else {
        r is Ok && r->Ok_0@ == flag_deltas_upto(
            flag_cells(image),
            flag_cells(mask),
            flag_cells(image).len(),
        )
    }
}

/// Every delta of the first `n` rows exceeds one column.
proof fn lemma_flag_deltas_above_one(img: Seq<Seq<bool>>, mask: Seq<Seq<bool>>, n: nat)
    ensures
        all_above_one(flag_deltas_upto(img, mask, n)),
    decreases n,
{
    if n > 0 {
        lemma_flag_deltas_above_one(img, mask, (n - 1) as nat);
        lemma_row_deltas_above_one(img[n - 1], mask[n - 1], boundaries(mask[n - 1]).len());
        let prev = flag_deltas_upto(img, mask, (n - 1) as nat);
        let all = flag_deltas_upto(img, mask, n);
        assert forall|k: int| 0 <= k < all.len() implies all[k] > 1 by {
            if k >= prev.len() {
                assert(all[k] == row_deltas(img[n - 1], mask[n - 1])[k - prev.len()]);
            }
        }
    }
}

/// The deltas of every row of a grid of flags, top to bottom, each row split by
/// the foreground columns of the same row of `mask`. Fails, before any row is
/// measured, when the two grids differ in shape.
pub fn get_all_diffs(image: FlagGrid, mask: FlagGrid) -> (r: Result<Vec<usize>, DeltaError>)
    ensures
        flag_outcome(image, mask, r),
        r is Ok ==> all_above_one(r->Ok_0@),
{
    let image_shape = image.dims();
    let mask_shape = mask.dims();
    if image_shape.0 != mask_shape.0 || image_shape.1 != mask_shape.1 {
        return Err(DeltaError::ShapeMismatch { image: image_shape, mask: mask_shape });
    }
    let mut diffs: Vec<usize> = Vec::new();
    let mut i: usize = 0;
    while i < image_shape.0
        invariant
            image_shape == flag_shape(image),
            image_shape == flag_shape(mask),
            flag_grid_wf(image),
            flag_grid_wf(mask),
            i <= image_shape.0,
            diffs@ == flag_deltas_upto(flag_cells(image), flag_cells(mask), i as nat),
        decreases image_shape.0 - i,
    {
        let row = image.row_values(i);
        let row_mask = mask.row_values(i);
        assert(row@.len() == image_shape.1);
        assert(row_mask@.len() == image_shape.1);
        let mut row_diffs = masked_row_deltas(row.as_slice(), row_mask.as_slice());
        diffs.append(&mut row_diffs);
        i = i + 1;
    }
    proof {
        lemma_flag_deltas_above_one(flag_cells(image), flag_cells(mask), i as nat);
    }
    Ok(diffs)
}

} // verus!
