//! Properties that relate several calls or hold of every input.

use vstd::prelude::*;
use crate::edges::true_indices;
use crate::deltas::{kept_gaps, run_deltas};
use crate::grid::{
    Grid, grid_cells, grid_shape, grid_wf, grid_deltas, unmasked_deltas, extraction_outcome,
    lemma_background_rows,
};
use crate::error::DeltaError;

verus! {

/// Extracting twice from the same grids gives the same outcome: the same
/// deltas, or the same error.
pub proof fn law_extraction_is_repeatable(
    image: Grid,
    mask: Grid,
    first: Result<Vec<usize>, DeltaError>,
    second: Result<Vec<usize>, DeltaError>,
)
    requires
        extraction_outcome(image, mask, first),
        extraction_outcome(image, mask, second),
    ensures
        first is Ok <==> second is Ok,
        first is Ok ==> first->Ok_0@ == second->Ok_0@,
        first is Err ==> first->Err_0 == second->Err_0,
{
}

/// A mask of the image's shape that masks no column gives the deltas of the
/// image with no mask at all.
pub proof fn law_background_mask_is_no_mask(image: Grid, mask: Grid)
    requires
        grid_wf(image),
        grid_wf(mask),
        grid_shape(mask) == grid_shape(image),
        forall|i: int, j: int|
            0 <= i < grid_shape(mask).0 && 0 <= j < grid_shape(mask).1 ==> grid_cells(mask)[i][j]
                != u8::MAX,
    ensures
        grid_deltas(grid_cells(image), grid_cells(mask)) == unmasked_deltas(grid_cells(image)),
        forall|r: Result<Vec<usize>, DeltaError>|
            extraction_outcome(image, mask, r) ==> r is Ok && r->Ok_0@ == unmasked_deltas(
                grid_cells(image),
            ),
{
    let img = grid_cells(image);
    let m = grid_cells(mask);
    assert forall|i: int| 0 <= i < img.len() implies #[trigger] img[i].len() == m[i].len() by {
        assert(img[i].len() == grid_shape(image).1);
        assert(m[i].len() == grid_shape(mask).1);
    }
    assert forall|i: int| 0 <= i < img.len() implies m[i].len() <= usize::MAX by {
        assert(m[i].len() == grid_shape(mask).1);
    }
    lemma_background_rows(img, m, img.len());
}

/// An edge one column after the previous edge adds no delta.
pub proof fn law_adjacent_edge_adds_nothing(e: Seq<usize>)
    requires
        e.len() >= 2,
        e.last() == e[e.len() - 2] + 1,
    ensures
        kept_gaps(e) == kept_gaps(e.drop_last()),
{
}

/// A foreground pixel right after another foreground pixel adds no delta to
/// its run.
pub proof fn law_adjacent_pixel_adds_nothing(run: Seq<bool>)
    requires
        run.len() >= 2,
        run.len() <= usize::MAX,
        run[run.len() - 2],
        run.last(),
    ensures
        run_deltas(run) == run_deltas(run.drop_last()),
{
    let d = run.drop_last();
    assert(d.last() == run[run.len() - 2]);
    let e = true_indices(run);
    assert(e == true_indices(d).push((run.len() - 1) as usize));
    assert(true_indices(d) == true_indices(d.drop_last()).push((d.len() - 1) as usize));
    assert(e.drop_last() =~= true_indices(d));
    law_adjacent_edge_adds_nothing(e);
}

} // verus!
