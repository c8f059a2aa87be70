use px_deltas::error::DeltaError;
use px_deltas::flag_grid::{get_all_diffs, FlagGrid};
use px_deltas::grid::{all_pixel_deltas, deltas_from_grids, Grid};

const W: u8 = u8::MAX;
const B: u8 = u8::MIN;

fn grid(rows: &[[u8; 8]]) -> Grid {
    Grid::from_shape_vec((rows.len(), 8), rows.concat()).unwrap()
}

#[test]
fn test_good_value_with_mask() {
    let image = grid(&[
        [W, B, W, B, B, W, B, W], // gaps: 2, 3, 2
        [W, B, W, B, B, W, B, W], // gaps: 2, 3, 2
        [W, B, W, B, B, W, B, W], // gaps: 2, 3, 2
    ]);
    let mask = grid(&[
        [B, B, B, B, B, B, B, B], // keep gaps
        [B, W, B, B, B, B, B, W], // new gaps: 3 only (2s masked)
        [B, W, W, W, W, B, B, B], // new gaps: 1
    ]);
    let good = [2, 3, 2, 3, 2];
    let result = all_pixel_deltas(image, mask).unwrap();
    assert_eq!(result, good);
}

#[test]
fn test_good_value_without_mask() {
    let image = grid(&[
        [W, B, W, B, B, W, B, W], // gaps: 2, 3, 2
        [W, B, W, B, B, W, B, W], // gaps: 2, 3, 2
        // no gap from the left side of the image to the first edge
        [B, B, W, B, B, W, B, B], // gaps: 3
    ]);
    let mask = grid(&[
        [B, B, B, B, B, B, B, B],
        [B, B, B, B, B, B, B, B],
        [B, B, B, B, B, B, B, B],
    ]);
    let good = [2, 3, 2, 2, 3, 2, 3];
    let result = all_pixel_deltas(image, mask).unwrap();
    assert_eq!(result, good);
}

#[test]
fn main_test_shape_mismatch() {
    let image = FlagGrid::from_shape_vec((1, 4), vec![false; 4]).unwrap();
    let mask = FlagGrid::from_shape_vec((4, 59), vec![false; 4 * 59]).unwrap();
    let result = get_all_diffs(image, mask);
    assert!(result.is_err());
    assert!(result.err().unwrap().message().contains("Shape mismatch: img="));
}

#[test]
fn processing_test_shape_mismatch() {
    let image = Grid::zeros((1, 4));
    let mask = Grid::zeros((4, 59));
    let result = all_pixel_deltas(image, mask);
    assert!(result.is_err());
    assert!(result.err().unwrap().message().contains("Shape mismatch: img="));
}

#[test]
fn shape_mismatch_names_both_shapes() {
    match all_pixel_deltas(Grid::zeros((1, 4)), Grid::zeros((4, 59))) {
        Err(e) => {
            assert!(matches!(e, DeltaError::ShapeMismatch { image: (1, 4), mask: (4, 59) }));
            assert_eq!(e.message(), "Shape mismatch: img=[1, 4], mask=[4, 59]");
        }
        Ok(d) => panic!("mismatched shapes gave {:?}", d),
    }
}

#[test]
fn same_row_count_other_width_is_a_mismatch() {
    let result = all_pixel_deltas(Grid::zeros((0, 4)), Grid::zeros((0, 5)));
    assert!(matches!(result, Err(DeltaError::ShapeMismatch { image: (0, 4), mask: (0, 5) })));
}

#[test]
fn two_rows_with_background_mask() {
    let image = grid(&[[W, B, W, B, B, W, B, W], [W, B, W, B, B, W, B, W]]);
    let mask = Grid::zeros((2, 8));
    assert_eq!(all_pixel_deltas(image, mask).unwrap(), vec![2, 3, 2, 2, 3, 2]);
}

#[test]
fn background_mask_matches_no_mask() {
    let rows = [[W, W, B, W, B, B, W, B], [B, W, B, B, W, B, W, W]];
    // a mask with no white pixel masks nothing, whatever its other values
    let mask = grid(&[[B, 12, 254, B, 7, B, B, B], [200, B, B, B, B, B, B, 1]]);
    let with_mask = all_pixel_deltas(grid(&rows), mask).unwrap();
    let without = deltas_from_grids(grid(&rows), None).unwrap();
    assert_eq!(with_mask, without);
    assert_eq!(without, vec![2, 3, 3, 2]);
}

#[test]
fn given_mask_is_used() {
    let image = grid(&[[W, B, W, B, B, W, B, W]]);
    let mask = grid(&[[B, W, B, B, B, B, B, W]]);
    assert_eq!(deltas_from_grids(image, Some(mask)).unwrap(), vec![3]);
}

#[test]
fn repeated_extraction_agrees() {
    let rows = [[W, B, B, W, W, B, W, B], [B, W, B, W, B, B, B, W]];
    let mask = [[B, B, B, B, W, B, B, B], [B, B, B, B, B, B, B, B]];
    let first = all_pixel_deltas(grid(&rows), grid(&mask)).unwrap();
    let second = all_pixel_deltas(grid(&rows), grid(&mask)).unwrap();
    assert_eq!(first, second);
    assert_eq!(first, vec![3, 2, 4]);
}

#[test]
fn empty_grids_give_no_delta() {
    assert_eq!(all_pixel_deltas(Grid::zeros((0, 0)), Grid::zeros((0, 0))).unwrap(), Vec::<usize>::new());
    assert_eq!(deltas_from_grids(Grid::zeros((3, 0)), None).unwrap(), Vec::<usize>::new());
}

#[test]
fn grid_reads_values_row_by_row() {
    let g = Grid::from_shape_vec((2, 3), vec![W, B, W, B, B, B]).unwrap();
    assert_eq!(g.shape(), (2, 3));
    // only row 0 holds edges, at columns 0 and 2
    assert_eq!(deltas_from_grids(g, None).unwrap(), vec![2]);
    let g = Grid::from_shape_vec((3, 2), vec![W, B, W, B, B, B]).unwrap();
    assert_eq!(deltas_from_grids(g, None).unwrap(), Vec::<usize>::new());
}

#[test]
fn values_that_do_not_fill_the_shape_are_refused() {
    let result = Grid::from_shape_vec((2, 3), vec![0; 5]);
    assert!(matches!(result, Err(DeltaError::DecodeFailure { .. })));
    assert!(Grid::from_shape_vec((0, 3), vec![]).is_ok());
}

#[test]
fn test_good_value() {
    let img_height = 2;
    let img_width = 8;
    let image = Vec::from([
        [true, false, true, false, false, true, false, true], // gaps: 2, 3, 2
        [true, false, true, false, false, true, false, true], // gaps: 2, 3, 2
    ])
    .concat();
    let image = FlagGrid::from_shape_vec((img_height, img_width), image).unwrap();
    let mask = Vec::from([
        [false, false, false, false, false, false, false, false], // keep gaps
        [false, true, false, false, false, false, false, true], // new gaps: 3 only (2s masked)
    ])
    .concat();
    let mask = FlagGrid::from_shape_vec((img_height, img_width), mask).unwrap();
    let good = [2, 3, 2, 3];
    let result = get_all_diffs(image, mask).unwrap();
    assert_eq!(result, good);
}

#[test]
fn flag_grid_shape_mismatch_names_both_shapes() {
    let image = FlagGrid::from_shape_vec((2, 3), vec![true; 6]).unwrap();
    let mask = FlagGrid::from_shape_vec((3, 2), vec![false; 6]).unwrap();
    let e = get_all_diffs(image, mask).unwrap_err();
    assert_eq!(e.message(), "Shape mismatch: img=[2, 3], mask=[3, 2]");
}

#[test]
fn flag_grid_refuses_short_values() {
    assert!(matches!(
        FlagGrid::from_shape_vec((2, 2), vec![true; 3]),
        Err(DeltaError::DecodeFailure { .. })
    ));
}
