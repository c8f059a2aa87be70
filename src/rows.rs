//! Row segmentation: a mask row splits a data row into runs that are measured
//! one by one.

use vstd::prelude::*;
use crate::edges::{
    true_indices, white_flags, find_true_indices, white_flags_of,
    lemma_true_indices_shape, lemma_true_indices_none,
};
use crate::deltas::{run_deltas, all_above_one, run_deltas_in, lemma_kept_gaps_above_one};
use crate::error::DeltaError;

verus! {

/// The ends of the runs of a row: each masked column, then the row's length.
pub open spec fn boundaries(mask: Seq<bool>) -> Seq<usize> {
    true_indices(mask).push(mask.len() as usize)
}

/// Where the run closed by the `n`-th boundary starts: just past the previous
/// boundary, or at column 0 for the first.
pub open spec fn run_start(b: Seq<usize>, n: int) -> int {
    if n == 0 {
        0
    } else {
        b[n - 1] + 1
    }
}

/// A boundary at `end` closes a run unless the column before it is masked too,
/// so that adjacent masked columns form one excluded zone.
pub open spec fn opens_run(mask: Seq<bool>, end: int) -> bool {
    end == 0 || !mask[end - 1]
}

/// The deltas of the runs closed by the first `n` boundaries of the mask row.
pub open spec fn row_deltas_upto(row: Seq<bool>, mask: Seq<bool>, n: nat) -> Seq<usize>
    decreases n,
{
    if n == 0 {
        seq![]
    } else {
        let b = boundaries(mask);
        let end = b[n - 1] as int;
        let prev = row_deltas_upto(row, mask, (n - 1) as nat);
        if opens_run(mask, end) {
            prev + run_deltas(row.subrange(run_start(b, n - 1), end))
        } else {
            prev
        }
    }
}

/// The deltas of a row of foreground flags under a mask row of the same length,
/// run after run from left to right.
pub open spec fn row_deltas(row: Seq<bool>, mask: Seq<bool>) -> Seq<usize> {
    row_deltas_upto(row, mask, boundaries(mask).len())
}

/// The boundaries of a mask row ascend strictly and end at the row's length.
pub proof fn lemma_boundaries_shape(mask: Seq<bool>)
    requires
        mask.len() <= usize::MAX,
    ensures
        boundaries(mask).last() == mask.len(),
        forall|k: int| 0 <= k < boundaries(mask).len() - 1 ==> boundaries(mask)[k] < mask.len(),
        forall|j: int, k: int|
            0 <= j < k < boundaries(mask).len() ==> boundaries(mask)[j] < boundaries(mask)[k],
{
    lemma_true_indices_shape(mask);
    let t = true_indices(mask);
    let b = boundaries(mask);
    assert forall|k: int| 0 <= k < b.len() - 1 implies b[k] < mask.len() by {
        assert(b[k] == t[k]);
    }
    assert forall|j: int, k: int| 0 <= j < k < b.len() implies b[j] < b[k] by {
        assert(b[j] == t[j]);
        if k < t.len() {
            assert(b[k] == t[k]);
        }
    }
}

/// Every delta of a row exceeds one column.
pub proof fn lemma_row_deltas_above_one(row: Seq<bool>, mask: Seq<bool>, n: nat)
    ensures
        all_above_one(row_deltas_upto(row, mask, n)),
    decreases n,
{
    if n > 0 {
        lemma_row_deltas_above_one(row, mask, (n - 1) as nat);
        let b = boundaries(mask);
        let end = b[n - 1] as int;
        let run = row.subrange(run_start(b, n - 1), end);
        lemma_kept_gaps_above_one(true_indices(run));
        let prev = row_deltas_upto(row, mask, (n - 1) as nat);
        if opens_run(mask, end) {
            let all = prev + run_deltas(run);
            assert forall|k: int| 0 <= k < all.len() implies all[k] > 1 by {
                if k >= prev.len() {
                    assert(all[k] == run_deltas(run)[k - prev.len()]);
                }
            }
        }
    }
}

/// A mask row without a masked column leaves the whole row as one run.
pub proof fn lemma_unmasked_row(row: Seq<bool>, mask: Seq<bool>)
    requires
        row.len() == mask.len(),
        mask.len() <= usize::MAX,
        forall|i: int| 0 <= i < mask.len() ==> !mask[i],
    ensures
        row_deltas(row, mask) == run_deltas(row),
{
    lemma_true_indices_none(mask);
    let b = boundaries(mask);
    assert(b.len() == 1);
    assert(row.subrange(0, row.len() as int) =~= row);
    assert(row_deltas_upto(row, mask, 0) == Seq::<usize>::empty());
    assert(row_deltas_upto(row, mask, 1) =~= Seq::<usize>::empty() + run_deltas(row));
}

/// The deltas of a row of flags under a mask row of the same length.
pub fn masked_row_deltas(row: &[bool], mask: &[bool]) -> (r: Vec<usize>)
    requires
        row@.len() == mask@.len(),
    ensures
        r@ == row_deltas(row@, mask@),
        all_above_one(r@),
{
    // the mask's foreground columns split the row; the row's end closes the last run
    let mut ends = find_true_indices(mask);
    ends.push(row.len());
    proof {
        lemma_boundaries_shape(mask@);
        assert(ends@ == boundaries(mask@));
    }
    let mut row_diffs: Vec<usize> = Vec::new();
    let mut k: usize = 0;
    while k < ends.len()
        invariant
            row@.len() == mask@.len(),
            ends@ == boundaries(mask@),
            k <= ends@.len(),
            ends@.last() == mask@.len(),
            forall|i: int| 0 <= i < ends@.len() - 1 ==> ends@[i] < mask@.len(),
            forall|i: int, j: int| 0 <= i < j < ends@.len() ==> ends@[i] < ends@[j],
            row_diffs@ == row_deltas_upto(row@, mask@, k as nat),
        decreases ends@.len() - k,
    {
        let idx_end = ends[k];
        // masked columns never join a run, whether or not the previous boundary
        // closed one
        let idx_start = if k == 0 {
            0
        } else {
            ends[k - 1] + 1
        };
        assert(idx_end <= mask@.len());
        // a boundary right after a masked column closes no run
        if idx_end == 0 || !mask[idx_end - 1] {
            let mut run = run_deltas_in(row, idx_start, idx_end);
            row_diffs.append(&mut run);
        }
        k = k + 1;
    }
    proof {
        lemma_row_deltas_above_one(row@, mask@, ends@.len() as nat);
    }
    row_diffs
}

/// The deltas of one row of foreground flags, split by the foreground columns
/// of its mask row.
pub fn get_diffs_from_row(row: Vec<bool>, row_mask: Vec<bool>) -> (r: Result<Vec<usize>, DeltaError>)
    requires
        row@.len() == row_mask@.len(),
    ensures
        r is Ok,
        r->Ok_0@ == row_deltas(row@, row_mask@),
        all_above_one(r->Ok_0@),
{
    Ok(masked_row_deltas(row.as_slice(), row_mask.as_slice()))
}

/// The deltas of one row of intensities, split by the white columns of its mask
/// row; white pixels are the foreground in both.
pub fn pixel_deltas_from_row(row: Vec<u8>, row_mask: Vec<u8>) -> (r: Vec<usize>)
    requires
        row@.len() == row_mask@.len(),
    ensures
        r@ == row_deltas(white_flags(row@), white_flags(row_mask@)),
        all_above_one(r@),
{
    let flags = white_flags_of(row.as_slice());
    let mask_flags = white_flags_of(row_mask.as_slice());
    masked_row_deltas(flags.as_slice(), mask_flags.as_slice())
}

} // verus!
