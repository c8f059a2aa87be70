//! Distances between consecutive edges within one run of a row.

use vstd::prelude::*;
use crate::edges::{true_indices, white_flags, true_indices_in, white_flags_of};
use crate::error::DeltaError;

verus! {

/// The gaps between consecutive edge positions that exceed one column, in order.
/// The first edge is measured against nothing; an edge one column after the
/// previous one adds no gap.
pub open spec fn kept_gaps(e: Seq<usize>) -> Seq<usize>
    decreases e.len(),
{
    if e.len() < 2 {
        seq![]
    } else {
        let rest = kept_gaps(e.drop_last());
        let gap = e.last() - e[e.len() - 2];
        if gap > 1 {
            rest.push(gap as usize)
        } else {
            rest
        }
    }
}

/// The deltas that a run of foreground flags yields.
pub open spec fn run_deltas(run: Seq<bool>) -> Seq<usize> {
    kept_gaps(true_indices(run))
}

/// Every element of `d` exceeds one.
pub open spec fn all_above_one(d: Seq<usize>) -> bool {
    forall|k: int| 0 <= k < d.len() ==> d[k] > 1
}

/// Every kept gap exceeds one column.
pub proof fn lemma_kept_gaps_above_one(e: Seq<usize>)
    ensures
        all_above_one(kept_gaps(e)),
    decreases e.len(),
{
    if e.len() >= 2 {
        lemma_kept_gaps_above_one(e.drop_last());
    }
}

/// The kept gaps between the edge positions in `edges`.
fn kept_gaps_of(edges: &Vec<usize>) -> (r: Vec<usize>)
    ensures
        r@ == kept_gaps(edges@),
{
    let mut diffs: Vec<usize> = Vec::new();
    let mut last_edge_idx: usize = 0;
    let mut k: usize = 0;
    while k < edges.len()
        invariant
            k <= edges@.len(),
            k > 0 ==> last_edge_idx == edges@[k - 1],
            diffs@ == kept_gaps(edges@.subrange(0, k as int)),
        decreases edges@.len() - k,
    {
        let idx = edges[k];
        proof {
            let next = edges@.subrange(0, k + 1);
            assert(next.drop_last() =~= edges@.subrange(0, k as int));
            if k > 0 {
                assert(next[k - 1] == last_edge_idx);
            }
        }
        // the first edge of a run measures nothing, and an edge next to the
        // previous one starts no new gap
        if k > 0 && idx > last_edge_idx {
            let diff = idx - last_edge_idx;
            if diff > 1 {
                diffs.push(diff);
            }
        }
        last_edge_idx = idx;
        k = k + 1;
    }
    assert(edges@.subrange(0, edges@.len() as int) =~= edges@);
    diffs
}

/// The deltas of the run `row[start..end]`.
pub fn run_deltas_in(row: &[bool], start: usize, end: usize) -> (r: Vec<usize>)
    requires
        start <= end <= row@.len(),
    ensures
        r@ == run_deltas(row@.subrange(start as int, end as int)),
        all_above_one(r@),
{
    let edges = true_indices_in(row, start, end);
    proof {
        lemma_kept_gaps_above_one(edges@);
    }
    kept_gaps_of(&edges)
}

/// The deltas within one run of a row of foreground flags: the gaps above one
/// column between consecutive foreground positions.
pub fn get_diffs_from_sub_row(sub_row: &[bool]) -> (r: Result<Vec<usize>, DeltaError>)
    ensures
        r is Ok,
        r->Ok_0@ == run_deltas(sub_row@),
        all_above_one(r->Ok_0@),
{
    let d = run_deltas_in(sub_row, 0, sub_row.len());
    assert(sub_row@.subrange(0, sub_row@.len() as int) =~= sub_row@);
    Ok(d)
}

/// The deltas within one run of a row of intensities, white being foreground.
pub fn pixel_deltas_from_masked_run(sub_row: &[u8]) -> (r: Vec<usize>)
    ensures
        r@ == run_deltas(white_flags(sub_row@)),
        all_above_one(r@),
{
    let flags = white_flags_of(sub_row);
    let d = run_deltas_in(flags.as_slice(), 0, flags.len());
    assert(flags@.subrange(0, flags@.len() as int) =~= flags@);
    d
}

} // verus!
