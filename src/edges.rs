//! Edge detection: the ascending positions of the foreground pixels of a row.

use vstd::prelude::*;

verus! {

/// The positions, ascending, at which `s` holds `true`.
pub open spec fn true_indices(s: Seq<bool>) -> Seq<usize>
    decreases s.len(),
{
    if s.len() == 0 {
        seq![]
    } else {
        let rest = true_indices(s.drop_last());
        if s.last() {
            rest.push((s.len() - 1) as usize)
        } else {
            rest
        }
    }
}

/// Every element of `e` is below `bound`, and `e` is strictly ascending.
pub open spec fn ascending_below(e: Seq<usize>, bound: int) -> bool {
    &&& forall|k: int| 0 <= k < e.len() ==> e[k] < bound
    &&& forall|j: int, k: int| 0 <= j < k < e.len() ==> e[j] < e[k]
}

/// The foreground flags of a row of 8-bit intensities: white is foreground.
pub open spec fn white_flags(s: Seq<u8>) -> Seq<bool> {
    s.map_values(|p: u8| p == u8::MAX)
}

/// The positions found are in range, strictly ascending, and each holds `true`.
pub proof fn lemma_true_indices_shape(s: Seq<bool>)
    requires
        s.len() <= usize::MAX,
    ensures
        ascending_below(true_indices(s), s.len() as int),
        forall|k: int| 0 <= k < true_indices(s).len() ==> s[true_indices(s)[k] as int],
        true_indices(s).len() <= s.len(),
    decreases s.len(),
{
    if s.len() > 0 {
        let d = s.drop_last();
        let rest = true_indices(d);
        lemma_true_indices_shape(d);
        assert forall|k: int| 0 <= k < rest.len() implies s[rest[k] as int] by {
            assert(d[rest[k] as int] == s[rest[k] as int]);
        }
        if s.last() {
            let r = rest.push((s.len() - 1) as usize);
            assert(r[rest.len() as int] == s.len() - 1);
            assert forall|k: int| 0 <= k < r.len() implies r[k] < s.len() && s[r[k] as int] by {
                if k < rest.len() {
                    assert(r[k] == rest[k]);
                }
            }
            assert forall|j: int, k: int| 0 <= j < k < r.len() implies r[j] < r[k] by {
                assert(r[j] == rest[j]);
                if k < rest.len() {
                    assert(r[k] == rest[k]);
                }
            }
        }
    }
}

/// A row without a foreground pixel has no positions.
pub proof fn lemma_true_indices_none(s: Seq<bool>)
    requires
        forall|i: int| 0 <= i < s.len() ==> !s[i],
    ensures
        true_indices(s) == Seq::<usize>::empty(),
    decreases s.len(),
{
    if s.len() > 0 {
        lemma_true_indices_none(s.drop_last());
    }
}

/// The positions, relative to `start`, of the `true` flags in `row[start..end]`.
pub fn true_indices_in(row: &[bool], start: usize, end: usize) -> (r: Vec<usize>)
    requires
        start <= end <= row@.len(),
    ensures
        r@ == true_indices(row@.subrange(start as int, end as int)),
{
    let mut out: Vec<usize> = Vec::new();
    let mut i: usize = start;
    while i < end
        invariant
            start <= i <= end <= row@.len(),
            out@ == true_indices(row@.subrange(start as int, i as int)),
        decreases end - i,
    {
        proof {
            let next = row@.subrange(start as int, i + 1);
            assert(next.drop_last() =~= row@.subrange(start as int, i as int));
            assert(next.last() == row@[i as int]);
        }
        if row[i] {
            out.push(i - start);
        }
        i = i + 1;
    }
    out
}

/// The positions at which `vec` holds `true`, ascending.
pub fn find_true_indices(vec: &[bool]) -> (r: Vec<usize>)
    ensures
        r@ == true_indices(vec@),
        ascending_below(r@, vec@.len() as int),
        forall|k: int| 0 <= k < r@.len() ==> vec@[r@[k] as int],
        forall|i: int| 0 <= i < vec@.len() && vec@[i] ==> r@.contains(i as usize),
{
    let r = true_indices_in(vec, 0, vec.len());
    proof {
        assert(vec@.subrange(0, vec@.len() as int) =~= vec@);
        lemma_true_indices_shape(vec@);
        lemma_true_indices_complete(vec@);
    }
    r
}

/// Every position that holds `true` is found.
pub proof fn lemma_true_indices_complete(s: Seq<bool>)
    requires
        s.len() <= usize::MAX,
    ensures
        forall|i: int| 0 <= i < s.len() && s[i] ==> true_indices(s).contains(i as usize),
    decreases s.len(),
{
    if s.len() > 0 {
        lemma_true_indices_complete(s.drop_last());
        let rest = true_indices(s.drop_last());
        assert forall|i: int| 0 <= i < s.len() && s[i] implies true_indices(s).contains(
            i as usize,
        ) by {
            if i < s.len() - 1 {
                assert(s.drop_last()[i] == s[i]);
                let k = choose|k: int| 0 <= k < rest.len() && rest[k] == i as usize;
                if s.last() {
                    assert(true_indices(s)[k] == i as usize);
                }
            } else {
                assert(true_indices(s).last() == i as usize);
            }
        }
    }
}

/// Relies on num_traits::Bounded::max_value for `u8`: the foreground intensity.
#[verifier::external_body]
fn white_value() -> (r: u8)
    ensures
        r == u8::MAX,
{
    <u8 as num_traits::Bounded>::max_value()
}

/// The foreground flags of a row of intensities: a pixel is foreground when it
/// holds the largest value of its type.
pub fn white_flags_of(row: &[u8]) -> (r: Vec<bool>)
    ensures
        r@ == white_flags(row@),
{
    let white = white_value();
    let mut out: Vec<bool> = Vec::new();
    let mut i: usize = 0;
    while i < row.len()
        invariant
            white == u8::MAX,
            i <= row@.len(),
            out@ =~= white_flags(row@.subrange(0, i as int)),
        decreases row@.len() - i,
    {
        out.push(row[i] == white);
        i = i + 1;
        assert(out@ =~= white_flags(row@.subrange(0, i as int)));
    }
    assert(row@.subrange(0, row@.len() as int) =~= row@);
    out
}

/// The positions of the white pixels of `vec`, ascending.
pub fn white_pixel_indices(vec: &[u8]) -> (r: Vec<usize>)
    ensures
        r@ == true_indices(white_flags(vec@)),
        ascending_below(r@, vec@.len() as int),
        forall|k: int| 0 <= k < r@.len() ==> vec@[r@[k] as int] == u8::MAX,
        forall|i: int| 0 <= i < vec@.len() && vec@[i] == u8::MAX ==> r@.contains(i as usize),
{
    let flags = white_flags_of(vec);
    let r = find_true_indices(flags.as_slice());
    assert forall|i: int| 0 <= i < vec@.len() && vec@[i] == u8::MAX implies r@.contains(
        i as usize,
    ) by {
        assert(flags@[i]);
    }
    assert forall|k: int| 0 <= k < r@.len() implies vec@[r@[k] as int] == u8::MAX by {
        assert(flags@[r@[k] as int]);
    }
    r
}

} // verus!
