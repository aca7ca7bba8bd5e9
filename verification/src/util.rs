//! Input-expansion helpers: the neuron parity scheme needs every raw input
//! duplicated into two adjacent slots, and the inverse selection.
use vstd::prelude::*;

verus! {

/// The sequence with every element of `s` repeated in two adjacent slots.
pub open spec fn spec_duplicate<T>(s: Seq<T>) -> Seq<T> {
    Seq::new(s.len() * 2, |i: int| s[i / 2])
}

/// The sequence of the even-indexed elements of `s`.
pub open spec fn spec_unduplicate<T>(s: Seq<T>) -> Seq<T> {
    Seq::new(((s.len() + 1) / 2) as nat, |i: int| s[2 * i])
}

/// Duplicating and then selecting the even-indexed elements gives the
/// original sequence back.
pub proof fn lemma_unduplicate_of_duplicate<T>(s: Seq<T>)
    ensures
        spec_unduplicate(spec_duplicate(s)) == s,
{
    assert(spec_unduplicate(spec_duplicate(s)) =~= s);
}

/// Repeats every element into two adjacent slots.
pub fn duplicate_elements<T: Copy>(values: &Vec<T>) -> (r: Vec<T>)
    requires
        values@.len() * 2 <= usize::MAX,
    ensures
        r@ == spec_duplicate(values@),
{
    let mut r: Vec<T> = Vec::new();
    for k in 0..values.len()
        invariant
            r@.len() == 2 * k,
            forall|i: int| 0 <= i < 2 * k ==> r@[i] == values@[i / 2],
    {
        r.push(values[k]);
        r.push(values[k]);
    }
    proof {
        assert(r@ =~= spec_duplicate(values@));
    }
    r
}

/// Keeps only the even-indexed elements.
pub fn unduplicate_elements<T: Copy>(values: &Vec<T>) -> (r: Vec<T>)
    ensures
        r@ == spec_unduplicate(values@),
{
    let n: usize = values.len() / 2 + values.len() % 2;
    let mut r: Vec<T> = Vec::new();
    for j in 0..n
        invariant
            r@.len() == j,
            forall|i: int| 0 <= i < j ==> r@[i] == values@[2 * i],
    {
        r.push(values[2 * j]);
    }
    proof {
        assert(r@ =~= spec_unduplicate(values@));
    }
    r
}

} // verus!
