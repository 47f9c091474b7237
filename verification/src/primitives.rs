//! Line strips drawn with one indexed draw call.
//!
//! The points of all strips go into one vertex buffer, one strip after the
//! other. The index buffer counts through them and puts a restart index
//! after each strip, so that no line joins one strip to the next.

use vstd::prelude::*;

verus! {

/// Number of vertices, and of indices, that a primitive buffer holds.
pub const BUFFER_CAPACITY: u64 = 0x10000;

/// The index that ends a strip.
pub const RESTART_INDEX: u32 = u32::MAX;

/// Number of points in strips of the given lengths.
pub open spec fn total_points(lengths: Seq<usize>) -> nat
    decreases lengths.len(),
{
    if lengths.len() == 0 {
        0
    } else {
        total_points(lengths.drop_last()) + lengths.last() as nat
    }
}

/// The indices of one strip of `length` points of which the first is
/// point number `first`, with the restart index behind them.
pub open spec fn one_strip(first: nat, length: nat) -> Seq<u32> {
    Seq::new(length, |i: int| (first + i) as u32).push(RESTART_INDEX)
}

/// The index buffer for strips of the given lengths.
pub open spec fn strip_indices(lengths: Seq<usize>) -> Seq<u32>
    decreases lengths.len(),
{
    if lengths.len() == 0 {
        Seq::empty()
    } else {
        strip_indices(lengths.drop_last()) + one_strip(
            total_points(lengths.drop_last()),
            lengths.last() as nat,
        )
    }
}

/// The point total of a prefix does not exceed that of a longer prefix.
pub proof fn lemma_total_points_grows(lengths: Seq<usize>, i: int, j: int)
    requires
        0 <= i <= j <= lengths.len(),
    ensures
        total_points(lengths.take(i)) <= total_points(lengths.take(j)),
    decreases j - i,
{
    if i < j {
        lemma_total_points_grows(lengths, i, j - 1);
        assert(lengths.take(j).drop_last() =~= lengths.take(j - 1));
    }
}

/// The index buffer holds one index for each point and one restart index
/// for each strip.
pub proof fn lemma_strip_indices_len(lengths: Seq<usize>)
    ensures
        strip_indices(lengths).len() == total_points(lengths) + lengths.len(),
    decreases lengths.len(),
{
    if lengths.len() > 0 {
        lemma_strip_indices_len(lengths.drop_last());
    }
}

/// Builds the index buffer for strips of the given lengths: one index for
/// each point and a restart index after each strip. The result is `None`
/// when there are more points than a 32-bit index can count.
pub fn line_strip_indices(lengths: &[usize]) -> (indices: Option<Vec<u32>>)
    ensures
        indices is Some <==> total_points(lengths@) <= u32::MAX,
        indices matches Some(v) ==> {
            &&& v@ == strip_indices(lengths@)
            &&& v@.len() == total_points(lengths@) + lengths@.len()
        },
{
    let mut indices: Vec<u32> = Vec::new();
    let mut counter: u32 = 0;
    let mut s: usize = 0;
    while s < lengths.len()
        invariant
            s <= lengths.len(),
            counter == total_points(lengths@.take(s as int)),
            indices@ == strip_indices(lengths@.take(s as int)),
        decreases lengths.len() - s,
    {
        let length: usize = lengths[s];
        proof {
            assert(lengths@.take(s + 1).drop_last() =~= lengths@.take(s as int));
            assert(lengths@.take(s + 1).last() == lengths@[s as int]);
        }
        if length > (u32::MAX - counter) as usize {
            proof {
                lemma_total_points_grows(lengths@, s + 1, lengths@.len() as int);
                assert(lengths@.take(lengths@.len() as int) =~= lengths@);
            }
            return None;
        }
        let end: u32 = counter + length as u32;
        let ghost first = counter;
        let ghost before = indices@;
        let mut index: u32 = counter;
        while index < end
            invariant
                first <= index <= end,
                indices@ == before + Seq::new((index - first) as nat, |i: int| (first + i) as u32),
            decreases end - index,
        {
            indices.push(index);
            index = index + 1;
            assert(indices@ =~= before + Seq::new(
                (index - first) as nat,
                |i: int| (first + i) as u32,
            ));
        }
        indices.push(RESTART_INDEX);
        counter = end;
        s = s + 1;
        assert(indices@ =~= before + one_strip(first as nat, length as nat));
    }
    proof {
        assert(lengths@.take(s as int) =~= lengths@);
        lemma_strip_indices_len(lengths@);
    }
    Some(indices)
}

} // verus!
