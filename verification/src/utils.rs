//! Small helpers over dice vectors: element-wise comparison, per-value
//! occurrence counts, and writing one vector into a slice of another.

use std::collections::HashMap;

use vstd::prelude::*;

use crate::score::{dice_count, lemma_count_le_len};

verus! {

broadcast use vstd::std_specs::hash::group_hash_axioms;

/// Whether two vectors have the same length and the same value at every
/// position.
pub fn vecs_elementwise_equal(vec1: &Vec<i32>, vec2: &Vec<i32>) -> (r: bool)
    ensures
        r <==> vec1@ == vec2@,
{
    if vec1.len() != vec2.len() {
        return false;
    }
    let mut i: usize = 0;
    while i < vec1.len()
        invariant
            vec1@.len() == vec2@.len(),
            i <= vec1@.len(),
            forall|j: int| 0 <= j < i ==> vec1@[j] == vec2@[j],
        decreases vec1@.len() - i,
    {
        if vec1[i] != vec2[i] {
            return false;
        }
        i = i + 1;
    }
    proof {
        assert(vec1@ =~= vec2@);
    }
    true
}

/// Maps each value occurring in `vec` to how often it occurs; absent values
/// have no entry.
pub fn count_unique_elements(vec: &Vec<i32>) -> (counts: HashMap<i32, usize>)
    ensures
        forall|k: i32| #[trigger] counts@.contains_key(k) <==> vec@.contains(k),
        forall|k: i32| #[trigger] counts@.contains_key(k) ==> counts@[k] == dice_count(vec@, k),
{
    let mut counts: HashMap<i32, usize> = HashMap::new();
    let mut i: usize = 0;
    while i < vec.len()
        invariant
            i <= vec@.len(),
            forall|k: i32| #[trigger] counts@.contains_key(k) <==> vec@.take(i as int).contains(k),
            forall|k: i32| #[trigger] counts@.contains_key(k) ==> counts@[k] == dice_count(
                vec@.take(i as int),
                k,
            ),
        decreases vec@.len() - i,
    {
        let value = vec[i];
        proof {
            assert(vec@.take(i + 1).drop_last() =~= vec@.take(i as int));
            assert(vec@.take(i + 1).last() == vec@[i as int]);
            lemma_count_le_len(vec@.take(i as int), value);
        }
        let n = match counts.get(&value) {
            Some(c) => *c,
            None => 0,
        };
        proof {
            if counts@.contains_key(value) {
                assert(n == dice_count(vec@.take(i as int), value));
            } else {
                assert(!vec@.take(i as int).contains(value));
                crate::score::lemma_count_positive_iff_contains(vec@.take(i as int), value);
            }
        }
        counts.insert(value, n + 1);
        i = i + 1;
        proof {
            assert forall|k: i32| #[trigger] counts@.contains_key(k) <==> vec@.take(
                i as int,
            ).contains(k) by {
                if k == value {
                    assert(vec@.take(i as int).last() == value);
                    assert(vec@.take(i as int).contains(value));
                } else {
                    if vec@.take(i as int).contains(k) {
                        let j = choose|j: int|
                            0 <= j < vec@.take(i as int).len() && #[trigger] vec@.take(
                                i as int,
                            )[j] == k;
                        if j < i - 1 {
                            assert(vec@.take(i - 1)[j] == k);
                            assert(vec@.take(i - 1).contains(k));
                        }
                    } else {
                        if vec@.take(i - 1).contains(k) {
                            let j = choose|j: int|
                                0 <= j < vec@.take(i - 1).len() && #[trigger] vec@.take(i - 1)[j]
                                    == k;
                            assert(vec@.take(i as int)[j] == k);
                            assert(vec@.take(i as int).contains(k));
                        }
                    }
                }
            }
        }
    }
    proof {
        assert(vec@.take(vec@.len() as int) =~= vec@);
    }
    counts
}

/// Copies `src` into `dest` starting at `start_index`, leaving the elements
/// before and after the copied range unchanged.
pub fn set_slice_from_vec(dest: &mut Vec<i32>, src: Vec<i32>, start_index: usize)
    requires
        start_index + src@.len() <= old(dest)@.len(),
    ensures
        final(dest)@.len() == old(dest)@.len(),
        forall|j: int|
            start_index <= j < start_index + src@.len() ==> final(dest)@[j] == src@[
                j - start_index],
        forall|j: int|
            0 <= j < old(dest)@.len() && !(start_index <= j < start_index + src@.len())
                ==> final(dest)@[j] == old(dest)@[j],
{
    let dest_len: usize = dest.len();
    let mut i: usize = 0;
    while i < src.len()
        invariant
            i <= src@.len(),
            start_index + src@.len() <= dest_len,
            dest@.len() == dest_len,
            dest@.len() == old(dest)@.len(),
            forall|j: int| start_index <= j < start_index + i ==> dest@[j] == src@[j - start_index],
            forall|j: int|
                0 <= j < old(dest)@.len() && !(start_index <= j < start_index + i) ==> dest@[j]
                    == old(dest)@[j],
        decreases src@.len() - i,
    {
        dest.set(start_index + i, src[i]);
        i = i + 1;
    }
}

} // verus!
