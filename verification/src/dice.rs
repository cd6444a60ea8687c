//! The roll source: fresh dice drawn from the thread-local random
//! generator, handed out in non-decreasing order.

use vstd::prelude::*;

use crate::score::all_dice_valid;

verus! {

/// Declares rand's ThreadRng so that the generator can be held in a field;
/// its values are opaque and only the wrappers below touch them.
#[verifier::external_type_specification]
#[verifier::external_body]
pub struct ExThreadRng(rand::rngs::ThreadRng);

/// Relies on rand::rng: a handle to the thread-local random generator.
#[verifier::external_body]
fn fresh_rng() -> rand::rngs::ThreadRng {
    rand::rng()
}

/// Relies on rand's RngExt::random_range: a uniformly distributed value in
/// the given non-empty range; called with 1..=6, so the result is a valid
/// die face. Nothing more can be promised of a random value.
#[verifier::external_body]
fn roll_die(rng: &mut rand::rngs::ThreadRng) -> (r: i32)
    ensures
        1 <= r <= 6,
{
    rand::RngExt::random_range(rng, 1..=6)
}

/// The values appear in non-decreasing order.
pub open spec fn sorted(s: Seq<i32>) -> bool {
    forall|i: int, j: int| 0 <= i <= j < s.len() ==> s[i] <= s[j]
}

/// No value exceeds `v`.
pub open spec fn upper_bounded(s: Seq<i32>, v: i32) -> bool {
    forall|j: int| 0 <= j < s.len() ==> #[trigger] s[j] <= v
}

/// Appends `count` copies of the value `v`.
fn push_copies(res: &mut Vec<i32>, v: i32, count: usize)
    ensures
        final(res)@.len() == old(res)@.len() + count,
        forall|j: int| 0 <= j < old(res)@.len() ==> final(res)@[j] == old(res)@[j],
        forall|j: int| old(res)@.len() <= j < final(res)@.len() ==> final(res)@[j] == v,
        sorted(old(res)@) && upper_bounded(old(res)@, v) ==> sorted(final(res)@) && upper_bounded(
            final(res)@,
            v,
        ),
        all_dice_valid(old(res)@) && 1 <= v <= 6 ==> all_dice_valid(final(res)@),
{
    let mut i: usize = 0;
    while i < count
        invariant
            i <= count,
            res@.len() == old(res)@.len() + i,
            forall|j: int| 0 <= j < old(res)@.len() ==> res@[j] == old(res)@[j],
            forall|j: int| old(res)@.len() <= j < res@.len() ==> res@[j] == v,
        decreases count - i,
    {
        res.push(v);
        i = i + 1;
    }
}

/// The roll source: owns the thread-local random generator and produces
/// fresh dice results.
pub struct Dice {
    rng: rand::rngs::ThreadRng,
}

impl Dice {
    /// A roller over the thread-local random generator.
    pub fn new() -> Dice {
        Dice { rng: fresh_rng() }
    }

    /// Rolls `n` fresh dice, each a value in 1..=6, and returns them in
    /// non-decreasing order.
    pub fn gen_numbers(&mut self, n: usize) -> (res: Vec<i32>)
        ensures
            res@.len() == n,
            all_dice_valid(res@),
            sorted(res@),
    {
        let mut c1: usize = 0;
        let mut c2: usize = 0;
        let mut c3: usize = 0;
        let mut c4: usize = 0;
        let mut c5: usize = 0;
        let mut c6: usize = 0;
        let mut i: usize = 0;
        while i < n
            invariant
                i <= n,
                c1 + c2 + c3 + c4 + c5 + c6 == i,
            decreases n - i,
        {
            let x = roll_die(&mut self.rng);
            if x == 1 {
                c1 = c1 + 1;
            } else if x == 2 {
                c2 = c2 + 1;
            } else if x == 3 {
                c3 = c3 + 1;
            } else if x == 4 {
                c4 = c4 + 1;
            } else if x == 5 {
                c5 = c5 + 1;
            } else {
                c6 = c6 + 1;
            }
            i = i + 1;
        }
        let mut res: Vec<i32> = Vec::new();
        push_copies(&mut res, 1, c1);
        push_copies(&mut res, 2, c2);
        push_copies(&mut res, 3, c3);
        push_copies(&mut res, 4, c4);
        push_copies(&mut res, 5, c5);
        push_copies(&mut res, 6, c6);
        res
    }
}

} // verus!
