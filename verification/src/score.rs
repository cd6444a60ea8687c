//! Shape detection and category scoring for a five-dice roll.

use vstd::prelude::*;

verus! {

/// The 13 categories of a score sheet: six upper-section categories
/// (counting a single face value) and seven lower-section categories
/// (shapes and chance).
#[derive(Clone, Copy, Debug, PartialEq, Eq, Structural)]
pub enum ScoreType {
    Ones,
    Twos,
    Threes,
    Fours,
    Fives,
    Sixes,
    ThreeOfAKind,
    FourOfAKind,
    FullHouse,
    SmallStraight,
    LargeStraight,
    Yahtzee,
    Chance,
}

/// How many dice in `s` show the value `v`.
pub open spec fn dice_count(s: Seq<i32>, v: i32) -> nat
    decreases s.len(),
{
    if s.len() == 0 {
        0
    } else {
        dice_count(s.drop_last(), v) + if s.last() == v {
            1nat
        } else {
            0nat
        }
    }
}

/// The sum of all dice in `s`.
pub open spec fn dice_sum(s: Seq<i32>) -> int
    decreases s.len(),
{
    if s.len() == 0 {
        0
    } else {
        dice_sum(s.drop_last()) + s.last()
    }
}

/// Every die shows a face value between 1 and 6.
pub open spec fn all_dice_valid(s: Seq<i32>) -> bool {
    forall|i: int| 0 <= i < s.len() ==> 1 <= #[trigger] s[i] <= 6
}

/// A well-formed dice result: exactly five dice, each in 1..=6.
pub open spec fn dice_ok(s: Seq<i32>) -> bool {
    s.len() == 5 && all_dice_valid(s)
}

/// No value occurs more often than there are dice.
pub proof fn lemma_count_le_len(s: Seq<i32>, v: i32)
    ensures
        dice_count(s, v) <= s.len(),
    decreases s.len(),
{
    if s.len() > 0 {
        lemma_count_le_len(s.drop_last(), v);
    }
}

/// A value outside 1..=6 never occurs among valid dice.
pub proof fn lemma_count_zero_outside(s: Seq<i32>, v: i32)
    requires
        all_dice_valid(s),
        !(1 <= v <= 6),
    ensures
        dice_count(s, v) == 0,
    decreases s.len(),
{
    if s.len() > 0 {
        assert(all_dice_valid(s.drop_last()));
        lemma_count_zero_outside(s.drop_last(), v);
    }
}

/// A value that occurs in `s` has a positive count, and conversely.
pub proof fn lemma_count_positive_iff_contains(s: Seq<i32>, v: i32)
    ensures
        dice_count(s, v) > 0 <==> s.contains(v),
    decreases s.len(),
{
    if s.len() > 0 {
        lemma_count_positive_iff_contains(s.drop_last(), v);
        assert(s.contains(v) ==> dice_count(s, v) > 0) by {
            if s.contains(v) {
                let i = choose|i: int| 0 <= i < s.len() && s[i] == v;
                if i < s.len() - 1 {
                    assert(s.drop_last()[i] == v);
                    assert(s.drop_last().contains(v));
                }
            }
        }
    }
}

/// Among valid dice, the six per-value counts partition the roll.
pub proof fn lemma_counts_partition(s: Seq<i32>)
    requires
        all_dice_valid(s),
    ensures
        dice_count(s, 1) + dice_count(s, 2) + dice_count(s, 3) + dice_count(s, 4) + dice_count(
            s,
            5,
        ) + dice_count(s, 6) == s.len(),
    decreases s.len(),
{
    if s.len() > 0 {
        assert(all_dice_valid(s.drop_last()));
        lemma_counts_partition(s.drop_last());
        assert(1 <= s.last() <= 6);
    }
}

/// The sum of valid dice lies between the number of dice and six times it.
pub proof fn lemma_sum_bounds(s: Seq<i32>)
    requires
        all_dice_valid(s),
    ensures
        s.len() <= dice_sum(s) <= 6 * s.len(),
    decreases s.len(),
{
    if s.len() > 0 {
        assert(all_dice_valid(s.drop_last()));
        lemma_sum_bounds(s.drop_last());
        assert(1 <= s.last() <= 6);
    }
}

/// All five dice show the same face value.
pub open spec fn is_all_same(s: Seq<i32>) -> bool {
    s.len() > 0 && forall|i: int| 0 <= i < s.len() ==> #[trigger] s[i] == s[0]
}

/// Some value occurs at least `n` times.
pub open spec fn has_at_least(s: Seq<i32>, n: nat) -> bool {
    exists|v: i32| #[trigger] dice_count(s, v) >= n
}

/// Exactly one pair and one triple; five of a kind does not qualify.
pub open spec fn is_full_house(s: Seq<i32>) -> bool {
    (exists|v: i32| #[trigger] dice_count(s, v) == 3) && (exists|v: i32| #[trigger] dice_count(
        s,
        v,
    ) == 2)
}

/// The distinct values contain a run of four consecutive values.
pub open spec fn is_small_straight(s: Seq<i32>) -> bool {
    ||| dice_count(s, 1) >= 1 && dice_count(s, 2) >= 1 && dice_count(s, 3) >= 1 && dice_count(s, 4)
        >= 1
    ||| dice_count(s, 2) >= 1 && dice_count(s, 3) >= 1 && dice_count(s, 4) >= 1 && dice_count(s, 5)
        >= 1
    ||| dice_count(s, 3) >= 1 && dice_count(s, 4) >= 1 && dice_count(s, 5) >= 1 && dice_count(s, 6)
        >= 1
}

/// The five dice are exactly 1..=5 or exactly 2..=6, in any order.
pub open spec fn is_large_straight(s: Seq<i32>) -> bool {
    ||| dice_count(s, 1) == 1 && dice_count(s, 2) == 1 && dice_count(s, 3) == 1 && dice_count(s, 4)
        == 1 && dice_count(s, 5) == 1
    ||| dice_count(s, 2) == 1 && dice_count(s, 3) == 1 && dice_count(s, 4) == 1 && dice_count(s, 5)
        == 1 && dice_count(s, 6) == 1
}

/// The score a category receives for a dice result: the scoring rule engine,
/// as a mathematical function.
pub open spec fn spec_score(t: ScoreType, s: Seq<i32>) -> int {
    match t {
        ScoreType::Ones => 1 * (dice_count(s, 1) as int),
        ScoreType::Twos => 2 * (dice_count(s, 2) as int),
        ScoreType::Threes => 3 * (dice_count(s, 3) as int),
        ScoreType::Fours => 4 * (dice_count(s, 4) as int),
        ScoreType::Fives => 5 * (dice_count(s, 5) as int),
        ScoreType::Sixes => 6 * (dice_count(s, 6) as int),
        ScoreType::ThreeOfAKind => if has_at_least(s, 3) {
            dice_sum(s)
        } else {
            0
        },
        ScoreType::FourOfAKind => if has_at_least(s, 4) {
            dice_sum(s)
        } else {
            0
        },
        ScoreType::FullHouse => if is_full_house(s) {
            25
        } else {
            0
        },
        ScoreType::SmallStraight => if is_small_straight(s) {
            30
        } else {
            0
        },
        ScoreType::LargeStraight => if is_large_straight(s) {
            40
        } else {
            0
        },
        ScoreType::Yahtzee => if is_all_same(s) {
            50
        } else {
            0
        },
        ScoreType::Chance => dice_sum(s),
    }
}

/// Every category scores between 0 and 50 on a well-formed dice result.
pub proof fn lemma_score_bounds(t: ScoreType, s: Seq<i32>)
    requires
        dice_ok(s),
    ensures
        0 <= spec_score(t, s) <= 50,
{
    lemma_count_le_len(s, 1);
    lemma_count_le_len(s, 2);
    lemma_count_le_len(s, 3);
    lemma_count_le_len(s, 4);
    lemma_count_le_len(s, 5);
    lemma_count_le_len(s, 6);
    lemma_sum_bounds(s);
}

/// A value is a legitimate score for a category when some well-formed dice
/// result produces it (0 by a scratch, or the category's formula result).
pub open spec fn producible(t: ScoreType, v: int) -> bool {
    exists|d: Seq<i32>| dice_ok(d) && #[trigger] spec_score(t, d) == v
}

/// Every legitimate score lies between 0 and 50.
pub proof fn lemma_producible_bounds(t: ScoreType, v: int)
    requires
        producible(t, v),
    ensures
        0 <= v <= 50,
{
    let d = choose|d: Seq<i32>| dice_ok(d) && #[trigger] spec_score(t, d) == v;
    lemma_score_bounds(t, d);
}

/// Counts how often `v` occurs in `numbers`.
pub fn count_value(numbers: &Vec<i32>, v: i32) -> (n: usize)
    ensures
        n == dice_count(numbers@, v),
{
    let mut n: usize = 0;
    let mut i: usize = 0;
    while i < numbers.len()
        invariant
            i <= numbers@.len(),
            n == dice_count(numbers@.take(i as int), v),
            n <= i,
        decreases numbers@.len() - i,
    {
        assert(numbers@.take(i + 1).drop_last() =~= numbers@.take(i as int));
        assert(numbers@.take(i + 1).last() == numbers@[i as int]);
        if numbers[i] == v {
            n = n + 1;
        }
        i = i + 1;
    }
    assert(numbers@.take(numbers@.len() as int) =~= numbers@);
    n
}

/// Adds up all dice in `numbers`.
pub fn sum_dice(numbers: &Vec<i32>) -> (s: i32)
    requires
        all_dice_valid(numbers@),
        numbers@.len() <= 5,
    ensures
        s == dice_sum(numbers@),
        numbers@.len() <= s <= 6 * numbers@.len(),
{
    let mut s: i32 = 0;
    let mut i: usize = 0;
    while i < numbers.len()
        invariant
            i <= numbers@.len() <= 5,
            all_dice_valid(numbers@),
            s == dice_sum(numbers@.take(i as int)),
            0 <= s <= 6 * i,
        decreases numbers@.len() - i,
    {
        assert(numbers@.take(i + 1).drop_last() =~= numbers@.take(i as int));
        assert(numbers@.take(i + 1).last() == numbers@[i as int]);
        s = s + numbers[i];
        i = i + 1;
    }
    assert(numbers@.take(numbers@.len() as int) =~= numbers@);
    proof {
        lemma_sum_bounds(numbers@);
    }
    s
}

/// The highest repeat count among the five dice.
pub fn max_multiplicity(numbers: &Vec<i32>) -> (m: usize)
    requires
        dice_ok(numbers@),
    ensures
        forall|v: i32| #[trigger] dice_count(numbers@, v) <= m,
        exists|v: i32| #[trigger] dice_count(numbers@, v) == m,
        1 <= m <= 5,
{
    let c1 = count_value(numbers, 1);
    let c2 = count_value(numbers, 2);
    let c3 = count_value(numbers, 3);
    let c4 = count_value(numbers, 4);
    let c5 = count_value(numbers, 5);
    let c6 = count_value(numbers, 6);
    let mut m = c1;
    if c2 > m {
        m = c2;
    }
    if c3 > m {
        m = c3;
    }
    if c4 > m {
        m = c4;
    }
    if c5 > m {
        m = c5;
    }
    if c6 > m {
        m = c6;
    }
    proof {
        assert forall|v: i32| #[trigger] dice_count(numbers@, v) <= m by {
            if v < 1 || v > 6 {
                lemma_count_zero_outside(numbers@, v);
            }
        }
        let first = numbers@[0];
        assert(numbers@.contains(first));
        lemma_count_positive_iff_contains(numbers@, first);
        assert(1 <= first <= 6);
        assert(first == 1 || first == 2 || first == 3 || first == 4 || first == 5 || first == 6);
        assert(dice_count(numbers@, first) <= m);
        lemma_count_le_len(numbers@, 1);
        lemma_count_le_len(numbers@, 2);
        lemma_count_le_len(numbers@, 3);
        lemma_count_le_len(numbers@, 4);
        lemma_count_le_len(numbers@, 5);
        lemma_count_le_len(numbers@, 6);
    }
    m
}

/// Whether all five dice show one value (five of a kind).
pub fn detect_all_same(numbers: &Vec<i32>) -> (r: bool)
    requires
        dice_ok(numbers@),
    ensures
        r == is_all_same(numbers@),
{
    let n0 = numbers[0];
    let r = n0 == numbers[1] && n0 == numbers[2] && n0 == numbers[3] && n0 == numbers[4];
    proof {
        if r {
            assert forall|i: int| 0 <= i < numbers@.len() implies #[trigger] numbers@[i]
                == numbers@[0] by {
                assert(i == 0 || i == 1 || i == 2 || i == 3 || i == 4);
            }
        }
    }
    r
}

/// Whether the dice form a full house: one pair plus one triple.
pub fn detect_full_house(numbers: &Vec<i32>) -> (r: bool)
    requires
        dice_ok(numbers@),
    ensures
        r == is_full_house(numbers@),
{
    let c1 = count_value(numbers, 1);
    let c2 = count_value(numbers, 2);
    let c3 = count_value(numbers, 3);
    let c4 = count_value(numbers, 4);
    let c5 = count_value(numbers, 5);
    let c6 = count_value(numbers, 6);
    let has_triple = c1 == 3 || c2 == 3 || c3 == 3 || c4 == 3 || c5 == 3 || c6 == 3;
    let has_pair = c1 == 2 || c2 == 2 || c3 == 2 || c4 == 2 || c5 == 2 || c6 == 2;
    proof {
        if !has_triple {
            assert forall|v: i32| #[trigger] dice_count(numbers@, v) != 3 by {
                if v < 1 || v > 6 {
                    lemma_count_zero_outside(numbers@, v);
                }
            }
        }
        if !has_pair {
            assert forall|v: i32| #[trigger] dice_count(numbers@, v) != 2 by {
                if v < 1 || v > 6 {
                    lemma_count_zero_outside(numbers@, v);
                }
            }
        }
    }
    has_triple && has_pair
}

/// Whether the distinct values contain a run of four consecutive values.
/// A large straight qualifies as a small straight too.
pub fn detect_small_straight(vec: &Vec<i32>) -> (r: bool)
    requires
        dice_ok(vec@),
    ensures
        r == is_small_straight(vec@),
{
    let c1 = count_value(vec, 1);
    let c2 = count_value(vec, 2);
    let c3 = count_value(vec, 3);
    let c4 = count_value(vec, 4);
    let c5 = count_value(vec, 5);
    let c6 = count_value(vec, 6);
    (c1 >= 1 && c2 >= 1 && c3 >= 1 && c4 >= 1) || (c2 >= 1 && c3 >= 1 && c4 >= 1 && c5 >= 1) || (c3
        >= 1 && c4 >= 1 && c5 >= 1 && c6 >= 1)
}

/// Whether the five dice are exactly 1..=5 or exactly 2..=6, in any order.
pub fn detect_large_straight(vec: &Vec<i32>) -> (r: bool)
    requires
        dice_ok(vec@),
    ensures
        r == is_large_straight(vec@),
{
    let c1 = count_value(vec, 1);
    let c2 = count_value(vec, 2);
    let c3 = count_value(vec, 3);
    let c4 = count_value(vec, 4);
    let c5 = count_value(vec, 5);
    let c6 = count_value(vec, 6);
    (c1 == 1 && c2 == 1 && c3 == 1 && c4 == 1 && c5 == 1) || (c2 == 1 && c3 == 1 && c4 == 1 && c5
        == 1 && c6 == 1)
}

/// The scoring rule engine: maps a category and a dice result to the score
/// that category would receive.
pub fn score_for(score_t: ScoreType, numbers: &Vec<i32>) -> (score: i32)
    requires
        dice_ok(numbers@),
    ensures
        score == spec_score(score_t, numbers@),
        0 <= score <= 50,
{
    proof {
        lemma_score_bounds(score_t, numbers@);
    }
    match score_t {
        ScoreType::Ones => {
            proof {
                lemma_count_le_len(numbers@, 1);
            }
            1 * (count_value(numbers, 1) as i32)
        },
        ScoreType::Twos => {
            proof {
                lemma_count_le_len(numbers@, 2);
            }
            2 * (count_value(numbers, 2) as i32)
        },
        ScoreType::Threes => {
            proof {
                lemma_count_le_len(numbers@, 3);
            }
            3 * (count_value(numbers, 3) as i32)
        },
        ScoreType::Fours => {
            proof {
                lemma_count_le_len(numbers@, 4);
            }
            4 * (count_value(numbers, 4) as i32)
        },
        ScoreType::Fives => {
            proof {
                lemma_count_le_len(numbers@, 5);
            }
            5 * (count_value(numbers, 5) as i32)
        },
        ScoreType::Sixes => {
            proof {
                lemma_count_le_len(numbers@, 6);
            }
            6 * (count_value(numbers, 6) as i32)
        },
        ScoreType::ThreeOfAKind => {
            if max_multiplicity(numbers) >= 3 {
                sum_dice(numbers)
            } else {
                0
            }
        },
        ScoreType::FourOfAKind => {
            if max_multiplicity(numbers) >= 4 {
                sum_dice(numbers)
            } else {
                0
            }
        },
        ScoreType::FullHouse => {
            if detect_full_house(numbers) {
                25
            } else {
                0
            }
        },
        ScoreType::SmallStraight => {
            if detect_small_straight(numbers) {
                30
            } else {
                0
            }
        },
        ScoreType::LargeStraight => {
            if detect_large_straight(numbers) {
                40
            } else {
                0
            }
        },
        ScoreType::Yahtzee => {
            if detect_all_same(numbers) {
                50
            } else {
                0
            }
        },
        ScoreType::Chance => sum_dice(numbers),
    }
}

/// Law: each upper-section category scores its face value times the count
/// of that value, for every dice result.
pub proof fn lemma_upper_section_scores(d: Seq<i32>)
    ensures
        spec_score(ScoreType::Ones, d) == 1 * dice_count(d, 1),
        spec_score(ScoreType::Twos, d) == 2 * dice_count(d, 2),
        spec_score(ScoreType::Threes, d) == 3 * dice_count(d, 3),
        spec_score(ScoreType::Fours, d) == 4 * dice_count(d, 4),
        spec_score(ScoreType::Fives, d) == 5 * dice_count(d, 5),
        spec_score(ScoreType::Sixes, d) == 6 * dice_count(d, 6),
{
}

/// Law: chance scores the sum of all five dice, for every dice result.
pub proof fn lemma_chance_score(d: Seq<i32>)
    ensures
        spec_score(ScoreType::Chance, d) == dice_sum(d),
{
}

/// `dice_count` agrees with the multiset view of the dice.
pub proof fn lemma_count_is_multiset_count(s: Seq<i32>, v: i32)
    ensures
        dice_count(s, v) == s.to_multiset().count(v),
    decreases s.len(),
{
    broadcast use vstd::seq_lib::group_to_multiset_ensures;

    if s.len() == 0 {
        assert(s.to_multiset().count(v) == 0) by {
            if s.to_multiset().count(v) > 0 {
                assert(s.contains(v));
            }
        }
    } else {
        lemma_count_is_multiset_count(s.drop_last(), v);
        assert(s.drop_last().push(s.last()) =~= s);
        assert(s.to_multiset() =~= s.drop_last().to_multiset().insert(s.last()));
    }
}

/// The per-value counts of the run 1..=5.
proof fn lemma_count_low_run(v: i32)
    ensures
        dice_count(seq![1i32, 2i32, 3i32, 4i32, 5i32], v) == if 1 <= v <= 5 {
            1nat
        } else {
            0nat
        },
{
    reveal_with_fuel(dice_count, 6);
    let s5 = seq![1i32, 2i32, 3i32, 4i32, 5i32];
    let s4 = seq![1i32, 2i32, 3i32, 4i32];
    let s3 = seq![1i32, 2i32, 3i32];
    let s2 = seq![1i32, 2i32];
    let s1 = seq![1i32];
    assert(s5.drop_last() =~= s4);
    assert(s4.drop_last() =~= s3);
    assert(s3.drop_last() =~= s2);
    assert(s2.drop_last() =~= s1);
    assert(s1.drop_last() =~= Seq::<i32>::empty());
}

/// The per-value counts of the run 2..=6.
proof fn lemma_count_high_run(v: i32)
    ensures
        dice_count(seq![2i32, 3i32, 4i32, 5i32, 6i32], v) == if 2 <= v <= 6 {
            1nat
        } else {
            0nat
        },
{
    reveal_with_fuel(dice_count, 6);
    let s5 = seq![2i32, 3i32, 4i32, 5i32, 6i32];
    let s4 = seq![2i32, 3i32, 4i32, 5i32];
    let s3 = seq![2i32, 3i32, 4i32];
    let s2 = seq![2i32, 3i32];
    let s1 = seq![2i32];
    assert(s5.drop_last() =~= s4);
    assert(s4.drop_last() =~= s3);
    assert(s3.drop_last() =~= s2);
    assert(s2.drop_last() =~= s1);
    assert(s1.drop_last() =~= Seq::<i32>::empty());
}

/// Law: the large-straight shape holds exactly for the rolls whose five
/// dice form the multiset {1,2,3,4,5} or the multiset {2,3,4,5,6} — that
/// is, for those two runs in any order, and for nothing else.
pub proof fn lemma_large_straight_multisets(s: Seq<i32>)
    requires
        dice_ok(s),
    ensures
        is_large_straight(s) <==> (s.to_multiset() =~= seq![1i32, 2i32, 3i32, 4i32, 5i32].to_multiset()
            || s.to_multiset() =~= seq![2i32, 3i32, 4i32, 5i32, 6i32].to_multiset()),
{
    let low = seq![1i32, 2i32, 3i32, 4i32, 5i32];
    let high = seq![2i32, 3i32, 4i32, 5i32, 6i32];
    assert forall|v: i32| #[trigger] s.to_multiset().count(v) == dice_count(s, v) by {
        lemma_count_is_multiset_count(s, v);
    }
    assert forall|v: i32| #[trigger] low.to_multiset().count(v) == dice_count(low, v) by {
        lemma_count_is_multiset_count(low, v);
    }
    assert forall|v: i32| #[trigger] high.to_multiset().count(v) == dice_count(high, v) by {
        lemma_count_is_multiset_count(high, v);
    }
    if is_large_straight(s) {
        lemma_counts_partition(s);
        if dice_count(s, 1) == 1 && dice_count(s, 2) == 1 && dice_count(s, 3) == 1 && dice_count(
            s,
            4,
        ) == 1 && dice_count(s, 5) == 1 {
            assert forall|v: i32| s.to_multiset().count(v) == low.to_multiset().count(v) by {
                lemma_count_low_run(v);
                if !(1 <= v <= 6) {
                    lemma_count_zero_outside(s, v);
                }
            }
            assert(s.to_multiset() =~= low.to_multiset());
        } else {
            assert forall|v: i32| s.to_multiset().count(v) == high.to_multiset().count(v) by {
                lemma_count_high_run(v);
                if !(1 <= v <= 6) {
                    lemma_count_zero_outside(s, v);
                }
            }
            assert(s.to_multiset() =~= high.to_multiset());
        }
    }
    if s.to_multiset() =~= low.to_multiset() {
        assert forall|v: i32| 1 <= v <= 5 implies dice_count(s, v) == 1 by {
            lemma_count_is_multiset_count(s, v);
            lemma_count_is_multiset_count(low, v);
            lemma_count_low_run(v);
            assert(s.to_multiset().count(v) == low.to_multiset().count(v));
        }
    }
    if s.to_multiset() =~= high.to_multiset() {
        assert forall|v: i32| 2 <= v <= 6 implies dice_count(s, v) == 1 by {
            lemma_count_is_multiset_count(s, v);
            lemma_count_is_multiset_count(high, v);
            lemma_count_high_run(v);
            assert(s.to_multiset().count(v) == high.to_multiset().count(v));
        }
    }
}

} // verus!
