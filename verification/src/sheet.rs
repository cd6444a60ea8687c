//! The per-player score sheet: 13 write-once category slots, the
//! upper-section bonus, and the derived total.

use vstd::prelude::*;

use crate::score::{
    dice_ok, lemma_producible_bounds, producible, score_for, spec_score, ScoreType,
};

verus! {

/// Returned by `commit` when the chosen category already holds a score.
#[derive(Clone, Copy, Debug, PartialEq, Eq, Structural)]
pub struct CategoryAlreadyFilledError;

/// The numeric value of a slot, an unfilled slot counting as 0.
pub open spec fn opt_score(slot: Option<i32>) -> int {
    match slot {
        Some(v) => v as int,
        None => 0,
    }
}

/// A slot is well formed when a filled value is one its category can produce.
pub open spec fn slot_ok(t: ScoreType, slot: Option<i32>) -> bool {
    slot is Some ==> producible(t, slot.unwrap() as int)
}

/// One player's record: for each of the 13 categories, an optional committed
/// score. Created empty; each slot is filled at most once by `commit`.
#[derive(Debug)]
pub struct ScoreSheet {
    ones: Option<i32>,
    twos: Option<i32>,
    threes: Option<i32>,
    fours: Option<i32>,
    fives: Option<i32>,
    sixes: Option<i32>,
    three_of_a_kind: Option<i32>,
    four_of_a_kind: Option<i32>,
    full_house: Option<i32>,
    small_straight: Option<i32>,
    large_straight: Option<i32>,
    yahtzee: Option<i32>,
    chance: Option<i32>,
}

impl ScoreSheet {
    /// The slot that a category holds.
    pub closed spec fn spec_get(self, t: ScoreType) -> Option<i32> {
        match t {
            ScoreType::Ones => self.ones,
            ScoreType::Twos => self.twos,
            ScoreType::Threes => self.threes,
            ScoreType::Fours => self.fours,
            ScoreType::Fives => self.fives,
            ScoreType::Sixes => self.sixes,
            ScoreType::ThreeOfAKind => self.three_of_a_kind,
            ScoreType::FourOfAKind => self.four_of_a_kind,
            ScoreType::FullHouse => self.full_house,
            ScoreType::SmallStraight => self.small_straight,
            ScoreType::LargeStraight => self.large_straight,
            ScoreType::Yahtzee => self.yahtzee,
            ScoreType::Chance => self.chance,
        }
    }

    /// Every filled slot holds a score its category can legitimately produce.
    pub open spec fn well_formed(self) -> bool {
        forall|t: ScoreType| slot_ok(t, #[trigger] self.spec_get(t))
    }

    /// The upper-section sum, unfilled slots counting as 0.
    pub open spec fn spec_upper_total(self) -> int {
        opt_score(self.spec_get(ScoreType::Ones)) + opt_score(self.spec_get(ScoreType::Twos))
            + opt_score(self.spec_get(ScoreType::Threes)) + opt_score(
            self.spec_get(ScoreType::Fours),
        ) + opt_score(self.spec_get(ScoreType::Fives)) + opt_score(
            self.spec_get(ScoreType::Sixes),
        )
    }

    /// The lower-section sum, unfilled slots counting as 0.
    pub open spec fn spec_lower_total(self) -> int {
        opt_score(self.spec_get(ScoreType::ThreeOfAKind)) + opt_score(
            self.spec_get(ScoreType::FourOfAKind),
        ) + opt_score(self.spec_get(ScoreType::FullHouse)) + opt_score(
            self.spec_get(ScoreType::SmallStraight),
        ) + opt_score(self.spec_get(ScoreType::LargeStraight)) + opt_score(
            self.spec_get(ScoreType::Yahtzee),
        ) + opt_score(self.spec_get(ScoreType::Chance))
    }

    /// The upper-section bonus: 35 when the upper section reaches 63.
    pub open spec fn spec_bonus(self) -> int {
        if self.spec_upper_total() >= 63 {
            35
        } else {
            0
        }
    }

    /// The derived total, computed on demand and never stored.
    pub open spec fn spec_total(self) -> int {
        self.spec_upper_total() + self.spec_bonus() + self.spec_lower_total()
    }

    /// A fresh sheet: all 13 categories unfilled, total 0.
    pub fn new() -> (sheet: ScoreSheet)
        ensures
            forall|t: ScoreType| #[trigger] sheet.spec_get(t) is None,
            sheet.well_formed(),
            sheet.spec_total() == 0,
    {
        ScoreSheet {
            ones: None,
            twos: None,
            threes: None,
            fours: None,
            fives: None,
            sixes: None,
            three_of_a_kind: None,
            four_of_a_kind: None,
            full_house: None,
            small_straight: None,
            large_straight: None,
            yahtzee: None,
            chance: None,
        }
    }

    /// Reads the slot a category holds.
    pub fn get_score(&self, score_t: ScoreType) -> (r: Option<i32>)
        ensures
            r == self.spec_get(score_t),
    {
        match score_t {
            ScoreType::Ones => self.ones,
            ScoreType::Twos => self.twos,
            ScoreType::Threes => self.threes,
            ScoreType::Fours => self.fours,
            ScoreType::Fives => self.fives,
            ScoreType::Sixes => self.sixes,
            ScoreType::ThreeOfAKind => self.three_of_a_kind,
            ScoreType::FourOfAKind => self.four_of_a_kind,
            ScoreType::FullHouse => self.full_house,
            ScoreType::SmallStraight => self.small_straight,
            ScoreType::LargeStraight => self.large_straight,
            ScoreType::Yahtzee => self.yahtzee,
            ScoreType::Chance => self.chance,
        }
    }

    /// Whether a category already holds a committed score.
    pub fn is_already_written(&self, score_t: ScoreType) -> (r: bool)
        ensures
            r == (self.spec_get(score_t) is Some),
    {
        match self.get_score(score_t) {
            Some(_) => true,
            None => false,
        }
    }

    /// Overwrites one slot, leaving every other slot unchanged.
    fn set_slot(&mut self, score_t: ScoreType, score: i32)
        ensures
            final(self).spec_get(score_t) == Some(score),
            forall|t: ScoreType| t != score_t ==> #[trigger] final(self).spec_get(t) == old(
                self,
            ).spec_get(t),
            old(self).well_formed() && producible(score_t, score as int)
                ==> final(self).well_formed(),
    {
        match score_t {
            ScoreType::Ones => self.ones = Some(score),
            ScoreType::Twos => self.twos = Some(score),
            ScoreType::Threes => self.threes = Some(score),
            ScoreType::Fours => self.fours = Some(score),
            ScoreType::Fives => self.fives = Some(score),
            ScoreType::Sixes => self.sixes = Some(score),
            ScoreType::ThreeOfAKind => self.three_of_a_kind = Some(score),
            ScoreType::FourOfAKind => self.four_of_a_kind = Some(score),
            ScoreType::FullHouse => self.full_house = Some(score),
            ScoreType::SmallStraight => self.small_straight = Some(score),
            ScoreType::LargeStraight => self.large_straight = Some(score),
            ScoreType::Yahtzee => self.yahtzee = Some(score),
            ScoreType::Chance => self.chance = Some(score),
        }
        proof {
            if old(self).well_formed() && producible(score_t, score as int) {
                assert forall|t: ScoreType| slot_ok(t, #[trigger] self.spec_get(t)) by {
                    if t != score_t {
                        assert(self.spec_get(t) == old(self).spec_get(t));
                        assert(slot_ok(t, old(self).spec_get(t)));
                    }
                }
            }
        }
    }

    /// Commits a score to a category, write-once: fails if and only if the
    /// category already holds a value, and then leaves the sheet unchanged.
    pub fn commit(&mut self, score_t: ScoreType, score: i32) -> (r: Result<
        (),
        CategoryAlreadyFilledError,
    >)
        requires
            producible(score_t, score as int),
        ensures
            r is Ok <==> old(self).spec_get(score_t) is None,
            r is Ok ==> final(self).spec_get(score_t) == Some(score),
            r is Err ==> *final(self) == *old(self),
            forall|t: ScoreType| t != score_t ==> #[trigger] final(self).spec_get(t) == old(
                self,
            ).spec_get(t),
            old(self).well_formed() ==> final(self).well_formed(),
    {
        if self.is_already_written(score_t) {
            return Err(CategoryAlreadyFilledError);
        }
        self.set_slot(score_t, score);
        Ok(())
    }

    /// The game total: the upper-section sum, plus the 35-point bonus when
    /// that sum reaches 63, plus the lower-section sum; unfilled slots
    /// count as 0.
    pub fn sum(&self) -> (total: i32)
        requires
            self.well_formed(),
        ensures
            total == self.spec_total(),
    {
        proof {
            self.lemma_slot_bounds();
            assert(0 <= opt_score(self.spec_get(ScoreType::Ones)) <= 50);
            assert(0 <= opt_score(self.spec_get(ScoreType::Twos)) <= 50);
            assert(0 <= opt_score(self.spec_get(ScoreType::Threes)) <= 50);
            assert(0 <= opt_score(self.spec_get(ScoreType::Fours)) <= 50);
            assert(0 <= opt_score(self.spec_get(ScoreType::Fives)) <= 50);
            assert(0 <= opt_score(self.spec_get(ScoreType::Sixes)) <= 50);
            assert(0 <= opt_score(self.spec_get(ScoreType::ThreeOfAKind)) <= 50);
            assert(0 <= opt_score(self.spec_get(ScoreType::FourOfAKind)) <= 50);
            assert(0 <= opt_score(self.spec_get(ScoreType::FullHouse)) <= 50);
            assert(0 <= opt_score(self.spec_get(ScoreType::SmallStraight)) <= 50);
            assert(0 <= opt_score(self.spec_get(ScoreType::LargeStraight)) <= 50);
            assert(0 <= opt_score(self.spec_get(ScoreType::Yahtzee)) <= 50);
            assert(0 <= opt_score(self.spec_get(ScoreType::Chance)) <= 50);
        }
        let upper_sum = self.ones.unwrap_or(0) + self.twos.unwrap_or(0) + self.threes.unwrap_or(0)
            + self.fours.unwrap_or(0) + self.fives.unwrap_or(0) + self.sixes.unwrap_or(0);
        let bonus: i32 = if upper_sum >= 63 {
            35
        } else {
            0
        };
        let lower_sum = self.three_of_a_kind.unwrap_or(0) + self.four_of_a_kind.unwrap_or(0)
            + self.full_house.unwrap_or(0) + self.small_straight.unwrap_or(0)
            + self.large_straight.unwrap_or(0) + self.yahtzee.unwrap_or(0) + self.chance.unwrap_or(
            0,
        );
        upper_sum + bonus + lower_sum
    }

    /// Every filled slot of a well-formed sheet lies between 0 and 50.
    proof fn lemma_slot_bounds(self)
        requires
            self.well_formed(),
        ensures
            forall|t: ScoreType| 0 <= opt_score(#[trigger] self.spec_get(t)) <= 50,
    {
        assert forall|t: ScoreType| 0 <= opt_score(#[trigger] self.spec_get(t)) <= 50 by {
            assert(slot_ok(t, self.spec_get(t)));
            if self.spec_get(t) is Some {
                lemma_producible_bounds(t, self.spec_get(t).unwrap() as int);
            }
        }
    }
}

/// Computes the score the chosen category receives for this dice result and
/// writes it into the sheet's slot, leaving every other slot unchanged.
pub fn update_score_sheet(sheet: &mut ScoreSheet, score_t: ScoreType, numbers: &Vec<i32>)
    requires
        dice_ok(numbers@),
    ensures
        final(sheet).spec_get(score_t) == Some(spec_score(score_t, numbers@) as i32),
        forall|t: ScoreType| t != score_t ==> #[trigger] final(sheet).spec_get(t) == old(
            sheet,
        ).spec_get(t),
        old(sheet).well_formed() ==> final(sheet).well_formed(),
{
    let score = score_for(score_t, numbers);
    proof {
        assert(spec_score(score_t, numbers@) == score as int);
        assert(producible(score_t, score as int));
    }
    sheet.set_slot(score_t, score);
}

/// Law: the total carries the +35 upper-section bonus exactly when the
/// upper-section sum reaches 63, and no bonus below that.
pub proof fn lemma_upper_section_bonus(sheet: ScoreSheet)
    ensures
        sheet.spec_upper_total() >= 63 ==> sheet.spec_total() == sheet.spec_upper_total() + 35
            + sheet.spec_lower_total(),
        sheet.spec_upper_total() < 63 ==> sheet.spec_total() == sheet.spec_upper_total()
            + sheet.spec_lower_total(),
{
}

} // verus!
