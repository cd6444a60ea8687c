//! The turn controller: the roll, keep, reroll loop of up to three rolls,
//! retention validation, and the terminal category-selection step.

use vstd::prelude::*;

use crate::dice::Dice;
use crate::score::{
    all_dice_valid, count_value, dice_count, dice_ok, lemma_count_zero_outside, producible,
    score_for, spec_score, ScoreType,
};
use crate::sheet::{CategoryAlreadyFilledError, ScoreSheet};
use crate::utils::set_slice_from_vec;

verus! {

/// Why a retention request was rejected.
#[derive(Clone, Copy, Debug, PartialEq, Eq, Structural)]
pub enum RetentionError {
    /// More dice were kept than were rolled.
    TooManyDice,
    /// A kept value is not a die face in 1..=6.
    InvalidValue,
    /// A value was claimed more often than this round's dice show it.
    NotAvailable,
}

/// A valid retention: no more dice than were rolled, every kept value a die
/// face, and the kept dice a sub-multiset of the rolled dice.
pub open spec fn retention_valid(kept: Seq<i32>, numbers: Seq<i32>) -> bool {
    &&& kept.len() <= numbers.len()
    &&& all_dice_valid(kept)
    &&& forall|v: i32| #[trigger] dice_count(kept, v) <= dice_count(numbers, v)
}

/// Checks a retention request against the rolled dice: the kept values must
/// be drawn from the actual multiset of this round's dice, with no value
/// claimed more often than it is present.
pub fn validate_kept_numbers(kept_numbers: &Vec<i32>, numbers: &Vec<i32>) -> (r: Result<
    (),
    RetentionError,
>)
    ensures
        r is Ok <==> retention_valid(kept_numbers@, numbers@),
        r == Err::<(), RetentionError>(RetentionError::TooManyDice) <==> kept_numbers@.len()
            > numbers@.len(),
        r == Err::<(), RetentionError>(RetentionError::InvalidValue) <==> kept_numbers@.len()
            <= numbers@.len() && !all_dice_valid(kept_numbers@),
        r == Err::<(), RetentionError>(RetentionError::NotAvailable) <==> kept_numbers@.len()
            <= numbers@.len() && all_dice_valid(kept_numbers@) && (exists|v: i32|
            #[trigger] dice_count(kept_numbers@, v) > dice_count(numbers@, v)),
{
    if kept_numbers.len() > numbers.len() {
        return Err(RetentionError::TooManyDice);
    }
    let mut i: usize = 0;
    while i < kept_numbers.len()
        invariant
            i <= kept_numbers@.len(),
            kept_numbers@.len() <= numbers@.len(),
            forall|j: int| 0 <= j < i ==> 1 <= #[trigger] kept_numbers@[j] <= 6,
        decreases kept_numbers@.len() - i,
    {
        let num = kept_numbers[i];
        if num > 6 || num < 1 {
            assert(!all_dice_valid(kept_numbers@));
            return Err(RetentionError::InvalidValue);
        }
        i = i + 1;
    }
    assert(all_dice_valid(kept_numbers@));
    let mut v: i32 = 1;
    while v <= 6
        invariant
            1 <= v <= 7,
            all_dice_valid(kept_numbers@),
            kept_numbers@.len() <= numbers@.len(),
            forall|w: i32|
                1 <= w < v ==> #[trigger] dice_count(kept_numbers@, w) <= dice_count(numbers@, w),
        decreases 7 - v,
    {
        if count_value(kept_numbers, v) > count_value(numbers, v) {
            return Err(RetentionError::NotAvailable);
        }
        v = v + 1;
    }
    proof {
        assert forall|w: i32| #[trigger] dice_count(kept_numbers@, w) <= dice_count(
            numbers@,
            w,
        ) by {
            if w < 1 || w > 6 {
                lemma_count_zero_outside(kept_numbers@, w);
            }
        }
    }
    Ok(())
}

/// The stages of one turn.
#[derive(Clone, Copy, Debug, PartialEq, Eq, Structural)]
pub enum TurnPhase {
    /// Fresh dice are owed: five minus the number of retained dice.
    Rolling,
    /// A keep-decision is owed for the current five-dice result.
    AwaitingRetention,
    /// A category choice is owed for the final five-dice result.
    AwaitingCategory,
    /// The turn has concluded with a committed score.
    Committed,
}

/// The transient state of one turn: the current phase, the round counter
/// (1..=3), the retained dice carried into the next roll, and the current
/// five-dice result once rolled.
pub struct TurnState {
    pub phase: TurnPhase,
    pub round: u8,
    pub retained: Vec<i32>,
    pub current: Vec<i32>,
}

impl TurnState {
    /// The state invariant that every step of the turn preserves.
    pub open spec fn well_formed(self) -> bool {
        &&& 1 <= self.round <= 3
        &&& all_dice_valid(self.retained@)
        &&& self.retained@.len() <= 5
        &&& self.phase is Rolling ==> self.retained@.len() < 5
        &&& self.phase is AwaitingRetention || self.phase is AwaitingCategory ==> dice_ok(
            self.current@,
        )
        &&& self.phase is AwaitingRetention ==> self.round < 3
    }

    /// A turn at its start: round 1, nothing retained, dice owed.
    pub fn new() -> (t: TurnState)
        ensures
            t.well_formed(),
            t.phase is Rolling,
            t.round == 1,
            t.retained@ == Seq::<i32>::empty(),
    {
        let t = TurnState {
            phase: TurnPhase::Rolling,
            round: 1,
            retained: Vec::new(),
            current: Vec::new(),
        };
        proof {
            assert(t.retained@ =~= Seq::<i32>::empty());
        }
        t
    }

    /// Builds this round's five-dice result from the retained dice followed
    /// by the given fresh rolls, then awaits the decision now owed: a
    /// keep-decision before round 3, the category choice in round 3.
    pub fn supply_roll(&mut self, fresh: Vec<i32>)
        requires
            old(self).well_formed(),
            old(self).phase is Rolling,
            fresh@.len() == 5 - old(self).retained@.len(),
            all_dice_valid(fresh@),
        ensures
            final(self).well_formed(),
            final(self).round == old(self).round,
            final(self).retained@ == old(self).retained@,
            final(self).phase == (if old(self).round < 3 {
                TurnPhase::AwaitingRetention
            } else {
                TurnPhase::AwaitingCategory
            }),
            dice_ok(final(self).current@),
            final(self).current@.subrange(0, old(self).retained@.len() as int) == old(
                self,
            ).retained@,
            final(self).current@.subrange(old(self).retained@.len() as int, 5) == fresh@,
    {
        let n_kept = self.retained.len();
        let kept = self.retained.clone();
        proof {
            assert(kept@ =~= self.retained@);
        }
        let mut numbers: Vec<i32> = vec![0, 0, 0, 0, 0];
        set_slice_from_vec(&mut numbers, kept, 0);
        set_slice_from_vec(&mut numbers, fresh, n_kept);
        proof {
            assert(all_dice_valid(numbers@));
            assert(numbers@.subrange(0, n_kept as int) =~= self.retained@);
            assert(numbers@.subrange(n_kept as int, 5) =~= fresh@);
        }
        self.current = numbers;
        if self.round < 3 {
            self.phase = TurnPhase::AwaitingRetention;
        } else {
            self.phase = TurnPhase::AwaitingCategory;
        }
    }

    /// Rolls the missing dice from the roll source and enters this round's
    /// decision stage.
    pub fn roll(&mut self, dice: &mut Dice)
        requires
            old(self).well_formed(),
            old(self).phase is Rolling,
        ensures
            final(self).well_formed(),
            final(self).round == old(self).round,
            final(self).retained@ == old(self).retained@,
            final(self).phase == (if old(self).round < 3 {
                TurnPhase::AwaitingRetention
            } else {
                TurnPhase::AwaitingCategory
            }),
            dice_ok(final(self).current@),
            final(self).current@.subrange(0, old(self).retained@.len() as int) == old(
                self,
            ).retained@,
    {
        let n_kept = self.retained.len();
        let fresh = dice.gen_numbers(5 - n_kept);
        self.supply_roll(fresh);
    }

    /// Applies a keep-decision to the current five-dice result. An invalid
    /// request is rejected and changes nothing, so the same decision can be
    /// requested again; a valid one either carries the kept dice into the
    /// next round or, when all five dice are kept, fixes them as the final
    /// result and skips ahead to the category choice.
    pub fn offer_retention(&mut self, kept: Vec<i32>) -> (r: Result<(), RetentionError>)
        requires
            old(self).well_formed(),
            old(self).phase is AwaitingRetention,
        ensures
            final(self).well_formed(),
            r is Ok <==> retention_valid(kept@, old(self).current@),
            r is Err ==> *final(self) == *old(self),
            r is Ok && kept@.len() == 5 ==> final(self).phase is AwaitingCategory && final(self).current@ == kept@ && final(self).round == old(self).round,
            r is Ok && kept@.len() < 5 ==> final(self).phase is Rolling && final(self).round == old(
                self,
            ).round + 1 && final(self).retained@ == kept@,
    {
        let r = validate_kept_numbers(&kept, &self.current);
        match r {
            Err(e) => Err(e),
            Ok(()) => {
                if kept.len() == 5 {
                    self.current = kept;
                    self.phase = TurnPhase::AwaitingCategory;
                } else {
                    self.retained = kept;
                    self.round = self.round + 1;
                    self.phase = TurnPhase::Rolling;
                }
                Ok(())
            },
        }
    }

    /// Applies a category choice to the final five-dice result: rejects a
    /// category that already holds a score, changing nothing, so another
    /// choice can be requested; on an unfilled category commits the score
    /// the scoring rule engine gives and concludes the turn.
    pub fn choose_category(&mut self, sheet: &mut ScoreSheet, score_t: ScoreType) -> (r: Result<
        i32,
        CategoryAlreadyFilledError,
    >)
        requires
            old(self).well_formed(),
            old(self).phase is AwaitingCategory,
            old(sheet).well_formed(),
        ensures
            final(self).well_formed(),
            final(sheet).well_formed(),
            r is Ok <==> old(sheet).spec_get(score_t) is None,
            r matches Ok(score) ==> score == spec_score(score_t, old(self).current@) && final(sheet).spec_get(score_t) == Some(score) && final(self).phase is Committed && final(self).current@ == old(self).current@,
            forall|t: ScoreType| t != score_t ==> #[trigger] final(sheet).spec_get(t) == old(
                sheet,
            ).spec_get(t),
            r is Err ==> *final(self) == *old(self) && *final(sheet) == *old(sheet),
    {
        let score = score_for(score_t, &self.current);
        proof {
            assert(spec_score(score_t, self.current@) == score as int);
            assert(producible(score_t, score as int));
        }
        match sheet.commit(score_t, score) {
            Ok(()) => {
                self.phase = TurnPhase::Committed;
                Ok(score)
            },
            Err(e) => Err(e),
        }
    }
}

} // verus!
