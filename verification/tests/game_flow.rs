use kniffel::dice::Dice;
use kniffel::score::{
    detect_all_same, detect_full_house, detect_large_straight, detect_small_straight,
    max_multiplicity, score_for, ScoreType,
};
use kniffel::sheet::{CategoryAlreadyFilledError, ScoreSheet};
use kniffel::turn::{validate_kept_numbers, RetentionError, TurnPhase, TurnState};

#[test]
fn five_of_a_kind_scores() {
    assert!(detect_all_same(&vec![2, 2, 2, 2, 2]));
    assert!(!detect_all_same(&vec![2, 2, 2, 3, 2]));
    assert_eq!(score_for(ScoreType::Yahtzee, &vec![2, 2, 2, 2, 2]), 50);
    assert_eq!(score_for(ScoreType::Yahtzee, &vec![2, 2, 2, 3, 2]), 0);
}

#[test]
fn full_house_policy() {
    // One pair plus one triple is required exactly: five of a kind does not
    // qualify, and two pairs do not qualify.
    assert!(detect_full_house(&vec![1, 1, 3, 3, 1]));
    assert_eq!(score_for(ScoreType::FullHouse, &vec![1, 1, 3, 3, 1]), 25);
    assert!(!detect_full_house(&vec![2, 2, 2, 2, 2]));
    assert_eq!(score_for(ScoreType::FullHouse, &vec![2, 2, 2, 2, 2]), 0);
    assert!(!detect_full_house(&vec![1, 1, 3, 3, 2]));
    assert_eq!(score_for(ScoreType::FullHouse, &vec![1, 1, 3, 3, 2]), 0);
}

#[test]
fn straight_detectors() {
    assert!(detect_small_straight(&vec![1, 3, 2, 4, 5]));
    assert!(detect_small_straight(&vec![3, 3, 4, 5, 6]));
    assert!(!detect_small_straight(&vec![1, 2, 3, 5, 6]));
    assert!(detect_large_straight(&vec![6, 5, 4, 2, 3]));
    assert!(!detect_large_straight(&vec![1, 2, 3, 4, 6]));
    assert_eq!(score_for(ScoreType::SmallStraight, &vec![1, 2, 3, 4, 1]), 30);
    assert_eq!(score_for(ScoreType::LargeStraight, &vec![2, 3, 4, 5, 6]), 40);
}

#[test]
fn upper_and_chance_formulas() {
    assert_eq!(score_for(ScoreType::Ones, &vec![1, 1, 3, 1, 2]), 3);
    assert_eq!(score_for(ScoreType::Sixes, &vec![6, 6, 6, 6, 6]), 30);
    assert_eq!(score_for(ScoreType::Chance, &vec![1, 2, 3, 4, 5]), 15);
    assert_eq!(score_for(ScoreType::ThreeOfAKind, &vec![1, 1, 3, 1, 2]), 8);
    assert_eq!(score_for(ScoreType::FourOfAKind, &vec![1, 1, 3, 1, 1]), 7);
    assert_eq!(max_multiplicity(&vec![1, 1, 3, 1, 2]), 3);
    assert_eq!(max_multiplicity(&vec![1, 2, 3, 4, 5]), 1);
}

#[test]
fn fresh_sheet_is_empty() {
    let sheet = ScoreSheet::new();
    let categories = [
        ScoreType::Ones,
        ScoreType::Twos,
        ScoreType::Threes,
        ScoreType::Fours,
        ScoreType::Fives,
        ScoreType::Sixes,
        ScoreType::ThreeOfAKind,
        ScoreType::FourOfAKind,
        ScoreType::FullHouse,
        ScoreType::SmallStraight,
        ScoreType::LargeStraight,
        ScoreType::Yahtzee,
        ScoreType::Chance,
    ];
    for t in categories {
        assert!(sheet.get_score(t).is_none());
        assert!(!sheet.is_already_written(t));
    }
    assert_eq!(sheet.sum(), 0);
}

#[test]
fn commit_is_write_once() {
    let mut sheet = ScoreSheet::new();
    assert_eq!(sheet.commit(ScoreType::FullHouse, 25), Ok(()));
    assert_eq!(sheet.get_score(ScoreType::FullHouse), Some(25));
    assert_eq!(
        sheet.commit(ScoreType::FullHouse, 0),
        Err(CategoryAlreadyFilledError)
    );
    assert_eq!(sheet.get_score(ScoreType::FullHouse), Some(25));
}

#[test]
fn upper_section_bonus_boundary() {
    let mut sheet = ScoreSheet::new();
    sheet.commit(ScoreType::Ones, 3).unwrap();
    sheet.commit(ScoreType::Twos, 6).unwrap();
    sheet.commit(ScoreType::Threes, 9).unwrap();
    sheet.commit(ScoreType::Fours, 12).unwrap();
    sheet.commit(ScoreType::Fives, 15).unwrap();
    sheet.commit(ScoreType::Sixes, 18).unwrap();
    // upper section is exactly 63: the bonus applies
    assert_eq!(sheet.sum(), 63 + 35);

    let mut below = ScoreSheet::new();
    below.commit(ScoreType::Ones, 2).unwrap();
    below.commit(ScoreType::Twos, 6).unwrap();
    below.commit(ScoreType::Threes, 9).unwrap();
    below.commit(ScoreType::Fours, 12).unwrap();
    below.commit(ScoreType::Fives, 15).unwrap();
    below.commit(ScoreType::Sixes, 18).unwrap();
    // upper section is 62: no bonus
    assert_eq!(below.sum(), 62);
}

#[test]
fn total_spans_both_sections() {
    let mut sheet = ScoreSheet::new();
    sheet.commit(ScoreType::Yahtzee, 50).unwrap();
    sheet.commit(ScoreType::Twos, 8).unwrap();
    assert_eq!(sheet.sum(), 58);
}

#[test]
fn end_to_end_five_of_a_kind_turn() {
    let mut sheet = ScoreSheet::new();

    let mut turn = TurnState::new();
    assert_eq!(turn.phase, TurnPhase::Rolling);
    assert_eq!(turn.round, 1);
    turn.supply_roll(vec![2, 2, 2, 2, 2]);
    assert_eq!(turn.phase, TurnPhase::AwaitingRetention);
    // keep all five: the result is fixed and the category choice is next
    assert_eq!(turn.offer_retention(vec![2, 2, 2, 2, 2]), Ok(()));
    assert_eq!(turn.phase, TurnPhase::AwaitingCategory);
    assert_eq!(turn.choose_category(&mut sheet, ScoreType::Yahtzee), Ok(50));
    assert_eq!(turn.phase, TurnPhase::Committed);
    assert_eq!(sheet.get_score(ScoreType::Yahtzee), Some(50));

    // a later turn may not overwrite the filled category
    let mut later = TurnState::new();
    later.supply_roll(vec![2, 2, 2, 2, 2]);
    later.offer_retention(vec![2, 2, 2, 2, 2]).unwrap();
    assert_eq!(
        later.choose_category(&mut sheet, ScoreType::Yahtzee),
        Err(CategoryAlreadyFilledError)
    );
    // the rejection changed nothing: the same decision point is re-requested
    assert_eq!(later.phase, TurnPhase::AwaitingCategory);
    assert_eq!(sheet.get_score(ScoreType::Yahtzee), Some(50));
    // a different, unfilled category is accepted
    assert_eq!(later.choose_category(&mut sheet, ScoreType::Chance), Ok(10));
    assert_eq!(later.phase, TurnPhase::Committed);
}

#[test]
fn retention_validation_round_trip() {
    let mut turn = TurnState::new();
    turn.supply_roll(vec![1, 1, 2, 3, 5]);
    assert_eq!(turn.phase, TurnPhase::AwaitingRetention);

    // claiming three 1's when only two exist is rejected without advancing
    assert_eq!(
        turn.offer_retention(vec![1, 1, 1]),
        Err(RetentionError::NotAvailable)
    );
    assert_eq!(turn.phase, TurnPhase::AwaitingRetention);
    assert_eq!(turn.round, 1);

    // keeping two 1's and the 2 is accepted and advances the round
    assert_eq!(turn.offer_retention(vec![1, 1, 2]), Ok(()));
    assert_eq!(turn.phase, TurnPhase::Rolling);
    assert_eq!(turn.round, 2);
    assert_eq!(turn.retained, vec![1, 1, 2]);

    // the next roll starts from the retained dice
    turn.supply_roll(vec![4, 6]);
    assert_eq!(turn.current, vec![1, 1, 2, 4, 6]);
}

#[test]
fn retention_error_variants() {
    let numbers = vec![1, 1, 2, 3, 5];
    assert_eq!(validate_kept_numbers(&vec![], &numbers), Ok(()));
    assert_eq!(validate_kept_numbers(&vec![1, 1, 2], &numbers), Ok(()));
    assert_eq!(
        validate_kept_numbers(&vec![1, 1, 2, 3, 5, 5], &numbers),
        Err(RetentionError::TooManyDice)
    );
    assert_eq!(
        validate_kept_numbers(&vec![7, 1], &numbers),
        Err(RetentionError::InvalidValue)
    );
    assert_eq!(
        validate_kept_numbers(&vec![0], &numbers),
        Err(RetentionError::InvalidValue)
    );
    assert_eq!(
        validate_kept_numbers(&vec![5, 5], &numbers),
        Err(RetentionError::NotAvailable)
    );
}

#[test]
fn rolled_dice_are_valid_and_sorted() {
    let mut dice = Dice::new();
    for n in 0..6 {
        let rolled = dice.gen_numbers(n);
        assert_eq!(rolled.len(), n);
        for i in 0..rolled.len() {
            assert!(1 <= rolled[i] && rolled[i] <= 6);
            if i > 0 {
                assert!(rolled[i - 1] <= rolled[i]);
            }
        }
    }
}

#[test]
fn rolling_through_a_full_turn() {
    let mut dice = Dice::new();
    let mut sheet = ScoreSheet::new();
    let mut turn = TurnState::new();
    // three rounds of real rolls, keeping nothing
    turn.roll(&mut dice);
    assert_eq!(turn.phase, TurnPhase::AwaitingRetention);
    turn.offer_retention(vec![]).unwrap();
    assert_eq!(turn.round, 2);
    turn.roll(&mut dice);
    turn.offer_retention(vec![]).unwrap();
    assert_eq!(turn.round, 3);
    turn.roll(&mut dice);
    assert_eq!(turn.phase, TurnPhase::AwaitingCategory);
    let score = turn.choose_category(&mut sheet, ScoreType::Chance).unwrap();
    assert!(5 <= score && score <= 30);
    assert_eq!(sheet.get_score(ScoreType::Chance), Some(score));
    assert_eq!(turn.phase, TurnPhase::Committed);
}
