use ma_keyboard::eval_funcs::{check_key_no_hist, compare_slots, global_adjustments, KeyCompare};
use ma_keyboard::keyboard::{Finger, Hand, Slot};

fn slot(row: usize, col: usize) -> Slot {
    Slot::from_tuple((row, col))
}

#[test]
fn global_adjustments_values() {
    // Index finger, home row: no deduction.
    assert_eq!(global_adjustments(slot(2, 3)), 10);
    // Pinky on the bottom row: 0.8.
    assert_eq!(global_adjustments(slot(3, 0)), 8);
    // Ring finger on the top row: 0.8.
    assert_eq!(global_adjustments(slot(1, 1)), 8);
    // Pinky on the top row: 0.6.
    assert_eq!(global_adjustments(slot(1, 9)), 6);
}

#[test]
fn check_key_no_hist_values() {
    assert_eq!(check_key_no_hist(slot(2, 0)), 100);
    assert_eq!(check_key_no_hist(slot(1, 0)), 80);
    assert_eq!(check_key_no_hist(slot(0, 0)), 60);
    // Index extension on the home row.
    assert_eq!(check_key_no_hist(slot(2, 4)), 80);
    assert_eq!(check_key_no_hist(slot(2, 10)), 60);
    assert_eq!(check_key_no_hist(slot(2, 11)), 40);
    assert_eq!(check_key_no_hist(slot(1, 12)), 80);
    // The top row's thirteenth column is a slot too.
    assert_eq!(check_key_no_hist(slot(1, 13)), 80);
}

#[test]
fn top_and_bottom_rows_not_favored() {
    for col in 0..=9 {
        assert_eq!(check_key_no_hist(slot(1, col)), check_key_no_hist(slot(3, col)));
    }
}

#[test]
fn home_row_favored_in_finger_columns() {
    for col in 0..=9 {
        let home = check_key_no_hist(slot(2, col));
        for row in [0, 1, 3] {
            assert!(home >= check_key_no_hist(slot(row, col)));
        }
    }
    // Beyond the right pinky the home row is not favored.
    assert!(check_key_no_hist(slot(2, 11)) < check_key_no_hist(slot(1, 11)));
}

#[test]
fn compare_slots_other_hand_is_mismatch() {
    assert_eq!(compare_slots(slot(2, 0), slot(2, 9), true), KeyCompare::Mismatch);
    assert_eq!(compare_slots(slot(1, 4), slot(1, 5), false), KeyCompare::Mismatch);
}

#[test]
fn compare_slots_values() {
    // Inward roll on the home row, left hand: 1.2 (bigram), 1.1 (skipgram).
    assert_eq!(compare_slots(slot(2, 1), slot(2, 0), true), KeyCompare::Mult(12_000_000));
    assert_eq!(compare_slots(slot(2, 1), slot(2, 0), false), KeyCompare::Mult(11_000_000));
    // Outward roll: 1.0.
    assert_eq!(compare_slots(slot(2, 0), slot(2, 1), true), KeyCompare::Mult(10_000_000));
    // Same finger, same key: 0.8.
    assert_eq!(compare_slots(slot(2, 6), slot(2, 6), true), KeyCompare::Mult(8_000_000));
    // Same finger, one row apart, right hand: 0.8 * 0.8 = 0.64.
    assert_eq!(compare_slots(slot(1, 6), slot(2, 6), true), KeyCompare::Mult(6_400_000));
    // Right hand scissor across two rows on adjacent fingers.
    assert_eq!(compare_slots(slot(1, 7), slot(3, 6), true), KeyCompare::Mult(2_160_000));
}

#[test]
fn hands_and_fingers_from_slots() {
    assert_eq!(Hand::from_slot(slot(2, 4)), Hand::Left);
    assert_eq!(Hand::from_slot(slot(2, 5)), Hand::Right);
    assert_eq!(Finger::from_slot(slot(2, 0)), Finger::Pinky);
    assert_eq!(Finger::from_slot(slot(1, 12)), Finger::Pinky);
    assert_eq!(Finger::from_slot(slot(2, 8)), Finger::Ring);
    assert_eq!(Finger::from_slot(slot(2, 2)), Finger::Middle);
    assert_eq!(Finger::from_slot(slot(2, 5)), Finger::Index);
}

#[test]
fn moving_up_or_down_from_home_costs_the_same() {
    // The index extension columns have reach rules of their own (T, B, Y, N).
    for col in [0, 1, 2, 3, 6, 7, 8, 9] {
        let up = compare_slots(slot(1, col), slot(2, col), true);
        let down = compare_slots(slot(3, col), slot(2, col), true);
        assert_eq!(up, down);
        let up_skip = compare_slots(slot(1, col), slot(2, col), false);
        let down_skip = compare_slots(slot(3, col), slot(2, col), false);
        assert_eq!(up_skip, down_skip);
    }
}
