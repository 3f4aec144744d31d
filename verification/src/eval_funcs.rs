//! The scoring rules: how efficient it is to type a key given the keys typed
//! just before it.
//!
//! All efficiency factors are exact decimal fractions. A function that
//! returns a single factor returns it in tenths (10 stands for 1.0); one that
//! returns the product of two factors returns it in hundredths, and
//! [`KeyCompare::Mult`] holds a product in units of 10^-7.
use vstd::prelude::*;

use crate::constants::{
    BASE_EFF, BOT_ROW, D_BU_B, D_BU_S, D_HI_B, D_HI_S, D_LO_B, D_LO_S, D_ME_B, D_ME_S, HOME_ROW,
    I_LO_B, I_LO_S, L_EXT, L_INDEX, R_INDEX, NUM_ROW, R_EXT, R_NETHER, R_PINKY, R_PIPE, R_SYMBOL, TOP_ROW,
};
use crate::keyboard::{spec_finger, spec_hand, Finger, Hand, Slot};

verus! {

/// The outcome of comparing a key with a key typed before it.
#[derive(Clone, Copy, Debug, PartialEq, Eq, Structural)]
pub enum KeyCompare {
    /// Both keys are typed by the same hand; the factor, in units of 10^-7.
    Mult(u64),
    /// The keys are typed by different hands.
    Mismatch,
}

/// Picks the bigram or the skipgram variant of a factor.
pub open spec fn pick(is_bigram: bool, bigram: u64, skipgram: u64) -> u64 {
    if is_bigram {
        bigram
    } else {
        skipgram
    }
}

pub open spec fn at(s: Slot, row: usize, col: usize) -> bool {
    s.row == row && s.col == col
}

pub open spec fn abs_diff(a: usize, b: usize) -> usize {
    if a >= b {
        (a - b) as usize
    } else {
        (b - a) as usize
    }
}

fn abs_diff_exec(a: usize, b: usize) -> (d: usize)
    ensures
        d == abs_diff(a, b),
{
    if a >= b {
        a - b
    } else {
        b - a
    }
}

// ---------------------------------------------------------------------------
// Single key rules
// ---------------------------------------------------------------------------

/// Deductions for the less dexterous fingers, in tenths.
pub open spec fn spec_global_adjustments(slot: Slot) -> u64 {
    let finger = spec_finger(slot.col);
    let row = slot.row;
    let ring_or_pinky = finger == Finger::Ring || finger == Finger::Pinky;
    if (ring_or_pinky && row == BOT_ROW) || (finger == Finger::Ring && row == TOP_ROW) {
        D_LO_B
    } else if finger == Finger::Pinky && row == TOP_ROW {
        D_ME_B
    } else {
        BASE_EFF
    }
}

pub fn global_adjustments(slot: Slot) -> (mult: u64)
    requires
        slot.col <= R_PIPE,
    ensures
        mult == spec_global_adjustments(slot),
{
    let finger = Finger::from_slot(slot);
    let row = slot.get_row();
    let ring_or_pinky = finger == Finger::Ring || finger == Finger::Pinky;
    if (ring_or_pinky && row == BOT_ROW) || (finger == Finger::Ring && row == TOP_ROW) {
        D_LO_B
    } else if finger == Finger::Pinky && row == TOP_ROW {
        D_ME_B
    } else {
        BASE_EFF
    }
}

/// The factor for a key typed with no same-hand key just before it, in
/// hundredths: row movement away from the home row and reaches to the outer
/// columns are penalized.
pub open spec fn spec_check_key_no_hist(slot: Slot) -> u64 {
    let row_dist = abs_diff(slot.row, HOME_ROW);
    if row_dist == 1 {
        (BASE_EFF * D_LO_B) as u64
    } else if row_dist == 2 {
        (BASE_EFF * D_ME_B) as u64
    } else {
        let hand_factor = if row_dist > 0 && spec_hand(slot.col) == Hand::Left {
            D_LO_B
        } else {
            BASE_EFF
        };
        let col = slot.col;
        let col_factor = if col == L_EXT || col == R_EXT {
            D_LO_B
        } else if col == R_SYMBOL {
            D_ME_B
        } else if col == R_NETHER {
            D_HI_B
        } else if col == R_PIPE {
            D_BU_B
        } else {
            BASE_EFF
        };
        (hand_factor * col_factor) as u64
    }
}

pub fn check_key_no_hist(slot: Slot) -> (mult: u64)
    requires
        slot.row <= BOT_ROW,
    ensures
        mult == spec_check_key_no_hist(slot),
{
    let mut mult: u64 = BASE_EFF;
    let row = slot.get_row();
    let row_dist = abs_diff_exec(row, HOME_ROW);
    if row_dist == 1 {
        return mult * D_LO_B;
    } else if row_dist == 2 {
        return mult * D_ME_B;
    }
    if row_dist > 0 && Hand::from_slot(slot) == Hand::Left {
        mult = D_LO_B;
    }
    let col = slot.get_col();
    if col == L_EXT || col == R_EXT {
        mult = mult * D_LO_B;
    } else if col == R_SYMBOL {
        mult = mult * D_ME_B;
    } else if col == R_NETHER {
        mult = mult * D_HI_B;
    } else if col == R_PIPE {
        mult = mult * D_BU_B;
    } else {
        mult = mult * BASE_EFF;
    }
    mult
}

// ---------------------------------------------------------------------------
// Rules on a pair of keys typed by the same hand
// ---------------------------------------------------------------------------

/// Either of the two slots is at `(row, col)`.
pub open spec fn either_at(a: Slot, b: Slot, row: usize, col: usize) -> bool {
    at(a, row, col) || at(b, row, col)
}

/// Reaches to the index finger's extension columns, in tenths.
pub open spec fn spec_check_index_ext(this_slot: Slot, last_slot: Slot, is_bigram: bool) -> u64 {
    let (a, b) = (this_slot, last_slot);
    if either_at(a, b, TOP_ROW, L_EXT) || either_at(a, b, NUM_ROW, L_EXT) {
        // T and 5: no more movement than R and 4
        BASE_EFF
    } else if either_at(a, b, HOME_ROW, L_EXT) || either_at(a, b, HOME_ROW, R_EXT) || either_at(
        a,
        b,
        BOT_ROW,
        R_EXT,
    ) {
        // G, H and N
        pick(is_bigram, D_LO_B, D_LO_S)
    } else if either_at(a, b, BOT_ROW, L_EXT) || either_at(a, b, TOP_ROW, R_EXT) {
        // B and Y
        pick(is_bigram, D_HI_B, D_HI_S)
    } else if either_at(a, b, NUM_ROW, R_EXT) {
        // 6
        pick(is_bigram, D_BU_B, D_BU_S)
    } else {
        BASE_EFF
    }
}

fn either_at_exec(a: Slot, b: Slot, row: usize, col: usize) -> (r: bool)
    ensures
        r == either_at(a, b, row, col),
{
    (a.row == row && a.col == col) || (b.row == row && b.col == col)
}

fn pick_exec(is_bigram: bool, bigram: u64, skipgram: u64) -> (r: u64)
    ensures
        r == pick(is_bigram, bigram, skipgram),
{
    if is_bigram {
        bigram
    } else {
        skipgram
    }
}

fn check_index_ext(this_slot: Slot, last_slot: Slot, is_bigram: bool) -> (mult: u64)
    ensures
        mult == spec_check_index_ext(this_slot, last_slot, is_bigram),
{
    let (a, b) = (this_slot, last_slot);
    if either_at_exec(a, b, TOP_ROW, L_EXT) || either_at_exec(a, b, NUM_ROW, L_EXT) {
        BASE_EFF
    } else if either_at_exec(a, b, HOME_ROW, L_EXT) || either_at_exec(a, b, HOME_ROW, R_EXT)
        || either_at_exec(a, b, BOT_ROW, R_EXT) {
        pick_exec(is_bigram, D_LO_B, D_LO_S)
    } else if either_at_exec(a, b, BOT_ROW, L_EXT) || either_at_exec(a, b, TOP_ROW, R_EXT) {
        pick_exec(is_bigram, D_HI_B, D_HI_S)
    } else if either_at_exec(a, b, NUM_ROW, R_EXT) {
        pick_exec(is_bigram, D_BU_B, D_BU_S)
    } else {
        BASE_EFF
    }
}

/// Reaches of the right pinky to the symbol columns, in tenths.
pub open spec fn spec_check_pinky_ext(this_slot: Slot, last_slot: Slot, is_bigram: bool) -> u64 {
    let (a, b) = (this_slot, last_slot);
    if either_at(a, b, HOME_ROW, R_SYMBOL) {
        pick(is_bigram, D_LO_B, D_LO_S)
    } else if either_at(a, b, TOP_ROW, R_SYMBOL) || either_at(a, b, HOME_ROW, R_NETHER) {
        pick(is_bigram, D_ME_B, D_ME_S)
    } else if either_at(a, b, TOP_ROW, R_NETHER) {
        pick(is_bigram, D_HI_B, D_HI_S)
    } else if either_at(a, b, NUM_ROW, R_SYMBOL) || either_at(a, b, NUM_ROW, R_NETHER)
        || either_at(a, b, TOP_ROW, R_PIPE) {
        pick(is_bigram, D_BU_B, D_BU_S)
    } else {
        BASE_EFF
    }
}

fn check_pinky_ext(this_slot: Slot, last_slot: Slot, is_bigram: bool) -> (mult: u64)
    ensures
        mult == spec_check_pinky_ext(this_slot, last_slot, is_bigram),
{
    let (a, b) = (this_slot, last_slot);
    if either_at_exec(a, b, HOME_ROW, R_SYMBOL) {
        pick_exec(is_bigram, D_LO_B, D_LO_S)
    } else if either_at_exec(a, b, TOP_ROW, R_SYMBOL) || either_at_exec(a, b, HOME_ROW, R_NETHER) {
        pick_exec(is_bigram, D_ME_B, D_ME_S)
    } else if either_at_exec(a, b, TOP_ROW, R_NETHER) {
        pick_exec(is_bigram, D_HI_B, D_HI_S)
    } else if either_at_exec(a, b, NUM_ROW, R_SYMBOL) || either_at_exec(a, b, NUM_ROW, R_NETHER)
        || either_at_exec(a, b, TOP_ROW, R_PIPE) {
        pick_exec(is_bigram, D_BU_B, D_BU_S)
    } else {
        BASE_EFF
    }
}

/// Any use of the number row, in tenths.
pub open spec fn spec_check_num_ext(this_slot: Slot, last_slot: Slot, is_bigram: bool) -> u64 {
    if this_slot.row == NUM_ROW || last_slot.row == NUM_ROW {
        pick(is_bigram, D_BU_B, D_BU_S)
    } else {
        BASE_EFF
    }
}

fn check_num_ext(this_slot: Slot, last_slot: Slot, is_bigram: bool) -> (mult: u64)
    ensures
        mult == spec_check_num_ext(this_slot, last_slot, is_bigram),
{
    if this_slot.get_row() == NUM_ROW || last_slot.get_row() == NUM_ROW {
        pick_exec(is_bigram, D_BU_B, D_BU_S)
    } else {
        BASE_EFF
    }
}

/// Distance of a column from the two center columns.
pub open spec fn spec_get_center_dist(col: usize) -> usize {
    if col <= L_EXT {
        (L_EXT - col) as usize
    } else {
        (col - R_EXT) as usize
    }
}

fn get_center_dist(slot: Slot) -> (dist: usize)
    ensures
        dist == spec_get_center_dist(slot.col),
{
    if slot.get_col() <= L_EXT {
        L_EXT - slot.get_col()
    } else {
        slot.get_col() - R_EXT
    }
}

/// A same-row pair on different fingers: a roll toward the center of the
/// keyboard is rewarded, in tenths.
pub open spec fn spec_check_roll(this_slot: Slot, last_slot: Slot, is_bigram: bool) -> u64 {
    if spec_get_center_dist(this_slot.col) >= spec_get_center_dist(last_slot.col) {
        BASE_EFF
    } else {
        pick(is_bigram, I_LO_B, I_LO_S)
    }
}

fn check_roll(this_slot: Slot, last_slot: Slot, is_bigram: bool) -> (mult: u64)
    ensures
        mult == spec_check_roll(this_slot, last_slot, is_bigram),
{
    let this_dist = get_center_dist(this_slot);
    let last_dist = get_center_dist(last_slot);
    if this_dist >= last_dist {
        return BASE_EFF;
    }
    pick_exec(is_bigram, I_LO_B, I_LO_S)
}

/// The base penalty for typing two keys with the same finger, in tenths.
pub open spec fn spec_get_base_sf_penalty(is_last: bool) -> u64 {
    pick(is_last, D_LO_B, D_LO_S)
}

fn get_base_sf_penalty(is_last: bool) -> (mult: u64)
    ensures
        mult == spec_get_base_sf_penalty(is_last),
{
    pick_exec(is_last, D_LO_B, D_LO_S)
}

/// The penalty for a same-finger pair that changes columns, in tenths.
pub open spec fn spec_get_col_sf_penalty(this_slot: Slot, last_slot: Slot, last: bool) -> u64 {
    let col_diff = abs_diff(this_slot.col, last_slot.col);
    if col_diff == 1 {
        pick(last, D_ME_B, D_ME_S)
    } else if col_diff == 2 {
        pick(last, D_HI_B, D_HI_S)
    } else if col_diff == 3 {
        pick(last, D_BU_B, D_BU_S)
    } else {
        BASE_EFF
    }
}

fn get_col_sf_penalty(this_slot: Slot, last_slot: Slot, last: bool) -> (mult: u64)
    ensures
        mult == spec_get_col_sf_penalty(this_slot, last_slot, last),
{
    let col_diff = abs_diff_exec(this_slot.get_col(), last_slot.get_col());
    if col_diff == 1 {
        pick_exec(last, D_ME_B, D_ME_S)
    } else if col_diff == 2 {
        pick_exec(last, D_HI_B, D_HI_S)
    } else if col_diff == 3 {
        pick_exec(last, D_BU_B, D_BU_S)
    } else {
        BASE_EFF
    }
}

/// The penalty for changing rows, in hundredths. The slope of the keys works
/// against the left hand, which gets an extra deduction.
pub open spec fn spec_get_row_mult(this_slot: Slot, last_slot: Slot, is_bigram: bool) -> u64 {
    let hand_factor = if spec_hand(this_slot.col) == Hand::Left {
        pick(is_bigram, D_LO_B, D_LO_S)
    } else {
        BASE_EFF
    };
    let row_diff = abs_diff(this_slot.row, last_slot.row);
    if row_diff == 1 {
        (hand_factor * pick(is_bigram, D_LO_B, D_LO_S)) as u64
    } else if row_diff == 2 {
        (hand_factor * pick(is_bigram, D_ME_B, D_ME_S)) as u64
    } else if row_diff == 3 {
        (hand_factor * pick(is_bigram, D_HI_B, D_HI_S)) as u64
    } else {
        (BASE_EFF * BASE_EFF) as u64
    }
}

fn get_row_mult(this_slot: Slot, last_slot: Slot, is_bigram: bool) -> (mult: u64)
    requires
        this_slot.col <= R_PIPE,
    ensures
        mult == spec_get_row_mult(this_slot, last_slot, is_bigram),
{
    let this_hand = Hand::from_slot(this_slot);
    let mut mult: u64 = BASE_EFF;
    if this_hand == Hand::Left && is_bigram {
        mult = D_LO_B;
    } else if this_hand == Hand::Left && !is_bigram {
        mult = D_LO_S;
    }
    let row_diff = abs_diff_exec(this_slot.get_row(), last_slot.get_row());
    if row_diff == 1 {
        mult * pick_exec(is_bigram, D_LO_B, D_LO_S)
    } else if row_diff == 2 {
        mult * pick_exec(is_bigram, D_ME_B, D_ME_S)
    } else if row_diff == 3 {
        mult * pick_exec(is_bigram, D_HI_B, D_HI_S)
    } else {
        BASE_EFF * BASE_EFF
    }
}

/// Two different fingers on different rows: comfortable combinations are
/// rewarded and the others penalized, in tenths. `top` is the finger on the
/// row with the higher index.
pub open spec fn spec_check_combo(this_slot: Slot, last_slot: Slot, is_bigram: bool) -> u64 {
    let this_finger = spec_finger(this_slot.col);
    let last_finger = spec_finger(last_slot.col);
    let (top, bot) = if this_slot.row > last_slot.row {
        (this_finger, last_finger)
    } else {
        (last_finger, this_finger)
    };
    if bot == Finger::Index || top == Finger::Middle || (top == Finger::Ring && bot
        == Finger::Pinky) {
        pick(is_bigram, I_LO_B, I_LO_S)
    } else {
        pick(is_bigram, D_ME_B, D_ME_S)
    }
}

fn check_combo(this_slot: Slot, last_slot: Slot, is_bigram: bool) -> (mult: u64)
    requires
        this_slot.col <= R_PIPE,
        last_slot.col <= R_PIPE,
        this_slot.row != last_slot.row,
    ensures
        mult == spec_check_combo(this_slot, last_slot, is_bigram),
{
    let this_row = this_slot.get_row();
    let last_row = last_slot.get_row();
    let this_finger = Finger::from_slot(this_slot);
    let last_finger = Finger::from_slot(last_slot);
    let (top, bot) = if this_row > last_row {
        (this_finger, last_finger)
    } else {
        (last_finger, this_finger)
    };
    if bot == Finger::Index || top == Finger::Middle || (top == Finger::Ring && bot
        == Finger::Pinky) {
        pick_exec(is_bigram, I_LO_B, I_LO_S)
    } else {
        pick_exec(is_bigram, D_ME_B, D_ME_S)
    }
}

/// Adjacent fingers stretching over two or more rows, in tenths. Left-handed
/// scissors are penalized more because the hand has to rock to reach them.
pub open spec fn spec_check_scissor(this_slot: Slot, last_slot: Slot, is_bigram: bool) -> u64 {
    if abs_diff(this_slot.col, last_slot.col) > 1 {
        BASE_EFF
    } else {
        let row_diff = abs_diff(this_slot.row, last_slot.row);
        let hand = spec_hand(this_slot.col);
        if row_diff == 2 && hand == Hand::Right {
            pick(is_bigram, D_ME_B, D_ME_S)
        } else if (row_diff == 3 && hand == Hand::Right) || (row_diff == 2 && hand == Hand::Left) {
            pick(is_bigram, D_HI_B, D_HI_S)
        } else if row_diff == 3 && hand == Hand::Left {
            pick(is_bigram, D_BU_B, D_BU_S)
        } else {
            BASE_EFF
        }
    }
}

fn check_scissor(this_slot: Slot, last_slot: Slot, is_bigram: bool) -> (mult: u64)
    requires
        this_slot.col <= R_PIPE,
    ensures
        mult == spec_check_scissor(this_slot, last_slot, is_bigram),
{
    if abs_diff_exec(this_slot.get_col(), last_slot.get_col()) > 1 {
        return BASE_EFF;
    }
    let row_diff = abs_diff_exec(this_slot.get_row(), last_slot.get_row());
    let hand = Hand::from_slot(this_slot);
    if row_diff == 2 && hand == Hand::Right {
        pick_exec(is_bigram, D_ME_B, D_ME_S)
    } else if (row_diff == 3 && hand == Hand::Right) || (row_diff == 2 && hand == Hand::Left) {
        pick_exec(is_bigram, D_HI_B, D_HI_S)
    } else if row_diff == 3 && hand == Hand::Left {
        pick_exec(is_bigram, D_BU_B, D_BU_S)
    } else {
        BASE_EFF
    }
}

/// The factor for a pair of keys (the key typed now and the one typed one or
/// two keys before it), in units of 10^-7.
pub open spec fn spec_compare_slots(this_slot: Slot, last_slot: Slot, is_bigram: bool) -> KeyCompare {
    if spec_hand(this_slot.col) != spec_hand(last_slot.col) {
        KeyCompare::Mismatch
    } else {
        let ext = spec_check_index_ext(this_slot, last_slot, is_bigram) * spec_check_pinky_ext(
            this_slot,
            last_slot,
            is_bigram,
        ) * spec_check_num_ext(this_slot, last_slot, is_bigram);
        let finger_match = spec_finger(this_slot.col) == spec_finger(last_slot.col);
        let row_match = this_slot.row == last_slot.row;
        if finger_match {
            let row = if row_match {
                (BASE_EFF * BASE_EFF) as u64
            } else {
                spec_get_row_mult(this_slot, last_slot, is_bigram)
            };
            KeyCompare::Mult(
                (ext * spec_get_base_sf_penalty(is_bigram) * spec_get_col_sf_penalty(
                    this_slot,
                    last_slot,
                    is_bigram,
                ) * row) as u64,
            )
        } else if !row_match {
            KeyCompare::Mult(
                (ext * spec_get_row_mult(this_slot, last_slot, is_bigram) * spec_check_combo(
                    this_slot,
                    last_slot,
                    is_bigram,
                ) * spec_check_scissor(this_slot, last_slot, is_bigram)) as u64,
            )
        } else {
            KeyCompare::Mult(
                (ext * spec_check_roll(this_slot, last_slot, is_bigram) * 1000) as u64,
            )
        }
    }
}

pub fn compare_slots(this_slot: Slot, last_slot: Slot, is_bigram: bool) -> (cmp_result: KeyCompare)
    requires
        this_slot.col <= R_PIPE,
        last_slot.col <= R_PIPE,
    ensures
        cmp_result == spec_compare_slots(this_slot, last_slot, is_bigram),
{
    let this_hand = Hand::from_slot(this_slot);
    let last_hand = Hand::from_slot(last_slot);
    if this_hand != last_hand {
        return KeyCompare::Mismatch;
    }
    let i = check_index_ext(this_slot, last_slot, is_bigram);
    let p = check_pinky_ext(this_slot, last_slot, is_bigram);
    let n = check_num_ext(this_slot, last_slot, is_bigram);
    assert(i <= 10 && p <= 10 && n <= 10);
    assert(i * p <= 100 && i * p * n <= 1000) by (nonlinear_arith)
        requires
            i <= 10,
            p <= 10,
            n <= 10,
    ;
    let mult: u64 = i * p * n;
    assert(mult <= 1000) by (nonlinear_arith)
        requires
            mult == i * p * n,
            i <= 10,
            p <= 10,
            n <= 10,
    ;
    let this_finger = Finger::from_slot(this_slot);
    let last_finger = Finger::from_slot(last_slot);
    let finger_match: bool = this_finger == last_finger;
    let row_match: bool = this_slot.get_row() == last_slot.get_row();
    if finger_match {
        let base = get_base_sf_penalty(is_bigram);
        let col = get_col_sf_penalty(this_slot, last_slot, is_bigram);
        let row = if row_match {
            BASE_EFF * BASE_EFF
        } else {
            get_row_mult(this_slot, last_slot, is_bigram)
        };
        assert(base <= 10 && col <= 10 && row <= 100);
        assert(mult * base <= 10_000 && mult * base * col <= 100_000 && mult * base * col * row
            <= 10_000_000) by (nonlinear_arith)
            requires
                mult <= 1000,
                base <= 10,
                col <= 10,
                row <= 100,
        ;
        return KeyCompare::Mult(mult * base * col * row);
    }
    if !row_match {
        let row = get_row_mult(this_slot, last_slot, is_bigram);
        let combo = check_combo(this_slot, last_slot, is_bigram);
        let scissor = check_scissor(this_slot, last_slot, is_bigram);
        assert(row <= 100 && combo <= 12 && scissor <= 10);
        assert(mult * row <= 100_000 && mult * row * combo <= 1_200_000 && mult * row * combo
            * scissor <= 12_000_000) by (nonlinear_arith)
            requires
                mult <= 1000,
                row <= 100,
                combo <= 12,
                scissor <= 10,
        ;
        return KeyCompare::Mult(mult * row * combo * scissor);
    }
    let roll = check_roll(this_slot, last_slot, is_bigram);
    assert(roll <= 12);
    assert(mult * roll <= 12_000 && mult * roll * 1000 <= 12_000_000) by (nonlinear_arith)
        requires
            mult <= 1000,
            roll <= 12,
    ;
    KeyCompare::Mult(mult * roll * 1000)
}

/// A factor of a same-hand pair never exceeds 1.2 (12,000,000 in units of
/// 10^-7).
pub proof fn lemma_compare_slots_bound(this_slot: Slot, last_slot: Slot, is_bigram: bool)
    ensures
        spec_compare_slots(this_slot, last_slot, is_bigram) is Mult ==> spec_compare_slots(
            this_slot,
            last_slot,
            is_bigram,
        )->Mult_0 <= 12_000_000,
{
    let i = spec_check_index_ext(this_slot, last_slot, is_bigram) as int;
    let p = spec_check_pinky_ext(this_slot, last_slot, is_bigram) as int;
    let n = spec_check_num_ext(this_slot, last_slot, is_bigram) as int;
    assert(i * p * n <= 1000) by (nonlinear_arith)
        requires
            0 <= i <= 10,
            0 <= p <= 10,
            0 <= n <= 10,
    ;
    assert(0 <= i * p * n) by (nonlinear_arith)
        requires
            0 <= i,
            0 <= p,
            0 <= n,
    ;
    let ext = i * p * n;
    let base = spec_get_base_sf_penalty(is_bigram) as int;
    let col = spec_get_col_sf_penalty(this_slot, last_slot, is_bigram) as int;
    let row = spec_get_row_mult(this_slot, last_slot, is_bigram) as int;
    let combo = spec_check_combo(this_slot, last_slot, is_bigram) as int;
    let scissor = spec_check_scissor(this_slot, last_slot, is_bigram) as int;
    let roll = spec_check_roll(this_slot, last_slot, is_bigram) as int;
    assert(row <= 100);
    assert(ext * base * col * 100 <= 10_000_000 && 0 <= ext * base * col * 100) by (nonlinear_arith)
        requires
            0 <= ext <= 1000,
            0 <= base <= 10,
            0 <= col <= 10,
    ;
    assert(ext * base * col * row <= 10_000_000 && 0 <= ext * base * col * row) by (nonlinear_arith)
        requires
            0 <= ext <= 1000,
            0 <= base <= 10,
            0 <= col <= 10,
            0 <= row <= 100,
    ;
    assert(ext * row * combo * scissor <= 12_000_000 && 0 <= ext * row * combo * scissor) by (nonlinear_arith)
        requires
            0 <= ext <= 1000,
            0 <= row <= 100,
            0 <= combo <= 12,
            0 <= scissor <= 10,
    ;
    assert(ext * roll * 1000 <= 12_000_000 && 0 <= ext * roll * 1000) by (nonlinear_arith)
        requires
            0 <= ext <= 1000,
            0 <= roll <= 12,
    ;
}

/// The factor for a key typed on its own never exceeds 1.0 (100 hundredths).
pub proof fn lemma_key_no_hist_bound(slot: Slot)
    ensures
        spec_check_key_no_hist(slot) <= 100,
{
    let row_dist = abs_diff(slot.row, HOME_ROW);
    if row_dist != 1 && row_dist != 2 {
        let hand_factor: int = if row_dist > 0 && spec_hand(slot.col) == Hand::Left {
            D_LO_B as int
        } else {
            BASE_EFF as int
        };
        let col = slot.col;
        let col_factor: int = if col == L_EXT || col == R_EXT {
            D_LO_B as int
        } else if col == R_SYMBOL {
            D_ME_B as int
        } else if col == R_NETHER {
            D_HI_B as int
        } else if col == R_PIPE {
            D_BU_B as int
        } else {
            BASE_EFF as int
        };
        assert(hand_factor * col_factor <= 100) by (nonlinear_arith)
            requires
                0 <= hand_factor <= 10,
                0 <= col_factor <= 10,
        ;
    }
}

/// The top and the bottom rows are not favored over each other: a key
/// typed on its own costs the same on either.
pub proof fn lemma_top_and_bottom_rows_equal(col: usize)
    ensures
        spec_check_key_no_hist(Slot { row: TOP_ROW, col }) == spec_check_key_no_hist(
            Slot { row: BOT_ROW, col },
        ),
{
}

/// Moving up from the home row costs as much as moving down from it: for a
/// key typed after a key of the home row, the top and the bottom rows get the
/// same row factor.
pub proof fn lemma_row_move_symmetric(col: usize, last_col: usize, is_bigram: bool)
    ensures
        spec_get_row_mult(
            Slot { row: TOP_ROW, col },
            Slot { row: HOME_ROW, col: last_col },
            is_bigram,
        ) == spec_get_row_mult(
            Slot { row: BOT_ROW, col },
            Slot { row: HOME_ROW, col: last_col },
            is_bigram,
        ),
{
}

/// The home row is favored: in the columns of the eight fingers a key typed on
/// its own costs no more on the home row than on any other row.
pub proof fn lemma_home_row_favored(row: usize, col: usize)
    requires
        row <= BOT_ROW,
        col <= R_PINKY,
    ensures
        spec_check_key_no_hist(Slot { row: HOME_ROW, col }) >= spec_check_key_no_hist(
            Slot { row, col },
        ),
{
}

/// Two keys are compared only when the same hand types them.
pub proof fn lemma_mismatch_iff_other_hand(this_slot: Slot, last_slot: Slot, is_bigram: bool)
    ensures
        spec_compare_slots(this_slot, last_slot, is_bigram) is Mismatch <==> spec_hand(this_slot.col)
            != spec_hand(last_slot.col),
{
}

/// The columns of each finger, on either hand.
pub open spec fn pinky_col(col: usize) -> bool {
    col == 0 || 9 <= col <= 12
}

pub open spec fn ring_col(col: usize) -> bool {
    col == 1 || col == 8
}

pub open spec fn middle_col(col: usize) -> bool {
    col == 2 || col == 7
}

pub open spec fn index_col(col: usize) -> bool {
    3 <= col <= 6
}

/// The dexterity deduction: the ring finger and the pinky lose dexterity on
/// the bottom row, on either hand, and so does the ring finger on the top
/// row; the pinky loses more on the top row; every other key keeps full
/// dexterity.
pub proof fn lemma_global_adjustments_values(row: usize, col: usize)
    requires
        row <= BOT_ROW,
        col <= R_PIPE,
    ensures
        row == BOT_ROW && (ring_col(col) || pinky_col(col)) ==> spec_global_adjustments(
            Slot { row, col },
        ) == D_LO_B,
        row == TOP_ROW && ring_col(col) ==> spec_global_adjustments(Slot { row, col }) == D_LO_B,
        row == TOP_ROW && pinky_col(col) ==> spec_global_adjustments(Slot { row, col }) == D_ME_B,
        (row == NUM_ROW || row == HOME_ROW || middle_col(col) || index_col(col))
            ==> spec_global_adjustments(Slot { row, col }) == BASE_EFF,
{
}

/// Both hands are treated alike: mirroring a key of the finger columns
/// (column `c` to column `9 - c`) keeps its dexterity deduction.
pub proof fn lemma_global_adjustments_mirror(row: usize, col: usize)
    requires
        col <= 9,
    ensures
        spec_global_adjustments(Slot { row, col }) == spec_global_adjustments(
            Slot { row, col: (9 - col) as usize },
        ),
{
}

/// A key typed on its own: full efficiency on the home row in every finger
/// column but the index extensions, which cost 0.8; one row away from home
/// it costs 0.8 and two rows away 0.6, whatever its column.
pub proof fn lemma_key_no_hist_values(row: usize, col: usize)
    requires
        row <= BOT_ROW,
    ensures
        row == HOME_ROW && col <= 9 && col != L_EXT && col != R_EXT ==> spec_check_key_no_hist(
            Slot { row, col },
        ) == 100,
        row == HOME_ROW && (col == L_EXT || col == R_EXT) ==> spec_check_key_no_hist(Slot { row, col })
            == 80,
        (row == TOP_ROW || row == BOT_ROW) ==> spec_check_key_no_hist(Slot { row, col }) == 80,
        row == NUM_ROW ==> spec_check_key_no_hist(Slot { row, col }) == 60,
{
}

/// Both hands are treated alike by the cost of a key typed on its own:
/// mirroring a key of the finger columns keeps it.
pub proof fn lemma_key_no_hist_mirror(row: usize, col: usize)
    requires
        row <= BOT_ROW,
        col <= 9,
    ensures
        spec_check_key_no_hist(Slot { row, col }) == spec_check_key_no_hist(
            Slot { row, col: (9 - col) as usize },
        ),
{
}

/// The reaches of the index fingers. The factor does not depend on which
/// key came first, and only the extension columns (4 and 5) are penalized.
/// With the reach keys named as on QWERTY: T and 5 are free; otherwise G, H
/// and N cost a low deduction; otherwise B and Y a high one; otherwise 6 a
/// brutal one.
pub proof fn lemma_index_reach(a: Slot, b: Slot, is_bigram: bool)
    ensures
        spec_check_index_ext(a, b, is_bigram) == spec_check_index_ext(b, a, is_bigram),
        a.col != L_EXT && a.col != R_EXT && b.col != L_EXT && b.col != R_EXT
            ==> spec_check_index_ext(a, b, is_bigram) == BASE_EFF,
        ({
            let t5 = either_at(a, b, TOP_ROW, L_EXT) || either_at(a, b, NUM_ROW, L_EXT);
            let ghn = either_at(a, b, HOME_ROW, L_EXT) || either_at(a, b, HOME_ROW, R_EXT)
                || either_at(a, b, BOT_ROW, R_EXT);
            let by = either_at(a, b, BOT_ROW, L_EXT) || either_at(a, b, TOP_ROW, R_EXT);
            let six = either_at(a, b, NUM_ROW, R_EXT);
            let f = spec_check_index_ext(a, b, is_bigram);
            &&& t5 ==> f == BASE_EFF
            &&& !t5 && ghn ==> f == (if is_bigram { D_LO_B } else { D_LO_S })
            &&& !t5 && !ghn && by ==> f == (if is_bigram { D_HI_B } else { D_HI_S })
            &&& !t5 && !ghn && !by && six ==> f == (if is_bigram { D_BU_B } else { D_BU_S })
        }),
{
}

/// Two different fingers on different rows. The factor does not depend on
/// which key came first. The combination is rewarded when the finger on the
/// row with the lower index is the index finger, when the finger on the row
/// with the higher index is the middle finger, or when that one is the ring
/// finger and the other the pinky; every other combination is penalized.
pub proof fn lemma_combo(a: Slot, b: Slot, is_bigram: bool)
    requires
        a.row != b.row,
        a.col <= R_PIPE,
        b.col <= R_PIPE,
    ensures
        spec_check_combo(a, b, is_bigram) == spec_check_combo(b, a, is_bigram),
        ({
            let high_row_col = if a.row > b.row { a.col } else { b.col };
            let low_row_col = if a.row > b.row { b.col } else { a.col };
            let rewarded = index_col(low_row_col) || middle_col(high_row_col) || (ring_col(high_row_col)
                && pinky_col(low_row_col));
            let f = spec_check_combo(a, b, is_bigram);
            &&& rewarded ==> f == (if is_bigram { I_LO_B } else { I_LO_S })
            &&& !rewarded ==> f == (if is_bigram { D_ME_B } else { D_ME_S })
        }),
{
}

/// The reaches of the right pinky. The factor does not depend on which key
/// came first, and only the columns right of the right pinky's home column
/// (10 to 12) are penalized: with the keys named as on QWERTY, `'` costs a
/// low deduction; otherwise `[` and Enter a medium one; otherwise `]` a high
/// one; otherwise `-`, `=` and `\` a brutal one.
pub proof fn lemma_pinky_reach(a: Slot, b: Slot, is_bigram: bool)
    ensures
        spec_check_pinky_ext(a, b, is_bigram) == spec_check_pinky_ext(b, a, is_bigram),
        a.col <= R_PINKY && b.col <= R_PINKY ==> spec_check_pinky_ext(a, b, is_bigram) == BASE_EFF,
        ({
            let quote = either_at(a, b, HOME_ROW, R_SYMBOL);
            let medium = either_at(a, b, TOP_ROW, R_SYMBOL) || either_at(a, b, HOME_ROW, R_NETHER);
            let high = either_at(a, b, TOP_ROW, R_NETHER);
            let brutal = either_at(a, b, NUM_ROW, R_SYMBOL) || either_at(a, b, NUM_ROW, R_NETHER)
                || either_at(a, b, TOP_ROW, R_PIPE);
            let f = spec_check_pinky_ext(a, b, is_bigram);
            &&& quote ==> f == (if is_bigram { D_LO_B } else { D_LO_S })
            &&& !quote && medium ==> f == (if is_bigram { D_ME_B } else { D_ME_S })
            &&& !quote && !medium && high ==> f == (if is_bigram { D_HI_B } else { D_HI_S })
            &&& !quote && !medium && !high && brutal ==> f == (if is_bigram { D_BU_B } else { D_BU_S })
            &&& !quote && !medium && !high && !brutal ==> f == BASE_EFF
        }),
{
}

/// The number row: a brutal deduction exactly when either key is on it.
pub proof fn lemma_number_row_reach(a: Slot, b: Slot, is_bigram: bool)
    ensures
        spec_check_num_ext(a, b, is_bigram) == spec_check_num_ext(b, a, is_bigram),
        (a.row == NUM_ROW || b.row == NUM_ROW) ==> spec_check_num_ext(a, b, is_bigram) == (if is_bigram {
            D_BU_B
        } else {
            D_BU_S
        }),
        a.row != NUM_ROW && b.row != NUM_ROW ==> spec_check_num_ext(a, b, is_bigram) == BASE_EFF,
{
}

/// A roll on one row is rewarded exactly when it moves toward the center of
/// the keyboard: the key typed now is closer to the index extension columns
/// than the key before it.
pub proof fn lemma_roll(this_slot: Slot, last_slot: Slot, is_bigram: bool)
    requires
        this_slot.col <= R_PIPE,
        last_slot.col <= R_PIPE,
    ensures
        ({
            let d_this = if this_slot.col <= L_EXT { L_EXT - this_slot.col } else { this_slot.col - R_EXT };
            let d_last = if last_slot.col <= L_EXT { L_EXT - last_slot.col } else { last_slot.col - R_EXT };
            &&& d_this < d_last ==> spec_check_roll(this_slot, last_slot, is_bigram) == (if is_bigram {
                I_LO_B
            } else {
                I_LO_S
            })
            &&& d_this >= d_last ==> spec_check_roll(this_slot, last_slot, is_bigram) == BASE_EFF
        }),
{
}

/// Typing twice with one finger costs 0.8 as a bigram and as a skipgram,
/// more when the finger also changes columns: one column apart a medium
/// deduction, two a high one, three a brutal one. The factor does not depend
/// on which key came first.
pub proof fn lemma_same_finger(a: Slot, b: Slot, is_bigram: bool)
    ensures
        spec_get_base_sf_penalty(is_bigram) == (if is_bigram { D_LO_B } else { D_LO_S }),
        spec_get_col_sf_penalty(a, b, is_bigram) == spec_get_col_sf_penalty(b, a, is_bigram),
        a.col == b.col ==> spec_get_col_sf_penalty(a, b, is_bigram) == BASE_EFF,
        a.col + 1 == b.col || b.col + 1 == a.col ==> spec_get_col_sf_penalty(a, b, is_bigram) == (if is_bigram {
            D_ME_B
        } else {
            D_ME_S
        }),
        a.col + 2 == b.col || b.col + 2 == a.col ==> spec_get_col_sf_penalty(a, b, is_bigram) == (if is_bigram {
            D_HI_B
        } else {
            D_HI_S
        }),
        a.col + 3 == b.col || b.col + 3 == a.col ==> spec_get_col_sf_penalty(a, b, is_bigram) == (if is_bigram {
            D_BU_B
        } else {
            D_BU_S
        }),
{
}

/// Changing rows, in hundredths: one row costs a low deduction, two rows a
/// medium one, three a high one; the left hand, working against the slope of
/// the keys, pays a further low deduction. The factor does not depend on
/// which key came first when both keys are on one hand, and staying on a row
/// costs nothing.
pub proof fn lemma_row_change(a: Slot, b: Slot, is_bigram: bool)
    requires
        a.col <= R_PIPE,
        b.col <= R_PIPE,
    ensures
        spec_hand(a.col) == spec_hand(b.col) ==> spec_get_row_mult(a, b, is_bigram) == spec_get_row_mult(
            b,
            a,
            is_bigram,
        ),
        a.row == b.row ==> spec_get_row_mult(a, b, is_bigram) == 100,
        ({
            let hand = if spec_hand(a.col) == Hand::Left {
                if is_bigram { D_LO_B } else { D_LO_S }
            } else {
                BASE_EFF
            };
            let d = if a.row >= b.row { a.row - b.row } else { b.row - a.row };
            let f = spec_get_row_mult(a, b, is_bigram);
            &&& d == 1 ==> f == hand * (if is_bigram { D_LO_B } else { D_LO_S })
            &&& d == 2 ==> f == hand * (if is_bigram { D_ME_B } else { D_ME_S })
            &&& d == 3 ==> f == hand * (if is_bigram { D_HI_B } else { D_HI_S })
        }),
{
}

/// Scissors: adjacent columns stretched over two or three rows. Keys more
/// than one column apart, or less than two rows apart, are no scissor; on
/// the right hand two rows cost a medium deduction and three a high one; the
/// left hand, which has to rock, pays one step more.
pub proof fn lemma_scissor(a: Slot, b: Slot, is_bigram: bool)
    requires
        a.col <= R_PIPE,
        b.col <= R_PIPE,
    ensures
        ({
            let dc = if a.col >= b.col { a.col - b.col } else { b.col - a.col };
            let dr = if a.row >= b.row { a.row - b.row } else { b.row - a.row };
            let right = spec_hand(a.col) == Hand::Right;
            let f = spec_check_scissor(a, b, is_bigram);
            &&& (dc > 1 || dr < 2) ==> f == BASE_EFF
            &&& dc <= 1 && dr == 2 && right ==> f == (if is_bigram { D_ME_B } else { D_ME_S })
            &&& dc <= 1 && dr == 3 && right ==> f == (if is_bigram { D_HI_B } else { D_HI_S })
            &&& dc <= 1 && dr == 2 && !right ==> f == (if is_bigram { D_HI_B } else { D_HI_S })
            &&& dc <= 1 && dr == 3 && !right ==> f == (if is_bigram { D_BU_B } else { D_BU_S })
        }),
{
}

/// Pressing the same key again costs 0.8, as a bigram or a skipgram, for
/// every key of the finger columns off the number row away from the reach
/// columns.
pub proof fn lemma_repeated_key(s: Slot, is_bigram: bool)
    requires
        TOP_ROW <= s.row <= BOT_ROW,
        s.col <= R_PINKY,
        s.col != L_EXT,
        s.col != R_EXT,
    ensures
        spec_compare_slots(s, s, is_bigram) == KeyCompare::Mult(8_000_000),
{
    assert(spec_check_index_ext(s, s, is_bigram) == 10);
    assert(spec_check_pinky_ext(s, s, is_bigram) == 10);
    assert(spec_check_num_ext(s, s, is_bigram) == 10);
    assert(spec_get_base_sf_penalty(is_bigram) == 8);
    assert(spec_get_col_sf_penalty(s, s, is_bigram) == 10);
    let i = spec_check_index_ext(s, s, is_bigram);
    let p = spec_check_pinky_ext(s, s, is_bigram);
    let n = spec_check_num_ext(s, s, is_bigram);
    let bs = spec_get_base_sf_penalty(is_bigram);
    let cs = spec_get_col_sf_penalty(s, s, is_bigram);
    assert(i * p * n * bs * cs * 100 == 8_000_000) by (nonlinear_arith)
        requires
            i == 10,
            p == 10,
            n == 10,
            bs == 8,
            cs == 10,
    ;
}

/// A roll along the home row toward the center, between two fingers of one
/// hand away from the reach columns, is worth 1.2 as a bigram and 1.1 as a
/// skipgram; the same roll outward is worth 1.0.
pub proof fn lemma_home_row_rolls(this_col: usize, last_col: usize, is_bigram: bool)
    requires
        (this_col <= L_INDEX && last_col <= L_INDEX) || (R_INDEX <= this_col <= R_PINKY && R_INDEX
            <= last_col <= R_PINKY),
        this_col != last_col,
    ensures
        ({
            let inward = if this_col <= L_INDEX { this_col > last_col } else { this_col < last_col };
            let r = spec_compare_slots(
                Slot { row: HOME_ROW, col: this_col },
                Slot { row: HOME_ROW, col: last_col },
                is_bigram,
            );
            &&& inward ==> r == KeyCompare::Mult(if is_bigram { 12_000_000 } else { 11_000_000 })
            &&& !inward ==> r == KeyCompare::Mult(10_000_000)
        }),
{
    let a = Slot { row: HOME_ROW, col: this_col };
    let b = Slot { row: HOME_ROW, col: last_col };
    assert(spec_hand(this_col) == spec_hand(last_col));
    assert(spec_finger(this_col) != spec_finger(last_col));
    assert(spec_check_index_ext(a, b, is_bigram) == 10);
    assert(spec_check_pinky_ext(a, b, is_bigram) == 10);
    assert(spec_check_num_ext(a, b, is_bigram) == 10);
    let i = spec_check_index_ext(a, b, is_bigram);
    let p = spec_check_pinky_ext(a, b, is_bigram);
    let n = spec_check_num_ext(a, b, is_bigram);
    let ro = spec_check_roll(a, b, is_bigram);
    assert(i * p * n * ro * 1000 == ro * 1_000_000) by (nonlinear_arith)
        requires
            i == 10,
            p == 10,
            n == 10,
    ;
}

} // verus!
