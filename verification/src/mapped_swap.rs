//! The rule that decides whether two keys may trade places.
use vstd::prelude::*;

use crate::keyboard::{
    find_entry, has_entry, keys_distinct, lemma_entry_index, valid_of, Key, Slot,
};

verus! {

/// Two different keys may trade places when each may go to the other's slot.
pub open spec fn spec_shuffle_check(
    valid_slots: Seq<(Key, Vec<Slot>)>,
    slot_a: Slot,
    key_a: Key,
    slot_b: Slot,
    key_b: Key,
) -> bool {
    &&& key_a != key_b
    &&& valid_of(valid_slots, key_a).contains(slot_b)
    &&& valid_of(valid_slots, key_b).contains(slot_a)
    &&& valid_of(valid_slots, key_b).len() != 0
}

pub fn shuffle_check(
    valid_slots: &Vec<(Key, Vec<Slot>)>,
    slot_a: Slot,
    key_a: Key,
    slot_b: Slot,
    key_b: Key,
) -> (swappable: bool)
    requires
        keys_distinct(valid_slots@),
        has_entry(valid_slots@, key_a),
        has_entry(valid_slots@, key_b),
    ensures
        swappable == spec_shuffle_check(valid_slots@, slot_a, key_a, slot_b, key_b),
{
    let ia = find_entry(valid_slots, key_a);
    let ib = find_entry(valid_slots, key_b);
    proof {
        lemma_entry_index(valid_slots@, ia as int);
        lemma_entry_index(valid_slots@, ib as int);
    }
    let different_keys = key_a != key_b;
    let valid_loc_a = contains(&valid_slots[ia].1, slot_b);
    let valid_loc_b = contains(&valid_slots[ib].1, slot_a);
    let swappable_key_b = valid_slots[ib].1.len() != 0;
    different_keys && valid_loc_a && valid_loc_b && swappable_key_b
}

fn contains(slots: &Vec<Slot>, x: Slot) -> (found: bool)
    ensures
        found == slots@.contains(x),
{
    let mut i: usize = 0;
    while i < slots.len()
        invariant
            i <= slots@.len(),
            forall|k: int| 0 <= k < i ==> slots@[k] != x,
        decreases slots@.len() - i,
    {
        if slots[i] == x {
            assert(slots@[i as int] == x);
            return true;
        }
        i = i + 1;
    }
    false
}

/// Whether two keys may trade places does not depend on which of them is
/// named first.
pub proof fn lemma_shuffle_check_symmetric(
    valid_slots: Seq<(Key, Vec<Slot>)>,
    slot_a: Slot,
    key_a: Key,
    slot_b: Slot,
    key_b: Key,
)
    ensures
        spec_shuffle_check(valid_slots, slot_a, key_a, slot_b, key_b) == spec_shuffle_check(
            valid_slots,
            slot_b,
            key_b,
            slot_a,
            key_a,
        ),
{
}

} // verus!
