//! Slots that know where they are, which finger reaches them and which keys
//! they accept.
use vstd::prelude::*;

use crate::enums::{Col, Finger, Hand, KeySetError, KeyTemplate, ListType, Row};

verus! {

/// A key, built from a template so that its characters are always right.
#[derive(Debug, Clone, Copy, PartialEq, Eq, Structural)]
pub struct Key {
    base: u8,
    shift: u8,
}

impl Key {
    pub closed spec fn spec_base(self) -> u8 {
        self.base
    }

    pub closed spec fn spec_shift(self) -> u8 {
        self.shift
    }

    pub fn from_template(key_template: KeyTemplate) -> (key: Key)
        ensures
            key.spec_base() == key_template.spec_base(),
            key.spec_shift() == key_template.spec_shift(),
    {
        Key { base: key_template.get_base(), shift: key_template.get_shift() }
    }

    pub fn get_base(self) -> (base: u8)
        ensures
            base == self.spec_base(),
    {
        self.base
    }

    pub fn get_shift(self) -> (shift: u8)
        ensures
            shift == self.spec_shift(),
    {
        self.shift
    }
}

#[derive(Debug, Clone, Copy)]
pub struct LocInfo {
    row: Row,
    col: Col,
}

impl LocInfo {
    pub closed spec fn spec_row(self) -> Row {
        self.row
    }

    pub closed spec fn spec_col(self) -> Col {
        self.col
    }

    pub fn from_row_col(row: Row, col: Col) -> (info: Self)
        ensures
            info.spec_row() == row,
            info.spec_col() == col,
    {
        Self { row, col }
    }

    pub fn get_row(self) -> (row: Row)
        ensures
            row == self.spec_row(),
    {
        self.row
    }

    pub fn get_col(self) -> (col: Col)
        ensures
            col == self.spec_col(),
    {
        self.col
    }
}

#[derive(Debug, Clone, Copy)]
pub struct HandInfo {
    hand: Hand,
    finger: Finger,
}

impl HandInfo {
    pub closed spec fn spec_hand(self) -> Hand {
        self.hand
    }

    pub closed spec fn spec_finger(self) -> Finger {
        self.finger
    }

    pub fn from_hand_finger(hand: Hand, finger: Finger) -> (info: Self)
        ensures
            info.spec_hand() == hand,
            info.spec_finger() == finger,
    {
        Self { hand, finger }
    }

    pub fn get_hand(self) -> (hand: Hand)
        ensures
            hand == self.spec_hand(),
    {
        self.hand
    }

    pub fn get_finger(self) -> (finger: Finger)
        ensures
            finger == self.spec_finger(),
    {
        self.finger
    }
}

/// A list of keys that a slot either accepts (allow list) or refuses (deny
/// list).
#[derive(Debug, Clone)]
pub struct KeyList {
    list: Vec<Key>,
    list_type: ListType,
}

impl KeyList {
    pub closed spec fn spec_list(&self) -> Seq<Key> {
        self.list@
    }

    pub closed spec fn spec_list_type(&self) -> ListType {
        self.list_type
    }

    /// An allow list with exactly one key.
    pub open spec fn spec_contains_one_valid_key(&self) -> bool {
        self.spec_list_type() == ListType::Allow && self.spec_list().len() == 1
    }

    /// An allow list accepts the keys it names; a deny list accepts the keys
    /// it does not name.
    pub open spec fn spec_is_valid_key(&self, key: Key) -> bool {
        match self.spec_list_type() {
            ListType::Allow => self.spec_list().contains(key),
            ListType::Deny => !self.spec_list().contains(key),
        }
    }

    pub fn from_vec(list: Vec<Key>, list_type: ListType) -> (key_list: Self)
        ensures
            key_list.spec_list() == list@,
            key_list.spec_list_type() == list_type,
    {
        Self { list, list_type }
    }

    pub fn contains_one_valid_key(&self) -> (one: bool)
        ensures
            one == self.spec_contains_one_valid_key(),
    {
        self.list_type == ListType::Allow && self.list.len() == 1
    }

    pub fn is_valid_key(&self, key: Key) -> (valid: bool)
        ensures
            valid == self.spec_is_valid_key(key),
    {
        let mut found: bool = false;
        let mut i: usize = 0;
        while i < self.list.len()
            invariant
                i <= self.list@.len(),
                found == self.list@.take(i as int).contains(key),
            decreases self.list@.len() - i,
        {
            assert(self.list@.take(i + 1) == self.list@.take(i as int).push(self.list@[i as int]));
            if self.list[i] == key {
                found = true;
                assert(self.list@.take(i + 1)[i as int] == key);
            } else if !found {
                assert forall|k: int| 0 <= k < i + 1 implies #[trigger] self.list@.take(i + 1)[k]
                    != key by {
                    if k < i {
                        assert(self.list@.take(i + 1)[k] == self.list@.take(i as int)[k]);
                        assert(self.list@.take(i as int)[k] != key);
                    } else {
                        assert(self.list@.take(i + 1)[k] == self.list@[i as int]);
                    }
                }
            } else {
                proof {
                    let k = choose|k: int| 0 <= k < i && self.list@.take(i as int)[k] == key;
                    assert(self.list@.take(i + 1)[k] == key);
                }
            }
            i = i + 1;
        }
        assert(self.list@.take(self.list@.len() as int) == self.list@);
        if self.list_type == ListType::Deny && found {
            return false;
        }
        if self.list_type == ListType::Allow && !found {
            return false;
        }
        true
    }
}

/// A slot of the keyboard: the key it holds, where it is, the hand and
/// finger that reach it, and the keys it accepts.
#[derive(Debug, Clone)]
pub struct KeySlot {
    key: Key,
    loc_info: LocInfo,
    hand_info: HandInfo,
    key_list: KeyList,
}

impl KeySlot {
    pub closed spec fn spec_key(&self) -> Key {
        self.key
    }

    pub closed spec fn spec_loc_info(&self) -> LocInfo {
        self.loc_info
    }

    pub closed spec fn spec_hand_info(&self) -> HandInfo {
        self.hand_info
    }

    pub closed spec fn spec_key_list(&self) -> KeyList {
        self.key_list
    }

    pub fn new(key: Key, loc_info: LocInfo, hand_info: HandInfo, key_list: KeyList) -> (slot: Self)
        ensures
            slot.spec_key() == key,
            slot.spec_loc_info() == loc_info,
            slot.spec_hand_info() == hand_info,
            slot.spec_key_list() == key_list,
    {
        Self { key, loc_info, hand_info, key_list }
    }

    pub fn get_loc_info(&self) -> (info: LocInfo)
        ensures
            info == self.spec_loc_info(),
    {
        self.loc_info
    }

    pub fn get_hand_info(&self) -> (info: HandInfo)
        ensures
            info == self.spec_hand_info(),
    {
        self.hand_info
    }

    pub fn get_key(&self) -> (key: Key)
        ensures
            key == self.spec_key(),
    {
        self.key
    }

    /// Puts `key` in the slot. A slot whose list allows exactly one key
    /// refuses any change; otherwise the slot refuses the keys its list does
    /// not accept. On an error the slot is left as it was.
    pub fn set_key(&mut self, key: Key) -> (result: Result<(), KeySetError>)
        requires
            old(self).spec_key_list().spec_contains_one_valid_key() ==> old(
                self,
            ).spec_key_list().spec_is_valid_key(old(self).spec_key()),
        ensures
            old(self).spec_key_list().spec_contains_one_valid_key() ==> result == Err::<
                (),
                KeySetError,
            >(KeySetError::SingleKeySlot),
            !old(self).spec_key_list().spec_contains_one_valid_key() && !old(
                self,
            ).spec_key_list().spec_is_valid_key(key) ==> result == Err::<(), KeySetError>(
                KeySetError::InvalidKey,
            ),
            result is Ok <==> (!old(self).spec_key_list().spec_contains_one_valid_key() && old(
                self,
            ).spec_key_list().spec_is_valid_key(key)),
            result is Ok ==> final(self).spec_key() == key,
            result is Err ==> final(self).spec_key() == old(self).spec_key(),
            final(self).spec_loc_info() == old(self).spec_loc_info(),
            final(self).spec_hand_info() == old(self).spec_hand_info(),
            final(self).spec_key_list() == old(self).spec_key_list(),
    {
        if self.key_list.contains_one_valid_key() {
            return Err(KeySetError::SingleKeySlot);
        }
        if !self.key_list.is_valid_key(key) {
            return Err(KeySetError::InvalidKey);
        }
        self.key = key;
        Ok(())
    }
}

} // verus!
